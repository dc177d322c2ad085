//! The client side of a connection: the session that applies inbound frames
//! to the stream table, and starting requests.

use vstd::prelude::*;
use crate::codec::{preface, settings_frame_bytes, write_preface_bytes, write_settings_frame};
use crate::connection::{HttpConnection, SendStatus};
use crate::error::{ConnectionError, ConnectionErrorView, ErrorCode, HttpError, HttpErrorView};
use crate::frame::{FrameView, Header, HttpFrame, headers_view};
use crate::session::{SessionState, SessionView, differs_at, grows_by, lemma_with_stream};
use crate::stream::{Stream, StreamView};
use crate::transport::{ReceiveFrame, SendFrame};

verus! {

/// The table after headers have arrived for stream `id`. Nothing changes
/// where no such stream is tracked.
pub open spec fn with_headers(v: SessionView, id: u32, headers: Seq<(Seq<u8>, Seq<u8>)>) -> SessionView {
    v.with_stream(id, StreamView { headers: Some(headers), ..v.stream(id) })
}

/// The table after a DATA payload has arrived for stream `id`. Nothing
/// changes where no such stream is tracked.
pub open spec fn with_data(v: SessionView, id: u32, data: Seq<u8>) -> SessionView {
    v.with_stream(id, StreamView { body: v.stream(id).body + data, ..v.stream(id) })
}

/// The table after the peer has ended stream `id`. Nothing changes where no
/// such stream is tracked.
pub open spec fn with_end_of_stream(v: SessionView, id: u32) -> SessionView {
    v.with_stream(id, StreamView { remote_closed: true, ..v.stream(id) })
}

/// The table after the peer has reset stream `id`. Nothing changes where no
/// such stream is tracked.
pub open spec fn with_reset(v: SessionView, id: u32, error_code: ErrorCode) -> SessionView {
    v.with_stream(id, StreamView { errors: v.stream(id).errors.push(error_code), ..v.stream(id) })
}

/// The failure that a GOAWAY with these contents is reported as.
pub open spec fn goaway_error(error_code: ErrorCode, debug_data: Option<Seq<u8>>) -> HttpErrorView {
    HttpErrorView::PeerConnectionError(ConnectionErrorView { error_code, debug_data })
}

/// The target of frame dispatch on a client connection. It borrows the
/// stream table and the sender for one dispatch; every callback consumes it.
pub struct ClientSession<'a, S: SendFrame> {
    pub state: &'a mut SessionState,
    pub sender: &'a mut S,
}

impl<'a, S: SendFrame> ClientSession<'a, S> {
    /// A session over the given table and sender.
    pub fn new(state: &'a mut SessionState, sender: &'a mut S) -> (session: ClientSession<'a, S>)
        ensures
            *session.state == *old(state),
            *session.sender == *old(sender),
            *final(state) == *final(session.state),
            *final(sender) == *final(session.sender),
    {
        ClientSession { state, sender }
    }

    /// Headers have arrived for a stream: they are stored in it. Headers for
    /// a stream that is not tracked are dropped.
    pub fn new_headers(self, stream_id: u32, headers: Vec<Header>, conn: &mut HttpConnection) -> (res:
        Result<(), HttpError>)
        requires
            old(self.state)@.wf(),
        ensures
            res is Ok,
            final(self.state)@ == with_headers(old(self.state)@, stream_id, headers_view(headers@)),
            differs_at(
                old(self.state)@,
                final(self.state)@,
                stream_id,
                StreamView {
                    headers: Some(headers_view(headers@)),
                    ..old(self.state)@.stream(stream_id)
                },
            ),
            final(self.state)@.wf(),
            *final(self.sender) == *old(self.sender),
            *final(conn) == *old(conn),
    {
        proof {
            lemma_with_stream(
                self.state@,
                stream_id,
                StreamView { headers: Some(headers_view(headers@)), ..self.state@.stream(stream_id) },
            );
        }
        match self.state.get_stream_mut(stream_id) {
            Some(stream) => {
                stream.set_headers(headers);
            },
            None => {},
        }
        Ok(())
    }

    /// A DATA payload has arrived for a stream: it is appended to the body.
    /// Data for a stream that is not tracked is dropped.
    pub fn new_data_chunk(self, stream_id: u32, data: &[u8], conn: &mut HttpConnection) -> (res: Result<
        (),
        HttpError,
    >)
        requires
            old(self.state)@.wf(),
        ensures
            res is Ok,
            final(self.state)@ == with_data(old(self.state)@, stream_id, data@),
            differs_at(
                old(self.state)@,
                final(self.state)@,
                stream_id,
                StreamView {
                    body: old(self.state)@.stream(stream_id).body + data@,
                    ..old(self.state)@.stream(stream_id)
                },
            ),
            final(self.state)@.wf(),
            *final(self.sender) == *old(self.sender),
            *final(conn) == *old(conn),
    {
        proof {
            let s = self.state@.stream(stream_id);
            lemma_with_stream(self.state@, stream_id, StreamView { body: s.body + data@, ..s });
        }
        match self.state.get_stream_mut(stream_id) {
            Some(stream) => {
                stream.new_data_chunk(data);
            },
            None => {},
        }
        Ok(())
    }

    /// The peer has ended a stream: its side is marked closed. Nothing
    /// happens for a stream that is not tracked.
    pub fn end_of_stream(self, stream_id: u32, conn: &mut HttpConnection) -> (res: Result<(), HttpError>)
        requires
            old(self.state)@.wf(),
        ensures
            res is Ok,
            final(self.state)@ == with_end_of_stream(old(self.state)@, stream_id),
            differs_at(
                old(self.state)@,
                final(self.state)@,
                stream_id,
                StreamView { remote_closed: true, ..old(self.state)@.stream(stream_id) },
            ),
            final(self.state)@.wf(),
            *final(self.sender) == *old(self.sender),
            *final(conn) == *old(conn),
    {
        proof {
            let s = self.state@.stream(stream_id);
            lemma_with_stream(self.state@, stream_id, StreamView { remote_closed: true, ..s });
        }
        match self.state.get_stream_mut(stream_id) {
            Some(stream) => {
                stream.close_remote();
            },
            None => {},
        }
        Ok(())
    }

    /// The peer has reset a stream: the error code is recorded in it. The
    /// stream is neither closed nor removed. Nothing happens for a stream
    /// that is not tracked.
    pub fn rst_stream(self, stream_id: u32, error_code: ErrorCode, conn: &mut HttpConnection) -> (res:
        Result<(), HttpError>)
        requires
            old(self.state)@.wf(),
        ensures
            res is Ok,
            final(self.state)@ == with_reset(old(self.state)@, stream_id, error_code),
            differs_at(
                old(self.state)@,
                final(self.state)@,
                stream_id,
                StreamView {
                    errors: old(self.state)@.stream(stream_id).errors.push(error_code),
                    ..old(self.state)@.stream(stream_id)
                },
            ),
            final(self.state)@.wf(),
            *final(self.sender) == *old(self.sender),
            *final(conn) == *old(conn),
    {
        proof {
            let s = self.state@.stream(stream_id);
            lemma_with_stream(
                self.state@,
                stream_id,
                StreamView { errors: s.errors.push(error_code), ..s },
            );
        }
        match self.state.get_stream_mut(stream_id) {
            Some(stream) => {
                stream.on_rst_stream(error_code);
            },
            None => {},
        }
        Ok(())
    }

    /// The peer has told the connection to go away: this always fails, with
    /// the peer's error code and diagnostic payload. Nothing else changes.
    pub fn on_goaway(
        self,
        last_stream_id: u32,
        error_code: ErrorCode,
        debug_data: Option<Vec<u8>>,
        conn: &mut HttpConnection,
    ) -> (res: Result<(), HttpError>)
        ensures
            res is Err,
            res.unwrap_err()@ == goaway_error(
                error_code,
                match debug_data {
                    Some(d) => Some(d@),
                    None => None,
                },
            ),
            *final(self.state) == *old(self.state),
            *final(self.sender) == *old(self.sender),
            *final(conn) == *old(conn),
    {
        Err(HttpError::PeerConnectionError(ConnectionError { error_code, debug_data }))
    }
}

/// A request that is about to be started: its headers and its stream, which
/// holds the outgoing body where the request has one.
pub struct RequestStream {
    pub headers: Vec<Header>,
    pub stream: Stream,
}

/// The HEADERS frame that opens a request on stream `id`. It ends the stream
/// exactly when the request has nothing to send after its headers.
pub open spec fn request_frame(id: u32, headers: Seq<(Seq<u8>, Seq<u8>)>, stream: StreamView) -> FrameView {
    FrameView::Headers { stream_id: id, headers, end_of_stream: stream.is_closed_local() }
}

/// Appends to `out` what a client puts on the wire first: the preface,
/// then a SETTINGS frame without the ack flag that holds the client's own
/// settings, of which there are none.
pub fn write_preface(out: &mut Vec<u8>)
    ensures
        final(out)@ == old(out)@ + preface() + settings_frame_bytes(false, Seq::empty()),
{
    write_preface_bytes(out);
    let settings: Vec<(u16, u32)> = Vec::new();
    write_settings_frame(false, &settings, out);
}

/// A client's connection: the frame engine together with the stream table.
pub struct ClientConnection {
    pub conn: HttpConnection,
    pub state: SessionState,
}

impl ClientConnection {
    /// A connection on which nothing has happened yet.
    pub fn new() -> (client: ClientConnection)
        ensures
            client.state@ == SessionView::empty(),
            client.state@.wf(),
            !client.conn.established,
    {
        ClientConnection { conn: HttpConnection::new(), state: SessionState::new() }
    }

    /// Reads the peer's opening SETTINGS frame and acknowledges it; see
    /// [`HttpConnection::expect_settings`].
    pub fn expect_settings<R: ReceiveFrame, S: SendFrame>(&mut self, rx: &mut R, tx: &mut S) -> (res:
        Result<(), HttpError>)
        ensures
            crate::connection::handshake_outcome(
                old(self).conn,
                final(self).conn,
                *old(rx),
                *final(rx),
                *old(tx),
                *final(tx),
                res,
            ),
            final(self).state == old(self).state,
    {
        self.conn.expect_settings(rx, tx)
    }

    /// Registers the request's stream under the next stream identifier and
    /// sends its headers. The identifier is returned when the frame was
    /// accepted by the sender; the stream is registered either way.
    pub fn start_request<S: SendFrame>(&mut self, req: RequestStream, tx: &mut S) -> (res: Result<
        u32,
        HttpError,
    >)
        requires
            old(self).state@.wf(),
            old(self).state@.can_allocate(),
            req.stream@.wf(),
        ensures
            final(self).state@ == old(self).state@.inserted(req.stream@),
            final(self).state@.wf(),
            grows_by(old(self).state@, final(self).state@, req.stream@),
            final(self).conn == old(self).conn,
            match res {
                Ok(id) => id == old(self).state@.next_id && final(tx).sent() == old(tx).sent().push(
                    request_frame(id, headers_view(req.headers@), req.stream@),
                ),
                Err(_) => final(tx).sent() == old(tx).sent(),
            },
            old(tx).reliable() ==> res is Ok && final(tx).reliable(),
    {
        let end_of_stream = req.stream.is_closed_local();
        let stream_id = self.state.insert_outgoing(req.stream);
        let frame = HttpFrame::Headers { stream_id, headers: req.headers, end_of_stream };
        match tx.send_frame(frame) {
            Ok(()) => Ok(stream_id),
            Err(e) => Err(e),
        }
    }

    /// Sends the next chunk of outgoing data, if any stream has one; see
    /// [`HttpConnection::send_next_data`].
    pub fn send_next_data<S: SendFrame>(&mut self, tx: &mut S) -> (res: Result<SendStatus, HttpError>)
        requires
            old(self).state@.wf(),
        ensures
            crate::connection::data_outcome(old(self).state@, final(self).state@, *old(tx), *final(tx), res),
            final(self).conn == old(self).conn,
    {
        self.conn.send_next_data(&mut self.state, tx)
    }

    /// Applies one inbound frame to the connection; see
    /// [`HttpConnection::handle_frame`].
    pub fn handle_frame<S: SendFrame>(&mut self, frame: HttpFrame, tx: &mut S) -> (res: Result<
        (),
        HttpError,
    >)
        requires
            old(self).state@.wf(),
        ensures
            crate::connection::dispatch_outcome(
                old(self).state@,
                final(self).state@,
                frame@,
                *old(tx),
                *final(tx),
                res,
            ),
            final(self).conn == old(self).conn,
    {
        let session = ClientSession::new(&mut self.state, tx);
        self.conn.handle_frame(frame, session)
    }

    /// One step of the read loop. Before the handshake has been completed
    /// the step is the handshake itself, so nothing reaches a stream before
    /// the peer's SETTINGS frame has been seen. After it, the step reads the
    /// next inbound frame and applies it; a failure of the receiver is then
    /// returned as it came and leaves everything as it was.
    pub fn handle_next_frame<R: ReceiveFrame, S: SendFrame>(&mut self, rx: &mut R, tx: &mut S) -> (res:
        Result<(), HttpError>)
        requires
            old(self).state@.wf(),
        ensures
            final(self).state@.wf(),
            final(rx).reliable() == old(rx).reliable(),
            old(tx).reliable() ==> final(tx).reliable(),
            !old(self).conn.established ==> {
                &&& crate::connection::handshake_outcome(
                    old(self).conn,
                    final(self).conn,
                    *old(rx),
                    *final(rx),
                    *old(tx),
                    *final(tx),
                    res,
                )
                &&& final(self).state == old(self).state
            },
            old(self).conn.established ==> {
                &&& final(self).conn == old(self).conn
                &&& old(rx).incoming().len() == 0 ==> res is Err
                &&& final(rx).incoming() == old(rx).incoming() ==> {
                    &&& res is Err
                    &&& final(self).state@ == old(self).state@
                    &&& final(tx).sent() == old(tx).sent()
                }
                &&& final(rx).incoming() != old(rx).incoming() ==> {
                    &&& old(rx).incoming().len() > 0
                    &&& final(rx).incoming() == old(rx).incoming().drop_first()
                    &&& crate::connection::dispatch_outcome(
                        old(self).state@,
                        final(self).state@,
                        old(rx).incoming()[0],
                        *old(tx),
                        *final(tx),
                        res,
                    )
                }
                &&& old(rx).reliable() && old(rx).incoming().len() > 0 ==> final(rx).incoming()
                    == old(rx).incoming().drop_first()
            },
    {
        if !self.conn.is_established() {
            return self.conn.expect_settings(rx, tx);
        }
        match rx.recv_frame() {
            Ok(frame) => {
                proof {
                    let before = old(rx).incoming();
                    assert(before.drop_first().len() != before.len());
                }
                self.handle_frame(frame, tx)
            },
            Err(e) => Err(e),
        }
    }
}

} // verus!
