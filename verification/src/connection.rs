//! The frame engine of a connection: the opening handshake, dispatch of
//! inbound frames, and scheduling of outbound data.

use vstd::prelude::*;
use crate::client::{ClientSession, goaway_error, with_data, with_end_of_stream, with_headers, with_reset};
use crate::error::{HttpError, HttpErrorView};
use crate::frame::{FrameKind, FrameView, HttpFrame};
use crate::session::{SessionState, SessionView};
use crate::transport::{ReceiveFrame, SendFrame};

verus! {

/// What a call of `send_next_data` did.
#[derive(Clone, Copy, Debug, PartialEq, Eq, Structural)]
pub enum SendStatus {
    /// One DATA frame was sent.
    Sent,
    /// No stream had anything to send.
    Nothing,
}

/// The frame engine. It records whether the handshake has been completed.
#[derive(Clone, Copy, Debug, PartialEq, Eq, Structural)]
pub struct HttpConnection {
    pub established: bool,
}

/// The answer to the peer's first frame: an acknowledgement if it is a
/// SETTINGS frame, a failure to connect if it is anything else.
pub fn settings_reply(first: FrameKind) -> (res: Result<HttpFrame, HttpError>)
    ensures
        res is Ok <==> first == FrameKind::Settings,
        res is Ok ==> res.unwrap()@ == FrameView::settings_ack(),
        res is Err ==> res.unwrap_err()@ == HttpErrorView::UnableToConnect,
{
    match first {
        FrameKind::Settings => Ok(HttpFrame::settings_ack()),
        _ => Err(HttpError::UnableToConnect),
    }
}

/// What the handshake does, from the state of the connection, the receiver
/// and the sender before it to their state after it and the result.
pub open spec fn handshake_outcome<R: ReceiveFrame, S: SendFrame>(
    conn: HttpConnection,
    conn_after: HttpConnection,
    rx: R,
    rx_after: R,
    tx: S,
    tx_after: S,
    res: Result<(), HttpError>,
) -> bool {
    let first_is_settings = rx.incoming().len() > 0 && rx.incoming()[0].kind() == FrameKind::Settings;
    let first_is_other = rx.incoming().len() > 0 && rx.incoming()[0].kind() != FrameKind::Settings;
    // Success: the first frame was SETTINGS, exactly it was consumed, and
    // exactly one acknowledgement was sent.
    &&& res is Ok ==> {
        &&& first_is_settings
        &&& rx_after.incoming() == rx.incoming().drop_first()
        &&& tx_after.sent() == tx.sent().push(FrameView::settings_ack())
        &&& conn_after.established
    }
    // Failure: nothing was sent and the connection is as it was. The first
    // frame is still with the receiver, unless it was SETTINGS and it was
    // the sender that failed.
    &&& res is Err ==> {
        &&& tx_after.sent() == tx.sent()
        &&& conn_after == conn
        &&& rx_after.incoming() == rx.incoming() || (first_is_settings && rx_after.incoming()
            == rx.incoming().drop_first())
    }
    // A first frame of another type fails the handshake and stays unconsumed.
    &&& first_is_other ==> res is Err && rx_after.incoming() == rx.incoming()
    &&& first_is_other && rx.reliable() ==> res.unwrap_err()@ == HttpErrorView::UnableToConnect
    // With a transport that does not fail, a first SETTINGS frame succeeds.
    &&& first_is_settings && rx.reliable() && tx.reliable() ==> res is Ok
    &&& rx_after.reliable() == rx.reliable()
    &&& tx.reliable() ==> tx_after.reliable()
}

/// The DATA frame that the next call of `send_next_data` sends, where some
/// stream has outgoing bytes left.
pub open spec fn next_data_frame(v: SessionView) -> FrameView {
    let chunk = v.next_chunk();
    FrameView::Data { stream_id: chunk.0, data: chunk.1, end_of_stream: chunk.2 }
}

/// What `send_next_data` does, from the table and the sender before it to
/// their state after it and the result.
pub open spec fn data_outcome<S: SendFrame>(
    v: SessionView,
    v_after: SessionView,
    tx: S,
    tx_after: S,
    res: Result<SendStatus, HttpError>,
) -> bool {
    &&& v_after == v.after_next_chunk()
    &&& v_after.wf()
    &&& v.chunk_comes_from_least()
    &&& !v.any_pending() ==> res is Ok && res.unwrap() == SendStatus::Nothing && tx_after.sent()
        == tx.sent()
    &&& v.any_pending() ==> match res {
        Ok(status) => status == SendStatus::Sent && tx_after.sent() == tx.sent().push(
            next_data_frame(v),
        ),
        Err(_) => tx_after.sent() == tx.sent(),
    }
    &&& v.any_pending() && tx.reliable() ==> res is Ok
    &&& tx.reliable() ==> tx_after.reliable()
}

/// The table after an inbound frame has been applied to it.
pub open spec fn after_frame(v: SessionView, frame: FrameView) -> SessionView {
    match frame {
        FrameView::Headers { stream_id, headers, end_of_stream } => {
            let w = with_headers(v, stream_id, headers);
            if end_of_stream {
                with_end_of_stream(w, stream_id)
            } else {
                w
            }
        },
        FrameView::Data { stream_id, data, end_of_stream } => {
            let w = with_data(v, stream_id, data);
            if end_of_stream {
                with_end_of_stream(w, stream_id)
            } else {
                w
            }
        },
        FrameView::RstStream { stream_id, error_code } => with_reset(v, stream_id, error_code),
        _ => v,
    }
}

/// What dispatching one inbound frame does, from the table and the sender
/// before it to their state after it and the result.
pub open spec fn dispatch_outcome<S: SendFrame>(
    v: SessionView,
    v_after: SessionView,
    frame: FrameView,
    tx: S,
    tx_after: S,
    res: Result<(), HttpError>,
) -> bool {
    &&& v_after == after_frame(v, frame)
    &&& v_after.wf()
    &&& tx.reliable() ==> tx_after.reliable()
    &&& match frame {
        // The peer's settings are acknowledged.
        FrameView::Settings { ack: false, .. } => {
            &&& res is Ok ==> tx_after.sent() == tx.sent().push(FrameView::settings_ack())
            &&& res is Err ==> tx_after.sent() == tx.sent()
            &&& tx.reliable() ==> res is Ok
        },
        // GOAWAY is fatal to the connection.
        FrameView::Goaway { error_code, debug_data, .. } => {
            &&& res is Err
            &&& res.unwrap_err()@ == goaway_error(error_code, debug_data)
            &&& tx_after.sent() == tx.sent()
        },
        // Everything else succeeds and sends nothing.
        _ => res is Ok && tx_after.sent() == tx.sent(),
    }
}

impl HttpConnection {
    /// A connection before the handshake.
    pub fn new() -> (conn: HttpConnection)
        ensures
            !conn.established,
    {
        HttpConnection { established: false }
    }

    /// Whether the handshake has been completed.
    pub fn is_established(&self) -> (b: bool)
        ensures
            b == self.established,
    {
        self.established
    }

    /// The handshake: the peer's first frame must be SETTINGS. If it is, it
    /// is consumed, one acknowledgement is sent and the connection is
    /// established. If it is not, the call fails, the frame stays with the
    /// receiver and nothing is sent. A failure of the receiver or the sender
    /// is returned as it came.
    pub fn expect_settings<R: ReceiveFrame, S: SendFrame>(&mut self, rx: &mut R, tx: &mut S) -> (res:
        Result<(), HttpError>)
        ensures
            handshake_outcome(*old(self), *final(self), *old(rx), *final(rx), *old(tx), *final(tx), res),
    {
        let first = match rx.peek_kind() {
            Ok(kind) => kind,
            Err(e) => {
                return Err(e);
            },
        };
        let ack = match settings_reply(first) {
            Ok(ack) => ack,
            Err(e) => {
                return Err(e);
            },
        };
        match rx.recv_frame() {
            Ok(_) => {},
            Err(e) => {
                return Err(e);
            },
        }
        match tx.send_frame(ack) {
            Ok(()) => {},
            Err(e) => {
                return Err(e);
            },
        }
        self.established = true;
        Ok(())
    }

    /// Sends one DATA frame for the first stream, in ascending order of
    /// identifier, that has outgoing bytes left, and reports `Sent`; reports
    /// `Nothing` and sends nothing where no stream has any. The chunk leaves
    /// the stream's buffer whether or not the sender accepts the frame.
    pub fn send_next_data<S: SendFrame>(&mut self, state: &mut SessionState, tx: &mut S) -> (res: Result<
        SendStatus,
        HttpError,
    >)
        requires
            old(state)@.wf(),
        ensures
            data_outcome(old(state)@, final(state)@, *old(tx), *final(tx), res),
            *final(self) == *old(self),
    {
        match state.take_next_chunk() {
            None => Ok(SendStatus::Nothing),
            Some((stream_id, data, end_of_stream)) => {
                let frame = HttpFrame::Data { stream_id, data, end_of_stream };
                match tx.send_frame(frame) {
                    Ok(()) => Ok(SendStatus::Sent),
                    Err(e) => Err(e),
                }
            },
        }
    }

    /// Applies one inbound frame: frames for a stream go to the matching
    /// session callback, the peer's settings are acknowledged, GOAWAY is
    /// returned as a failure, and other frames are passed over.
    pub fn handle_frame<S: SendFrame>(&mut self, frame: HttpFrame, session: ClientSession<S>) -> (res:
        Result<(), HttpError>)
        requires
            old(session.state)@.wf(),
        ensures
            dispatch_outcome(
                old(session.state)@,
                final(session.state)@,
                frame@,
                *old(session.sender),
                *final(session.sender),
                res,
            ),
            *final(self) == *old(self),
    {
        let ClientSession { state, sender } = session;
        match frame {
            HttpFrame::Headers { stream_id, headers, end_of_stream } => {
                let _ = ClientSession::new(&mut *state, &mut *sender).new_headers(stream_id, headers, self);
                if end_of_stream {
                    let _ = ClientSession::new(&mut *state, &mut *sender).end_of_stream(stream_id, self);
                }
                Ok(())
            },
            HttpFrame::Data { stream_id, data, end_of_stream } => {
                let _ = ClientSession::new(&mut *state, &mut *sender).new_data_chunk(
                    stream_id,
                    data.as_slice(),
                    self,
                );
                if end_of_stream {
                    let _ = ClientSession::new(&mut *state, &mut *sender).end_of_stream(stream_id, self);
                }
                Ok(())
            },
            HttpFrame::RstStream { stream_id, error_code } => {
                ClientSession::new(&mut *state, &mut *sender).rst_stream(stream_id, error_code, self)
            },
            HttpFrame::Goaway { last_stream_id, error_code, debug_data } => {
                ClientSession::new(&mut *state, &mut *sender).on_goaway(
                    last_stream_id,
                    error_code,
                    debug_data,
                    self,
                )
            },
            HttpFrame::Settings { ack, entries } => {
                if ack {
                    Ok(())
                } else {
                    sender.send_frame(HttpFrame::settings_ack())
                }
            },
            HttpFrame::Other { .. } => Ok(()),
        }
    }
}

} // verus!
