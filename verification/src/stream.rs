//! The local state of one stream.

use vstd::prelude::*;
use crate::error::ErrorCode;
use crate::frame::{Header, headers_view};

verus! {

/// The largest number of body bytes placed in one DATA frame.
pub const MAX_CHUNK_SIZE: usize = 8192;

/// One stream: what the peer has sent on it and what is still to be sent.
#[derive(Clone, Debug, PartialEq, Eq)]
pub struct Stream {
    /// The headers the peer sent, once they have arrived.
    pub headers: Option<Vec<Header>>,
    /// All DATA payloads received so far, in arrival order.
    pub body: Vec<u8>,
    /// The error codes of the resets received so far.
    pub errors: Vec<ErrorCode>,
    /// Whether the peer has ended its side.
    pub remote_closed: bool,
    /// Whether the local side has been ended.
    pub local_closed: bool,
    /// The outgoing body, if the stream has one.
    pub outgoing: Option<Vec<u8>>,
    /// How many outgoing bytes have already been handed out for sending.
    pub cursor: usize,
}

/// The mathematical content of a [`Stream`].
pub struct StreamView {
    pub headers: Option<Seq<(Seq<u8>, Seq<u8>)>>,
    pub body: Seq<u8>,
    pub errors: Seq<ErrorCode>,
    pub remote_closed: bool,
    pub local_closed: bool,
    pub outgoing: Option<Seq<u8>>,
    pub cursor: nat,
}

impl StreamView {
    /// A stream on which nothing has happened yet.
    pub open spec fn fresh() -> StreamView {
        StreamView {
            headers: None,
            body: Seq::empty(),
            errors: Seq::empty(),
            remote_closed: false,
            local_closed: false,
            outgoing: None,
            cursor: 0,
        }
    }

    /// The cursor lies within the outgoing body.
    pub open spec fn wf(self) -> bool {
        match self.outgoing {
            Some(data) => self.cursor <= data.len(),
            None => true,
        }
    }

    /// The outgoing bytes that have not been handed out yet.
    pub open spec fn pending(self) -> Seq<u8> {
        if self.wf() && !self.local_closed && self.outgoing is Some {
            self.outgoing.unwrap().skip(self.cursor as int)
        } else {
            Seq::empty()
        }
    }

    /// There are outgoing bytes left to send.
    pub open spec fn has_pending(self) -> bool {
        self.pending().len() > 0
    }

    /// The local side is done: nothing is left to send.
    pub open spec fn is_closed_local(self) -> bool {
        !self.has_pending()
    }

    /// Both sides are done.
    pub open spec fn is_closed(self) -> bool {
        self.remote_closed && self.is_closed_local()
    }

    /// The bytes of the next DATA frame: at most `MAX_CHUNK_SIZE` pending bytes.
    pub open spec fn next_chunk(self) -> Seq<u8> {
        if self.pending().len() <= MAX_CHUNK_SIZE {
            self.pending()
        } else {
            self.pending().take(MAX_CHUNK_SIZE as int)
        }
    }

    /// The stream after the next chunk has been handed out.
    pub open spec fn after_chunk(self) -> StreamView {
        StreamView {
            cursor: self.cursor + self.next_chunk().len(),
            local_closed: self.next_chunk().len() == self.pending().len(),
            ..self
        }
    }
}

impl View for Stream {
    type V = StreamView;

    open spec fn view(&self) -> StreamView {
        StreamView {
            headers: match self.headers {
                Some(h) => Some(headers_view(h@)),
                None => None,
            },
            body: self.body@,
            errors: self.errors@,
            remote_closed: self.remote_closed,
            local_closed: self.local_closed,
            outgoing: match self.outgoing {
                Some(d) => Some(d@),
                None => None,
            },
            cursor: self.cursor as nat,
        }
    }
}

impl Stream {
    /// A stream with no headers, no body, no errors and nothing to send.
    pub fn new() -> (stream: Stream)
        ensures
            stream@ == StreamView::fresh(),
    {
        Stream {
            headers: None,
            body: Vec::new(),
            errors: Vec::new(),
            remote_closed: false,
            local_closed: false,
            outgoing: None,
            cursor: 0,
        }
    }

    /// Stores the headers the peer sent, replacing earlier ones.
    pub fn set_headers(&mut self, headers: Vec<Header>)
        ensures
            final(self)@ == (StreamView { headers: Some(headers_view(headers@)), ..old(self)@ }),
    {
        self.headers = Some(headers);
    }

    /// Appends a received DATA payload to the body.
    pub fn new_data_chunk(&mut self, data: &[u8])
        ensures
            final(self)@ == (StreamView { body: old(self)@.body + data@, ..old(self)@ }),
    {
        let mut i: usize = 0;
        while i < data.len()
            invariant
                i <= data.len(),
                self.body@ == old(self).body@ + data@.take(i as int),
                self.headers == old(self).headers,
                self.errors == old(self).errors,
                self.remote_closed == old(self).remote_closed,
                self.local_closed == old(self).local_closed,
                self.outgoing == old(self).outgoing,
                self.cursor == old(self).cursor,
            decreases data.len() - i,
        {
            self.body.push(data[i]);
            i = i + 1;
            proof {
                assert(data@.take(i as int) =~= data@.take(i - 1).push(data@[i - 1]));
                assert(self.body@ =~= old(self).body@ + data@.take(i as int));
            }
        }
        proof {
            assert(data@.take(i as int) =~= data@);
        }
    }

    /// Records a reset by the peer. The stream stays as open as it was.
    pub fn on_rst_stream(&mut self, error_code: ErrorCode)
        ensures
            final(self)@ == (StreamView { errors: old(self)@.errors.push(error_code), ..old(self)@ }),
    {
        self.errors.push(error_code);
    }

    /// Marks the peer's side as ended.
    pub fn close_remote(&mut self)
        ensures
            final(self)@ == (StreamView { remote_closed: true, ..old(self)@ }),
    {
        self.remote_closed = true;
    }

    /// Ends the local side: nothing more will be sent.
    pub fn close_local(&mut self)
        ensures
            final(self)@ == (StreamView { local_closed: true, ..old(self)@ }),
    {
        self.local_closed = true;
    }

    /// Gives the stream an outgoing body, to be sent from its first byte.
    pub fn set_outgoing(&mut self, data: Vec<u8>)
        ensures
            final(self)@ == (StreamView { outgoing: Some(data@), cursor: 0, ..old(self)@ }),
    {
        self.outgoing = Some(data);
        self.cursor = 0;
    }

    /// Whether outgoing bytes are left to send.
    pub fn has_pending(&self) -> (b: bool)
        ensures
            b == self@.has_pending(),
    {
        if self.local_closed {
            return false;
        }
        match &self.outgoing {
            Some(data) => self.cursor < data.len(),
            None => false,
        }
    }

    /// Whether the local side is done.
    pub fn is_closed_local(&self) -> (b: bool)
        ensures
            b == self@.is_closed_local(),
    {
        !self.has_pending()
    }

    /// Whether both sides are done.
    pub fn is_closed(&self) -> (b: bool)
        ensures
            b == self@.is_closed(),
    {
        self.remote_closed && !self.has_pending()
    }

    /// Hands out the next chunk of the outgoing body and whether it is the
    /// last one. After the last chunk the local side is closed.
    pub fn take_data_chunk(&mut self) -> (res: (Vec<u8>, bool))
        requires
            old(self)@.has_pending(),
        ensures
            res.0@ == old(self)@.next_chunk(),
            res.0@.len() > 0,
            res.1 == (old(self)@.next_chunk().len() == old(self)@.pending().len()),
            final(self)@ == old(self)@.after_chunk(),
            final(self)@.wf(),
            final(self)@.pending().len() < old(self)@.pending().len(),
    {
        let mut chunk: Vec<u8> = Vec::new();
        let mut pos: usize = self.cursor;
        let mut last: bool = false;
        match &self.outgoing {
            Some(data) => {
                let start: usize = self.cursor;
                let remaining: usize = data.len() - start;
                let end: usize = if remaining <= MAX_CHUNK_SIZE {
                    data.len()
                } else {
                    start + MAX_CHUNK_SIZE
                };
                while pos < end
                    invariant
                        start <= pos <= end <= data.len(),
                        chunk@ == data@.subrange(start as int, pos as int),
                    decreases end - pos,
                {
                    chunk.push(data[pos]);
                    pos = pos + 1;
                }
                last = end == data.len();
                proof {
                    assert(old(self)@.pending() == data@.skip(start as int));
                    assert(chunk@ =~= old(self)@.next_chunk());
                }
            },
            None => {},
        }
        self.cursor = pos;
        self.local_closed = last;
        (chunk, last)
    }
}

/// A stream for a new request. With a body, the body is its outgoing data;
/// without one, its local side is closed from the start.
pub fn prepare_stream(data: Option<Vec<u8>>) -> (stream: Stream)
    ensures
        stream@ == (match data {
            Some(d) => StreamView { outgoing: Some(d@), ..StreamView::fresh() },
            None => StreamView { local_closed: true, ..StreamView::fresh() },
        }),
        stream@.wf(),
{
    let mut stream = Stream::new();
    match data {
        None => stream.close_local(),
        Some(d) => stream.set_outgoing(d),
    }
    stream
}

} // verus!
