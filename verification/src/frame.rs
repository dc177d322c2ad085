//! Logical HTTP/2 frames and header fields.

use vstd::prelude::*;
use crate::error::ErrorCode;

verus! {

/// One header field: a name and a value, both byte strings.
#[derive(Clone, Debug, PartialEq, Eq)]
pub struct Header {
    pub name: Vec<u8>,
    pub value: Vec<u8>,
}

impl View for Header {
    type V = (Seq<u8>, Seq<u8>);

    open spec fn view(&self) -> (Seq<u8>, Seq<u8>) {
        (self.name@, self.value@)
    }
}

impl Header {
    /// A header field with copies of the given name and value.
    pub fn new(name: &[u8], value: &[u8]) -> (header: Header)
        ensures
            header@ == (name@, value@),
    {
        Header { name: vstd::slice::slice_to_vec(name), value: vstd::slice::slice_to_vec(value) }
    }
}

/// An ordered header list as a sequence of (name, value) pairs.
pub open spec fn headers_view(headers: Seq<Header>) -> Seq<(Seq<u8>, Seq<u8>)> {
    headers.map_values(|h: Header| h@)
}

/// The type of a frame, without its contents.
#[derive(Clone, Copy, Debug, PartialEq, Eq, Structural)]
pub enum FrameKind {
    Settings,
    Headers,
    Data,
    RstStream,
    Goaway,
    Other,
}

/// A frame as the connection sees it: already decoded.
#[derive(Clone, Debug, PartialEq, Eq)]
pub enum HttpFrame {
    Settings { ack: bool, entries: Vec<(u16, u32)> },
    Headers { stream_id: u32, headers: Vec<Header>, end_of_stream: bool },
    Data { stream_id: u32, data: Vec<u8>, end_of_stream: bool },
    RstStream { stream_id: u32, error_code: ErrorCode },
    Goaway { last_stream_id: u32, error_code: ErrorCode, debug_data: Option<Vec<u8>> },
    /// Any other frame type; carried along but not interpreted.
    Other { frame_type: u8, stream_id: u32 },
}

/// The mathematical content of an [`HttpFrame`].
pub enum FrameView {
    Settings { ack: bool, entries: Seq<(u16, u32)> },
    Headers { stream_id: u32, headers: Seq<(Seq<u8>, Seq<u8>)>, end_of_stream: bool },
    Data { stream_id: u32, data: Seq<u8>, end_of_stream: bool },
    RstStream { stream_id: u32, error_code: ErrorCode },
    Goaway { last_stream_id: u32, error_code: ErrorCode, debug_data: Option<Seq<u8>> },
    Other { frame_type: u8, stream_id: u32 },
}

impl FrameView {
    /// The type of the frame.
    pub open spec fn kind(self) -> FrameKind {
        match self {
            FrameView::Settings { .. } => FrameKind::Settings,
            FrameView::Headers { .. } => FrameKind::Headers,
            FrameView::Data { .. } => FrameKind::Data,
            FrameView::RstStream { .. } => FrameKind::RstStream,
            FrameView::Goaway { .. } => FrameKind::Goaway,
            FrameView::Other { .. } => FrameKind::Other,
        }
    }

    /// The acknowledgement of a SETTINGS frame: no entries, ack flag set.
    pub open spec fn settings_ack() -> FrameView {
        FrameView::Settings { ack: true, entries: Seq::empty() }
    }
}

impl View for HttpFrame {
    type V = FrameView;

    open spec fn view(&self) -> FrameView {
        match *self {
            HttpFrame::Settings { ack, entries } => FrameView::Settings { ack, entries: entries@ },
            HttpFrame::Headers { stream_id, headers, end_of_stream } => FrameView::Headers {
                stream_id,
                headers: headers_view(headers@),
                end_of_stream,
            },
            HttpFrame::Data { stream_id, data, end_of_stream } => FrameView::Data {
                stream_id,
                data: data@,
                end_of_stream,
            },
            HttpFrame::RstStream { stream_id, error_code } => FrameView::RstStream {
                stream_id,
                error_code,
            },
            HttpFrame::Goaway { last_stream_id, error_code, debug_data } => FrameView::Goaway {
                last_stream_id,
                error_code,
                debug_data: match debug_data {
                    Some(d) => Some(d@),
                    None => None,
                },
            },
            HttpFrame::Other { frame_type, stream_id } => FrameView::Other { frame_type, stream_id },
        }
    }
}

impl HttpFrame {
    /// The type of this frame.
    pub fn kind(&self) -> (k: FrameKind)
        ensures
            k == self@.kind(),
    {
        match self {
            HttpFrame::Settings { .. } => FrameKind::Settings,
            HttpFrame::Headers { .. } => FrameKind::Headers,
            HttpFrame::Data { .. } => FrameKind::Data,
            HttpFrame::RstStream { .. } => FrameKind::RstStream,
            HttpFrame::Goaway { .. } => FrameKind::Goaway,
            HttpFrame::Other { .. } => FrameKind::Other,
        }
    }

    /// The stream the frame belongs to; 0 for connection-level frames.
    pub fn stream_id(&self) -> (id: u32)
        ensures
            id == match self@ {
                FrameView::Settings { .. } => 0u32,
                FrameView::Headers { stream_id, .. } => stream_id,
                FrameView::Data { stream_id, .. } => stream_id,
                FrameView::RstStream { stream_id, .. } => stream_id,
                FrameView::Goaway { .. } => 0u32,
                FrameView::Other { stream_id, .. } => stream_id,
            },
    {
        match self {
            HttpFrame::Settings { .. } => 0,
            HttpFrame::Headers { stream_id, .. } => *stream_id,
            HttpFrame::Data { stream_id, .. } => *stream_id,
            HttpFrame::RstStream { stream_id, .. } => *stream_id,
            HttpFrame::Goaway { .. } => 0,
            HttpFrame::Other { stream_id, .. } => *stream_id,
        }
    }

    /// A SETTINGS acknowledgement.
    pub fn settings_ack() -> (frame: HttpFrame)
        ensures
            frame@ == FrameView::settings_ack(),
    {
        HttpFrame::Settings { ack: true, entries: Vec::new() }
    }
}

} // verus!
