//! Error codes and the failures a connection can report.

use vstd::prelude::*;

verus! {

/// The error codes that RST_STREAM and GOAWAY frames carry.
#[derive(Clone, Copy, Debug, PartialEq, Eq, Structural)]
pub enum ErrorCode {
    NoError,
    ProtocolError,
    InternalError,
    FlowControlError,
    SettingsTimeout,
    StreamClosed,
    FrameSizeError,
    RefusedStream,
    Cancel,
    CompressionError,
    ConnectError,
    EnhanceYourCalm,
    InadequateSecurity,
    Http11Required,
}

/// What the peer reported when it told the connection to go away.
#[derive(Clone, Debug, PartialEq, Eq)]
pub struct ConnectionError {
    pub error_code: ErrorCode,
    pub debug_data: Option<Vec<u8>>,
}

/// The mathematical content of a [`ConnectionError`].
pub struct ConnectionErrorView {
    pub error_code: ErrorCode,
    pub debug_data: Option<Seq<u8>>,
}

impl View for ConnectionError {
    type V = ConnectionErrorView;

    open spec fn view(&self) -> ConnectionErrorView {
        ConnectionErrorView {
            error_code: self.error_code,
            debug_data: match self.debug_data {
                Some(d) => Some(d@),
                None => None,
            },
        }
    }
}

impl ConnectionError {
    /// The code the peer gave.
    pub fn error_code(&self) -> (code: ErrorCode)
        ensures
            code == self@.error_code,
    {
        self.error_code
    }

    /// The diagnostic payload the peer attached, if any.
    pub fn debug_data(&self) -> (data: Option<&Vec<u8>>)
        ensures
            data is Some <==> self@.debug_data is Some,
            data is Some ==> data.unwrap()@ == self@.debug_data.unwrap(),
    {
        match &self.debug_data {
            Some(d) => Some(d),
            None => None,
        }
    }
}

/// The failures of a connection-level operation.
#[derive(Clone, Debug, PartialEq, Eq)]
pub enum HttpError {
    /// The peer did not open the connection with a SETTINGS frame.
    UnableToConnect,
    /// The peer sent GOAWAY.
    PeerConnectionError(ConnectionError),
    /// The transport could not deliver or accept a frame.
    TransportFailure,
}

/// The mathematical content of an [`HttpError`].
pub enum HttpErrorView {
    UnableToConnect,
    PeerConnectionError(ConnectionErrorView),
    TransportFailure,
}

impl View for HttpError {
    type V = HttpErrorView;

    open spec fn view(&self) -> HttpErrorView {
        match *self {
            HttpError::UnableToConnect => HttpErrorView::UnableToConnect,
            HttpError::PeerConnectionError(e) => HttpErrorView::PeerConnectionError(e@),
            HttpError::TransportFailure => HttpErrorView::TransportFailure,
        }
    }
}

} // verus!
