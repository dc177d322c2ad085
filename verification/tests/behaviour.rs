use http2_client::client::{write_preface, ClientConnection, ClientSession, RequestStream};
use http2_client::codec::{parse_settings_frame, write_settings_frame};
use http2_client::connection::{settings_reply, HttpConnection, SendStatus};
use http2_client::error::{ConnectionError, ErrorCode, HttpError};
use http2_client::frame::{FrameKind, Header, HttpFrame};
use http2_client::session::SessionState;
use http2_client::stream::{prepare_stream, Stream, MAX_CHUNK_SIZE};
use http2_client::transport::{FrameLog, FrameQueue, ReceiveFrame, SendFrame};

fn stream_with_body(body: Vec<u8>) -> Stream {
    let mut stream = Stream::new();
    stream.set_outgoing(body);
    stream
}

fn settings(ack: bool) -> HttpFrame {
    HttpFrame::Settings { ack, entries: vec![] }
}

#[test]
fn handshake_wrong_first_frame_sends_nothing_and_consumes_nothing() {
    let others = vec![
        HttpFrame::Data { stream_id: 1, data: vec![9], end_of_stream: true },
        HttpFrame::Headers { stream_id: 1, headers: vec![], end_of_stream: false },
        HttpFrame::RstStream { stream_id: 1, error_code: ErrorCode::Cancel },
        HttpFrame::Goaway { last_stream_id: 0, error_code: ErrorCode::NoError, debug_data: None },
        HttpFrame::Other { frame_type: 6, stream_id: 0 },
    ];
    for first in others {
        let mut conn = ClientConnection::new();
        let mut sender = FrameLog::new();
        let mut receiver = FrameQueue::new(vec![first.clone(), settings(false)]);
        let res = conn.expect_settings(&mut receiver, &mut sender);
        assert_eq!(res, Err(HttpError::UnableToConnect));
        assert_eq!(sender.sent.len(), 0);
        assert_eq!(receiver.recv_list, vec![first, settings(false)]);
        assert!(!conn.conn.is_established());
    }
}

#[test]
fn handshake_consumes_exactly_the_settings_frame() {
    let mut conn = ClientConnection::new();
    let mut sender = FrameLog::new();
    let data = HttpFrame::Data { stream_id: 1, data: vec![1], end_of_stream: false };
    let mut receiver = FrameQueue::new(vec![
        HttpFrame::Settings { ack: false, entries: vec![(4, 65535)] },
        data.clone(),
    ]);
    assert_eq!(conn.expect_settings(&mut receiver, &mut sender), Ok(()));
    assert_eq!(receiver.recv_list, vec![data]);
    assert_eq!(sender.sent, vec![settings(true)]);
    assert!(conn.conn.is_established());
}

#[test]
fn handshake_on_silent_peer_is_a_transport_failure() {
    let mut conn = ClientConnection::new();
    let mut sender = FrameLog::new();
    let mut receiver = FrameQueue::new(vec![]);
    let res = conn.expect_settings(&mut receiver, &mut sender);
    assert_eq!(res, Err(HttpError::TransportFailure));
    assert_eq!(sender.sent.len(), 0);
}

#[test]
fn settings_reply_by_kind() {
    assert_eq!(settings_reply(FrameKind::Settings), Ok(settings(true)));
    assert_eq!(settings_reply(FrameKind::Data), Err(HttpError::UnableToConnect));
    assert_eq!(settings_reply(FrameKind::Headers), Err(HttpError::UnableToConnect));
    assert_eq!(settings_reply(FrameKind::Goaway), Err(HttpError::UnableToConnect));
}

#[test]
fn in_memory_transport_keeps_order() {
    let a = HttpFrame::Other { frame_type: 8, stream_id: 0 };
    let b = HttpFrame::RstStream { stream_id: 5, error_code: ErrorCode::StreamClosed };
    let mut queue = FrameQueue::new(vec![a.clone(), b.clone()]);
    assert_eq!(queue.peek_kind(), Ok(FrameKind::Other));
    assert_eq!(queue.recv_frame(), Ok(a.clone()));
    assert_eq!(queue.peek_kind(), Ok(FrameKind::RstStream));
    assert_eq!(queue.recv_frame(), Ok(b.clone()));
    assert_eq!(queue.peek_kind(), Err(HttpError::TransportFailure));
    assert_eq!(queue.recv_frame(), Err(HttpError::TransportFailure));
    let mut log = FrameLog::new();
    assert_eq!(log.send_frame(a.clone()), Ok(()));
    assert_eq!(log.send_frame(b.clone()), Ok(()));
    assert_eq!(log.sent, vec![a, b]);
}

#[test]
fn stream_identifiers_are_odd_and_increasing() {
    let mut state = SessionState::new();
    assert!(state.can_allocate());
    assert_eq!(state.insert_outgoing(Stream::new()), 1);
    assert_eq!(state.insert_outgoing(Stream::new()), 3);
    assert_eq!(state.insert_outgoing(Stream::new()), 5);
    assert_eq!(state.len(), 3);
    let ids: Vec<u32> = state.iter().into_iter().map(|(id, _)| id).collect();
    assert_eq!(ids, vec![1, 3, 5]);
    assert!(state.get_stream_ref(2).is_none());
    assert!(state.get_stream_ref(7).is_none());
    assert!(state.get_stream_mut(4).is_none());
}

#[test]
fn identifiers_are_not_reused_after_closure() {
    let mut state = SessionState::new();
    let mut done = Stream::new();
    done.close_remote();
    assert_eq!(state.insert_outgoing(done), 1);
    assert_eq!(state.get_closed().len(), 1);
    assert_eq!(state.len(), 0);
    assert_eq!(state.insert_outgoing(Stream::new()), 3);
    assert!(state.get_stream_ref(1).is_none());
}

#[test]
fn closed_streams_are_returned_once() {
    let mut state = SessionState::new();
    let mut conn = HttpConnection::new();
    let mut sender = FrameLog::new();
    state.insert_outgoing(Stream::new());
    state.insert_outgoing(stream_with_body(vec![1]));
    state.insert_outgoing(Stream::new());
    ClientSession::new(&mut state, &mut sender).new_data_chunk(5, &[42], &mut conn).unwrap();
    ClientSession::new(&mut state, &mut sender).end_of_stream(5, &mut conn).unwrap();
    ClientSession::new(&mut state, &mut sender).end_of_stream(3, &mut conn).unwrap();
    // Stream 3 still has a body to send, so the peer's end does not close it.
    assert!(!state.get_stream_ref(3).unwrap().is_closed());
    assert!(state.get_stream_ref(5).unwrap().is_closed());
    let closed = state.get_closed();
    assert_eq!(closed.len(), 1);
    assert_eq!(closed[0].body, vec![42]);
    assert!(state.get_stream_ref(5).is_none());
    assert!(state.get_stream_ref(1).is_some());
    assert!(state.get_stream_ref(3).is_some());
    assert_eq!(state.get_closed().len(), 0);
    assert_eq!(state.len(), 2);
}

#[test]
fn frames_for_unknown_streams_are_dropped() {
    let mut state = SessionState::new();
    let mut conn = HttpConnection::new();
    let mut sender = FrameLog::new();
    state.insert_outgoing(Stream::new());
    let before = state.get_stream_ref(1).unwrap().clone();
    assert_eq!(ClientSession::new(&mut state, &mut sender).new_data_chunk(7, &[1], &mut conn), Ok(()));
    assert_eq!(
        ClientSession::new(&mut state, &mut sender).new_headers(7, vec![Header::new(b"a", b"b")], &mut conn),
        Ok(())
    );
    assert_eq!(ClientSession::new(&mut state, &mut sender).end_of_stream(7, &mut conn), Ok(()));
    assert_eq!(
        ClientSession::new(&mut state, &mut sender).rst_stream(7, ErrorCode::Cancel, &mut conn),
        Ok(())
    );
    assert_eq!(state.len(), 1);
    assert_eq!(*state.get_stream_ref(1).unwrap(), before);
    assert_eq!(sender.sent.len(), 0);
}

#[test]
fn reset_is_recorded_and_does_not_close() {
    let mut state = SessionState::new();
    let mut conn = HttpConnection::new();
    let mut sender = FrameLog::new();
    state.insert_outgoing(Stream::new());
    ClientSession::new(&mut state, &mut sender).rst_stream(1, ErrorCode::Cancel, &mut conn).unwrap();
    ClientSession::new(&mut state, &mut sender).rst_stream(1, ErrorCode::RefusedStream, &mut conn).unwrap();
    let stream = state.get_stream_ref(1).unwrap();
    assert_eq!(stream.errors, vec![ErrorCode::Cancel, ErrorCode::RefusedStream]);
    assert!(!stream.is_closed());
    assert_eq!(state.get_closed().len(), 0);
}

#[test]
fn goaway_carries_code_and_debug_data() {
    let mut state = SessionState::new();
    let mut conn = HttpConnection::new();
    let mut sender = FrameLog::new();
    let res = ClientSession::new(&mut state, &mut sender).on_goaway(
        3,
        ErrorCode::EnhanceYourCalm,
        Some(vec![1, 2]),
        &mut conn,
    );
    assert_eq!(
        res,
        Err(HttpError::PeerConnectionError(ConnectionError {
            error_code: ErrorCode::EnhanceYourCalm,
            debug_data: Some(vec![1, 2]),
        }))
    );
    match res {
        Err(HttpError::PeerConnectionError(e)) => assert_eq!(e.debug_data(), Some(&vec![1, 2])),
        _ => panic!("expected a peer connection error"),
    }
}

#[test]
fn data_is_sent_in_chunks_of_at_most_the_limit() {
    let mut conn = ClientConnection::new();
    let mut sender = FrameLog::new();
    let body: Vec<u8> = (0..MAX_CHUNK_SIZE + 1).map(|i| (i % 251) as u8).collect();
    conn.state.insert_outgoing(stream_with_body(body.clone()));
    conn.state.insert_outgoing(stream_with_body(vec![7, 8]));
    assert_eq!(conn.send_next_data(&mut sender), Ok(SendStatus::Sent));
    assert_eq!(conn.send_next_data(&mut sender), Ok(SendStatus::Sent));
    assert_eq!(conn.send_next_data(&mut sender), Ok(SendStatus::Sent));
    assert_eq!(conn.send_next_data(&mut sender), Ok(SendStatus::Nothing));
    assert_eq!(
        sender.sent,
        vec![
            HttpFrame::Data { stream_id: 1, data: body[..MAX_CHUNK_SIZE].to_vec(), end_of_stream: false },
            HttpFrame::Data { stream_id: 1, data: body[MAX_CHUNK_SIZE..].to_vec(), end_of_stream: true },
            HttpFrame::Data { stream_id: 3, data: vec![7, 8], end_of_stream: true },
        ]
    );
    assert!(conn.state.get_stream_ref(1).unwrap().is_closed_local());
}

#[test]
fn body_of_exactly_one_chunk_ends_the_stream() {
    let mut conn = ClientConnection::new();
    let mut sender = FrameLog::new();
    let body: Vec<u8> = vec![5; MAX_CHUNK_SIZE];
    conn.state.insert_outgoing(stream_with_body(body.clone()));
    assert_eq!(conn.send_next_data(&mut sender), Ok(SendStatus::Sent));
    assert_eq!(conn.send_next_data(&mut sender), Ok(SendStatus::Nothing));
    assert_eq!(sender.sent, vec![HttpFrame::Data { stream_id: 1, data: body, end_of_stream: true }]);
}

#[test]
fn stream_take_data_chunk_moves_the_cursor() {
    let mut stream = stream_with_body(vec![1, 2, 3]);
    assert!(stream.has_pending());
    assert!(!stream.is_closed_local());
    assert_eq!(stream.take_data_chunk(), (vec![1, 2, 3], true));
    assert_eq!(stream.cursor, 3);
    assert!(!stream.has_pending());
    assert!(stream.is_closed_local());
    assert!(!stream.is_closed());
    stream.close_remote();
    assert!(stream.is_closed());
}

#[test]
fn start_request_sends_the_headers_it_was_given() {
    let mut conn = ClientConnection::new();
    let mut sender = FrameLog::new();
    let headers = vec![Header::new(b":method", b"POST"), Header::new(b":path", b"/")];
    let first = RequestStream { headers: headers.clone(), stream: stream_with_body(vec![1]) };
    let second = RequestStream { headers: vec![], stream: Stream::new() };
    assert_eq!(conn.start_request(first, &mut sender), Ok(1));
    assert_eq!(conn.start_request(second, &mut sender), Ok(3));
    assert_eq!(
        sender.sent,
        vec![
            HttpFrame::Headers { stream_id: 1, headers, end_of_stream: false },
            HttpFrame::Headers { stream_id: 3, headers: vec![], end_of_stream: true },
        ]
    );
    assert_eq!(conn.state.get_stream_ref(1).unwrap().outgoing, Some(vec![1]));
}

#[test]
fn dispatch_applies_frames_to_their_streams() {
    let mut conn = ClientConnection::new();
    let mut sender = FrameLog::new();
    conn.state.insert_outgoing(Stream::new());
    conn.state.insert_outgoing(Stream::new());
    let headers = vec![Header::new(b":status", b"200")];
    let frames = vec![
        HttpFrame::Settings { ack: false, entries: vec![] },
        HttpFrame::Headers { stream_id: 1, headers: headers.clone(), end_of_stream: false },
        HttpFrame::Data { stream_id: 1, data: vec![1, 2, 3], end_of_stream: false },
        HttpFrame::Other { frame_type: 8, stream_id: 1 },
        HttpFrame::Data { stream_id: 1, data: vec![4], end_of_stream: true },
        HttpFrame::RstStream { stream_id: 3, error_code: ErrorCode::Cancel },
        HttpFrame::Settings { ack: true, entries: vec![] },
    ];
    let mut receiver = FrameQueue::new(frames);
    assert!(!conn.conn.is_established());
    for _ in 0..7 {
        assert_eq!(conn.handle_next_frame(&mut receiver, &mut sender), Ok(()));
        assert!(conn.conn.is_established());
    }
    assert_eq!(conn.handle_next_frame(&mut receiver, &mut sender), Err(HttpError::TransportFailure));
    // Only the handshake sent something: the acknowledgement.
    assert_eq!(sender.sent, vec![settings(true)]);
    let one = conn.state.get_stream_ref(1).unwrap();
    assert_eq!(one.headers, Some(headers));
    assert_eq!(one.body, vec![1, 2, 3, 4]);
    assert!(one.is_closed());
    let three = conn.state.get_stream_ref(3).unwrap();
    assert_eq!(three.errors, vec![ErrorCode::Cancel]);
    assert!(!three.is_closed());
}

#[test]
fn dispatch_acknowledges_settings_and_fails_on_goaway() {
    let mut conn = ClientConnection::new();
    let mut sender = FrameLog::new();
    assert_eq!(conn.handle_frame(HttpFrame::Settings { ack: false, entries: vec![(1, 4096)] }, &mut sender), Ok(()));
    assert_eq!(sender.sent, vec![settings(true)]);
    let res = conn.handle_frame(
        HttpFrame::Goaway { last_stream_id: 0, error_code: ErrorCode::ProtocolError, debug_data: None },
        &mut sender,
    );
    assert_eq!(
        res,
        Err(HttpError::PeerConnectionError(ConnectionError {
            error_code: ErrorCode::ProtocolError,
            debug_data: None,
        }))
    );
    assert_eq!(sender.sent.len(), 1);
}

#[test]
fn preface_is_exactly_preface_and_empty_settings() {
    let mut written: Vec<u8> = vec![0xff];
    write_preface(&mut written);
    let mut expected: Vec<u8> = vec![0xff];
    expected.extend_from_slice(b"PRI * HTTP/2.0\r\n\r\nSM\r\n\r\n");
    expected.extend_from_slice(&[0, 0, 0, 4, 0, 0, 0, 0, 0]);
    assert_eq!(written, expected);
    assert_eq!(written.len(), 1 + 24 + 9);
}

#[test]
fn settings_frame_bytes_and_back() {
    let entries: Vec<(u16, u32)> = vec![(3, 100), (4, 0x0102_0304), (0xffff, 0xffff_ffff)];
    let mut out: Vec<u8> = Vec::new();
    write_settings_frame(true, &entries, &mut out);
    assert_eq!(
        out,
        vec![
            0, 0, 18, 4, 1, 0, 0, 0, 0, 0, 3, 0, 0, 0, 100, 0, 4, 1, 2, 3, 4, 0xff, 0xff, 0xff, 0xff, 0xff,
            0xff
        ]
    );
    assert_eq!(parse_settings_frame(&out), Some(HttpFrame::Settings { ack: true, entries }));
}

#[test]
fn malformed_settings_frames_are_refused() {
    assert_eq!(parse_settings_frame(&[]), None);
    assert_eq!(parse_settings_frame(&[0, 0, 0, 4, 0, 0, 0, 0]), None);
    // Wrong type.
    assert_eq!(parse_settings_frame(&[0, 0, 0, 0, 0, 0, 0, 0, 0]), None);
    // Unknown flag.
    assert_eq!(parse_settings_frame(&[0, 0, 0, 4, 2, 0, 0, 0, 0]), None);
    // Not on stream 0.
    assert_eq!(parse_settings_frame(&[0, 0, 0, 4, 0, 0, 0, 0, 1]), None);
    // Announced length differs from the payload.
    assert_eq!(parse_settings_frame(&[0, 0, 6, 4, 0, 0, 0, 0, 0]), None);
    // Payload is not a whole number of settings.
    assert_eq!(parse_settings_frame(&[0, 0, 1, 4, 0, 0, 0, 0, 0, 9]), None);
    assert_eq!(
        parse_settings_frame(&[0, 0, 0, 4, 0, 0, 0, 0, 0]),
        Some(HttpFrame::Settings { ack: false, entries: vec![] })
    );
}

#[test]
fn frame_kind_and_stream_id() {
    let f = HttpFrame::Headers { stream_id: 9, headers: vec![], end_of_stream: true };
    assert_eq!(f.kind(), FrameKind::Headers);
    assert_eq!(f.stream_id(), 9);
    let g = HttpFrame::Goaway { last_stream_id: 5, error_code: ErrorCode::NoError, debug_data: None };
    assert_eq!(g.kind(), FrameKind::Goaway);
    assert_eq!(g.stream_id(), 0);
    assert_eq!(HttpFrame::settings_ack(), settings(true));
    assert_eq!(HttpFrame::settings_ack().stream_id(), 0);
    let h = Header::new(b"name", b"value");
    assert_eq!(h.name, b"name".to_vec());
    assert_eq!(h.value, b"value".to_vec());
}

#[test]
fn prepared_streams() {
    let without = prepare_stream(None);
    assert!(without.is_closed_local());
    assert!(!without.has_pending());
    assert_eq!(without.outgoing, None);
    assert!(!without.is_closed());
    let with = prepare_stream(Some(vec![1, 2, 3]));
    assert!(!with.is_closed_local());
    assert!(with.has_pending());
    assert_eq!(with.outgoing, Some(vec![1, 2, 3]));
    assert_eq!(with.cursor, 0);
    // An empty body leaves nothing to send.
    let empty = prepare_stream(Some(vec![]));
    assert!(empty.is_closed_local());
}

#[test]
fn nothing_is_dispatched_before_the_handshake() {
    let mut conn = ClientConnection::new();
    let mut sender = FrameLog::new();
    conn.state.insert_outgoing(Stream::new());
    let data = HttpFrame::Data { stream_id: 1, data: vec![1, 2, 3], end_of_stream: true };
    let mut receiver = FrameQueue::new(vec![data.clone()]);
    assert_eq!(conn.handle_next_frame(&mut receiver, &mut sender), Err(HttpError::UnableToConnect));
    assert_eq!(receiver.recv_list, vec![data]);
    assert_eq!(conn.state.get_stream_ref(1).unwrap().body, Vec::<u8>::new());
    assert!(!conn.state.get_stream_ref(1).unwrap().remote_closed);
    assert_eq!(sender.sent.len(), 0);
}
