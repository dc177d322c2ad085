use http2_client::client::{write_preface, ClientConnection, ClientSession, RequestStream};
use http2_client::codec::parse_settings_frame;
use http2_client::connection::{HttpConnection, SendStatus};
use http2_client::error::{ErrorCode, HttpError};
use http2_client::frame::{Header, HttpFrame};
use http2_client::session::SessionState;
use http2_client::stream::{prepare_stream, Stream};
use http2_client::transport::{FrameLog, FrameQueue};

#[test]
fn test_init_client_conn() {
    let frames = vec![HttpFrame::Settings { ack: false, entries: vec![] }];
    let mut conn = ClientConnection::new();
    let mut sender = FrameLog::new();
    let mut receiver = FrameQueue::new(frames);

    conn.expect_settings(&mut receiver, &mut sender).unwrap();

    assert_eq!(receiver.recv_list.len(), 0);
    assert_eq!(sender.sent.len(), 1);
    let ack = match &sender.sent[0] {
        HttpFrame::Settings { ack, .. } => *ack,
        _ => panic!("ACK not sent!"),
    };
    assert!(ack);
}

#[test]
fn test_init_client_conn_no_settings() {
    let frames = vec![HttpFrame::Data { stream_id: 1, data: vec![], end_of_stream: false }];
    let mut conn = ClientConnection::new();
    let mut sender = FrameLog::new();
    let mut receiver = FrameQueue::new(frames);

    assert!(conn.expect_settings(&mut receiver, &mut sender).is_err());
}

#[test]
fn test_client_conn_send_next_data() {
    {
        let mut conn = ClientConnection::new();
        let mut sender = FrameLog::new();
        let res = conn.send_next_data(&mut sender).unwrap();
        assert_eq!(res, SendStatus::Nothing);
    }
    {
        let mut conn = ClientConnection::new();
        let mut sender = FrameLog::new();
        conn.state.insert_outgoing(prepare_stream(None));
        let res = conn.send_next_data(&mut sender).unwrap();
        assert_eq!(res, SendStatus::Nothing);
    }
    {
        let mut conn = ClientConnection::new();
        let mut sender = FrameLog::new();
        conn.state.insert_outgoing(prepare_stream(Some(vec![1, 2, 3])));
        let res = conn.send_next_data(&mut sender).unwrap();
        assert_eq!(res, SendStatus::Sent);

        let res = conn.send_next_data(&mut sender).unwrap();
        assert_eq!(res, SendStatus::Nothing);
    }
    {
        let mut conn = ClientConnection::new();
        let mut sender = FrameLog::new();
        conn.state.insert_outgoing(prepare_stream(Some(vec![1, 2, 3])));
        conn.state.insert_outgoing(prepare_stream(Some(vec![1, 2, 3])));
        conn.state.insert_outgoing(prepare_stream(Some(vec![1, 2, 3])));
        for _ in 0..3 {
            let res = conn.send_next_data(&mut sender).unwrap();
            assert_eq!(res, SendStatus::Sent);
        }
        let res = conn.send_next_data(&mut sender).unwrap();
        assert_eq!(res, SendStatus::Nothing);
    }
}

#[test]
fn test_client_conn_start_request() {
    {
        let mut conn = ClientConnection::new();
        let mut sender = FrameLog::new();

        let stream = RequestStream {
            headers: vec![Header::new(b":method", b"GET")],
            stream: prepare_stream(None),
        };
        conn.start_request(stream, &mut sender).unwrap();

        assert!(conn.state.get_stream_ref(1).is_some());
        assert_eq!(sender.sent.len(), 1);
        match &sender.sent[0] {
            HttpFrame::Headers { end_of_stream, .. } => {
                assert!(*end_of_stream);
            }
            _ => panic!("Expected a Headers frame"),
        };
    }
    {
        let mut conn = ClientConnection::new();
        let mut sender = FrameLog::new();

        let stream = RequestStream {
            headers: vec![Header::new(b":method", b"POST")],
            stream: prepare_stream(Some(vec![1, 2, 3])),
        };
        conn.start_request(stream, &mut sender).unwrap();

        assert!(conn.state.get_stream_ref(1).is_some());
        assert_eq!(sender.sent.len(), 1);
        match sender.sent.remove(0) {
            HttpFrame::Headers { end_of_stream, .. } => {
                assert!(!end_of_stream);
            }
            _ => panic!("Expected a Headers frame"),
        };
    }
}

#[test]
fn test_client_session_notifies_stream() {
    let mut state = SessionState::new();
    state.insert_outgoing(Stream::new());
    let mut conn = HttpConnection::new();
    let mut sender = FrameLog::new();

    {
        let session = ClientSession::new(&mut state, &mut sender);
        session.new_data_chunk(1, &[1, 2, 3], &mut conn).unwrap();
    }
    assert_eq!(state.get_stream_ref(1).unwrap().body, vec![1, 2, 3]);
    {
        let session = ClientSession::new(&mut state, &mut sender);
        session.new_data_chunk(1, &[4], &mut conn).unwrap();
    }
    assert_eq!(state.get_stream_ref(1).unwrap().body, vec![1, 2, 3, 4]);
    let headers = vec![Header::new(b":method", b"GET")];
    {
        let session = ClientSession::new(&mut state, &mut sender);
        session.new_headers(1, headers.clone(), &mut conn).unwrap();
    }
    assert_eq!(state.get_stream_ref(1).unwrap().headers.clone().unwrap(), headers);
    state.insert_outgoing(Stream::new());
    {
        let session = ClientSession::new(&mut state, &mut sender);
        session.new_data_chunk(3, &[100], &mut conn).unwrap();
    }
    assert_eq!(state.get_stream_ref(3).unwrap().body, vec![100]);
    {
        let session = ClientSession::new(&mut state, &mut sender);
        session.end_of_stream(1, &mut conn).unwrap();
    }
    assert!(state.get_stream_ref(1).unwrap().is_closed());
    assert!(!state.get_stream_ref(3).unwrap().is_closed());
    assert_eq!(state.iter().len(), 2);
    let closed = state.get_closed();
    assert_eq!(closed.len(), 1);
    assert_eq!(state.iter().len(), 1);
}

#[test]
fn test_client_session_on_rst_stream() {
    let mut state = SessionState::new();
    state.insert_outgoing(Stream::new());
    state.insert_outgoing(Stream::new());
    let mut conn = HttpConnection::new();
    let mut sender = FrameLog::new();
    {
        let session = ClientSession::new(&mut state, &mut sender);
        session.rst_stream(3, ErrorCode::Cancel, &mut conn).unwrap();
    }
    assert!(state
        .get_stream_ref(3)
        .map(|stream| stream.errors.len() == 1 && stream.errors[0] == ErrorCode::Cancel)
        .unwrap());
    assert!(state.get_stream_ref(1).map(|stream| stream.errors.len() == 0).unwrap());
}

#[test]
fn test_client_session_on_goaway() {
    let mut state = SessionState::new();
    let mut conn = HttpConnection::new();
    let mut sender = FrameLog::new();
    let res = {
        let session = ClientSession::new(&mut state, &mut sender);
        session.on_goaway(0, ErrorCode::ProtocolError, None, &mut conn)
    };
    if let Err(HttpError::PeerConnectionError(err)) = res {
        assert_eq!(err.error_code(), ErrorCode::ProtocolError);
        assert_eq!(err.debug_data(), None);
    } else {
        panic!("Expected a PeerConnectionError");
    }
}

#[test]
fn test_write_preface() {
    let mut written: Vec<u8> = Vec::new();

    write_preface(&mut written);

    let preface = b"PRI * HTTP/2.0\r\n\r\nSM\r\n\r\n";
    let frames_buf = &written[preface.len()..];
    assert_eq!(preface, &written[..preface.len()]);
    let frame = parse_settings_frame(frames_buf).unwrap();
    match frame {
        HttpFrame::Settings { ack, .. } => assert!(!ack),
        _ => panic!("Expected a Settings frame"),
    }
}
