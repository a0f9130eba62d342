use snowboard::server::{
    after_accept_error, after_read_error, looks_like_tls_handshake, AfterAcceptError,
    AfterReadError, IoErrorKind,
};
use snowboard::{Headers, Response, Server, DEFAULT_BUFFER_SIZE};

fn response_with(name: &str, value: &str) -> Response {
    let mut h = Headers::new();
    h.insert(name, value.to_string());
    Response::new(200, h, b"hi".to_vec())
}

fn connection_of(r: &Response) -> Option<String> {
    r.headers.get("connection").cloned()
}

#[test]
fn keep_alive_request_keeps_connection() {
    let mut r = Response::new(200, Headers::new(), Vec::new());
    r.finish_connection(true);
    assert_eq!(connection_of(&r).as_deref(), Some("keep-alive"));
    assert_eq!(r.status, 200);
}

#[test]
fn request_without_keep_alive_closes() {
    let mut r = Response::new(200, Headers::new(), Vec::new());
    r.finish_connection(false);
    assert_eq!(connection_of(&r).as_deref(), Some("close"));
}

#[test]
fn response_asking_to_close_wins() {
    let mut r = response_with("connection", "Close");
    assert!(r.asks_to_close());
    r.finish_connection(true);
    assert_eq!(connection_of(&r).as_deref(), Some("close"));
    assert_eq!(r.body, b"hi".to_vec());
}

#[test]
fn other_connection_values_are_replaced() {
    let mut r = response_with("connection", "upgrade");
    assert!(!r.asks_to_close());
    r.finish_connection(true);
    assert_eq!(connection_of(&r).as_deref(), Some("keep-alive"));
}

#[test]
fn finishing_twice_changes_nothing() {
    for keep in [true, false] {
        for start in ["close", "keep-alive", "CLOSE", "x"] {
            let mut once = response_with("connection", start);
            once.finish_connection(keep);
            let mut twice = response_with("connection", start);
            twice.finish_connection(keep);
            twice.finish_connection(keep);
            assert_eq!(connection_of(&once), connection_of(&twice));
        }
    }
}

#[test]
fn capitalised_connection_field_is_a_different_name() {
    let mut r = response_with("Connection", "close");
    assert!(!r.asks_to_close());
    r.finish_connection(true);
    assert_eq!(connection_of(&r).as_deref(), Some("keep-alive"));
    assert_eq!(r.headers.get("Connection").map(|v| v.as_str()), Some("close"));
}

#[test]
fn status_constructors() {
    assert_eq!(Response::bad_request().status, 400);
    assert_eq!(Response::internal_server_error().status, 500);
    assert_eq!(Response::switching_protocols(Headers::new()).status, 101);
    assert_eq!(Response::moved_permanently(Headers::new()).status, 301);
    assert!(Response::bad_request().body.is_empty());
}

#[test]
fn set_header_replaces() {
    let mut r = response_with("X-Hello", "World!");
    r.set_header("X-Hello", "there".to_string());
    assert_eq!(r.headers.get("X-Hello").map(|v| v.as_str()), Some("there"));
}

#[test]
fn malformed_request_gets_bad_request_and_stays_open() {
    match after_read_error(IoErrorKind::InvalidInput) {
        AfterReadError::ReplyAndContinue(r) => assert_eq!(r.status, 400),
        _ => panic!("expected a reply"),
    }
}

#[test]
fn vanished_peer_closes_silently() {
    for kind in [IoErrorKind::BrokenPipe, IoErrorKind::ConnectionReset, IoErrorKind::UnexpectedEof] {
        assert!(matches!(after_read_error(kind), AfterReadError::Close));
    }
}

#[test]
fn other_read_errors_report_and_close() {
    for kind in [IoErrorKind::Other, IoErrorKind::ConnectionAborted] {
        match after_read_error(kind) {
            AfterReadError::ReportReplyAndClose(r) => assert_eq!(r.status, 500),
            _ => panic!("expected an internal error reply"),
        }
    }
}

#[test]
fn accept_errors() {
    assert_eq!(after_accept_error(IoErrorKind::ConnectionAborted), AfterAcceptError::Retry);
    assert_eq!(after_accept_error(IoErrorKind::ConnectionReset), AfterAcceptError::Retry);
    assert_eq!(after_accept_error(IoErrorKind::InvalidInput), AfterAcceptError::Retry);
    assert_eq!(after_accept_error(IoErrorKind::BrokenPipe), AfterAcceptError::ReportAndRetry);
    assert_eq!(after_accept_error(IoErrorKind::Other), AfterAcceptError::ReportAndRetry);
}

#[test]
fn tls_detection() {
    assert!(looks_like_tls_handshake([0x16, 0x03]));
    assert!(!looks_like_tls_handshake([b'G', b'E']));
    assert!(!looks_like_tls_handshake([0x16, 0x02]));
    assert!(!looks_like_tls_handshake([0, 0]));
}

#[test]
fn server_defaults_and_builders() {
    let s = Server::new();
    assert_eq!(s.buffer_size, DEFAULT_BUFFER_SIZE);
    assert_eq!(DEFAULT_BUFFER_SIZE, 8192);
    assert!(!s.insert_default_headers);
    assert!(s.ws_path.is_none());

    let s = Server::new().with_default_headers().with_buffer_size(200).on_websocket("/ws");
    assert!(s.insert_default_headers);
    assert_eq!(s.buffer_size, 200);
    assert_eq!(s.ws_path.as_deref(), Some("/ws"));

    let mut s = s;
    s.set_buffer_size(5);
    assert_eq!(s.buffer_size, 5);
    assert!(s.insert_default_headers);
}
