use snowboard::ws::{build_handshake, websocket_upgrade};
use snowboard::{Headers, Request, Server};

fn handshake_request(url: &str, upgrade: &str, key: Option<&str>) -> Request {
    let mut h = Headers::new();
    h.insert("Upgrade", upgrade.to_string());
    if let Some(k) = key {
        h.insert("Sec-WebSocket-Key", k.to_string());
    }
    Request::new(url.to_string(), h)
}

#[test]
fn accept_value_of_the_rfc_example() {
    let h = build_handshake(&"dGhlIHNhbXBsZSBub25jZQ==".to_string());
    assert_eq!(
        h.get("Sec-WebSocket-Accept").map(|v| v.as_str()),
        Some("s3pPLMBiTxaQ9kYGzzhZRbK+xOo=")
    );
    assert_eq!(h.get("Upgrade").map(|v| v.as_str()), Some("websocket"));
    assert_eq!(h.get("Connection").map(|v| v.as_str()), Some("Upgrade"));
}

#[test]
fn accept_value_of_an_empty_key() {
    // base64(sha1("258EAFA5-E914-47DA-95CA-C5AB0DC85B11"))
    let h = build_handshake(&String::new());
    assert_eq!(
        h.get("Sec-WebSocket-Accept").map(|v| v.as_str()),
        Some("Kfh9QIsMVZcl6xEPYxPHzW8SZ8w=")
    );
}

#[test]
fn is_websocket_needs_upgrade_and_key() {
    assert!(handshake_request("/", "websocket", Some("k")).is_websocket());
    assert!(handshake_request("/", "WebSocket", Some("k")).is_websocket());
    assert!(!handshake_request("/", "websocket", None).is_websocket());
    assert!(!handshake_request("/", "h2c", Some("k")).is_websocket());
    let mut h = Headers::new();
    h.insert("Sec-WebSocket-Key", "k".to_string());
    assert!(!Request::new("/".to_string(), h).is_websocket());
}

#[test]
fn handshake_response_for_handshake_requests_only() {
    let req = handshake_request("/ws", "websocket", Some("dGhlIHNhbXBsZSBub25jZQ=="));
    let resp = req.handshake_response().expect("a handshake");
    assert_eq!(resp.status, 101);
    assert!(resp.body.is_empty());
    assert_eq!(
        resp.headers.get("Sec-WebSocket-Accept").map(|v| v.as_str()),
        Some("s3pPLMBiTxaQ9kYGzzhZRbK+xOo=")
    );
    assert!(handshake_request("/ws", "websocket", None).handshake_response().is_none());
}

#[test]
fn upgrade_needs_route_and_handshake() {
    let req = handshake_request("/ws/chat", "websocket", Some("abc"));
    assert!(websocket_upgrade(Some("/ws"), &req).is_some());
    assert!(websocket_upgrade(Some("/api"), &req).is_none());
    assert!(websocket_upgrade(None, &req).is_none());
    let plain = handshake_request("/ws", "nothing", Some("abc"));
    assert!(websocket_upgrade(Some("/ws"), &plain).is_none());
}

#[test]
fn server_upgrade_uses_its_path() {
    let req = handshake_request("/ws", "websocket", Some("abc"));
    assert!(Server::new().websocket_upgrade(&req).is_none());
    assert!(Server::new().on_websocket("/ws").websocket_upgrade(&req).is_some());
    assert!(Server::new().on_websocket("/other").websocket_upgrade(&req).is_none());
}

#[test]
fn accept_value_is_28_base64_characters_with_one_pad() {
    for key in ["", "x", "dGhlIHNhbXBsZSBub25jZQ==", "a much longer key than usual"] {
        let h = build_handshake(&key.to_string());
        let v = h.get("Sec-WebSocket-Accept").cloned().expect("accept value");
        assert_eq!(v.chars().count(), 28);
        assert!(v.ends_with('='));
        assert!(v[..27].chars().all(|c| c.is_ascii_alphanumeric() || c == '+' || c == '/'));
    }
}
