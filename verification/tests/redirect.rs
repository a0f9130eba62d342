use snowboard::server::{https_redirect, request_path};

#[test]
fn path_between_first_and_second_space() {
    let req = b"GET /index.html?x=1 HTTP/1.1\r\nHost: a\r\n\r\n";
    assert_eq!(request_path(req, req.len()), b"/index.html?x=1".to_vec());
}

#[test]
fn path_runs_to_end_without_second_space() {
    let req = b"GET /abc";
    assert_eq!(request_path(req, req.len()), b"/abc".to_vec());
}

#[test]
fn no_space_gives_empty_path() {
    let req = b"GARBAGE";
    assert_eq!(request_path(req, req.len()), Vec::<u8>::new());
    assert_eq!(request_path(b"", 0), Vec::<u8>::new());
}

#[test]
fn only_filled_bytes_count() {
    let mut buf = vec![0u8; 32];
    buf[..9].copy_from_slice(b"GET /a /b");
    assert_eq!(request_path(&buf, 6), b"/a".to_vec());
    assert_eq!(request_path(&buf, 4), Vec::<u8>::new());
    assert_eq!(request_path(&buf, 100).len(), 2);
}

#[test]
fn path_never_holds_a_space() {
    let req = b"  x y";
    assert_eq!(request_path(req, req.len()), Vec::<u8>::new());
    let req = b"GET  /x";
    assert_eq!(request_path(req, req.len()), Vec::<u8>::new());
}

#[test]
fn redirect_to_https() {
    let req = b"GET /login HTTP/1.1\r\n\r\n";
    let r = https_redirect("localhost:3000", req, req.len());
    assert_eq!(r.status, 301);
    assert_eq!(
        r.headers.get("Location").map(|v| v.as_str()),
        Some("https://localhost:3000/login")
    );
    assert_eq!(r.headers.get("Connection").map(|v| v.as_str()), Some("keep-alive"));
    assert!(r.body.is_empty());
}

#[test]
fn redirect_replaces_invalid_utf8() {
    let req = b"GET /a\xffb HTTP/1.1";
    let r = https_redirect("h", req, req.len());
    assert_eq!(
        r.headers.get("Location").map(|v| v.as_str()),
        Some("https://h/a\u{FFFD}b")
    );
}

#[test]
fn redirect_of_a_plain_target() {
    let req = b"GET /only";
    let r = https_redirect("h", req, req.len());
    assert_eq!(r.headers.get("Location").map(|v| v.as_str()), Some("https://h/only"));
}
