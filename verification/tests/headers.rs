use snowboard::text::{str_eq_ignore_ascii_case, str_starts_with};
use snowboard::Headers;

#[test]
fn empty_headers_have_nothing() {
    let h = Headers::new();
    assert!(h.get("Host").is_none());
    assert!(!h.contains_key("Host"));
}

#[test]
fn get_after_insert_returns_inserted_value() {
    let mut h = Headers::new();
    h.insert("Host", "example.com".to_string());
    assert_eq!(h.get("Host").map(|v| v.as_str()), Some("example.com"));
    assert!(h.contains_key("Host"));
}

#[test]
fn insert_replaces_earlier_value() {
    let mut h = Headers::new();
    h.insert("Accept", "text/html".to_string());
    h.insert("Accept", "*/*".to_string());
    assert_eq!(h.get("Accept").map(|v| v.as_str()), Some("*/*"));
}

#[test]
fn insert_leaves_other_fields() {
    let mut h = Headers::new();
    h.insert("A", "1".to_string());
    h.insert("B", "2".to_string());
    h.insert("A", "3".to_string());
    assert_eq!(h.get("B").map(|v| v.as_str()), Some("2"));
    assert_eq!(h.get("A").map(|v| v.as_str()), Some("3"));
}

#[test]
fn names_are_compared_exactly() {
    let mut h = Headers::new();
    h.insert("Upgrade", "websocket".to_string());
    assert!(h.get("upgrade").is_none());
    assert!(!h.contains_key("UPGRADE"));
}

#[test]
fn eq_ignore_ascii_case_examples() {
    assert!(str_eq_ignore_ascii_case("WebSocket", "websocket"));
    assert!(str_eq_ignore_ascii_case("", ""));
    assert!(!str_eq_ignore_ascii_case("websockets", "websocket"));
    assert!(!str_eq_ignore_ascii_case("web-socket", "websocket"));
    // only ASCII letters fold
    assert!(!str_eq_ignore_ascii_case("É", "é"));
    // reflexive and symmetric
    assert!(str_eq_ignore_ascii_case("KeEp", "KeEp"));
    assert_eq!(str_eq_ignore_ascii_case("aB", "Ab"), str_eq_ignore_ascii_case("Ab", "aB"));
}

#[test]
fn starts_with_examples() {
    assert!(str_starts_with("/ws/chat", "/ws"));
    assert!(str_starts_with("/ws", "/ws"));
    assert!(str_starts_with("/anything", ""));
    assert!(!str_starts_with("/w", "/ws"));
    assert!(!str_starts_with("/api", "/ws"));
}

#[test]
fn to_vec_lists_each_field_once() {
    let mut h = Headers::new();
    h.insert("A", "1".to_string());
    h.insert("B", "2".to_string());
    h.insert("A", "3".to_string());
    let v = h.to_vec();
    assert_eq!(v, vec![("A".to_string(), "3".to_string()), ("B".to_string(), "2".to_string())]);
    assert!(Headers::new().to_vec().is_empty());
}
