use http_muncher::ParserHandler;
use websocket_handshake::headers::{append_bytes, bytes_eq, copy_bytes, Headers};
use websocket_handshake::parser::HttpParser;

#[test]
fn empty_headers_hold_nothing() {
    let headers = Headers::new();
    assert!(headers.get(b"Host").is_none());
    assert!(!headers.contains_key(b"Host"));
    assert!(!headers.contains_key(b""));
}

#[test]
fn insert_then_get() {
    let mut headers = Headers::new();
    headers.insert(b"Host".to_vec(), b"example.com".to_vec());
    headers.insert(b"Upgrade".to_vec(), b"websocket".to_vec());
    assert_eq!(headers.get(b"Host"), Some(&b"example.com".to_vec()));
    assert_eq!(headers.get(b"Upgrade"), Some(&b"websocket".to_vec()));
    assert!(headers.get(b"Connection").is_none());
    assert!(headers.contains_key(b"Upgrade"));
}

#[test]
fn last_write_wins() {
    let mut headers = Headers::new();
    headers.insert(b"X-A".to_vec(), b"1".to_vec());
    headers.insert(b"X-B".to_vec(), b"2".to_vec());
    headers.insert(b"X-A".to_vec(), b"3".to_vec());
    assert_eq!(headers.get(b"X-A"), Some(&b"3".to_vec()));
    assert_eq!(headers.get(b"X-B"), Some(&b"2".to_vec()));
}

#[test]
fn names_keep_their_case() {
    let mut headers = Headers::new();
    headers.insert(b"Sec-WebSocket-Key".to_vec(), b"k".to_vec());
    assert!(headers.contains_key(b"Sec-WebSocket-Key"));
    assert!(!headers.contains_key(b"sec-websocket-key"));
    assert!(!headers.contains_key(b"Sec-WebSocket-Ke"));
}

#[test]
fn byte_strings_compare_by_content() {
    assert!(bytes_eq(b"", b""));
    assert!(bytes_eq(b"abc", b"abc"));
    assert!(!bytes_eq(b"abc", b"abd"));
    assert!(!bytes_eq(b"abc", b"ab"));
    assert!(!bytes_eq(b"", b"a"));
}

#[test]
fn copy_and_append() {
    assert_eq!(copy_bytes(b"abc"), b"abc".to_vec());
    assert_eq!(copy_bytes(b""), Vec::<u8>::new());
    let mut buffer = b"ab".to_vec();
    append_bytes(&mut buffer, b"cd");
    append_bytes(&mut buffer, b"");
    assert_eq!(buffer, b"abcd".to_vec());
}

#[test]
fn handler_starts_empty() {
    let handler = HttpParser::new();
    assert!(!handler.is_complete());
    assert!(!handler.headers().contains_key(b"Host"));
}

#[test]
fn handler_stores_a_pair() {
    let mut handler = HttpParser::new();
    assert!(handler.on_header_field(b"Host"));
    assert!(!handler.headers().contains_key(b"Host"));
    assert!(handler.on_header_value(b"example.com"));
    assert_eq!(handler.headers().get(b"Host"), Some(&b"example.com".to_vec()));
}

#[test]
fn handler_joins_the_parts_of_a_name() {
    let mut handler = HttpParser::new();
    assert!(handler.on_header_field(b"Sec-Web"));
    assert!(handler.on_header_field(b"Socket-"));
    assert!(handler.on_header_field(b"Key"));
    assert!(handler.on_header_value(b"abc"));
    assert_eq!(handler.headers().get(b"Sec-WebSocket-Key"), Some(&b"abc".to_vec()));
    assert!(!handler.headers().contains_key(b"Key"));
    assert!(!handler.headers().contains_key(b"Sec-Web"));
}

#[test]
fn handler_joins_the_parts_of_a_value() {
    let mut handler = HttpParser::new();
    assert!(handler.on_header_field(b"Sec-WebSocket-Key"));
    assert!(handler.on_header_value(b"dGhlIHNh"));
    assert!(handler.on_header_value(b""));
    assert!(handler.on_header_value(b"bXBsZSBub25jZQ=="));
    assert_eq!(
        handler.headers().get(b"Sec-WebSocket-Key"),
        Some(&b"dGhlIHNhbXBsZSBub25jZQ==".to_vec())
    );
}

#[test]
fn handler_begins_a_new_name_after_a_value() {
    let mut handler = HttpParser::new();
    assert!(handler.on_header_field(b"A"));
    assert!(handler.on_header_value(b"1"));
    assert!(handler.on_header_field(b"B"));
    assert!(handler.on_header_value(b"2"));
    assert_eq!(handler.headers().get(b"A"), Some(&b"1".to_vec()));
    assert_eq!(handler.headers().get(b"B"), Some(&b"2".to_vec()));
    assert!(!handler.headers().contains_key(b"AB"));
}

#[test]
fn handler_lets_a_repeated_name_replace_the_value() {
    let mut handler = HttpParser::new();
    assert!(handler.on_header_field(b"A"));
    assert!(handler.on_header_value(b"first"));
    assert!(handler.on_header_field(b"A"));
    assert!(handler.on_header_value(b"sec"));
    assert!(handler.on_header_value(b"ond"));
    assert_eq!(handler.headers().get(b"A"), Some(&b"second".to_vec()));
}

#[test]
fn handler_refuses_a_value_without_a_name() {
    let mut handler = HttpParser::new();
    assert!(!handler.on_header_value(b"orphan"));
    assert!(!handler.headers().contains_key(b""));
    assert!(!handler.is_complete());
}

#[test]
fn handler_notes_the_end_of_the_headers() {
    let mut handler = HttpParser::new();
    assert!(handler.on_header_field(b"A"));
    assert!(handler.on_header_value(b"1"));
    assert!(!handler.on_headers_complete());
    assert!(handler.is_complete());
    assert_eq!(handler.headers().get(b"A"), Some(&b"1".to_vec()));
}

#[test]
fn parts_cut_anywhere_give_the_same_headers() {
    let name: &[u8] = b"Sec-WebSocket-Key";
    let value: &[u8] = b"dGhlIHNhbXBsZSBub25jZQ==";
    for i in 0..=name.len() {
        for j in 0..=value.len() {
            let mut handler = HttpParser::new();
            assert!(handler.on_header_field(b"Host"));
            assert!(handler.on_header_value(b"h"));
            assert!(handler.on_header_field(&name[..i]));
            assert!(handler.on_header_field(&name[i..]));
            assert!(handler.on_header_value(&value[..j]));
            assert!(handler.on_header_value(&value[j..]));
            assert_eq!(handler.headers().get(name), Some(&value.to_vec()));
            assert_eq!(handler.headers().get(b"Host"), Some(&b"h".to_vec()));
        }
    }
}
