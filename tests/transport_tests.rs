use tokio_lsp::transport::{
    parse_header_field, read_frame, FrameRead, Message, MessageHeaders, Transport,
    DEFAULT_CONTENT_TYPE,
};
use tokio_lsp::LspError;

fn frame_of(content: &str) -> Vec<u8> {
    Message::new(content).to_bytes()
}

fn expect_frame(r: FrameRead) -> (Message, usize) {
    match r {
        FrameRead::Complete(m, n) => (m, n),
        FrameRead::Incomplete => panic!("frame reported incomplete"),
        FrameRead::Failed(e) => panic!("frame failed: {:?}", e),
    }
}

fn expect_transport_error(r: FrameRead) {
    match r {
        FrameRead::Failed(LspError::Transport(_)) => {}
        FrameRead::Failed(e) => panic!("wrong error: {:?}", e),
        FrameRead::Complete(m, _) => panic!("unexpected frame: {}", m.content),
        FrameRead::Incomplete => panic!("frame reported incomplete"),
    }
}

#[test]
fn test_message_headers() {
    let headers = MessageHeaders::new(42).add_header("Custom-Header", "custom-value");

    assert_eq!(headers.content_length, 42);
    assert_eq!(headers.content_type, DEFAULT_CONTENT_TYPE);
    assert_eq!(
        headers.header_value("Custom-Header"),
        Some("custom-value".to_string())
    );
}

#[test]
fn test_encoding_detection() {
    let headers = MessageHeaders::with_content_type(10, "application/json; charset=utf-8");
    assert_eq!(headers.get_encoding(), "utf-8");

    let headers_utf8 = MessageHeaders::with_content_type(10, "application/json; charset=utf8");
    assert_eq!(headers_utf8.get_encoding(), "utf-8");

    let headers_default = MessageHeaders::new(10);
    assert_eq!(headers_default.get_encoding(), "utf-8");
}

#[test]
fn test_message_serialization() {
    let content = r#"{"jsonrpc":"2.0","id":1,"method":"test"}"#;
    let message = Message::new(content);
    let bytes = message.to_bytes();
    let expected = format!("Content-Length: {}\r\n\r\n{}", content.len(), content);
    assert_eq!(String::from_utf8(bytes).unwrap(), expected);
}

#[test]
fn test_header_parsing() {
    assert_eq!(
        parse_header_field("Content-Length: 123").unwrap(),
        Some(("Content-Length".to_string(), "123".to_string()))
    );

    assert_eq!(
        parse_header_field("Custom-Header: value with spaces").unwrap(),
        Some(("Custom-Header".to_string(), "value with spaces".to_string()))
    );

    assert_eq!(parse_header_field("").unwrap(), None);

    assert!(parse_header_field("InvalidHeader").is_err());
}

#[test]
fn header_parsing_trims_unicode_whitespace() {
    assert_eq!(
        parse_header_field("\u{a0} Name\t: \u{3000}value \u{2003}").unwrap(),
        Some(("Name".to_string(), "value".to_string()))
    );
    assert_eq!(
        parse_header_field("A: b: c").unwrap(),
        Some(("A".to_string(), "b: c".to_string()))
    );
}

#[test]
fn encoding_with_other_charset_and_parameters() {
    let h = MessageHeaders::with_content_type(1, "text/plain; charset= latin1 ; x=y");
    assert_eq!(h.get_encoding(), "latin1");
    let h = MessageHeaders::with_content_type(1, "text/plain");
    assert_eq!(h.get_encoding(), "utf-8");
}

#[test]
fn add_header_replaces_existing_value() {
    let h = MessageHeaders::new(1)
        .add_header("X-A", "1")
        .add_header("X-B", "2")
        .add_header("X-A", "3");
    assert_eq!(h.additional.len(), 2);
    assert_eq!(h.header_value("X-A"), Some("3".to_string()));
    assert_eq!(h.header_value("X-B"), Some("2".to_string()));
    assert_eq!(h.header_value("X-C"), None);
}

#[test]
fn to_bytes_writes_content_type_and_extra_headers() {
    let mut m = Message::new("{}");
    m.headers = MessageHeaders::with_content_type(2, "application/json; charset=utf8")
        .add_header("X-Trace", "on");
    let text = String::from_utf8(m.to_bytes()).unwrap();
    assert_eq!(
        text,
        "Content-Length: 2\r\nContent-Type: application/json; charset=utf8\r\nX-Trace: on\r\n\r\n{}"
    );
}

#[test]
fn round_trip_reproduces_body_and_length() {
    let body = r#"{"jsonrpc":"2.0","id":1,"method":"test/method","params":{"text":"héllo ✓"}}"#;
    let message = Message::new(body);
    let (read, used) = expect_frame(read_frame(&message.to_bytes()));
    assert_eq!(read.content, message.content);
    assert_eq!(read.headers.content_length, message.headers.content_length);
    assert_eq!(read.headers.content_length, body.len());
    assert_eq!(used, message.to_bytes().len());
}

#[test]
fn round_trip_keeps_extra_headers() {
    let mut m = Message::new("[1,2]");
    m.headers = m.headers.add_header("X-One", "1");
    let (read, _) = expect_frame(read_frame(&m.to_bytes()));
    assert_eq!(read.content, "[1,2]");
    assert_eq!(read.headers.header_value("X-One"), Some("1".to_string()));
    assert_eq!(read.headers.content_type, DEFAULT_CONTENT_TYPE);
}

#[test]
fn two_frames_are_read_in_order() {
    let first = "{\"jsonrpc\":\"2.0\",\"id\":10}";
    let second = "{\"jsonrpc\":\"2.0\",\"id\":20}";
    assert_eq!(first.len(), 25);
    let mut bytes = format!("Content-Length: 25\r\n\r\n{}", first).into_bytes();
    bytes.extend_from_slice(format!("Content-Length: 25\r\n\r\n{}", second).as_bytes());
    let mut t = Transport::new((), ());
    t.receive_bytes(&bytes);
    let (m1, n1) = expect_frame(t.next_message());
    assert_eq!(m1.content, first);
    assert_eq!(m1.content.len(), 25);
    assert_eq!(n1, 22 + 25);
    let (m2, _) = expect_frame(t.next_message());
    assert_eq!(m2.content, second);
    assert_eq!(m2.content.len(), 25);
    assert!(matches!(t.next_message(), FrameRead::Incomplete));
    assert!(t.finish().is_none());
}

#[test]
fn partial_input_waits_for_more_bytes() {
    let body = "{\"jsonrpc\":\"2.0\",\"id\":1}";
    let mut t = Transport::new((), ());
    t.receive_bytes(b"Content-");
    assert!(matches!(t.next_message(), FrameRead::Incomplete));
    t.receive_bytes(b"Length: 24\r\n\r\n");
    assert!(matches!(t.next_message(), FrameRead::Incomplete));
    t.receive_bytes(body.as_bytes());
    let (m, _) = expect_frame(t.next_message());
    assert_eq!(m.content, body);
}

#[test]
fn missing_content_length_is_a_framing_error() {
    expect_transport_error(read_frame(b"\r\n\r\n{\"test\":true}"));
    expect_transport_error(read_frame(b"X-Other: 1\r\n\r\n{}"));
}

#[test]
fn bare_newline_input_never_frames_and_ends_as_framing_error() {
    let mut t = Transport::new((), ());
    t.receive_bytes(b"\n\n{\"test\":true}");
    assert!(matches!(t.next_message(), FrameRead::Incomplete));
    assert!(matches!(t.finish(), Some(LspError::Transport(_))));
}

#[test]
fn bare_newline_headers_are_not_accepted() {
    let r = read_frame(b"Content-Length: 2\n\n{}");
    assert!(matches!(r, FrameRead::Incomplete));
}

#[test]
fn invalid_content_length_is_rejected() {
    expect_transport_error(read_frame(b"Content-Length: abc\r\n\r\n{}"));
    expect_transport_error(read_frame(b"Content-Length: -2\r\n\r\n{}"));
    expect_transport_error(read_frame(b"Content-Length: 99999999999999999999999\r\n\r\n{}"));
}

#[test]
fn content_length_accepts_plus_sign_and_any_case() {
    let (m, n) = expect_frame(read_frame(b"content-LENGTH: +2\r\n\r\n{}tail"));
    assert_eq!(m.content, "{}");
    assert_eq!(n, 24);
}

#[test]
fn malformed_header_line_is_rejected() {
    expect_transport_error(read_frame(b"InvalidHeader\r\n\r\n{}"));
}

#[test]
fn unsupported_charset_is_rejected() {
    expect_transport_error(read_frame(
        b"Content-Length: 2\r\nContent-Type: text/plain; charset=latin1\r\n\r\n{}",
    ));
    let (m, _) = expect_frame(read_frame(
        b"Content-Length: 2\r\nContent-Type: application/json; charset=utf8\r\n\r\n{}",
    ));
    assert_eq!(m.headers.content_type, "application/json; charset=utf8");
}

#[test]
fn invalid_utf8_is_rejected() {
    expect_transport_error(read_frame(b"Content-Length: 2\r\n\r\n\xff\xfe"));
    expect_transport_error(read_frame(b"X-\xff: 1\r\nContent-Length: 2\r\n\r\n{}"));
}

#[test]
fn empty_body_is_a_frame() {
    let (m, n) = expect_frame(read_frame(b"Content-Length: 0\r\n\r\n"));
    assert_eq!(m.content, "");
    assert_eq!(n, 21);
}

#[test]
fn short_body_is_incomplete() {
    assert!(matches!(
        read_frame(b"Content-Length: 10\r\n\r\n{}"),
        FrameRead::Incomplete
    ));
    assert!(matches!(read_frame(b""), FrameRead::Incomplete));
}

#[test]
fn message_new_counts_bytes_not_characters() {
    let m = Message::new("é✓");
    assert_eq!(m.headers.content_length, 5);
    let bytes = frame_of("é✓");
    assert!(bytes.starts_with(b"Content-Length: 5\r\n\r\n"));
}

#[test]
fn content_length_one_past_the_body_swallows_the_next_frame_start() {
    let body = "{\"jsonrpc\":\"2.0\",\"id\":1}";
    assert_eq!(body.len(), 24);
    let one = format!("Content-Length: 25\r\n\r\n{}", body);
    let mut t = Transport::new((), ());
    t.receive_bytes(format!("{}{}", one, one).as_bytes());
    let (m, _) = expect_frame(t.next_message());
    assert_eq!(m.content, format!("{}C", body));
    expect_transport_error(t.next_message());
}
