use rocqd::json::Json;
use rocqd::lsp::jsonrpc::{Message, MessageKind, Notification, ParseError, Request, Response};
use rocqd::lsp::transport::{FrameError, LspTransport, Received};

fn text(s: &str) -> Json {
    Json::Text(s.to_string())
}

fn object(members: Vec<(&str, Json)>) -> Json {
    Json::Object(members.into_iter().map(|(k, v)| (k.to_string(), v)).collect())
}

fn receive(transport: &mut LspTransport, ended: bool) -> Message {
    match transport.recv_message(ended) {
        Received::Message(m) => m,
        other => panic!("expected a message, got {other:?}"),
    }
}

#[test]
fn roundtrip_request() {
    let sender = LspTransport::new();
    let mut receiver = LspTransport::new();
    let req = Message::Request(Request::new(
        1i64.into(),
        "test/method",
        Some(object(vec![("key", text("value"))])),
    ));
    receiver.arrive(&sender.send_message(&req));
    match receive(&mut receiver, false) {
        Message::Request(r) => {
            assert_eq!(r.method, "test/method");
            assert_eq!(r.params.unwrap().get("key"), Some(&text("value")));
        }
        other => panic!("expected Request, got {other:?}"),
    }
}

#[test]
fn roundtrip_response() {
    let sender = LspTransport::new();
    let mut receiver = LspTransport::new();
    let resp = Message::Response(Response::ok(
        1i64.into(),
        object(vec![("capabilities", object(vec![]))]),
    ));
    receiver.arrive(&sender.send_message(&resp));
    match receive(&mut receiver, false) {
        Message::Response(r) => {
            assert!(r.result.is_some());
            assert!(r.error.is_none());
        }
        other => panic!("expected Response, got {other:?}"),
    }
}

#[test]
fn roundtrip_notification() {
    let sender = LspTransport::new();
    let mut receiver = LspTransport::new();
    let notif = Message::Notification(Notification::new(
        "textDocument/publishDiagnostics",
        Some(object(vec![("uri", text("file:///test.v")), ("diagnostics", Json::Array(vec![]))])),
    ));
    receiver.arrive(&sender.send_message(&notif));
    match receive(&mut receiver, false) {
        Message::Notification(n) => {
            assert_eq!(n.method, "textDocument/publishDiagnostics");
        }
        other => panic!("expected Notification, got {other:?}"),
    }
}

#[test]
fn multiple_messages() {
    let sender = LspTransport::new();
    let mut receiver = LspTransport::new();
    for i in 0..3 {
        let req = Message::Request(Request::new((i as i64).into(), "test", None));
        receiver.arrive(&sender.send_message(&req));
    }
    for i in 0..3 {
        match receive(&mut receiver, false) {
            Message::Request(r) => {
                assert_eq!(r.id, (i as i64).into());
            }
            other => panic!("expected Request, got {other:?}"),
        }
    }
}

#[test]
fn a_frame_counts_bytes() {
    let sender = LspTransport::new();
    assert_eq!(sender.send_raw("é"), "Content-Length: 2\r\n\r\né".as_bytes());
    assert_eq!(sender.send_raw(""), b"Content-Length: 0\r\n\r\n");
    assert_eq!(
        sender.send_message(&Message::Notification(Notification::new("exit", None))),
        b"Content-Length: 33\r\n\r\n{\"jsonrpc\":\"2.0\",\"method\":\"exit\"}"
    );
}

#[test]
fn a_message_arrives_byte_by_byte() {
    let sender = LspTransport::new();
    let mut receiver = LspTransport::new();
    let bytes = sender.send_message(&Message::Request(Request::new(5i64.into(), "é", None)));
    let (last, most) = bytes.split_last().unwrap();
    for b in most {
        receiver.arrive(&[*b]);
        assert!(matches!(receiver.recv_message(false), Received::Pending));
    }
    receiver.arrive(&[*last]);
    assert!(matches!(receive(&mut receiver, false), Message::Request(r) if r.method == "é"));
    assert!(matches!(receiver.recv_message(false), Received::Pending));
    assert!(matches!(receiver.recv_message(true), Received::Failed(FrameError::HeaderEnd)));
}

#[test]
fn headers_are_read_leniently() {
    let mut receiver = LspTransport::new();
    // Other headers are passed over, a bare line feed ends a line, the last length counts.
    receiver.arrive(b"Content-Type: x\nContent-Length: 1\r\nContent-Length: +33\n\n");
    receiver.arrive(b"{\"jsonrpc\":\"2.0\",\"method\":\"exit\"}rest");
    assert!(matches!(receive(&mut receiver, false), Message::Notification(n) if n.method == "exit"));
}

fn failure(bytes: &[u8], ended: bool) -> FrameError {
    let mut receiver = LspTransport::new();
    receiver.arrive(bytes);
    match receiver.recv_message(ended) {
        Received::Failed(e) => e,
        other => panic!("expected a failure, got {other:?}"),
    }
}

#[test]
fn what_cannot_be_received() {
    assert_eq!(failure(b"", true), FrameError::HeaderEnd);
    assert_eq!(failure(b"Content-Length: 2\r\n", true), FrameError::HeaderEnd);
    assert_eq!(failure(b"\xff\n", false), FrameError::HeaderNotUtf8);
    assert_eq!(failure(b"Content-Length: x\r\n", false), FrameError::BadLength);
    assert_eq!(failure(b"Content-Length: -1\r\n", false), FrameError::BadLength);
    assert_eq!(failure(b"Content-Length: 99999999999999999999\r\n", false), FrameError::BadLength);
    assert_eq!(failure(b"\r\n", false), FrameError::MissingLength);
    assert_eq!(failure(b"content-length: 2\r\n\r\n{}", false), FrameError::MissingLength);
    assert_eq!(failure(b"Content-Length: 3\r\n\r\n{}", true), FrameError::BodyEnd);
    assert_eq!(failure(b"Content-Length: 1\r\n\r\n\xff", false), FrameError::BodyNotUtf8);
    assert_eq!(failure(b"Content-Length: 1\r\n\r\n{", false), FrameError::NotJson);
    assert_eq!(
        failure(b"Content-Length: 2\r\n\r\n{}", false),
        FrameError::NotMessage(ParseError { kind: MessageKind::Notification })
    );
    assert_eq!(FrameError::HeaderEnd.to_text(), "unexpected EOF while reading headers");
    assert_eq!(FrameError::HeaderNotUtf8.to_text(), "reading header line");
    assert_eq!(FrameError::BadLength.to_text(), "parsing Content-Length");
    assert_eq!(FrameError::MissingLength.to_text(), "missing Content-Length header");
    assert_eq!(FrameError::BodyEnd.to_text(), "reading message body");
    assert_eq!(FrameError::BodyNotUtf8.to_text(), "message body is not valid UTF-8");
    assert_eq!(FrameError::NotJson.to_text(), "parsing message JSON");
    assert_eq!(
        FrameError::NotMessage(ParseError { kind: MessageKind::Request }).to_text(),
        "parsing JSON-RPC message"
    );
}

#[test]
fn reading_goes_on_after_a_failure() {
    let mut receiver = LspTransport::new();
    receiver.arrive(b"Content-Length: 1\r\n\r\n{");
    receiver.arrive(&LspTransport::new().send_raw("[\"2.0\",\"m\"]"));
    assert!(matches!(receiver.recv_message(false), Received::Failed(FrameError::NotJson)));
    assert!(matches!(receive(&mut receiver, false), Message::Notification(n) if n.method == "m"));
}
