use rocqd::json::Json;
use rocqd::lsp::jsonrpc::{
    Id, Message, MessageKind, Notification, ParseError, ReadError, Request, Response,
};

fn text(s: &str) -> Json {
    Json::Text(s.to_string())
}

fn object(members: Vec<(&str, Json)>) -> Json {
    Json::Object(members.into_iter().map(|(k, v)| (k.to_string(), v)).collect())
}

#[test]
fn parse_request() {
    let val = object(vec![
        ("jsonrpc", text("2.0")),
        ("id", Json::Unsigned(1)),
        ("method", text("initialize")),
        ("params", object(vec![("capabilities", object(vec![]))])),
    ]);
    let msg = Message::parse(val).unwrap();
    assert!(matches!(msg, Message::Request(r) if r.method == "initialize"));
}

#[test]
fn parse_response() {
    let val = object(vec![
        ("jsonrpc", text("2.0")),
        ("id", Json::Unsigned(1)),
        ("result", object(vec![("capabilities", object(vec![]))])),
    ]);
    let msg = Message::parse(val).unwrap();
    assert!(matches!(msg, Message::Response(r) if r.result.is_some()));
}

#[test]
fn parse_notification() {
    let val = object(vec![
        ("jsonrpc", text("2.0")),
        ("method", text("textDocument/publishDiagnostics")),
        (
            "params",
            object(vec![("uri", text("file:///test.v")), ("diagnostics", Json::Array(vec![]))]),
        ),
    ]);
    let msg = Message::parse(val).unwrap();
    assert!(
        matches!(msg, Message::Notification(n) if n.method == "textDocument/publishDiagnostics")
    );
}

#[test]
fn parse_error_response() {
    let val = object(vec![
        ("jsonrpc", text("2.0")),
        ("id", Json::Unsigned(2)),
        (
            "error",
            object(vec![("code", Json::Signed(-32600)), ("message", text("Invalid Request"))]),
        ),
    ]);
    let msg = Message::parse(val).unwrap();
    assert!(matches!(msg, Message::Response(r) if r.error.is_some()));
}

#[test]
fn request_serialization_roundtrip() {
    let req = Request::new(1i64.into(), "test/method", Some(object(vec![("key", text("value"))])));
    let json_str = Message::Request(req).to_text();
    let parsed = match Message::read_text(&json_str).unwrap() {
        Message::Request(r) => r,
        other => panic!("expected Request, got {other:?}"),
    };
    assert_eq!(parsed.method, "test/method");
    assert_eq!(parsed.id, Id::Number(1));
    assert_eq!(parsed.params, Some(object(vec![("key", text("value"))])));
}

#[test]
fn members_are_written_in_order() {
    let req = Request::new(
        Id::from("a".to_string()),
        "m",
        Some(object(vec![("z", Json::Unsigned(1)), ("a", Json::Null)])),
    );
    assert_eq!(
        Message::Request(req).to_text(),
        r#"{"jsonrpc":"2.0","id":"a","method":"m","params":{"a":null,"z":1}}"#
    );
    assert_eq!(
        Message::Notification(Notification::new("exit", None)).to_text(),
        r#"{"jsonrpc":"2.0","method":"exit"}"#
    );
    assert_eq!(
        Message::Response(Response::ok(Id::Number(-3), Json::Bool(true))).to_text(),
        r#"{"jsonrpc":"2.0","id":-3,"result":true}"#
    );
    assert_eq!(
        Message::Response(Response::error(Id::Number(7), -32601, "no \"m\"\n")).to_text(),
        r#"{"jsonrpc":"2.0","id":7,"error":{"code":-32601,"message":"no \"m\"\n"}}"#
    );
}

#[test]
fn an_error_is_written_in_order() {
    let mut r = Response::error(Id::Number(7), -1, "m");
    r.result = Some(Json::Bool(true));
    r.error.as_mut().unwrap().data = Some(object(vec![("b", Json::Null), ("a", text("x"))]));
    let written = Message::Response(r).to_text();
    assert_eq!(
        written,
        r#"{"jsonrpc":"2.0","id":7,"result":true,"error":{"code":-1,"message":"m","data":{"a":"x","b":null}}}"#
    );
    match Message::read_text(&written).unwrap() {
        Message::Response(r) => {
            let e = r.error.unwrap();
            assert_eq!((e.code, e.message.as_str()), (-1, "m"));
            assert_eq!(e.data.unwrap().get("a"), Some(&text("x")));
        }
        other => panic!("expected Response, got {other:?}"),
    }
}

#[test]
fn messages_are_told_apart_by_their_fields() {
    // An id alone makes a response, even where there is neither result nor error.
    let msg = Message::read_text(r#"{"jsonrpc":"2.0","id":"x"}"#).unwrap();
    match msg {
        Message::Response(r) => {
            assert_eq!(r.id, Id::String("x".to_string()));
            assert!(r.result.is_none() && r.error.is_none());
        }
        other => panic!("expected Response, got {other:?}"),
    }
    // A null result is none.
    match Message::read_text(r#"{"jsonrpc":"2.0","id":1,"result":null,"error":null}"#).unwrap() {
        Message::Response(r) => assert!(r.result.is_none() && r.error.is_none()),
        other => panic!("expected Response, got {other:?}"),
    }
    // A request with a null id is read as one, and has no id.
    assert_eq!(
        Message::read_text(r#"{"jsonrpc":"2.0","id":null,"method":"m"}"#).err(),
        Some(ReadError::NotMessage(ParseError { kind: MessageKind::Request }))
    );
    // A notification can be written as an array.
    match Message::read_text(r#"["2.0","m"]"#).unwrap() {
        Message::Notification(n) => assert_eq!((n.method.as_str(), n.params), ("m", None)),
        other => panic!("expected Notification, got {other:?}"),
    }
}

#[test]
fn what_is_no_message_is_refused() {
    assert_eq!(Message::read_text("{").err(), Some(ReadError::NotJson));
    assert_eq!(
        Message::read_text("{}").err(),
        Some(ReadError::NotMessage(ParseError { kind: MessageKind::Notification }))
    );
    assert_eq!(
        Message::read_text(r#"{"id":1}"#).err(),
        Some(ReadError::NotMessage(ParseError { kind: MessageKind::Response }))
    );
    assert_eq!(
        Message::read_text(r#"{"jsonrpc":"2.0","id":1,"error":{"code":2147483648,"message":""}}"#)
            .err(),
        Some(ReadError::NotMessage(ParseError { kind: MessageKind::Response }))
    );
    assert_eq!(
        Message::read_text(r#"{"jsonrpc":2.0,"id":1,"method":"m"}"#).err(),
        Some(ReadError::NotMessage(ParseError { kind: MessageKind::Request }))
    );
}

#[test]
fn ids_are_shown() {
    assert_eq!(Id::from(i64::MIN).to_text(), "-9223372036854775808");
    assert_eq!(Id::Number(0).to_text(), "0");
    assert_eq!(Id::String("q-1".to_string()).to_text(), "q-1");
}
