use rocqd::json::Json;
use rocqd::lsp::jsonrpc::{Message, Notification, Request, Response};
use rocqd::lsp::transport::{FrameError, LspTransport, Received};
use rocqd::lsp::types::{Position, Range};
use rocqd::lsp::vsrocq::{
    format_query_result, path_to_uri, BlockOnErrorParams, EventRead, Initialized, QueryKind,
    QueryRead, ResponseRead, UpdateHighlightsParams, VsRocqClient, VsRocqEvent,
};

fn messages(bytes: &[u8]) -> Vec<Message> {
    let mut transport = LspTransport::new();
    transport.arrive(bytes);
    let mut out: Vec<Message> = Vec::new();
    loop {
        match transport.recv_message(true) {
            Received::Message(m) => out.push(m),
            Received::Failed(FrameError::HeaderEnd) => return out,
            other => panic!("expected a message, got {other:?}"),
        }
    }
}

fn only_text(bytes: &[u8]) -> String {
    let list = messages(bytes);
    assert_eq!(list.len(), 1);
    list[0].to_text()
}

fn frame(text: &str) -> Vec<u8> {
    LspTransport::new().send_raw(text)
}

fn notification(method: &str, params: &str) -> Notification {
    Notification::new(method, Some(Json::parse(params).unwrap()))
}

#[test]
fn a_conversation_is_started() {
    let mut client = VsRocqClient::new();
    let (id, bytes) = client.initialize(42, Some("file:///dir"));
    assert_eq!(id, 1);
    assert_eq!(
        only_text(&bytes),
        r#"{"jsonrpc":"2.0","id":1,"method":"initialize","params":{"capabilities":{},"initializationOptions":{"proof":{"block":true,"delegation":"None","mode":1}},"processId":42,"rootUri":"file:///dir"}}"#
    );
    // Nothing more is sent before the response.
    assert!(matches!(client.initialized(id, false), Initialized::Pending));
    client.arrive(&frame(r#"{"jsonrpc":"2.0","method":"window/logMessage","params":{}}"#));
    client.arrive(&frame(r#"{"jsonrpc":"2.0","id":9,"result":{}}"#));
    assert!(matches!(client.initialized(id, false), Initialized::Pending));
    client.arrive(&frame(r#"{"jsonrpc":"2.0","id":1,"result":{"capabilities":{}}}"#));
    match client.initialized(id, false) {
        Initialized::Send(bytes) => assert_eq!(
            only_text(&bytes),
            r#"{"jsonrpc":"2.0","method":"initialized","params":{}}"#
        ),
        other => panic!("expected a message to send, got {other:?}"),
    }
    assert!(matches!(client.initialized(id, true), Initialized::Failed(FrameError::HeaderEnd)));
    let (id, bytes) = client.initialize(1, None);
    assert_eq!(id, 2);
    match &messages(&bytes)[0] {
        Message::Request(r) => {
            assert_eq!(r.id, 2i64.into());
            assert_eq!(r.params.as_ref().unwrap().get("rootUri"), Some(&Json::Null));
        }
        other => panic!("expected Request, got {other:?}"),
    }
}

#[test]
fn a_conversation_is_ended() {
    let mut client = VsRocqClient::new();
    let (id, bytes) = client.shutdown();
    assert_eq!(only_text(&bytes), r#"{"jsonrpc":"2.0","id":1,"method":"shutdown"}"#);
    assert!(matches!(client.recv_response(id, false), ResponseRead::Pending));
    client.arrive(&frame(r#"{"jsonrpc":"2.0","id":1,"result":null}"#));
    assert!(matches!(client.recv_response(id, false), ResponseRead::Response(_)));
    assert_eq!(only_text(&client.exit()), r#"{"jsonrpc":"2.0","method":"exit"}"#);
}

#[test]
fn a_document_is_opened_and_changed() {
    let client = VsRocqClient::new();
    assert_eq!(
        only_text(&client.did_open("file:///a.v", "Check 1.\n")),
        r#"{"jsonrpc":"2.0","method":"textDocument/didOpen","params":{"textDocument":{"languageId":"rocq","text":"Check 1.\n","uri":"file:///a.v","version":1}}}"#
    );
    assert_eq!(
        only_text(&client.did_change("file:///a.v", 2, "é")),
        r#"{"jsonrpc":"2.0","method":"textDocument/didChange","params":{"contentChanges":[{"text":"é"}],"textDocument":{"uri":"file:///a.v","version":2}}}"#
    );
    assert_eq!(
        only_text(&client.interpret_to_end("file:///a.v", -1)),
        r#"{"jsonrpc":"2.0","method":"prover/interpretToEnd","params":{"textDocument":{"uri":"file:///a.v","version":-1}}}"#
    );
}

#[test]
fn ids_follow_each_other() {
    let mut client = VsRocqClient::new();
    assert_eq!((client.next_id(), client.next_id(), client.next_id()), (1, 2, 3));
}

#[test]
fn diagnostics_are_an_event() {
    let event = VsRocqClient::parse_notification(notification(
        "textDocument/publishDiagnostics",
        r#"{"uri":"file:///a.v","diagnostics":[{"range":[[0,0],[0,1]],"message":"m","severity":2}]}"#,
    ));
    match event {
        Some(VsRocqEvent::Diagnostics { uri, diagnostics }) => {
            assert_eq!(uri, "file:///a.v");
            assert_eq!(diagnostics.len(), 1);
            assert_eq!(diagnostics[0].message, "m");
        }
        other => panic!("expected diagnostics, got {other:?}"),
    }
    // Diagnostics that cannot be read are none.
    let event = VsRocqClient::parse_notification(notification(
        "textDocument/publishDiagnostics",
        r#"{"uri":"u","diagnostics":[1]}"#,
    ));
    assert!(
        matches!(event, Some(VsRocqEvent::Diagnostics { diagnostics, .. }) if diagnostics.is_empty())
    );
    for params in [r#"{"uri":1,"diagnostics":[]}"#, r#"{"uri":"u"}"#, r#"["u",[]]"#] {
        assert!(VsRocqClient::parse_notification(notification(
            "textDocument/publishDiagnostics",
            params
        ))
        .is_none());
    }
}

#[test]
fn highlights_are_an_event() {
    let event = VsRocqClient::parse_notification(notification(
        "prover/updateHighlights",
        r#"{"uri":"u","processedRange":[{"start":{"line":0,"character":0},"end":{"line":3,"character":4}}]}"#,
    ));
    match event {
        Some(VsRocqEvent::UpdateHighlights(h)) => {
            assert!(h.prepared_range.is_empty() && h.processing_range.is_empty());
            assert_eq!(
                h.processed_range,
                vec![Range {
                    start: Position { line: 0, character: 0 },
                    end: Position { line: 3, character: 4 },
                }]
            );
        }
        other => panic!("expected highlights, got {other:?}"),
    }
    let event = VsRocqClient::parse_notification(notification("prover/updateHighlights", "[[],[]]"));
    assert!(matches!(event, Some(VsRocqEvent::UpdateHighlights(_))));
    for params in [r#"{"processedRange":null}"#, r#"{"preparedRange":[1]}"#, "[[],[],[],[]]", "1"] {
        assert!(
            VsRocqClient::parse_notification(notification("prover/updateHighlights", params))
                .is_none()
        );
    }
}

#[test]
fn a_block_is_an_event() {
    let event = VsRocqClient::parse_notification(notification(
        "prover/blockOnError",
        r#"{"uri":"u","range":[[1,2],[3,4]],"message":"stuck"}"#,
    ));
    match event {
        Some(VsRocqEvent::BlockOnError(b)) => {
            assert_eq!((b.uri.as_str(), b.message.as_str()), ("u", "stuck"));
            assert_eq!(b.range.start, Position { line: 1, character: 2 });
        }
        other => panic!("expected a block, got {other:?}"),
    }
    // The message can be left out.
    let event = VsRocqClient::parse_notification(notification(
        "prover/blockOnError",
        r#"{"uri":"file:///a.v","range":{"start":{"line":1,"character":0},"end":{"line":1,"character":4}}}"#,
    ));
    match event {
        Some(VsRocqEvent::BlockOnError(b)) => {
            assert_eq!((b.uri.as_str(), b.message.as_str()), ("file:///a.v", ""));
            assert_eq!(b.range.start, Position { line: 1, character: 0 });
            assert_eq!(b.range.end, Position { line: 1, character: 4 });
        }
        other => panic!("expected a block, got {other:?}"),
    }
    for params in [
        r#"{"uri":"u","range":[[1,2],[3,4]],"message":1}"#,
        r#"{"uri":"u","range":[[1,2],[3,4]],"message":null}"#,
        r#"{"uri":"u"}"#,
        r#"{"range":[[1,2],[3,4]],"message":"m"}"#,
    ] {
        assert!(VsRocqClient::parse_notification(notification("prover/blockOnError", params))
            .is_none());
    }
}

#[test]
fn reports_are_read_back() {
    let at = |line: u32| Position { line, character: 2 };
    let highlights = UpdateHighlightsParams {
        prepared_range: vec![],
        processing_range: vec![Range { start: at(1), end: at(2) }],
        processed_range: vec![Range { start: at(0), end: at(1) }, Range { start: at(3), end: at(4) }],
    };
    let read = UpdateHighlightsParams::read(&highlights.to_json()).unwrap();
    assert_eq!(read.prepared_range, highlights.prepared_range);
    assert_eq!(read.processing_range, highlights.processing_range);
    assert_eq!(read.processed_range, highlights.processed_range);
    let block = BlockOnErrorParams {
        uri: "u".to_string(),
        range: Range { start: at(5), end: at(6) },
        message: "m".to_string(),
    };
    let json = block.to_json();
    assert_eq!(json.get("message"), Some(&Json::Text("m".to_string())));
    let read = BlockOnErrorParams::read(&json).unwrap();
    assert_eq!((read.uri, read.range, read.message), (block.uri, block.range, block.message));
}

#[test]
fn other_notifications_are_no_events() {
    assert!(VsRocqClient::parse_notification(notification("prover/moveCursor", "{}")).is_none());
    assert!(
        VsRocqClient::parse_notification(Notification::new("prover/updateHighlights", None)).is_none()
    );
}

#[test]
fn other_messages_are_passed_over() {
    let mut client = VsRocqClient::new();
    client.arrive(&frame(r#"{"jsonrpc":"2.0","id":1,"result":{}}"#));
    client.arrive(&frame(r#"{"jsonrpc":"2.0","id":1,"method":"window/workDone"}"#));
    client.arrive(&frame(r#"{"jsonrpc":"2.0","method":"prover/proofView","params":{}}"#));
    assert!(matches!(client.recv_event(false), EventRead::Pending));
    client.arrive(&frame(r#"{"jsonrpc":"2.0","method":"prover/updateHighlights","params":{}}"#));
    assert!(matches!(
        client.recv_event(false),
        EventRead::Event(VsRocqEvent::UpdateHighlights(_))
    ));
    assert!(matches!(client.recv_event(true), EventRead::Failed(FrameError::HeaderEnd)));
}

#[test]
fn a_query_is_answered_under_its_id() {
    let mut client = VsRocqClient::new();
    let position = Position { line: 4, character: 0 };
    let (query, bytes) = client.check("file:///a.v", 3, position, "nat");
    assert_eq!((query.kind, query.id), (QueryKind::Check, 1));
    assert_eq!(
        only_text(&bytes),
        r#"{"jsonrpc":"2.0","id":1,"method":"prover/check","params":{"pattern":"nat","position":{"character":0,"line":4},"textDocument":{"uri":"file:///a.v","version":3}}}"#
    );
    client.arrive(&frame(r#"{"jsonrpc":"2.0","id":2,"result":"other"}"#));
    client.arrive(&frame(r#"{"jsonrpc":"2.0","method":"prover/updateHighlights","params":{}}"#));
    assert!(matches!(client.recv_answer(&query, false), QueryRead::Pending));
    // The id counts as it is shown, so a string will do.
    client.arrive(&frame(r#"{"jsonrpc":"2.0","id":"1","result":"nat : Set"}"#));
    assert!(matches!(client.recv_answer(&query, false), QueryRead::Answer(s) if s == "nat : Set"));

    let (query, bytes) = client.print("u", 1, position, "p");
    assert!(only_text(&bytes).contains(r#""method":"prover/print""#));
    client.arrive(&frame(r#"{"jsonrpc":"2.0","id":2,"error":{"code":1,"message":"no"}}"#));
    assert!(
        matches!(client.recv_answer(&query, false), QueryRead::Failed(s) if s == "print failed: no")
    );

    let (query, bytes) = client.about("u", 1, position, "p");
    assert!(only_text(&bytes).contains(r#""method":"prover/about""#));
    assert!(matches!(
        client.recv_answer(&query, true),
        QueryRead::Failed(s) if s == "unexpected EOF while reading headers"
    ));
}

#[test]
fn replies_come_to_a_text() {
    let ok = |v: Json| Response::ok(1i64.into(), v);
    assert_eq!(
        QueryKind::Check.read_reply(&ok(Json::Text("x".to_string()))),
        Ok("x".to_string())
    );
    let mut none = ok(Json::Null);
    none.result = None;
    assert_eq!(QueryKind::About.read_reply(&none), Ok(String::new()));
    assert_eq!(
        QueryKind::About.read_reply(&Response::error(1i64.into(), 3, "why")),
        Err("about failed: why".to_string())
    );
    assert_eq!(QueryKind::Print.to_text(), "print");
}

#[test]
fn results_are_formatted() {
    let format = |s: &str| format_query_result(&Json::parse(s).unwrap());
    assert_eq!(format(r#""plain""#), "plain");
    assert_eq!(format(r#"{"message":"said","x":1}"#), "said");
    assert_eq!(format(r#"{"message":1}"#), "{\n  \"message\": 1\n}");
    assert_eq!(format(r#"["Ppcmd_string","nat"]"#), "[\n  \"Ppcmd_string\",\n  \"nat\"\n]");
    assert_eq!(format("null"), "null");
}

#[test]
fn files_have_uris() {
    assert_eq!(path_to_uri(b"/a/b.v", b"/base"), "file:///a/b.v");
    assert_eq!(path_to_uri(b"b.v", b"/base"), "file:///base/b.v");
    assert_eq!(path_to_uri("/é x".as_bytes(), b""), "file:///é x");
    assert_eq!(path_to_uri(b"/\xff", b""), "file:///\u{fffd}");
}

#[test]
fn a_broken_pipe_is_reported() {
    let mut client = VsRocqClient::new();
    assert_eq!(client.broken(), "reading header line");
    client.arrive(b"Content-Length: 5\r\n");
    assert_eq!(client.broken(), "reading header line");
    client.arrive(b"\r\n{");
    assert_eq!(client.broken(), "reading message body");
    assert!(matches!(client.recv(false), Received::Pending));
    let request = Request::new(1i64.into(), "m", None);
    let mut client = VsRocqClient::new();
    client.arrive(&LspTransport::new().send_message(&Message::Request(request)));
    assert!(matches!(client.recv(false), Received::Message(Message::Request(_))));
}
