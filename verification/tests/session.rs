use rocqd::json::Json;
use rocqd::lsp::transport::{LspTransport, Received};
use rocqd::lsp::types::{Position, Range, ERROR};
use rocqd::lsp::vsrocq::{QueryRead, VsRocqClient};
use rocqd::session::{
    covers_document, hash_content, measure, write_timeout, Arrival, Completion, Drained,
    ExecutionStatus, Extent, FileSession, Start,
};

const SIMPLE: &str = "Definition a := 1.\nCheck a.\n";

fn simple() -> FileSession {
    FileSession::open(b"/work/simple.v".to_vec(), SIMPLE.to_string(), vec!["-q".to_string()], 7).0
}

fn texts(sends: &[Vec<u8>]) -> Vec<String> {
    let mut transport = LspTransport::new();
    for bytes in sends {
        transport.arrive(bytes);
    }
    let mut out: Vec<String> = Vec::new();
    while let Received::Message(m) = transport.recv_message(false) {
        out.push(m.to_text());
    }
    out
}

fn frame(text: &str) -> Vec<u8> {
    LspTransport::new().send_raw(text)
}

fn highlights(line: u32, character: u32) -> Vec<u8> {
    frame(&format!(
        r#"{{"jsonrpc":"2.0","method":"prover/updateHighlights","params":{{"processedRange":[[[0,0],[{line},{character}]]]}}}}"#
    ))
}

fn diagnostics(severity: &str, message: &str) -> Vec<u8> {
    frame(&format!(
        r#"{{"jsonrpc":"2.0","method":"textDocument/publishDiagnostics","params":{{"uri":"file:///work/simple.v","diagnostics":[{{"range":[[1,2],[1,5]],"severity":{severity},"message":"{message}"}}]}}}}"#
    ))
}

#[test]
fn digests_are_in_hexadecimal() {
    assert_eq!(
        hash_content(""),
        "e3b0c44298fc1c149afbf4c8996fb92427ae41e4649b934ca495991b7852b855"
    );
    assert_eq!(
        hash_content("abc"),
        "ba7816bf8f01cfea414140de5dae2223b00361a396177a9cb410ff61f20015ad"
    );
}

fn extent(s: &str) -> (u32, u32) {
    let Extent { lines, last_line } = measure(s);
    (lines, last_line)
}

#[test]
fn documents_are_measured() {
    assert_eq!(extent(""), (0, 0));
    assert_eq!(extent("a"), (1, 1));
    assert_eq!(extent("a\nbcd"), (2, 3));
    assert_eq!(extent("a\nbcd\n"), (2, 3));
    assert_eq!(extent("a\r\nbcd\r\n"), (2, 3));
    assert_eq!(extent("a\nbcd\r"), (2, 4));
    assert_eq!(extent("a\n\n"), (2, 0));
    assert_eq!(extent("\n"), (1, 0));
    assert_eq!(extent("\r\n"), (1, 0));
    assert_eq!(extent("é"), (1, 2));
    for s in ["", "a", "a\n", "a\r", "a\r\r\n", "\r", "\n\n\r\n", "x\ny\r\nz"] {
        let lines: Vec<&str> = s.lines().collect();
        assert_eq!(
            extent(s),
            (lines.len() as u32, lines.last().map_or(0, |l| l.len() as u32)),
            "{s:?}"
        );
    }
}

fn to(line: u32, character: u32) -> Range {
    Range { start: Position { line: 0, character: 0 }, end: Position { line, character } }
}

#[test]
fn a_document_is_covered_to_its_end() {
    assert!(covers_document(&[], 0, 0));
    assert!(!covers_document(&[], 1, 0));
    assert!(covers_document(&[to(2, 5)], 3, 5));
    assert!(!covers_document(&[to(2, 4)], 3, 5));
    assert!(covers_document(&[to(3, 0)], 3, 5));
    assert!(!covers_document(&[to(1, 9)], 3, 5));
    assert!(covers_document(&[to(1, 9), to(2, 6), to(0, 0)], 3, 5));
    assert!(covers_document(&[to(0, 0)], 1, 0));
}

#[test]
fn opening_sends_the_document() {
    let (mut session, bytes) = FileSession::open(b"/work/a.v".to_vec(), "Check 1.".to_string(), vec![], 7);
    let list = texts(&[bytes]);
    assert_eq!(list.len(), 1);
    assert!(list[0].contains(r#""method":"initialize""#));
    assert!(list[0].contains(r#""processId":7,"rootUri":"file:///work""#));
    assert!(matches!(session.start(Arrival::Nothing), Start::Pending));
    let response = frame(r#"{"jsonrpc":"2.0","id":1,"result":{}}"#);
    let sends = match session.start(Arrival::Bytes(response)) {
        Start::Send(sends) => sends,
        other => panic!("expected messages to send, got {other:?}"),
    };
    assert_eq!(sends.len(), 3);
    assert_eq!(
        texts(&sends),
        vec![
            r#"{"jsonrpc":"2.0","method":"initialized","params":{}}"#,
            r#"{"jsonrpc":"2.0","method":"textDocument/didOpen","params":{"textDocument":{"languageId":"rocq","text":"Check 1.","uri":"file:///work/a.v","version":1}}}"#,
            r#"{"jsonrpc":"2.0","method":"prover/interpretToEnd","params":{"textDocument":{"uri":"file:///work/a.v","version":1}}}"#,
        ]
    );
    assert_eq!(session.status, ExecutionStatus::Processing);
    assert_eq!(session.path, b"/work/a.v");
    assert!(session.diagnostics.is_empty() && !session.has_errors());
    // The root has no parent, so there is no root URI.
    let (_, bytes) = FileSession::open(b"/".to_vec(), String::new(), vec![], 7);
    assert!(texts(&[bytes])[0].contains(r#""rootUri":null"#));
}

#[test]
fn a_conversation_may_not_start() {
    for arrival in [
        Arrival::Ended,
        Arrival::Broken,
        Arrival::TimedOut,
        Arrival::Bytes(b"\n".to_vec()),
    ] {
        assert!(matches!(simple().start(arrival), Start::Failed));
    }
}

#[test]
fn a_file_is_complete_when_it_is_covered() {
    let mut session = simple();
    assert!(matches!(session.wait_for_completion(30, Arrival::Nothing), Completion::Pending));
    assert!(matches!(
        session.wait_for_completion(30, Arrival::Bytes(highlights(1, 7))),
        Completion::Pending
    ));
    assert_eq!(session.status, ExecutionStatus::Processing);
    assert!(matches!(
        session.wait_for_completion(30, Arrival::Bytes(highlights(1, 8))),
        Completion::Done
    ));
    assert_eq!(session.status, ExecutionStatus::Complete);
    assert!(session.diagnostics.is_empty());
    assert!(!session.has_errors());
}

#[test]
fn a_file_with_an_error_is_blocked() {
    let mut session = simple();
    session.arrive(&diagnostics("2", "a warning"));
    assert_eq!(session.drain_events(false), Drained::Pending);
    assert_eq!(session.diagnostics[0].message, "a warning");
    assert!(!session.has_errors());
    session.arrive(&diagnostics("1", "an error"));
    session.arrive(&highlights(9, 9));
    assert_eq!(session.drain_events(false), Drained::Done);
    // Each report of diagnostics takes the place of the one before.
    assert_eq!(session.diagnostics.len(), 1);
    assert_eq!(session.diagnostics[0].severity, Some(ERROR));
    assert!(session.has_errors());
    assert_eq!(
        session.status,
        ExecutionStatus::BlockedOnError { message: "an error".to_string() }
    );
    // What came after is still there to be read.
    assert_eq!(session.drain_events(false), Drained::Done);
    assert_eq!(session.status, ExecutionStatus::Complete);
}

#[test]
fn a_block_stops_a_file() {
    let mut session = simple();
    session.arrive(&frame(
        r#"{"jsonrpc":"2.0","method":"prover/blockOnError","params":{"uri":"u","range":[[0,0],[0,1]],"message":"stuck"}}"#,
    ));
    assert_eq!(session.drain_events(false), Drained::Done);
    assert_eq!(session.status, ExecutionStatus::BlockedOnError { message: "stuck".to_string() });
    // That is no success, though no diagnostic is an error.
    assert!(!session.has_errors());
    assert!(!session.outcome().success);
}

#[test]
fn it_makes_no_difference_how_events_arrive() {
    let mut bytes = diagnostics("3", "hint");
    bytes.extend(highlights(0, 1));
    bytes.extend(highlights(1, 8));
    let mut session = simple();
    let (last, most) = bytes.split_last().unwrap();
    for b in most {
        assert!(matches!(
            session.wait_for_completion(1, Arrival::Bytes(vec![*b])),
            Completion::Pending
        ));
    }
    assert!(matches!(
        session.wait_for_completion(1, Arrival::Bytes(vec![*last])),
        Completion::Done
    ));
    assert_eq!(session.status, ExecutionStatus::Complete);
    assert_eq!(session.diagnostics[0].message, "hint");
}

#[test]
fn a_processed_file_is_not_waited_for() {
    let mut session = simple();
    session.arrive(&diagnostics("2", "a warning"));
    session.arrive(&highlights(1, 8));
    assert!(matches!(session.wait_for_completion(30, Arrival::Nothing), Completion::Done));
    assert_eq!(session.recompile(SIMPLE), None);
    for arrival in [Arrival::Nothing, Arrival::TimedOut, Arrival::Broken, Arrival::Ended] {
        assert!(matches!(session.wait_for_completion(30, arrival), Completion::Done));
    }
    assert_eq!(session.diagnostics[0].message, "a warning");
    assert!(session.outcome().success);
}

#[test]
fn waiting_can_fail() {
    let failed = |arrival: Arrival| match simple().wait_for_completion(30, arrival) {
        Completion::Failed(s) => s,
        other => panic!("expected a failure, got {other:?}"),
    };
    assert_eq!(failed(Arrival::TimedOut), "timed out waiting for vsrocqtop after 30s");
    assert_eq!(failed(Arrival::Ended), "unexpected EOF while reading headers");
    assert_eq!(failed(Arrival::Broken), "reading header line");
    assert_eq!(failed(Arrival::Bytes(b"\n".to_vec())), "missing Content-Length header");
    assert_eq!(write_timeout(0), "timed out waiting for vsrocqtop after 0s");
}

#[test]
fn a_file_is_sent_again_only_if_it_changed() {
    let mut session = simple();
    session.arrive(&diagnostics("1", "an error"));
    assert_eq!(session.drain_events(false), Drained::Done);
    assert!(session.can_recompile(SIMPLE) && session.can_recompile("Check 2."));
    assert_eq!(session.recompile(SIMPLE), None);

    // The text counts as sent only when it has been.
    assert!(session.recompile("Check 2.").is_some());
    let (version, sends) = session.recompile("Check 2.").unwrap();
    assert_eq!(version, 2);
    assert_eq!(sends.len(), 2);
    assert_eq!(
        texts(&sends),
        vec![
            r#"{"jsonrpc":"2.0","method":"textDocument/didChange","params":{"contentChanges":[{"text":"Check 2."}],"textDocument":{"uri":"file:///work/simple.v","version":2}}}"#,
            r#"{"jsonrpc":"2.0","method":"prover/interpretToEnd","params":{"textDocument":{"uri":"file:///work/simple.v","version":2}}}"#,
        ]
    );
    assert!(session.has_errors());
    session.sent_again("Check 2.".to_string(), version);
    assert!(session.diagnostics.is_empty());
    assert_eq!(session.status, ExecutionStatus::Processing);
    assert_eq!(session.recompile("Check 2."), None);
    let (version, sends) = session.recompile(SIMPLE).unwrap();
    assert_eq!(version, 3);
    assert!(texts(&sends)[0].contains(r#""version":3"#));
}

#[test]
fn queries_go_to_the_document() {
    let mut session = simple();
    for (word, method) in [
        ("check", "prover/check"),
        ("Check", "prover/check"),
        ("print", "prover/print"),
        ("Print", "prover/print"),
        ("about", "prover/about"),
        ("About", "prover/about"),
    ] {
        let (_, bytes) = session.query(word, 3, "a").unwrap();
        let text = &texts(&[bytes])[0];
        assert!(text.contains(&format!(r#""method":"{method}""#)));
        assert!(text.contains(r#""position":{"character":0,"line":3}"#));
        assert!(text.contains(r#""textDocument":{"uri":"file:///work/simple.v","version":1}"#));
    }
    assert_eq!(
        session.query("Search", 0, "a").err(),
        Some("unknown query type: Search".to_string())
    );
    let (query, _) = session.query("check", 0, "a").unwrap();
    // The initialize request had the first id.
    assert_eq!(query.id, 8);
    session.arrive(&frame(r#"{"jsonrpc":"2.0","id":8,"result":"a : nat"}"#));
    assert!(matches!(session.recv_answer(&query, false), QueryRead::Answer(s) if s == "a : nat"));
}

#[test]
fn statuses_are_shown() {
    assert_eq!(ExecutionStatus::Processing.to_text(), "Processing");
    assert_eq!(ExecutionStatus::Complete.to_text(), "Complete");
    let blocked = ExecutionStatus::BlockedOnError { message: "a \"b\"\n\\'é".to_string() };
    assert_eq!(blocked.to_text(), r#"BlockedOnError { message: "a \"b\"\n\\'é" }"#);
    assert_eq!(blocked.to_text(), format!("{blocked:?}"));
}

#[test]
fn a_session_tells_of_itself() {
    let mut session = simple();
    assert!(session.is_for(b"/work//simple.v") && !session.is_for(b"/work/other.v"));
    assert!(session.has_flags(&vec!["-q".to_string()]) && !session.has_flags(&vec![]));
    assert_eq!(session.path(), b"/work/simple.v");
    assert_eq!(session.status(), &session.status);
    assert_eq!(session.diagnostics(), &session.diagnostics);
    assert_eq!(session.unreadable(), "reading /work/simple.v");
    let info = session.info();
    assert_eq!((info.file.as_str(), info.status.as_str()), ("/work/simple.v", "Processing"));
    assert!(!session.outcome().success);
    session.arrive(&highlights(2, 0));
    assert_eq!(session.drain_events(false), Drained::Done);
    assert!(session.outcome().success);
    session.arrive(&diagnostics("1", "an error"));
    assert_eq!(session.drain_events(false), Drained::Done);
    let outcome = session.outcome();
    assert!(!outcome.success);
    assert_eq!(outcome.diagnostics, session.diagnostics);
    assert_eq!(outcome.to_json().get("success"), Some(&Json::Bool(false)));
    let (request, bytes) = session.shutdown();
    assert_eq!(request, 2);
    assert!(texts(&[bytes])[0].contains(r#""method":"shutdown""#));
    assert!(session.awaits_end(request, Arrival::Nothing));
    let response = frame(r#"{"jsonrpc":"2.0","id":2,"result":null}"#);
    assert!(!session.awaits_end(request, Arrival::Bytes(response)));
    assert!(!session.awaits_end(request, Arrival::TimedOut));
    assert_eq!(session.exit(), VsRocqClient::new().exit());
}
