use rocqd::client::{
    compile, compile_request, parse_file_line, query, query_request, read_response,
    show_diagnostic, shutdown_request, status, status_request, stop, AnswerError, End,
    FileLineError,
};
use rocqd::daemon::write_response;
use rocqd::json::Json;
use rocqd::lsp::jsonrpc::{Id, Response};
use rocqd::lsp::types::{Diagnostic, Position, Range, ERROR, HINT, INFORMATION, WARNING};
use rocqd::protocol::{
    methods, CompileRequest, CompileResponse, InvalidateRequest, InvalidateResponse, QueryRequest,
    QueryResponse, SessionInfo, ShutdownRequest, ShutdownResponse, StatusRequest, StatusResponse,
};

fn ok(result: &str) -> Response {
    Response::ok(Id::Number(1), Json::parse(result).unwrap())
}

fn failed() -> Response {
    Response::error(Id::Number(1), -32000, "no luck")
}

fn missing() -> Response {
    let mut r = ok("{}");
    r.result = None;
    r
}

fn diagnostic(line: u32, character: u32, severity: Option<i32>) -> Diagnostic {
    let start = Position { line, character };
    Diagnostic {
        range: Range { start, end: start },
        severity,
        message: "m".to_string(),
        extra: vec![],
    }
}

#[test]
fn requests_are_lines() {
    assert_eq!(
        compile_request("a.v", &vec!["-Q".to_string(), ".".to_string()]),
        "{\"jsonrpc\":\"2.0\",\"id\":1,\"method\":\"compile\",\"params\":{\"file\":\"a.v\",\"flags\":[\"-Q\",\".\"]}}\n"
    );
    assert_eq!(
        query_request("a.v", 4, "Check\nnat."),
        "{\"jsonrpc\":\"2.0\",\"id\":1,\"method\":\"query\",\"params\":{\"file\":\"a.v\",\"line\":4,\"text\":\"Check\\nnat.\"}}\n"
    );
    assert_eq!(
        status_request(),
        "{\"jsonrpc\":\"2.0\",\"id\":1,\"method\":\"status\",\"params\":{}}\n"
    );
    assert_eq!(
        shutdown_request(),
        "{\"jsonrpc\":\"2.0\",\"id\":1,\"method\":\"shutdown\",\"params\":{}}\n"
    );
    assert_eq!(
        [methods::COMPILE, methods::QUERY, methods::STATUS, methods::SHUTDOWN, methods::INVALIDATE],
        ["compile", "query", "status", "shutdown", "invalidate"]
    );
}

#[test]
fn responses_are_read_from_their_lines() {
    let r = read_response(&write_response(failed())).unwrap();
    assert_eq!(r.id, Id::Number(1));
    assert_eq!(r.error.unwrap().message, "no luck");
    assert_eq!(read_response("").err(), Some(AnswerError::NotJson));
    assert_eq!(read_response("{}\n").err(), Some(AnswerError::NotMessage));
    assert_eq!(
        read_response(r#"{"jsonrpc":"2.0","method":"m"}"#).err(),
        Some(AnswerError::NotResponse)
    );
}

#[test]
fn a_line_of_a_file_is_named() {
    assert_eq!(parse_file_line("file.v:42"), Ok(("file.v", 42)));
    assert_eq!(parse_file_line("a:b.v:0"), Ok(("a:b.v", 0)));
    assert_eq!(parse_file_line(":+4294967295"), Ok(("", 4294967295)));
    assert_eq!(parse_file_line("file.v"), Err(FileLineError::NoColon));
    assert_eq!(parse_file_line("file.v:"), Err(FileLineError::BadLine));
    assert_eq!(parse_file_line("file.v:-1"), Err(FileLineError::BadLine));
    assert_eq!(parse_file_line("file.v:4294967296"), Err(FileLineError::BadLine));
    assert_eq!(parse_file_line("file.v:1:x"), Err(FileLineError::BadLine));
    assert_eq!(FileLineError::NoColon.to_text(), "expected format file.v:line");
    assert_eq!(FileLineError::BadLine.to_text(), "invalid line number");
}

#[test]
fn diagnostics_are_shown() {
    let show = |severity: Option<i32>| show_diagnostic("a.v", &diagnostic(0, 9, severity)).unwrap();
    assert_eq!(show(Some(ERROR)), "a.v:1:10: error: m");
    assert_eq!(show(Some(WARNING)), "a.v:1:10: warning: m");
    assert_eq!(show(Some(INFORMATION)), "a.v:1:10: info: m");
    assert_eq!(show(Some(HINT)), "a.v:1:10: hint: m");
    assert_eq!(show(Some(5)), "a.v:1:10: note: m");
    assert_eq!(show(None), "a.v:1:10: note: m");
    assert_eq!(show_diagnostic("a.v", &diagnostic(u32::MAX, 0, None)), None);
    assert_eq!(show_diagnostic("a.v", &diagnostic(0, u32::MAX, None)), None);
}

#[test]
fn checking_a_file_comes_to_something() {
    let found = r#"{"success":false,"diagnostics":[
        {"range":[[1,2],[1,3]],"severity":1,"message":"bad"},
        {"range":[[4,0],[4,0]],"message":"odd"}]}"#;
    let outcome = compile("a.v", &ok(found));
    assert!(outcome.out.is_empty());
    assert_eq!(outcome.err, vec!["a.v:2:3: error: bad", "a.v:5:1: note: odd"]);
    assert_eq!(outcome.end, End::Failure);
    let outcome = compile("a.v", &ok(r#"{"diagnostics":[],"success":true}"#));
    assert!(outcome.err.is_empty());
    assert_eq!(outcome.end, End::Success);
    let outcome = compile("a.v", &failed());
    assert_eq!(outcome.err, vec!["error: no luck"]);
    assert_eq!(outcome.end, End::Failure);
    assert_eq!(
        compile("a.v", &missing()).end,
        End::Error("missing result in compile response".to_string())
    );
    assert_eq!(compile("a.v", &ok(r#"{"diagnostics":[]}"#)).end, End::Unreadable);
    let outcome = compile(
        "a.v",
        &ok(r#"{"success":true,"diagnostics":[
            {"range":[[0,0],[0,0]],"message":"one"},
            {"range":[[4294967295,0],[0,0]],"message":"two"},
            {"range":[[0,0],[0,0]],"message":"three"}]}"#),
    );
    assert_eq!(outcome.err, vec!["a.v:1:1: note: one"]);
    assert_eq!(outcome.end, End::Overflow);
}

#[test]
fn a_query_comes_to_something() {
    let outcome = query(&ok(r#"{"response":"nat\n: Set"}"#));
    assert_eq!(outcome.out, vec!["nat\n: Set"]);
    assert_eq!(outcome.end, End::Success);
    assert_eq!(query(&failed()).err, vec!["error: no luck"]);
    assert_eq!(query(&failed()).end, End::Failure);
    assert_eq!(
        query(&missing()).end,
        End::Error("missing result in query response".to_string())
    );
    assert_eq!(query(&ok("[]")).end, End::Unreadable);
}

#[test]
fn the_status_comes_to_something() {
    assert_eq!(status(&ok(r#"{"sessions":[]}"#)).out, vec!["no active sessions"]);
    let outcome = status(&ok(r#"{"sessions":[{"file":"/a.v","status":"Complete"},["/b.v","x"]]}"#));
    assert_eq!(outcome.out, vec!["/a.v: Complete", "/b.v: x"]);
    assert_eq!(outcome.end, End::Success);
    assert_eq!(status(&failed()).end, End::Error("status failed: no luck".to_string()));
    assert_eq!(
        status(&missing()).end,
        End::Error("missing result in status response".to_string())
    );
    assert_eq!(status(&ok(r#"{"sessions":[{}]}"#)).end, End::Unreadable);
}

#[test]
fn stopping_comes_to_something() {
    assert_eq!(stop(&ok("{}")).err, vec!["daemon stopped"]);
    assert_eq!(stop(&missing()).end, End::Success);
    assert_eq!(stop(&failed()).end, End::Error("shutdown failed: no luck".to_string()));
}

#[test]
fn the_protocol_is_read_back() {
    let compile = CompileRequest { file: "a".to_string(), flags: vec!["b".to_string()] };
    let read = CompileRequest::read(&compile.to_json()).unwrap();
    assert_eq!((read.file, read.flags), (compile.file, compile.flags));
    let found = CompileResponse { diagnostics: vec![diagnostic(1, 2, Some(ERROR))], success: false };
    let read = CompileResponse::read(&found.to_json()).unwrap();
    assert_eq!((read.diagnostics, read.success), (found.diagnostics, false));
    let asked = QueryRequest { file: "a".to_string(), line: 3, text: "t".to_string() };
    let read = QueryRequest::read(&asked.to_json()).unwrap();
    assert_eq!((read.file, read.line, read.text), (asked.file, 3, asked.text));
    let answer = QueryResponse { response: "r".to_string() };
    assert_eq!(QueryResponse::read(&answer.to_json()).unwrap().response, "r");
    let forget = InvalidateRequest { file: "f".to_string() };
    assert_eq!(InvalidateRequest::read(&forget.to_json()).unwrap().file, "f");
    let info = SessionInfo { file: "f".to_string(), status: "s".to_string() };
    let sessions = StatusResponse { sessions: vec![info] };
    let read = StatusResponse::read(&sessions.to_json()).unwrap();
    assert_eq!(read.sessions.len(), 1);
    assert_eq!((read.sessions[0].file.as_str(), read.sessions[0].status.as_str()), ("f", "s"));
}

#[test]
fn empty_records_are_read() {
    let empty = Json::Object(vec![]);
    assert_eq!(StatusRequest {}.to_json(), empty);
    assert_eq!(ShutdownRequest {}.to_json(), empty);
    assert_eq!(ShutdownResponse {}.to_json(), empty);
    assert_eq!(InvalidateResponse {}.to_json(), empty);
    for (text, reads) in [("{}", true), (r#"{"x":1}"#, true), ("[]", true), ("[1]", false), ("null", false)] {
        let v = Json::parse(text).unwrap();
        assert_eq!(StatusRequest::read(&v).is_some(), reads);
        assert_eq!(ShutdownRequest::read(&v).is_some(), reads);
        assert_eq!(ShutdownResponse::read(&v).is_some(), reads);
        assert_eq!(InvalidateResponse::read(&v).is_some(), reads);
    }
}
