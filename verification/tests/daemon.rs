use rocqd::client::{
    compile, compile_request, query_request, shutdown_request, status_request, write_request, End,
};
use rocqd::daemon::{
    parse_query_text, pid_path, socket_path, write_response, Daemon, Input, Limit, OpenError,
    Output, Rejection,
};
use rocqd::json::Json;
use rocqd::lsp::jsonrpc::{Id, Response};
use rocqd::lsp::transport::LspTransport;
use rocqd::lsp::vsrocq::program;

const FILE: &str = "dir/a.v";
const PATH: &[u8] = b"/work/dir/a.v";
const CONTENT: &str = "Check 1.\n";

fn frame(text: &str) -> Vec<u8> {
    LspTransport::new().send_raw(text)
}

fn covered() -> Vec<u8> {
    frame(r#"{"jsonrpc":"2.0","method":"prover/updateHighlights","params":{"processedRange":[[[0,0],[9,0]]]}}"#)
}

fn error() -> Vec<u8> {
    frame(
        r#"{"jsonrpc":"2.0","method":"textDocument/publishDiagnostics","params":{"uri":"u","diagnostics":[{"range":[[0,6],[0,7]],"severity":1,"message":"oh"}]}}"#,
    )
}

fn reply(output: Output) -> Response {
    match output {
        Output::Reply(r) => r,
        other => panic!("expected a reply, got {other:?}"),
    }
}

fn failure(output: Output) -> (i32, String) {
    let r = reply(output);
    assert!(r.result.is_none());
    let e = r.error.unwrap();
    (e.code, e.message)
}

fn result(output: Output) -> String {
    let r = reply(output);
    assert!(r.error.is_none());
    let line = write_response(r);
    let (text, end) = line.split_at(line.len() - 1);
    assert_eq!(end, "\n");
    text.to_string()
}

fn ask(daemon: &mut Daemon, line: &str) -> Output {
    daemon.step(Input::Line(line.to_string()))
}

fn compile_line() -> String {
    compile_request(FILE, &vec![])
}

fn started() -> Vec<u8> {
    frame(r#"{"jsonrpc":"2.0","id":1,"result":{"capabilities":{}}}"#)
}

/// A daemon that has opened a file, and waits for it to be processed.
fn with_open_file() -> Daemon {
    let mut daemon = Daemon::new(1);
    match ask(&mut daemon, &compile_line()) {
        Output::Open { path, flags } => {
            assert_eq!(path, FILE.as_bytes());
            assert!(flags.is_empty());
        }
        other => panic!("expected a file to open, got {other:?}"),
    }
    let opened = daemon.step(Input::Opened { path: PATH.to_vec(), content: CONTENT.to_string() });
    assert!(matches!(opened, Output::Send(parts) if parts.len() == 1));
    // Nothing more is sent before the response.
    let waiting = daemon.step(Input::Sent);
    assert!(matches!(waiting, Output::Receive(Limit::Within(300))));
    let waiting = daemon.step(Input::Arrived(covered()));
    assert!(matches!(waiting, Output::Receive(Limit::Running)));
    let opening = daemon.step(Input::Arrived(started()));
    assert!(matches!(opening, Output::Send(parts) if parts.len() == 3));
    assert!(!daemon.has_session());
    assert!(matches!(daemon.step(Input::Sent), Output::Receive(Limit::Within(300))));
    assert!(daemon.has_session());
    daemon
}

/// Ends the conversation that a daemon has asked to end.
fn part(daemon: &mut Daemon, asked: Output) -> Output {
    assert!(!daemon.has_session());
    assert!(matches!(asked, Output::Send(parts) if parts == vec![shutdown()]));
    assert!(matches!(daemon.step(Input::Sent), Output::Receive(Limit::Within(2))));
    let closing = daemon.step(Input::Arrived(frame(r#"{"jsonrpc":"2.0","id":2,"result":null}"#)));
    assert!(matches!(closing, Output::Close(b) if b == exit()));
    daemon.step(Input::Closed)
}

fn shutdown() -> Vec<u8> {
    frame(r#"{"jsonrpc":"2.0","id":2,"method":"shutdown"}"#)
}

fn exit() -> Vec<u8> {
    frame(r#"{"jsonrpc":"2.0","method":"exit"}"#)
}

/// A daemon that has checked a file.
fn with_session() -> Daemon {
    let mut daemon = with_open_file();
    assert_eq!(
        result(daemon.step(Input::Arrived(covered()))),
        r#"{"jsonrpc":"2.0","id":1,"result":{"diagnostics":[],"success":true}}"#
    );
    daemon
}

#[test]
fn the_socket_has_a_place() {
    assert_eq!(socket_path(Some(b"/run/user/1000"), 1000), b"/run/user/1000/rocqd.sock");
    assert_eq!(socket_path(Some(b"/run/"), 0), b"/run/rocqd.sock");
    assert_eq!(socket_path(None, 1000), b"/tmp/rocqd-1000.sock");
    assert_eq!(pid_path(Some(b"/run/user/1000"), 1000), b"/run/user/1000/rocqd.pid");
    assert_eq!(pid_path(None, 0), b"/tmp/rocqd-0.pid");
    assert_eq!(pid_path(Some(b""), 0), b"rocqd.pid");
}

#[test]
fn query_texts_are_taken_apart() {
    let parts = |s: &str| {
        let (word, pattern) = parse_query_text(s);
        format!("{word}|{pattern}")
    };
    assert_eq!(parts("Check nat."), "check|nat");
    assert_eq!(parts("  Print  plus ...  "), "print|plus");
    assert_eq!(parts("About x . "), "about|x");
    assert_eq!(parts("nat."), "check|nat");
    assert_eq!(parts("Check"), "check|Check");
    assert_eq!(parts("check nat"), "check|check nat");
    assert_eq!(parts("Check ."), "check|");
    assert_eq!(parts("Checknat"), "check|Checknat");
    assert_eq!(parts("Search x."), "check|Search x");
    assert_eq!(parts(""), "check|");
}

#[test]
fn a_line_that_is_no_request() {
    let mut daemon = Daemon::new(1);
    assert!(matches!(ask(&mut daemon, " \r\n"), Output::Hangup));
    assert!(matches!(ask(&mut daemon, "{"), Output::Reject(Rejection::NotJson)));
    assert!(matches!(ask(&mut daemon, "{}"), Output::Reject(Rejection::NotMessage)));
    for line in [r#"{"jsonrpc":"2.0","method":"status"}"#, r#"{"jsonrpc":"2.0","id":5}"#] {
        let r = reply(ask(&mut daemon, line));
        assert_eq!(r.id, Id::Number(0));
        let e = r.error.unwrap();
        assert_eq!((e.code, e.message.as_str()), (-32600, "expected a request"));
    }
    let r = reply(ask(&mut daemon, r#"{"jsonrpc":"2.0","id":"x","method":"dance"}"#));
    assert_eq!(r.id, Id::String("x".to_string()));
    assert_eq!(r.error.map(|e| (e.code, e.message)), Some((-32601, "method not found: dance".to_string())));
}

#[test]
fn wrong_parameters_are_refused() {
    let mut daemon = Daemon::new(1);
    let cases = [
        ("compile", None),
        ("compile", Some(r#"{"flags":[]}"#)),
        ("compile", Some(r#"{"file":"a","flags":null}"#)),
        ("compile", Some(r#"{"file":"a","flags":[1]}"#)),
        ("query", None),
        ("query", Some(r#"{"file":"a","line":-1,"text":""}"#)),
        ("query", Some(r#"{"file":"a","line":4294967296,"text":""}"#)),
        ("query", Some(r#"["a",1]"#)),
        ("invalidate", None),
        ("invalidate", Some(r#"{"file":1}"#)),
        ("invalidate", Some(r#"["a","b"]"#)),
    ];
    for (method, params) in cases {
        let line = write_request(method, params.map(|p| Json::parse(p).unwrap()));
        assert_eq!(
            failure(ask(&mut daemon, &line)),
            (-32602, format!("invalid {method} params"))
        );
    }
}

#[test]
fn flags_can_be_left_out() {
    let mut daemon = Daemon::new(1);
    let line = write_request("compile", Some(Json::parse(r#"{"file":"x","more":1}"#).unwrap()));
    match ask(&mut daemon, &line) {
        Output::Open { path, flags } => {
            assert_eq!(path, b"x");
            assert!(flags.is_empty());
        }
        other => panic!("expected a file to open, got {other:?}"),
    }
    let mut daemon = Daemon::new(1);
    let line = write_request("compile", Some(Json::parse(r#"["y",["-Q"]]"#).unwrap()));
    match ask(&mut daemon, &line) {
        Output::Open { path, flags } => {
            assert_eq!(path, b"y");
            assert_eq!(flags, vec!["-Q"]);
        }
        other => panic!("expected a file to open, got {other:?}"),
    }
}

#[test]
fn a_file_that_cannot_be_opened() {
    let cases = [
        (OpenError::Unresolved, "failed to open session: cannot resolve path: dir/a.v"),
        (OpenError::Unreadable(PATH.to_vec()), "failed to open session: reading /work/dir/a.v"),
        (
            OpenError::Spawn(program(None).to_string()),
            "failed to open session: failed to spawn vsrocqtop",
        ),
        (
            OpenError::Spawn(program(Some("/opt/top")).to_string()),
            "failed to open session: failed to spawn /opt/top",
        ),
        (OpenError::Other("odd".to_string()), "failed to open session: odd"),
    ];
    for (e, message) in cases {
        let mut daemon = Daemon::new(1);
        ask(&mut daemon, &compile_line());
        assert_eq!(failure(daemon.step(Input::OpenFailed(e))), (-32000, message.to_string()));
        assert!(!daemon.has_session());
    }
    let greet = || {
        let mut daemon = Daemon::new(1);
        ask(&mut daemon, &compile_line());
        daemon.step(Input::Opened { path: PATH.to_vec(), content: CONTENT.to_string() });
        daemon
    };
    let refusal = (-32000, "failed to open session: LSP initialize".to_string());
    let mut daemon = greet();
    let failed = daemon.step(Input::SendFailed { sent: 0, error: "broken pipe".to_string() });
    assert_eq!(failure(failed), refusal);
    for input in [Input::Ended, Input::ReadFailed, Input::Arrived(b"\r\n".to_vec())] {
        let mut daemon = greet();
        daemon.step(Input::Sent);
        assert_eq!(failure(daemon.step(input)), refusal);
        assert!(!daemon.has_session());
    }
    // A process that stays silent is not waited for without end.
    let mut daemon = greet();
    daemon.step(Input::Sent);
    assert_eq!(
        failure(daemon.step(Input::TimedOut)),
        (-32000, "compilation error: timed out waiting for vsrocqtop after 300s".to_string())
    );
    for (sent, message) in [(0, "LSP initialize"), (1, "broken pipe")] {
        let mut daemon = greet();
        daemon.step(Input::Sent);
        daemon.step(Input::Arrived(started()));
        let failed = daemon.step(Input::SendFailed { sent, error: "broken pipe".to_string() });
        assert_eq!(failure(failed), (-32000, format!("failed to open session: {message}")));
        assert!(!daemon.has_session());
    }
}

#[test]
fn what_was_found_reaches_the_user() {
    let mut daemon = with_open_file();
    let response = reply(daemon.step(Input::Arrived(error())));
    let outcome = compile(FILE, &response);
    assert_eq!(outcome.err, vec!["dir/a.v:1:7: error: oh"]);
    assert_eq!(outcome.end, End::Failure);
    assert_eq!(
        result(ask(&mut daemon, &status_request())),
        r#"{"jsonrpc":"2.0","id":1,"result":{"sessions":[{"file":"/work/dir/a.v","status":"BlockedOnError { message: \"oh\" }"}]}}"#
    );
}

#[test]
fn processing_can_fail() {
    let cases = [
        (Input::Ended, "unexpected EOF while reading headers"),
        (Input::ReadFailed, "reading header line"),
        (Input::TimedOut, "timed out waiting for vsrocqtop after 300s"),
        (Input::Arrived(b"\r\n".to_vec()), "missing Content-Length header"),
    ];
    for (input, message) in cases {
        let mut daemon = with_open_file();
        assert_eq!(failure(daemon.step(input)), (-32000, format!("compilation error: {message}")));
        // The session stays.
        assert!(daemon.has_session());
    }
}

#[test]
fn a_session_is_used_again() {
    let mut daemon = with_session();
    assert!(matches!(ask(&mut daemon, &compile_line()), Output::Resolve(p) if p == FILE.as_bytes()));
    let found = daemon.step(Input::Resolved(Some(b"/work/./dir//a.v".to_vec())));
    assert!(matches!(found, Output::Read(p) if p == PATH));
    assert!(daemon.can_step(&Input::Content("other".to_string())));
    // The text is the same, and has been processed: what was found is the answer.
    assert_eq!(
        result(daemon.step(Input::Content(CONTENT.to_string()))),
        r#"{"jsonrpc":"2.0","id":1,"result":{"diagnostics":[],"success":true}}"#
    );

    ask(&mut daemon, &compile_line());
    daemon.step(Input::Resolved(Some(PATH.to_vec())));
    let other = daemon.step(Input::Content("Check 2.\n".to_string()));
    assert!(matches!(&other, Output::Send(parts) if parts.len() == 2));
    assert!(matches!(daemon.step(Input::Sent), Output::Receive(Limit::Within(300))));
    assert!(reply(daemon.step(Input::Arrived(covered()))).error.is_none());
}

#[test]
fn a_file_that_is_being_processed_is_waited_for() {
    let mut daemon = with_open_file();
    assert!(matches!(daemon.step(Input::TimedOut), Output::Reply(_)));
    ask(&mut daemon, &compile_line());
    daemon.step(Input::Resolved(Some(PATH.to_vec())));
    let same = daemon.step(Input::Content(CONTENT.to_string()));
    assert!(matches!(same, Output::Receive(Limit::Within(300))));
    assert!(reply(daemon.step(Input::Arrived(covered()))).error.is_none());
}

#[test]
fn a_block_is_no_success() {
    let mut daemon = with_open_file();
    let block = frame(
        r#"{"jsonrpc":"2.0","method":"prover/blockOnError","params":{"uri":"u","range":[[0,0],[0,1]]}}"#,
    );
    assert_eq!(
        result(daemon.step(Input::Arrived(block))),
        r#"{"jsonrpc":"2.0","id":1,"result":{"diagnostics":[],"success":false}}"#
    );
}

#[test]
fn checking_again_can_fail() {
    let mut daemon = with_session();
    ask(&mut daemon, &compile_line());
    daemon.step(Input::Resolved(Some(PATH.to_vec())));
    assert_eq!(
        failure(daemon.step(Input::Unreadable)),
        (-32000, "recompile failed: reading /work/dir/a.v".to_string())
    );
    let resend = |daemon: &mut Daemon| {
        ask(daemon, &compile_line());
        daemon.step(Input::Resolved(Some(PATH.to_vec())));
        daemon.step(Input::Content("Check 2.\n".to_string()))
    };
    // A text that could not be sent is sent again, under the same version.
    for _ in 0..2 {
        match resend(&mut daemon) {
            Output::Send(parts) => {
                assert!(String::from_utf8(parts[0].clone()).unwrap().contains(r#""version":2"#))
            }
            other => panic!("expected messages to send, got {other:?}"),
        }
        assert_eq!(
            failure(daemon.step(Input::SendFailed { sent: 0, error: "broken pipe".to_string() })),
            (-32000, "recompile failed: broken pipe".to_string())
        );
        assert!(daemon.has_session());
    }
    assert_eq!(
        result(ask(&mut daemon, &status_request())),
        r#"{"jsonrpc":"2.0","id":1,"result":{"sessions":[{"file":"/work/dir/a.v","status":"Complete"}]}}"#
    );
    // Once the text itself has been sent, it counts.
    resend(&mut daemon);
    daemon.step(Input::SendFailed { sent: 1, error: "broken pipe".to_string() });
    assert!(matches!(resend(&mut daemon), Output::Receive(Limit::Within(300))));
}

#[test]
fn another_file_takes_the_place() {
    let mut daemon = with_session();
    ask(&mut daemon, &compile_request("b.v", &vec!["-Q".to_string()]));
    let asked = daemon.step(Input::Resolved(Some(b"/b.v".to_vec())));
    match part(&mut daemon, asked) {
        Output::Open { path, flags } => {
            assert_eq!(path, b"b.v");
            assert_eq!(flags, vec!["-Q"]);
        }
        other => panic!("expected a file to open, got {other:?}"),
    }
    // A path that cannot be resolved stands for itself.
    let mut daemon = with_session();
    ask(&mut daemon, &compile_line());
    assert!(matches!(daemon.step(Input::Resolved(None)), Output::Send(_)));
    let mut daemon = with_session();
    ask(&mut daemon, &compile_request("/work/dir/a.v", &vec![]));
    assert!(matches!(daemon.step(Input::Resolved(None)), Output::Read(_)));
}

#[test]
fn other_flags_need_another_process() {
    let mut daemon = with_session();
    ask(&mut daemon, &compile_request(FILE, &vec!["-Q".to_string()]));
    let asked = daemon.step(Input::Resolved(Some(PATH.to_vec())));
    match part(&mut daemon, asked) {
        Output::Open { path, flags } => {
            assert_eq!(path, FILE.as_bytes());
            assert_eq!(flags, vec!["-Q"]);
        }
        other => panic!("expected a file to open, got {other:?}"),
    }
    daemon.step(Input::Opened { path: PATH.to_vec(), content: CONTENT.to_string() });
    daemon.step(Input::Sent);
    daemon.step(Input::Arrived(started()));
    daemon.step(Input::Sent);
    assert!(reply(daemon.step(Input::Arrived(covered()))).error.is_none());
    // With the same flags the session is used again.
    ask(&mut daemon, &compile_request(FILE, &vec!["-Q".to_string()]));
    assert!(matches!(daemon.step(Input::Resolved(Some(PATH.to_vec()))), Output::Read(_)));
}

#[test]
fn a_process_that_does_not_answer_is_ended() {
    let start = || {
        let mut daemon = with_session();
        ask(&mut daemon, &compile_request("b.v", &vec![]));
        daemon.step(Input::Resolved(None));
        daemon
    };
    let mut daemon = start();
    let closing = daemon.step(Input::SendFailed { sent: 0, error: "broken pipe".to_string() });
    assert!(matches!(closing, Output::Close(b) if b == exit()));
    for input in [Input::Ended, Input::ReadFailed, Input::TimedOut] {
        let mut daemon = start();
        assert!(matches!(daemon.step(Input::Sent), Output::Receive(Limit::Within(2))));
        assert!(matches!(daemon.step(Input::Arrived(covered())), Output::Receive(Limit::Running)));
        assert!(matches!(daemon.step(input), Output::Close(b) if b == exit()));
        assert!(matches!(daemon.step(Input::Closed), Output::Open { .. }));
    }
}

#[test]
fn a_query_needs_a_session() {
    let mut daemon = Daemon::new(1);
    assert_eq!(
        failure(ask(&mut daemon, &query_request(FILE, 1, "Check nat."))),
        (-32000, "no active session — compile first".to_string())
    );
}

#[test]
fn a_query_is_about_the_file_that_it_names() {
    let mut daemon = with_session();
    ask(&mut daemon, &query_request("b.v", 1, "Check nat."));
    assert_eq!(
        failure(daemon.step(Input::Resolved(Some(b"/work/b.v".to_vec())))),
        (-32000, "no active session — compile first".to_string())
    );
    assert!(daemon.has_session());
    // Nothing was asked: the next query has the next id.
    ask(&mut daemon, &query_request(FILE, 1, "Check nat."));
    match daemon.step(Input::Resolved(Some(PATH.to_vec()))) {
        Output::Send(parts) => {
            assert!(String::from_utf8(parts[0].clone()).unwrap().contains(r#""id":2"#))
        }
        other => panic!("expected a message to send, got {other:?}"),
    }
}

#[test]
fn a_query_is_answered() {
    let mut daemon = with_session();
    let asked = ask(&mut daemon, &query_request(FILE, 5, "Print nat."));
    assert!(matches!(asked, Output::Resolve(p) if p == FILE.as_bytes()));
    match daemon.step(Input::Resolved(Some(PATH.to_vec()))) {
        Output::Send(parts) => assert_eq!(
            parts,
            vec![frame(
                r#"{"jsonrpc":"2.0","id":2,"method":"prover/print","params":{"pattern":"nat","position":{"character":0,"line":5},"textDocument":{"uri":"file:///work/dir/a.v","version":1}}}"#
            )]
        ),
        other => panic!("expected a message to send, got {other:?}"),
    }
    assert!(matches!(daemon.step(Input::Sent), Output::Receive(Limit::Unlimited)));
    // Events are passed over.
    assert!(matches!(daemon.step(Input::Arrived(error())), Output::Receive(Limit::Unlimited)));
    assert_eq!(
        result(daemon.step(Input::Arrived(frame(
            r#"{"jsonrpc":"2.0","id":2,"result":{"message":"Inductive nat"}}"#
        )))),
        r#"{"jsonrpc":"2.0","id":1,"result":{"response":"Inductive nat"}}"#
    );
    assert_eq!(
        result(ask(&mut daemon, &status_request())),
        r#"{"jsonrpc":"2.0","id":1,"result":{"sessions":[{"file":"/work/dir/a.v","status":"Complete"}]}}"#
    );
}

#[test]
fn a_query_can_fail() {
    let start = || {
        let mut daemon = with_session();
        ask(&mut daemon, &query_request(FILE, 0, "nat"));
        daemon.step(Input::Resolved(Some(PATH.to_vec())));
        daemon
    };
    let mut daemon = start();
    assert_eq!(
        failure(daemon.step(Input::SendFailed { sent: 0, error: "broken pipe".to_string() })),
        (-32000, "query failed: broken pipe".to_string())
    );
    let refusal = frame(r#"{"jsonrpc":"2.0","id":2,"error":{"code":-1,"message":"unknown"}}"#);
    let cases = [
        (Input::Arrived(refusal), "check failed: unknown"),
        (Input::Ended, "unexpected EOF while reading headers"),
        (Input::ReadFailed, "reading header line"),
    ];
    for (input, message) in cases {
        let mut daemon = start();
        daemon.step(Input::Sent);
        assert_eq!(failure(daemon.step(input)), (-32000, format!("query failed: {message}")));
        assert!(daemon.has_session());
    }
}

#[test]
fn no_session_is_shown() {
    let mut daemon = Daemon::new(1);
    assert_eq!(
        result(ask(&mut daemon, &status_request())),
        r#"{"jsonrpc":"2.0","id":1,"result":{"sessions":[]}}"#
    );
}

fn forget(file: &str) -> String {
    let params = Json::Object(vec![("file".to_string(), Json::Text(file.to_string()))]);
    write_request("invalidate", Some(params))
}

#[test]
fn a_file_is_forgotten() {
    let empty = r#"{"jsonrpc":"2.0","id":1,"result":{}}"#;
    let mut daemon = with_session();
    assert!(matches!(ask(&mut daemon, &forget("b.v")), Output::Resolve(p) if p == b"b.v"));
    assert_eq!(result(daemon.step(Input::Resolved(Some(b"/b.v".to_vec())))), empty);
    assert!(daemon.has_session());
    ask(&mut daemon, &forget(FILE));
    let asked = daemon.step(Input::Resolved(Some(PATH.to_vec())));
    assert_eq!(result(part(&mut daemon, asked)), empty);
    assert!(!daemon.has_session() && !daemon.stopping());
    ask(&mut daemon, &forget(FILE));
    assert_eq!(result(daemon.step(Input::Resolved(None))), empty);
}

#[test]
fn the_daemon_stops() {
    let empty = r#"{"jsonrpc":"2.0","id":1,"result":{}}"#;
    let mut daemon = with_session();
    assert!(!daemon.stopping());
    let asked = ask(&mut daemon, &shutdown_request());
    assert!(daemon.stopping());
    assert_eq!(result(part(&mut daemon, asked)), empty);
    assert!(daemon.stopping());
    assert!(matches!(daemon.step(Input::Stop), Output::Hangup));
    let mut daemon = Daemon::new(1);
    assert_eq!(result(ask(&mut daemon, &shutdown_request())), empty);
    let mut daemon = with_session();
    let asked = daemon.step(Input::Stop);
    assert!(matches!(part(&mut daemon, asked), Output::Hangup));
    assert!(!daemon.stopping());
}

#[test]
fn what_is_not_waited_for_changes_nothing() {
    let mut daemon = with_session();
    assert!(matches!(daemon.step(Input::Sent), Output::Nothing));
    assert!(matches!(daemon.step(Input::TimedOut), Output::Nothing));
    ask(&mut daemon, &compile_line());
    assert!(matches!(ask(&mut daemon, &status_request()), Output::Nothing));
    assert!(matches!(daemon.step(Input::Resolved(Some(PATH.to_vec()))), Output::Read(_)));
}

#[test]
fn reports_arrive_in_pieces() {
    let mut bytes = error();
    bytes.extend(covered());
    let mut whole = with_session();
    let mut pieces = with_session();
    for daemon in [&mut whole, &mut pieces] {
        ask(daemon, &compile_line());
        daemon.step(Input::Resolved(Some(PATH.to_vec())));
        daemon.step(Input::Content("Check 3.\n".to_string()));
        assert!(matches!(daemon.step(Input::Sent), Output::Receive(Limit::Within(300))));
    }
    let at_once = result(whole.step(Input::Arrived(bytes.clone())));
    for b in &bytes {
        match pieces.step(Input::Arrived(vec![*b])) {
            Output::Receive(Limit::Running) => {}
            output => {
                assert_eq!(result(output), at_once);
                return;
            }
        }
    }
    panic!("no answer");
}
