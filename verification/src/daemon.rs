//! What the daemon does with the requests that it is sent.
//!
//! The daemon itself touches no file, socket or process. It says what to do,
//! and is told what came of it.
use vstd::prelude::*;
use vstd::slice::slice_to_vec;
use vstd::utf8::*;
use crate::json::{option_view, text_json, Json, JsonView};
use crate::lsp::jsonrpc::{
    error_view, message_from, message_from_text, message_text, ok_view, reads_back, Id, IdView,
    Message, MessageView, ReadError, Request, RequestView, Response, ResponseView,
};
use crate::lsp::transport::message_frame;
use crate::lsp::types::Position;
use crate::lsp::vsrocq::{
    after_request, broken_text, exit_message, next_answer, query_message, query_read,
    shutdown_message, PendingQuery, QueryRead, QueryReadView, EXIT_WAIT_SECS,
};
use crate::path::{
    display, extended, join, joined, law_extension_is_replaced, lossy_text, same, with_extension,
    DOT, SLASH,
};
use crate::protocol::{
    compile_request_from, compile_response_json, copy_texts, empty_json, invalidate_request_from,
    methods, query_request_from, query_response_json, sessions_view, status_response_json,
    texts_view, write_empty, CompileRequest, InvalidateRequest, QueryRequest, QueryResponse,
    SessionInfo, SessionInfoView, StatusResponse,
};
use crate::session::{
    bytes_view, can_take_text, change_sends, greeting, hash_text, info_view, kind_of, opened,
    outcome_view, parted, resent, session_wf, started, timeout_text, unreadable_text, waited,
    with_unread, write_timeout, Arrival, ArrivalView, Completion, CompletionView, FileSession,
    SessionView, Start, StartView,
};
use crate::text::{
    after_prefix, concat, int_text, is_digit, lemma_nat_text, lemma_trim_line, nat_text, same_text,
    strip_prefix, trim, trim_trailing, trimmed, without_trailing, write_nat,
};

pub mod laws;

verus! {

/// Where the daemon listens: in the user's runtime directory, or in `/tmp`,
/// under a name with the user's id.
pub open spec fn socket_bytes(runtime_dir: Option<Seq<u8>>, uid: u32) -> Seq<u8> {
    match runtime_dir {
        Some(dir) => joined(dir, encode_utf8("rocqd.sock"@)),
        None => encode_utf8("/tmp/rocqd-"@ + nat_text(uid as nat) + ".sock"@),
    }
}

/// The view of bytes that need not be there.
pub open spec fn bytes_option(b: Option<&[u8]>) -> Option<Seq<u8>> {
    match b {
        Some(b) => Some(b@),
        None => None,
    }
}

/// Where the daemon listens.
pub fn socket_path(runtime_dir: Option<&[u8]>, uid: u32) -> (r: Vec<u8>)
    ensures
        r@ == socket_bytes(bytes_option(runtime_dir), uid),
{
    match runtime_dir {
        Some(dir) => join(dir, "rocqd.sock".as_bytes()),
        None => {
            let digits: String = write_nat(uid as u64);
            let start: String = concat("/tmp/rocqd-", digits.as_str());
            let name: String = concat(start.as_str(), ".sock");
            slice_to_vec(name.as_str().as_bytes())
        },
    }
}

/// Where the daemon writes its process id: beside the socket, with the
/// extension `pid`.
pub open spec fn pid_bytes(runtime_dir: Option<Seq<u8>>, uid: u32) -> Seq<u8> {
    match runtime_dir {
        Some(dir) => joined(dir, encode_utf8("rocqd.pid"@)),
        None => encode_utf8("/tmp/rocqd-"@ + nat_text(uid as nat) + ".pid"@),
    }
}

/// The bytes of a text of ASCII characters.
spec fn ascii(s: Seq<char>) -> Seq<u8> {
    Seq::new(s.len(), |i: int| s[i] as u8)
}

proof fn lemma_ascii(s: Seq<char>)
    requires
        is_ascii_chars(s),
    ensures
        encode_utf8(s) == ascii(s),
{
    is_ascii_chars_encode_utf8(s);
    assert(encode_utf8(s) =~= ascii(s));
}

/// The socket's path with the extension `pid` is where the process id goes.
proof fn lemma_pid_path(runtime_dir: Option<Seq<u8>>, uid: u32)
    ensures
        extended(socket_bytes(runtime_dir, uid), encode_utf8("pid"@)) == pid_bytes(
            runtime_dir,
            uid,
        ),
        encode_utf8("pid"@).len() == 3,
{
    reveal_strlit("pid");
    reveal_strlit("sock");
    lemma_ascii("pid"@);
    let pid = ascii("pid"@);
    match runtime_dir {
        Some(dir) => {
            reveal_strlit("rocqd");
            reveal_strlit("rocqd.sock");
            reveal_strlit("rocqd.pid");
            lemma_ascii("rocqd.sock"@);
            lemma_ascii("rocqd.pid"@);
            let stem = ascii("rocqd"@);
            let base = if dir.len() > 0 && dir.last() != SLASH {
                dir.push(SLASH)
            } else {
                dir
            };
            law_extension_is_replaced(base, stem, ascii("sock"@), pid);
            assert(ascii("rocqd.sock"@) =~= stem.push(DOT) + ascii("sock"@));
            assert(ascii("rocqd.pid"@) =~= stem.push(DOT) + pid);
            assert(socket_bytes(runtime_dir, uid) =~= base + stem.push(DOT) + ascii("sock"@));
            assert(pid_bytes(runtime_dir, uid) =~= base + stem.push(DOT) + pid);
        },
        None => {
            reveal_strlit("/tmp/rocqd-");
            reveal_strlit(".sock");
            reveal_strlit(".pid");
            reveal_strlit("/tmp/");
            reveal_strlit("rocqd-");
            let digits = nat_text(uid as nat);
            lemma_nat_text(uid as nat);
            assert forall|i: int| 0 <= i < digits.len() implies '0' <= (#[trigger] digits[i])
                <= '9' by {
                assert(is_digit(digits[i]));
            }
            let socket = "/tmp/rocqd-"@ + digits + ".sock"@;
            let other = "/tmp/rocqd-"@ + digits + ".pid"@;
            lemma_ascii(socket);
            lemma_ascii(other);
            let stem = ascii("rocqd-"@ + digits);
            let dir = ascii("/tmp/"@);
            assert forall|i: int| 0 <= i < stem.len() implies stem[i] != SLASH by {
                if i >= 6 {
                    assert(stem[i] == digits[i - 6] as u8);
                }
            }
            law_extension_is_replaced(dir, stem, ascii("sock"@), pid);
            assert(ascii(socket) =~= dir + stem.push(DOT) + ascii("sock"@));
            assert(ascii(other) =~= dir + stem.push(DOT) + pid);
        },
    }
}

/// Where the daemon writes its process id.
pub fn pid_path(runtime_dir: Option<&[u8]>, uid: u32) -> (r: Vec<u8>)
    ensures
        r@ == pid_bytes(bytes_option(runtime_dir), uid),
{
    let socket: Vec<u8> = socket_path(runtime_dir, uid);
    proof {
        lemma_pid_path(bytes_option(runtime_dir), uid);
    }
    with_extension(socket.as_slice(), "pid".as_bytes())
}

/// A query's text without the full stops at its end and white space around it.
pub open spec fn query_pattern(text: Seq<char>) -> Seq<char> {
    trimmed(without_trailing(text, '.'))
}

/// The kind of a query and its pattern. The kind is the command that the text
/// starts with; a text that starts with none is to be checked.
pub open spec fn query_parts(text: Seq<char>) -> (Seq<char>, Seq<char>) {
    let text = trimmed(text);
    match (
        after_prefix(text, "Check "@),
        after_prefix(text, "Print "@),
        after_prefix(text, "About "@),
    ) {
        (Some(rest), _, _) => ("check"@, query_pattern(rest)),
        (None, Some(rest), _) => ("print"@, query_pattern(rest)),
        (None, None, Some(rest)) => ("about"@, query_pattern(rest)),
        (None, None, None) => ("check"@, query_pattern(text)),
    }
}

fn pattern_of(text: &str) -> (r: String)
    ensures
        r@ == query_pattern(text@),
{
    trim(trim_trailing(text, '.')).to_string()
}

/// The kind of a query and its pattern.
pub fn parse_query_text(text: &str) -> (r: (String, String))
    ensures
        (r.0@, r.1@) == query_parts(text@),
{
    let text: &str = trim(text);
    match strip_prefix(text, "Check ") {
        Some(rest) => return ("check".to_string(), pattern_of(rest)),
        None => {},
    }
    match strip_prefix(text, "Print ") {
        Some(rest) => return ("print".to_string(), pattern_of(rest)),
        None => {},
    }
    match strip_prefix(text, "About ") {
        Some(rest) => return ("about".to_string(), pattern_of(rest)),
        None => {},
    }
    ("check".to_string(), pattern_of(text))
}

/// Every text asks for a query that there is.
pub proof fn law_every_text_is_a_query(text: Seq<char>)
    ensures
        kind_of(query_parts(text).0) is Some,
{
}

/// Why a client's line gets no answer.
#[derive(Debug, Clone, Copy, PartialEq, Eq, Structural)]
pub enum Rejection {
    /// It is not JSON.
    NotJson,
    /// It is not a message.
    NotMessage,
}

/// Why a file could not be opened.
#[derive(Debug, Clone, PartialEq, Eq)]
pub enum OpenError {
    /// There is no such file.
    Unresolved,
    /// The file at this path cannot be read.
    Unreadable(Vec<u8>),
    /// This program cannot be run.
    Spawn(String),
    /// Anything else.
    Other(String),
}

/// What the daemon is told.
#[derive(Debug)]
pub enum Input {
    /// A client sent a line.
    Line(String),
    /// A file's canonical path, if it has one.
    Resolved(Option<Vec<u8>>),
    /// A conversation has been ended.
    Closed,
    /// A file has been read, and `vsrocqtop` is running.
    Opened { path: Vec<u8>, content: String },
    OpenFailed(OpenError),
    /// Everything has been sent.
    Sent,
    /// So many parts have been sent, and then it failed.
    SendFailed { sent: usize, error: String },
    /// The text of a file.
    Content(String),
    /// A file could not be read.
    Unreadable,
    /// `vsrocqtop` sent some bytes.
    Arrived(Vec<u8>),
    /// `vsrocqtop` will send no more.
    Ended,
    /// Reading from `vsrocqtop` failed.
    ReadFailed,
    /// The time is up.
    TimedOut,
    /// The daemon is to end.
    Stop,
}

/// How long to wait for `vsrocqtop`.
#[derive(Debug, Clone, Copy, PartialEq, Eq, Structural)]
pub enum Limit {
    /// As long as it takes.
    Unlimited,
    /// So many seconds from now on.
    Within(u64),
    /// As long as the last limit still lasts. It is not renewed by what has
    /// arrived.
    Running,
}

/// What the daemon wants done.
#[derive(Debug)]
pub enum Output {
    /// Answer the client.
    Reply(Response),
    /// There is nothing more to do, and no answer.
    Hangup,
    /// Leave the client without an answer, because of its line.
    Reject(Rejection),
    /// Find the canonical path of a file.
    Resolve(Vec<u8>),
    /// Send this to `vsrocqtop`, and see to it that it ends.
    Close(Vec<u8>),
    /// Read a file and run `vsrocqtop` with these flags.
    Open { path: Vec<u8>, flags: Vec<String> },
    /// Send this to `vsrocqtop`, with a pause between the parts.
    Send(Vec<Vec<u8>>),
    /// Read a file.
    Read(Vec<u8>),
    /// Receive bytes from `vsrocqtop`.
    Receive(Limit),
    /// Nothing: this was not waited for.
    Nothing,
}

/// What a file's canonical path is wanted for.
#[derive(Debug)]
enum Goal {
    /// To check the file.
    Compile { flags: Vec<String> },
    /// To ask a query about a line of it.
    Query { line: u32, text: String },
    /// To forget it.
    Forget,
}

/// What is to be done when a conversation has been ended.
#[derive(Debug)]
enum Next {
    /// Open a file.
    Open { id: Id, file: String, flags: Vec<String> },
    /// Answer the request.
    Answer { id: Id },
    /// Nothing.
    Leave,
}

/// What the daemon waits for.
#[derive(Debug)]
enum Phase {
    /// A client's line.
    Idle,
    /// The canonical path of a file.
    Resolving { id: Id, file: String, goal: Goal },
    /// That the request to end a conversation has been sent.
    Parting { session: FileSession, request: i64, next: Next },
    /// The response to that request.
    Stopping { session: FileSession, request: i64, next: Next },
    /// That the conversation has been ended.
    Closing { next: Next },
    /// The text of a file, and a process.
    Opening { id: Id, file: String, flags: Vec<String> },
    /// That the request to start a conversation has been sent.
    Greeting { id: Id, session: FileSession },
    /// The response to that request.
    Meeting { id: Id, session: FileSession },
    /// That the messages that open the file have been sent.
    Starting { id: Id, session: FileSession },
    /// The text of the session's file.
    Rereading { id: Id },
    /// That another text has been sent, as this version.
    Resending { id: Id, content: String, version: i32 },
    /// That the file has been processed.
    Processing { id: Id },
    /// That a query has been sent.
    Asking { id: Id, query: PendingQuery },
    /// The answer to a query.
    Answering { id: Id, query: PendingQuery },
}

/// The model of an open error.
pub enum OpenErrorView {
    Unresolved,
    Unreadable(Seq<u8>),
    Spawn(Seq<char>),
    Other(Seq<char>),
}

/// The model of an input.
pub enum InputView {
    Line(Seq<char>),
    Resolved(Option<Seq<u8>>),
    Closed,
    Opened { path: Seq<u8>, content: Seq<char> },
    OpenFailed(OpenErrorView),
    Sent,
    SendFailed { sent: usize, error: Seq<char> },
    Content(Seq<char>),
    Unreadable,
    Arrived(Seq<u8>),
    Ended,
    ReadFailed,
    TimedOut,
    Stop,
}

/// The model of an output.
pub enum OutputView {
    Reply(ResponseView),
    Hangup,
    Reject(Rejection),
    Resolve(Seq<u8>),
    Close(Seq<u8>),
    Open { path: Seq<u8>, flags: Seq<Seq<char>> },
    Send(Seq<Seq<u8>>),
    Read(Seq<u8>),
    Receive(Limit),
    Nothing,
}

/// The model of a goal.
pub enum GoalView {
    Compile { flags: Seq<Seq<char>> },
    Query { line: u32, text: Seq<char> },
    Forget,
}

/// The model of what is to be done next.
pub enum NextView {
    Open { id: IdView, file: Seq<char>, flags: Seq<Seq<char>> },
    Answer { id: IdView },
    Leave,
}

/// The model of a phase.
pub enum PhaseView {
    Idle,
    Resolving { id: IdView, file: Seq<char>, goal: GoalView },
    Parting { session: SessionView, request: i64, next: NextView },
    Stopping { session: SessionView, request: i64, next: NextView },
    Closing { next: NextView },
    Opening { id: IdView, file: Seq<char>, flags: Seq<Seq<char>> },
    Greeting { id: IdView, session: SessionView },
    Meeting { id: IdView, session: SessionView },
    Starting { id: IdView, session: SessionView },
    Rereading { id: IdView },
    Resending { id: IdView, content: Seq<char>, version: i32 },
    Processing { id: IdView },
    Asking { id: IdView, query: PendingQuery },
    Answering { id: IdView, query: PendingQuery },
}

impl View for OpenError {
    type V = OpenErrorView;

    open spec fn view(&self) -> OpenErrorView {
        match *self {
            OpenError::Unresolved => OpenErrorView::Unresolved,
            OpenError::Unreadable(p) => OpenErrorView::Unreadable(p@),
            OpenError::Spawn(s) => OpenErrorView::Spawn(s@),
            OpenError::Other(s) => OpenErrorView::Other(s@),
        }
    }
}

impl View for Input {
    type V = InputView;

    open spec fn view(&self) -> InputView {
        match *self {
            Input::Line(s) => InputView::Line(s@),
            Input::Resolved(p) => InputView::Resolved(
                match p {
                    Some(p) => Some(p@),
                    None => None,
                },
            ),
            Input::Closed => InputView::Closed,
            Input::Opened { path, content } => InputView::Opened {
                path: path@,
                content: content@,
            },
            Input::OpenFailed(e) => InputView::OpenFailed(e@),
            Input::Sent => InputView::Sent,
            Input::SendFailed { sent, error } => InputView::SendFailed { sent, error: error@ },
            Input::Content(s) => InputView::Content(s@),
            Input::Unreadable => InputView::Unreadable,
            Input::Arrived(b) => InputView::Arrived(b@),
            Input::Ended => InputView::Ended,
            Input::ReadFailed => InputView::ReadFailed,
            Input::TimedOut => InputView::TimedOut,
            Input::Stop => InputView::Stop,
        }
    }
}

impl View for Output {
    type V = OutputView;

    open spec fn view(&self) -> OutputView {
        match *self {
            Output::Reply(r) => OutputView::Reply(r@),
            Output::Hangup => OutputView::Hangup,
            Output::Reject(r) => OutputView::Reject(r),
            Output::Resolve(p) => OutputView::Resolve(p@),
            Output::Close(b) => OutputView::Close(b@),
            Output::Open { path, flags } => OutputView::Open {
                path: path@,
                flags: texts_view(flags@),
            },
            Output::Send(b) => OutputView::Send(bytes_view(b@)),
            Output::Read(p) => OutputView::Read(p@),
            Output::Receive(n) => OutputView::Receive(n),
            Output::Nothing => OutputView::Nothing,
        }
    }
}

impl View for Goal {
    type V = GoalView;

    closed spec fn view(&self) -> GoalView {
        match *self {
            Goal::Compile { flags } => GoalView::Compile { flags: texts_view(flags@) },
            Goal::Query { line, text } => GoalView::Query { line, text: text@ },
            Goal::Forget => GoalView::Forget,
        }
    }
}

impl View for Next {
    type V = NextView;

    closed spec fn view(&self) -> NextView {
        match *self {
            Next::Open { id, file, flags } => NextView::Open {
                id: id@,
                file: file@,
                flags: texts_view(flags@),
            },
            Next::Answer { id } => NextView::Answer { id: id@ },
            Next::Leave => NextView::Leave,
        }
    }
}

impl View for Phase {
    type V = PhaseView;

    closed spec fn view(&self) -> PhaseView {
        match *self {
            Phase::Idle => PhaseView::Idle,
            Phase::Resolving { id, file, goal } => PhaseView::Resolving {
                id: id@,
                file: file@,
                goal: goal@,
            },
            Phase::Parting { session, request, next } => PhaseView::Parting {
                session: session@,
                request,
                next: next@,
            },
            Phase::Stopping { session, request, next } => PhaseView::Stopping {
                session: session@,
                request,
                next: next@,
            },
            Phase::Closing { next } => PhaseView::Closing { next: next@ },
            Phase::Opening { id, file, flags } => PhaseView::Opening {
                id: id@,
                file: file@,
                flags: texts_view(flags@),
            },
            Phase::Greeting { id, session } => PhaseView::Greeting {
                id: id@,
                session: session@,
            },
            Phase::Meeting { id, session } => PhaseView::Meeting { id: id@, session: session@ },
            Phase::Starting { id, session } => PhaseView::Starting {
                id: id@,
                session: session@,
            },
            Phase::Rereading { id } => PhaseView::Rereading { id: id@ },
            Phase::Resending { id, content, version } => PhaseView::Resending {
                id: id@,
                content: content@,
                version,
            },
            Phase::Processing { id } => PhaseView::Processing { id: id@ },
            Phase::Asking { id, query } => PhaseView::Asking { id: id@, query },
            Phase::Answering { id, query } => PhaseView::Answering { id: id@, query },
        }
    }
}

/// The code of an answer to what is no request.
pub const INVALID_REQUEST: i32 = -32600;

/// The code of an answer to a method that there is not.
pub const METHOD_NOT_FOUND: i32 = -32601;

/// The code of an answer to wrong parameters.
pub const INVALID_PARAMS: i32 = -32602;

/// The code of an answer to a request that failed.
pub const REQUEST_FAILED: i32 = -32000;

/// How long a file may take to be processed, in seconds.
pub const COMPILE_SECS: u64 = 300;

/// The daemon: the session of the file that was checked last, if there is one,
/// whether it was asked to stop, and what it waits for.
#[derive(Debug)]
pub struct Daemon {
    process_id: u32,
    session: Option<FileSession>,
    shutdown_requested: bool,
    phase: Phase,
}

/// The model of a daemon.
pub struct DaemonView {
    pub process_id: u32,
    pub session: Option<SessionView>,
    pub shutdown_requested: bool,
    pub phase: PhaseView,
}

/// The view of a session that need not be there.
pub open spec fn session_option(s: Option<FileSession>) -> Option<SessionView> {
    match s {
        Some(s) => Some(s@),
        None => None,
    }
}

impl View for Daemon {
    type V = DaemonView;

    closed spec fn view(&self) -> DaemonView {
        DaemonView {
            process_id: self.process_id,
            session: session_option(self.session),
            shutdown_requested: self.shutdown_requested,
            phase: self.phase@,
        }
    }
}

/// How long to wait for more: a limit of so many seconds runs from when nothing
/// has been waited for, and what arrives does not renew it.
pub open spec fn limit(secs: u64, a: ArrivalView) -> Limit {
    if a is Nothing {
        Limit::Within(secs)
    } else {
        Limit::Running
    }
}

/// A daemon that waits for a client's line.
pub open spec fn idle(d: DaemonView) -> DaemonView {
    DaemonView { phase: PhaseView::Idle, ..d }
}

/// A daemon that waits for something else.
pub open spec fn in_phase(d: DaemonView, phase: PhaseView) -> DaemonView {
    DaemonView { phase, ..d }
}

/// A daemon with another session, or none.
pub open spec fn with_session(d: DaemonView, session: Option<SessionView>) -> DaemonView {
    DaemonView { session, ..d }
}

/// Answers a request, and is done with it.
pub open spec fn reply(d: DaemonView, response: ResponseView) -> (DaemonView, OutputView) {
    (idle(d), OutputView::Reply(response))
}

/// Answers that the parameters are wrong.
pub open spec fn refuse(d: DaemonView, id: IdView, message: Seq<char>) -> (DaemonView, OutputView) {
    reply(d, error_view(id, INVALID_PARAMS, message))
}

/// Answers that the request failed.
pub open spec fn fail(d: DaemonView, id: IdView, what: Seq<char>, why: Seq<char>) -> (
    DaemonView,
    OutputView,
) {
    reply(d, error_view(id, REQUEST_FAILED, what + why))
}

/// Has a file opened, and `vsrocqtop` run with these flags.
pub open spec fn open_file(
    d: DaemonView,
    id: IdView,
    file: Seq<char>,
    flags: Seq<Seq<char>>,
) -> (DaemonView, OutputView) {
    (
        in_phase(d, PhaseView::Opening { id, file, flags }),
        OutputView::Open { path: encode_utf8(file), flags },
    )
}

/// What is done when a conversation has been ended.
pub open spec fn go_on(d: DaemonView, next: NextView) -> (DaemonView, OutputView) {
    match next {
        NextView::Open { id, file, flags } => open_file(d, id, file, flags),
        NextView::Answer { id } => reply(d, ok_view(id, empty_json())),
        NextView::Leave => (idle(d), OutputView::Hangup),
    }
}

/// Has a conversation ended.
pub open spec fn part(d: DaemonView, next: NextView) -> (DaemonView, OutputView) {
    (
        in_phase(d, PhaseView::Closing { next }),
        OutputView::Close(message_frame(exit_message())),
    )
}

/// Asks to end the session's conversation, if there is a session, and then goes
/// on.
pub open spec fn close(d: DaemonView, next: NextView) -> (DaemonView, OutputView) {
    match d.session {
        Some(s) => {
            let request = s.client.next_id;
            let session = SessionView { client: after_request(s.client), ..s };
            (
                in_phase(
                    with_session(d, None),
                    PhaseView::Parting { session, request, next },
                ),
                OutputView::Send(seq![message_frame(shutdown_message(request))]),
            )
        },
        None => go_on(d, next),
    }
}

/// Takes in what has come of waiting for the conversation to end. Whatever it
/// is, in the end it is ended.
pub open spec fn on_parted(
    d: DaemonView,
    session: SessionView,
    request: i64,
    next: NextView,
    a: ArrivalView,
) -> (DaemonView, OutputView) {
    let (pending, t) = parted(session, request, a);
    if pending {
        (
            in_phase(d, PhaseView::Stopping { session: t, request, next }),
            OutputView::Receive(limit(EXIT_WAIT_SECS, a)),
        )
    } else {
        part(d, next)
    }
}

/// Takes a request to check a file. Where there is a session, the file's
/// canonical path tells whether it is that file's.
pub open spec fn on_compile(d: DaemonView, id: IdView, params: Option<JsonView>) -> (
    DaemonView,
    OutputView,
) {
    let request = match params {
        Some(v) => compile_request_from(v),
        None => None,
    };
    match (request, d.session) {
        (None, _) => refuse(d, id, "invalid compile params"@),
        (Some(r), None) => open_file(d, id, r.file, r.flags),
        (Some(r), Some(_)) => (
            in_phase(
                d,
                PhaseView::Resolving {
                    id,
                    file: r.file,
                    goal: GoalView::Compile { flags: r.flags },
                },
            ),
            OutputView::Resolve(encode_utf8(r.file)),
        ),
    }
}

/// Answers that the file has not been checked.
pub open spec fn refuse_query(d: DaemonView, id: IdView) -> (DaemonView, OutputView) {
    reply(d, error_view(id, REQUEST_FAILED, "no active session — compile first"@))
}

/// Takes a query. Where there is a session, the file's canonical path tells
/// whether it is that file's.
pub open spec fn on_query(d: DaemonView, id: IdView, params: Option<JsonView>) -> (
    DaemonView,
    OutputView,
) {
    let request = match params {
        Some(v) => query_request_from(v),
        None => None,
    };
    match (request, d.session) {
        (None, _) => refuse(d, id, "invalid query params"@),
        (Some(_), None) => refuse_query(d, id),
        (Some(r), Some(_)) => (
            in_phase(
                d,
                PhaseView::Resolving {
                    id,
                    file: r.file,
                    goal: GoalView::Query { line: r.line, text: r.text },
                },
            ),
            OutputView::Resolve(encode_utf8(r.file)),
        ),
    }
}

/// Asks a query of a session.
pub open spec fn ask(d: DaemonView, s: SessionView, id: IdView, line: u32, text: Seq<char>) -> (
    DaemonView,
    OutputView,
) {
    let (word, pattern) = query_parts(text);
    match kind_of(word) {
        Some(kind) => {
            let query = PendingQuery { kind, id: s.client.next_id };
            let message = query_message(
                query,
                s.uri,
                s.version,
                Position { line, character: 0 },
                pattern,
            );
            let asked = SessionView { client: after_request(s.client), ..s };
            (
                in_phase(with_session(d, Some(asked)), PhaseView::Asking { id, query }),
                OutputView::Send(seq![message_frame(message)]),
            )
        },
        None => fail(d, id, "query failed: "@, "unknown query type: "@ + word),
    }
}

/// The sessions there are.
pub open spec fn session_list(d: DaemonView) -> Seq<SessionInfoView> {
    match d.session {
        Some(s) => seq![info_view(s)],
        None => seq![],
    }
}

/// Takes a request to forget a file.
pub open spec fn on_invalidate(d: DaemonView, id: IdView, params: Option<JsonView>) -> (
    DaemonView,
    OutputView,
) {
    let request = match params {
        Some(v) => invalidate_request_from(v),
        None => None,
    };
    match request {
        None => refuse(d, id, "invalid invalidate params"@),
        Some(file) => (
            in_phase(d, PhaseView::Resolving { id, file, goal: GoalView::Forget }),
            OutputView::Resolve(encode_utf8(file)),
        ),
    }
}

/// Takes a request.
pub open spec fn on_request(d: DaemonView, r: RequestView) -> (DaemonView, OutputView) {
    if r.method == methods::COMPILE@ {
        on_compile(d, r.id, r.params)
    } else if r.method == methods::QUERY@ {
        on_query(d, r.id, r.params)
    } else if r.method == methods::STATUS@ {
        reply(d, ok_view(r.id, status_response_json(session_list(d))))
    } else if r.method == methods::SHUTDOWN@ {
        close(DaemonView { shutdown_requested: true, ..d }, NextView::Answer { id: r.id })
    } else if r.method == methods::INVALIDATE@ {
        on_invalidate(d, r.id, r.params)
    } else {
        reply(d, error_view(r.id, METHOD_NOT_FOUND, "method not found: "@ + r.method))
    }
}

/// Takes a client's line. An empty one gets no answer, nor does one that is no
/// message; a message that is no request is refused.
pub open spec fn on_line(d: DaemonView, line: Seq<char>) -> (DaemonView, OutputView) {
    let text = trimmed(line);
    if text.len() == 0 {
        (idle(d), OutputView::Hangup)
    } else {
        match text_json(text) {
            None => (idle(d), OutputView::Reject(Rejection::NotJson)),
            Some(v) => match message_from(v) {
                None => (idle(d), OutputView::Reject(Rejection::NotMessage)),
                Some(MessageView::Request(r)) => on_request(d, r),
                Some(_) => reply(
                    d,
                    error_view(IdView::Number(0), INVALID_REQUEST, "expected a request"@),
                ),
            },
        }
    }
}

/// Takes the canonical path of a file; the path as it was given stands for it
/// where there is none. A session of that file is used again, asked, or
/// forgotten; a session of another one, or one whose process was run with other
/// flags, makes way for it, and a session of another file is not asked.
pub open spec fn on_resolved(
    d: DaemonView,
    id: IdView,
    file: Seq<char>,
    goal: GoalView,
    found: Option<Seq<u8>>,
) -> (DaemonView, OutputView) {
    let path = match found {
        Some(p) => p,
        None => encode_utf8(file),
    };
    let own = match d.session {
        Some(s) => same(s.path, path),
        None => false,
    };
    match goal {
        GoalView::Compile { flags } => if own && d.session->0.flags == flags {
            (
                in_phase(d, PhaseView::Rereading { id }),
                OutputView::Read(d.session->0.path),
            )
        } else {
            close(d, NextView::Open { id, file, flags })
        },
        GoalView::Query { line, text } => if own {
            ask(d, d.session->0, id, line, text)
        } else {
            refuse_query(d, id)
        },
        GoalView::Forget => if own {
            close(d, NextView::Answer { id })
        } else {
            reply(d, ok_view(id, empty_json()))
        },
    }
}

/// Why a file could not be opened.
pub open spec fn open_error_text(file: Seq<char>, e: OpenErrorView) -> Seq<char> {
    match e {
        OpenErrorView::Unresolved => "cannot resolve path: "@ + lossy_text(encode_utf8(file)),
        OpenErrorView::Unreadable(p) => unreadable_text(p),
        OpenErrorView::Spawn(s) => "failed to spawn "@ + s,
        OpenErrorView::Other(s) => s,
    }
}

/// Takes in what has come of waiting for the session's file to be processed.
/// Once it has been, what was found is the answer.
pub open spec fn process(d: DaemonView, id: IdView, a: ArrivalView) -> (DaemonView, OutputView) {
    match d.session {
        Some(s) => {
            let (read, t) = waited(s, COMPILE_SECS as nat, a);
            let d = with_session(d, Some(t));
            match read {
                CompletionView::Pending => (
                    in_phase(d, PhaseView::Processing { id }),
                    OutputView::Receive(limit(COMPILE_SECS, a)),
                ),
                CompletionView::Done => reply(
                    d,
                    ok_view(id, compile_response_json(outcome_view(t))),
                ),
                CompletionView::Failed(text) => fail(d, id, "compilation error: "@, text),
            }
        },
        None => (d, OutputView::Nothing),
    }
}

/// Reads what has arrived until a query has been answered.
pub open spec fn answer(d: DaemonView, id: IdView, query: PendingQuery, ended: bool) -> (
    DaemonView,
    OutputView,
) {
    match d.session {
        Some(s) => {
            let (read, rest) = next_answer(s.client.unread, ended, int_text(query.id as int));
            let d = with_session(d, Some(with_unread(s, rest)));
            match query_read(query.kind, read) {
                QueryReadView::Pending => (
                    in_phase(d, PhaseView::Answering { id, query }),
                    OutputView::Receive(Limit::Unlimited),
                ),
                QueryReadView::Answer(text) => reply(d, ok_view(id, query_response_json(text))),
                QueryReadView::Failed(text) => fail(d, id, "query failed: "@, text),
            }
        },
        None => (d, OutputView::Nothing),
    }
}

/// Takes the text of the session's file, which is to be sent again if it has
/// changed.
pub open spec fn on_content(d: DaemonView, id: IdView, content: Seq<char>) -> (
    DaemonView,
    OutputView,
) {
    match d.session {
        Some(s) => if hash_text(content) == s.content_hash {
            process(d, id, ArrivalView::Nothing)
        } else {
            let version = (s.version + 1) as i32;
            (
                in_phase(d, PhaseView::Resending { id, content, version }),
                OutputView::Send(change_sends(s, content, version)),
            )
        },
        None => (d, OutputView::Nothing),
    }
}

/// A daemon whose session has been sent another text.
pub open spec fn with_text(d: DaemonView, content: Seq<char>, version: i32) -> DaemonView {
    match d.session {
        Some(s) => with_session(d, Some(resent(s, content, version))),
        None => d,
    }
}

/// Takes in what has come of waiting for the conversation about a file to start.
pub open spec fn on_started(d: DaemonView, id: IdView, session: SessionView, a: ArrivalView) -> (
    DaemonView,
    OutputView,
) {
    let (start, t) = started(session, a);
    match start {
        StartView::Pending => (
            in_phase(d, PhaseView::Meeting { id, session: t }),
            OutputView::Receive(limit(COMPILE_SECS, a)),
        ),
        StartView::Send(sends) => (
            in_phase(d, PhaseView::Starting { id, session: t }),
            OutputView::Send(sends),
        ),
        StartView::Failed => fail(d, id, "failed to open session: "@, "LSP initialize"@),
    }
}

/// A daemon whose session has more to read.
pub open spec fn with_more(d: DaemonView, bytes: Seq<u8>) -> DaemonView {
    match d.session {
        Some(s) => with_session(d, Some(with_unread(s, s.client.unread + bytes))),
        None => d,
    }
}

/// Why the session's file could not be read.
pub open spec fn session_unreadable(d: DaemonView) -> Seq<char> {
    match d.session {
        Some(s) => unreadable_text(s.path),
        None => Seq::empty(),
    }
}

/// Why no more could be read from the session's process.
pub open spec fn session_broken(d: DaemonView) -> Seq<char> {
    match d.session {
        Some(s) => broken_text(s.client.unread),
        None => Seq::empty(),
    }
}

/// What the daemon does about an input: how it changes, and what it wants done.
/// An input that it does not wait for changes nothing.
pub open spec fn step(d: DaemonView, input: InputView) -> (DaemonView, OutputView) {
    let e = idle(d);
    match (d.phase, input) {
        (PhaseView::Idle, InputView::Line(line)) => on_line(e, line),
        (PhaseView::Resolving { id, file, goal }, InputView::Resolved(found)) => on_resolved(
            e,
            id,
            file,
            goal,
            found,
        ),
        (PhaseView::Idle, InputView::Stop) => close(e, NextView::Leave),
        (PhaseView::Parting { session, request, next }, InputView::Sent) => on_parted(
            e,
            session,
            request,
            next,
            ArrivalView::Nothing,
        ),
        (PhaseView::Parting { next, .. }, InputView::SendFailed { .. }) => part(e, next),
        (PhaseView::Stopping { session, request, next }, InputView::Arrived(bytes)) => on_parted(
            e,
            session,
            request,
            next,
            ArrivalView::Bytes(bytes),
        ),
        (PhaseView::Stopping { next, .. }, InputView::Ended) => part(e, next),
        (PhaseView::Stopping { next, .. }, InputView::ReadFailed) => part(e, next),
        (PhaseView::Stopping { next, .. }, InputView::TimedOut) => part(e, next),
        (PhaseView::Closing { next }, InputView::Closed) => go_on(e, next),
        (PhaseView::Opening { id, flags, .. }, InputView::Opened { path, content }) => (
            in_phase(e, PhaseView::Greeting { id, session: opened(path, content, flags) }),
            OutputView::Send(seq![greeting(path, d.process_id)]),
        ),
        (PhaseView::Opening { id, file, .. }, InputView::OpenFailed(error)) => fail(
            e,
            id,
            "failed to open session: "@,
            open_error_text(file, error),
        ),
        (PhaseView::Greeting { id, session }, InputView::Sent) => on_started(
            e,
            id,
            session,
            ArrivalView::Nothing,
        ),
        (PhaseView::Greeting { id, .. }, InputView::SendFailed { .. }) => fail(
            e,
            id,
            "failed to open session: "@,
            "LSP initialize"@,
        ),
        (PhaseView::Meeting { id, session }, InputView::Arrived(bytes)) => on_started(
            e,
            id,
            session,
            ArrivalView::Bytes(bytes),
        ),
        (PhaseView::Meeting { id, session }, InputView::Ended) => on_started(
            e,
            id,
            session,
            ArrivalView::Ended,
        ),
        (PhaseView::Meeting { id, session }, InputView::ReadFailed) => on_started(
            e,
            id,
            session,
            ArrivalView::Broken,
        ),
        (PhaseView::Meeting { id, .. }, InputView::TimedOut) => fail(
            e,
            id,
            "compilation error: "@,
            timeout_text(COMPILE_SECS as nat),
        ),
        (PhaseView::Starting { id, session }, InputView::Sent) => process(
            with_session(e, Some(session)),
            id,
            ArrivalView::Nothing,
        ),
        (PhaseView::Starting { id, .. }, InputView::SendFailed { sent, error }) => fail(
            e,
            id,
            "failed to open session: "@,
            if sent == 0 {
                "LSP initialize"@
            } else {
                error
            },
        ),
        (PhaseView::Rereading { id }, InputView::Content(content)) => on_content(e, id, content),
        (PhaseView::Rereading { id }, InputView::Unreadable) => fail(
            e,
            id,
            "recompile failed: "@,
            session_unreadable(e),
        ),
        (PhaseView::Resending { id, content, version }, InputView::Sent) => process(
            with_text(e, content, version),
            id,
            ArrivalView::Nothing,
        ),
        (
            PhaseView::Resending { id, content, version },
            InputView::SendFailed { sent, error },
        ) => fail(
            if sent == 0 {
                e
            } else {
                with_text(e, content, version)
            },
            id,
            "recompile failed: "@,
            error,
        ),
        (PhaseView::Processing { id }, InputView::Arrived(bytes)) => process(
            e,
            id,
            ArrivalView::Bytes(bytes),
        ),
        (PhaseView::Processing { id }, InputView::Ended) => process(e, id, ArrivalView::Ended),
        (PhaseView::Processing { id }, InputView::ReadFailed) => process(
            e,
            id,
            ArrivalView::Broken,
        ),
        (PhaseView::Processing { id }, InputView::TimedOut) => process(
            e,
            id,
            ArrivalView::TimedOut,
        ),
        (PhaseView::Asking { id, query }, InputView::Sent) => answer(e, id, query, false),
        (PhaseView::Asking { id, .. }, InputView::SendFailed { error, .. }) => fail(
            e,
            id,
            "query failed: "@,
            error,
        ),
        (PhaseView::Answering { id, query }, InputView::Arrived(bytes)) => answer(
            with_more(e, bytes),
            id,
            query,
            false,
        ),
        (PhaseView::Answering { id, query }, InputView::Ended) => answer(e, id, query, true),
        (PhaseView::Answering { id, .. }, InputView::ReadFailed) => fail(
            e,
            id,
            "query failed: "@,
            session_broken(e),
        ),
        _ => (d, OutputView::Nothing),
    }
}

/// Whether an input can be taken: a version is left for a text that has changed.
pub open spec fn can_take(d: DaemonView, input: InputView) -> bool {
    match (d.phase, d.session, input) {
        (PhaseView::Rereading { .. }, Some(s), InputView::Content(text)) => can_take_text(s, text),
        _ => true,
    }
}

/// What a daemon waits for fits whether it has a session.
pub open spec fn phase_fits(d: DaemonView) -> bool {
    match d.phase {
        PhaseView::Idle | PhaseView::Resolving { .. } => true,
        PhaseView::Rereading { .. }
        | PhaseView::Resending { .. }
        | PhaseView::Processing { .. }
        | PhaseView::Asking { .. }
        | PhaseView::Answering { .. } => d.session is Some,
        _ => d.session is None,
    }
}

/// The session that a daemon is about to have, or has given up.
pub open spec fn phase_session(phase: PhaseView) -> Option<SessionView> {
    match phase {
        PhaseView::Parting { session, .. } => Some(session),
        PhaseView::Stopping { session, .. } => Some(session),
        PhaseView::Greeting { session, .. } => Some(session),
        PhaseView::Meeting { session, .. } => Some(session),
        PhaseView::Starting { session, .. } => Some(session),
        _ => None,
    }
}

/// What holds of every daemon: what it waits for fits its session, and the
/// session that it has, or is about to have, is in order.
pub open spec fn daemon_wf(d: DaemonView) -> bool {
    &&& phase_fits(d)
    &&& d.session matches Some(s) ==> session_wf(s)
    &&& phase_session(d.phase) matches Some(s) ==> session_wf(s)
}

fn limit_of(secs: u64, arrival: &Arrival) -> (r: Limit)
    ensures
        r == limit(secs, arrival@),
{
    match arrival {
        Arrival::Nothing => Limit::Within(secs),
        _ => Limit::Running,
    }
}

impl OpenError {
    fn to_text(&self, file: &str) -> (r: String)
        ensures
            r@ == open_error_text(file@, self@),
    {
        match self {
            OpenError::Unresolved => {
                let shown: String = display(file.as_bytes());
                concat("cannot resolve path: ", shown.as_str())
            },
            OpenError::Unreadable(p) => {
                let shown: String = display(p.as_slice());
                concat("reading ", shown.as_str())
            },
            OpenError::Spawn(s) => concat("failed to spawn ", s.as_str()),
            OpenError::Other(s) => s.clone(),
        }
    }
}

impl Daemon {
    /// A daemon without a session. `process_id` is that of the process that it
    /// runs in.
    pub fn new(process_id: u32) -> (r: Daemon)
        ensures
            r@ == (DaemonView {
                process_id,
                session: None,
                shutdown_requested: false,
                phase: PhaseView::Idle,
            }),
            daemon_wf(r@),
    {
        Daemon { process_id, session: None, shutdown_requested: false, phase: Phase::Idle }
    }

    /// Whether the daemon was asked to stop.
    pub fn stopping(&self) -> (r: bool)
        ensures
            r == self@.shutdown_requested,
    {
        self.shutdown_requested
    }

    /// Whether there is a session.
    pub fn has_session(&self) -> (r: bool)
        ensures
            r == (self@.session is Some),
    {
        self.session.is_some()
    }

    /// Whether an input can be taken.
    pub fn can_step(&self, input: &Input) -> (r: bool)
        ensures
            r == can_take(self@, input@),
    {
        match (&self.phase, &self.session, input) {
            (Phase::Rereading { .. }, Some(s), Input::Content(text)) => s.can_recompile(
                text.as_str(),
            ),
            _ => true,
        }
    }

    fn reply(&mut self, response: Response) -> (r: Output)
        ensures
            (final(self)@, r@) == reply(old(self)@, response@),
    {
        self.phase = Phase::Idle;
        Output::Reply(response)
    }

    fn fail(&mut self, id: Id, what: &str, why: &str) -> (r: Output)
        ensures
            (final(self)@, r@) == fail(old(self)@, id@, what@, why@),
    {
        let message: String = concat(what, why);
        self.reply(Response::error(id, REQUEST_FAILED, message.as_str()))
    }

    fn open_file(&mut self, id: Id, file: String, flags: Vec<String>) -> (r: Output)
        ensures
            (final(self)@, r@) == open_file(old(self)@, id@, file@, texts_view(flags@)),
    {
        let path: Vec<u8> = slice_to_vec(file.as_str().as_bytes());
        let run_with: Vec<String> = copy_texts(&flags);
        self.phase = Phase::Opening { id, file, flags };
        Output::Open { path, flags: run_with }
    }

    fn finish(&mut self, id: Id) -> (r: Output)
        ensures
            (final(self)@, r@) == reply(old(self)@, ok_view(id@, empty_json())),
    {
        self.reply(Response::ok(id, write_empty()))
    }

    fn go_on(&mut self, next: Next) -> (r: Output)
        ensures
            (final(self)@, r@) == go_on(old(self)@, next@),
    {
        match next {
            Next::Open { id, file, flags } => self.open_file(id, file, flags),
            Next::Answer { id } => self.finish(id),
            Next::Leave => {
                self.phase = Phase::Idle;
                Output::Hangup
            },
        }
    }

    fn part(&mut self, session: &FileSession, next: Next) -> (r: Output)
        ensures
            (final(self)@, r@) == part(old(self)@, next@),
    {
        self.phase = Phase::Closing { next };
        Output::Close(session.exit())
    }

    fn send_one(&mut self, bytes: Vec<u8>, phase: Phase) -> (r: Output)
        ensures
            final(self)@ == in_phase(old(self)@, phase@),
            r@ == OutputView::Send(seq![bytes@]),
    {
        self.phase = phase;
        let mut sends: Vec<Vec<u8>> = Vec::new();
        sends.push(bytes);
        assert(bytes_view(sends@) == seq![bytes@]);
        Output::Send(sends)
    }

    fn close(&mut self, next: Next) -> (r: Output)
        ensures
            (final(self)@, r@) == close(old(self)@, next@),
    {
        match self.session.take() {
            Some(mut session) => {
                let (request, bytes): (i64, Vec<u8>) = session.shutdown();
                self.send_one(bytes, Phase::Parting { session, request, next })
            },
            None => self.go_on(next),
        }
    }

    fn parted(&mut self, session: FileSession, request: i64, next: Next, arrival: Arrival) -> (r:
        Output)
        ensures
            (final(self)@, r@) == on_parted(old(self)@, session@, request, next@, arrival@),
            session_wf(session@) ==> (phase_session(final(self)@.phase) matches Some(s)
                ==> session_wf(s)),
    {
        let mut session: FileSession = session;
        let limit: Limit = limit_of(EXIT_WAIT_SECS, &arrival);
        if session.awaits_end(request, arrival) {
            self.phase = Phase::Stopping { session, request, next };
            Output::Receive(limit)
        } else {
            self.part(&session, next)
        }
    }

    fn started(&mut self, id: Id, session: FileSession, arrival: Arrival) -> (r: Output)
        ensures
            (final(self)@, r@) == on_started(old(self)@, id@, session@, arrival@),
            session_wf(session@) ==> (phase_session(final(self)@.phase) matches Some(s)
                ==> session_wf(s)),
    {
        let mut session: FileSession = session;
        let limit: Limit = limit_of(COMPILE_SECS, &arrival);
        match session.start(arrival) {
            Start::Pending => {
                self.phase = Phase::Meeting { id, session };
                Output::Receive(limit)
            },
            Start::Send(sends) => {
                self.phase = Phase::Starting { id, session };
                Output::Send(sends)
            },
            Start::Failed => self.fail(id, "failed to open session: ", "LSP initialize"),
        }
    }
}

impl Daemon {
    fn handle_compile(&mut self, id: Id, params: Option<Json>) -> (r: Output)
        ensures
            (final(self)@, r@) == on_compile(old(self)@, id@, option_view(params)),
    {
        let request: Option<CompileRequest> = match &params {
            Some(v) => CompileRequest::read(v),
            None => None,
        };
        match request {
            None => self.reply(Response::error(id, INVALID_PARAMS, "invalid compile params")),
            Some(r) => if self.session.is_some() {
                let path: Vec<u8> = slice_to_vec(r.file.as_str().as_bytes());
                let goal: Goal = Goal::Compile { flags: r.flags };
                self.phase = Phase::Resolving { id, file: r.file, goal };
                Output::Resolve(path)
            } else {
                self.open_file(id, r.file, r.flags)
            },
        }
    }

    fn handle_query(&mut self, id: Id, params: Option<Json>) -> (r: Output)
        ensures
            (final(self)@, r@) == on_query(old(self)@, id@, option_view(params)),
    {
        let request: Option<QueryRequest> = match &params {
            Some(v) => QueryRequest::read(v),
            None => None,
        };
        match request {
            None => self.reply(Response::error(id, INVALID_PARAMS, "invalid query params")),
            Some(r) => if self.session.is_some() {
                let path: Vec<u8> = slice_to_vec(r.file.as_str().as_bytes());
                let goal: Goal = Goal::Query { line: r.line, text: r.text };
                self.phase = Phase::Resolving { id, file: r.file, goal };
                Output::Resolve(path)
            } else {
                self.refuse_query(id)
            },
        }
    }

    fn refuse_query(&mut self, id: Id) -> (r: Output)
        ensures
            (final(self)@, r@) == refuse_query(old(self)@, id@),
    {
        self.reply(Response::error(id, REQUEST_FAILED, "no active session — compile first"))
    }

    fn ask(&mut self, id: Id, line: u32, text: &str) -> (r: Output)
        requires
            old(self)@.session is Some,
        ensures
            (final(self)@, r@) == ask(old(self)@, old(self)@.session->0, id@, line, text@),
    {
        let mut session: FileSession = match self.session.take() {
            Some(s) => s,
            None => vstd::pervasive::unreached(),
        };
        let (word, pattern): (String, String) = parse_query_text(text);
        let asked: Result<(PendingQuery, Vec<u8>), String> = session.query(
            word.as_str(),
            line,
            pattern.as_str(),
        );
        self.session = Some(session);
        match asked {
            Ok((query, bytes)) => self.send_one(bytes, Phase::Asking { id, query }),
            Err(e) => self.fail(id, "query failed: ", e.as_str()),
        }
    }

    fn handle_status(&mut self, id: Id) -> (r: Output)
        ensures
            (final(self)@, r@) == reply(
                old(self)@,
                ok_view(id@, status_response_json(session_list(old(self)@))),
            ),
    {
        let mut sessions: Vec<SessionInfo> = Vec::new();
        match &self.session {
            Some(s) => sessions.push(s.info()),
            None => {},
        }
        assert(sessions_view(sessions@) == session_list(self@));
        self.reply(Response::ok(id, StatusResponse { sessions }.to_json()))
    }

    fn handle_shutdown(&mut self, id: Id) -> (r: Output)
        ensures
            (final(self)@, r@) == close(
                DaemonView { shutdown_requested: true, ..old(self)@ },
                NextView::Answer { id: id@ },
            ),
    {
        self.shutdown_requested = true;
        self.close(Next::Answer { id })
    }

    fn handle_invalidate(&mut self, id: Id, params: Option<Json>) -> (r: Output)
        ensures
            (final(self)@, r@) == on_invalidate(old(self)@, id@, option_view(params)),
    {
        let request: Option<InvalidateRequest> = match &params {
            Some(v) => InvalidateRequest::read(v),
            None => None,
        };
        match request {
            None => self.reply(Response::error(id, INVALID_PARAMS, "invalid invalidate params")),
            Some(r) => {
                let path: Vec<u8> = slice_to_vec(r.file.as_str().as_bytes());
                self.phase = Phase::Resolving { id, file: r.file, goal: Goal::Forget };
                Output::Resolve(path)
            },
        }
    }

    fn handle_request(&mut self, r: Request) -> (o: Output)
        ensures
            (final(self)@, o@) == on_request(old(self)@, r@),
    {
        let method: &str = r.method.as_str();
        if same_text(method, methods::COMPILE) {
            self.handle_compile(r.id, r.params)
        } else if same_text(method, methods::QUERY) {
            self.handle_query(r.id, r.params)
        } else if same_text(method, methods::STATUS) {
            self.handle_status(r.id)
        } else if same_text(method, methods::SHUTDOWN) {
            self.handle_shutdown(r.id)
        } else if same_text(method, methods::INVALIDATE) {
            self.handle_invalidate(r.id, r.params)
        } else {
            let message: String = concat("method not found: ", method);
            self.reply(Response::error(r.id, METHOD_NOT_FOUND, message.as_str()))
        }
    }

    fn handle_line(&mut self, line: &str) -> (r: Output)
        ensures
            (final(self)@, r@) == on_line(old(self)@, line@),
    {
        let text: &str = trim(line);
        self.phase = Phase::Idle;
        if text.is_empty() {
            return Output::Hangup;
        }
        match Message::read_text(text) {
            Err(ReadError::NotJson) => Output::Reject(Rejection::NotJson),
            Err(ReadError::NotMessage(_)) => Output::Reject(Rejection::NotMessage),
            Ok(Message::Request(r)) => self.handle_request(r),
            Ok(_) => self.reply(
                Response::error(Id::Number(0), INVALID_REQUEST, "expected a request"),
            ),
        }
    }

    fn resolved(&mut self, id: Id, file: String, goal: Goal, found: Option<Vec<u8>>) -> (r: Output)
        ensures
            (final(self)@, r@) == on_resolved(
                old(self)@,
                id@,
                file@,
                goal@,
                match found {
                    Some(p) => Some(p@),
                    None => None,
                },
            ),
    {
        let path: Vec<u8> = match found {
            Some(p) => p,
            None => slice_to_vec(file.as_str().as_bytes()),
        };
        let own: Option<Vec<u8>> = match &self.session {
            Some(s) => if s.is_for(path.as_slice()) {
                Some(slice_to_vec(s.path().as_slice()))
            } else {
                None
            },
            None => None,
        };
        let same_flags: bool = match (&self.session, &goal) {
            (Some(s), Goal::Compile { flags }) => s.has_flags(flags),
            _ => false,
        };
        match (own, goal) {
            (Some(session_path), Goal::Compile { flags }) => if same_flags {
                self.phase = Phase::Rereading { id };
                Output::Read(session_path)
            } else {
                self.close(Next::Open { id, file, flags })
            },
            (None, Goal::Compile { flags }) => self.close(Next::Open { id, file, flags }),
            (Some(_), Goal::Query { line, text }) => self.ask(id, line, text.as_str()),
            (None, Goal::Query { line: _, text: _ }) => self.refuse_query(id),
            (Some(_), Goal::Forget) => self.close(Next::Answer { id }),
            (None, Goal::Forget) => self.finish(id),
        }
    }

    fn process(&mut self, id: Id, arrival: Arrival) -> (r: Output)
        ensures
            (final(self)@, r@) == process(old(self)@, id@, arrival@),
            daemon_wf(idle(old(self)@)) ==> (final(self)@.session matches Some(s) ==> session_wf(s)),
    {
        let mut session: FileSession = match self.session.take() {
            Some(s) => s,
            None => return Output::Nothing,
        };
        let limit: Limit = limit_of(COMPILE_SECS, &arrival);
        match session.wait_for_completion(COMPILE_SECS, arrival) {
            Completion::Pending => {
                self.session = Some(session);
                self.phase = Phase::Processing { id };
                Output::Receive(limit)
            },
            Completion::Done => {
                let outcome: Json = session.outcome().to_json();
                self.session = Some(session);
                self.reply(Response::ok(id, outcome))
            },
            Completion::Failed(text) => {
                self.session = Some(session);
                self.fail(id, "compilation error: ", text.as_str())
            },
        }
    }

    fn answer(&mut self, id: Id, query: PendingQuery, ended: bool) -> (r: Output)
        ensures
            (final(self)@, r@) == answer(old(self)@, id@, query, ended),
    {
        let mut session: FileSession = match self.session.take() {
            Some(s) => s,
            None => return Output::Nothing,
        };
        let read: QueryRead = session.recv_answer(&query, ended);
        self.session = Some(session);
        match read {
            QueryRead::Pending => {
                self.phase = Phase::Answering { id, query };
                Output::Receive(Limit::Unlimited)
            },
            QueryRead::Answer(response) => self.reply(
                Response::ok(id, QueryResponse { response }.to_json()),
            ),
            QueryRead::Failed(text) => self.fail(id, "query failed: ", text.as_str()),
        }
    }

    fn reread(&mut self, id: Id, content: String) -> (r: Output)
        requires
            old(self)@.session matches Some(s) ==> can_take_text(s, content@),
        ensures
            (final(self)@, r@) == on_content(old(self)@, id@, content@),
            daemon_wf(idle(old(self)@)) ==> (final(self)@.session matches Some(s) ==> session_wf(s)),
    {
        let changed: Option<(i32, Vec<Vec<u8>>)> = match &self.session {
            Some(s) => s.recompile(content.as_str()),
            None => return Output::Nothing,
        };
        match changed {
            Some((version, sends)) => {
                self.phase = Phase::Resending { id, content, version };
                Output::Send(sends)
            },
            None => self.process(id, Arrival::Nothing),
        }
    }

    fn sent_again(&mut self, content: String, version: i32)
        ensures
            final(self)@ == with_text(old(self)@, content@, version),
            daemon_wf(idle(old(self)@)) ==> daemon_wf(idle(final(self)@)),
    {
        match self.session.take() {
            Some(mut s) => {
                s.sent_again(content, version);
                self.session = Some(s);
            },
            None => {},
        }
    }

    fn arrive(&mut self, bytes: Vec<u8>)
        ensures
            final(self)@ == with_more(old(self)@, bytes@),
    {
        match self.session.take() {
            Some(mut s) => {
                s.arrive(bytes.as_slice());
                self.session = Some(s);
            },
            None => {},
        }
    }

    fn unreadable(&self) -> (r: String)
        ensures
            r@ == session_unreadable(self@),
    {
        match &self.session {
            Some(s) => s.unreadable(),
            None => String::new(),
        }
    }

    fn broken(&self) -> (r: String)
        ensures
            r@ == session_broken(self@),
    {
        match &self.session {
            Some(s) => s.broken(),
            None => String::new(),
        }
    }
}

impl Daemon {
    /// Takes an input, and says what to do.
    #[verifier::rlimit(50)]
    pub fn step(&mut self, input: Input) -> (r: Output)
        requires
            can_take(old(self)@, input@),
        ensures
            (final(self)@, r@) == step(old(self)@, input@),
            daemon_wf(old(self)@) ==> daemon_wf(final(self)@),
    {
        let mut phase: Phase = Phase::Idle;
        std::mem::swap(&mut self.phase, &mut phase);
        match (phase, input) {
            (Phase::Idle, Input::Line(line)) => self.handle_line(line.as_str()),
            (Phase::Idle, Input::Stop) => self.close(Next::Leave),
            (Phase::Resolving { id, file, goal }, Input::Resolved(found)) => self.resolved(
                id,
                file,
                goal,
                found,
            ),
            (Phase::Parting { session, request, next }, Input::Sent) => self.parted(
                session,
                request,
                next,
                Arrival::Nothing,
            ),
            (
                Phase::Parting { session, request: _, next },
                Input::SendFailed { sent: _, error: _ },
            ) => self.part(&session, next),
            (Phase::Stopping { session, request, next }, Input::Arrived(bytes)) => self.parted(
                session,
                request,
                next,
                Arrival::Bytes(bytes),
            ),
            (Phase::Stopping { session, request: _, next }, Input::Ended) => self.part(
                &session,
                next,
            ),
            (Phase::Stopping { session, request: _, next }, Input::ReadFailed) => self.part(
                &session,
                next,
            ),
            (Phase::Stopping { session, request: _, next }, Input::TimedOut) => self.part(
                &session,
                next,
            ),
            (Phase::Closing { next }, Input::Closed) => self.go_on(next),
            (Phase::Opening { id, file: _, flags }, Input::Opened { path, content }) => {
                let (session, bytes): (FileSession, Vec<u8>) = FileSession::open(
                    path,
                    content,
                    flags,
                    self.process_id,
                );
                self.send_one(bytes, Phase::Greeting { id, session })
            },
            (Phase::Opening { id, file, flags: _ }, Input::OpenFailed(e)) => {
                let text: String = e.to_text(file.as_str());
                self.fail(id, "failed to open session: ", text.as_str())
            },
            (Phase::Greeting { id, session }, Input::Sent) => self.started(
                id,
                session,
                Arrival::Nothing,
            ),
            (Phase::Greeting { id, session: _ }, Input::SendFailed { sent: _, error: _ }) => {
                self.fail(id, "failed to open session: ", "LSP initialize")
            },
            (Phase::Meeting { id, session }, Input::Arrived(bytes)) => self.started(
                id,
                session,
                Arrival::Bytes(bytes),
            ),
            (Phase::Meeting { id, session }, Input::Ended) => self.started(
                id,
                session,
                Arrival::Ended,
            ),
            (Phase::Meeting { id, session }, Input::ReadFailed) => self.started(
                id,
                session,
                Arrival::Broken,
            ),
            (Phase::Meeting { id, session: _ }, Input::TimedOut) => {
                let text: String = write_timeout(COMPILE_SECS);
                self.fail(id, "compilation error: ", text.as_str())
            },
            (Phase::Starting { id, session }, Input::Sent) => {
                self.session = Some(session);
                self.process(id, Arrival::Nothing)
            },
            (Phase::Starting { id, session: _ }, Input::SendFailed { sent, error }) => {
                if sent == 0 {
                    self.fail(id, "failed to open session: ", "LSP initialize")
                } else {
                    self.fail(id, "failed to open session: ", error.as_str())
                }
            },
            (Phase::Rereading { id }, Input::Content(content)) => self.reread(id, content),
            (Phase::Rereading { id }, Input::Unreadable) => {
                let text: String = self.unreadable();
                self.fail(id, "recompile failed: ", text.as_str())
            },
            (Phase::Resending { id, content, version }, Input::Sent) => {
                self.sent_again(content, version);
                self.process(id, Arrival::Nothing)
            },
            (Phase::Resending { id, content, version }, Input::SendFailed { sent, error }) => {
                if sent > 0 {
                    self.sent_again(content, version);
                }
                self.fail(id, "recompile failed: ", error.as_str())
            },
            (Phase::Processing { id }, Input::Arrived(bytes)) => self.process(
                id,
                Arrival::Bytes(bytes),
            ),
            (Phase::Processing { id }, Input::Ended) => self.process(id, Arrival::Ended),
            (Phase::Processing { id }, Input::ReadFailed) => self.process(id, Arrival::Broken),
            (Phase::Processing { id }, Input::TimedOut) => self.process(id, Arrival::TimedOut),
            (Phase::Asking { id, query }, Input::Sent) => self.answer(id, query, false),
            (Phase::Asking { id, query: _ }, Input::SendFailed { sent: _, error }) => self.fail(
                id,
                "query failed: ",
                error.as_str(),
            ),
            (Phase::Answering { id, query }, Input::Arrived(bytes)) => {
                self.arrive(bytes);
                self.answer(id, query, false)
            },
            (Phase::Answering { id, query }, Input::Ended) => self.answer(id, query, true),
            (Phase::Answering { id, query: _ }, Input::ReadFailed) => {
                let text: String = self.broken();
                self.fail(id, "query failed: ", text.as_str())
            },
            (phase, _) => {
                self.phase = phase;
                Output::Nothing
            },
        }
    }
}

/// The line that a response is sent as.
pub open spec fn response_line(response: ResponseView) -> Seq<char> {
    message_text(MessageView::Response(response)).push('\n')
}

/// The line that a response is sent as. It is one line; and what is read from
/// it is the response.
pub fn write_response(response: Response) -> (r: String)
    ensures
        r@ == response_line(response@),
        r@.drop_last() == message_text(MessageView::Response(response@)),
        !r@.drop_last().contains('\n'),
        reads_back(MessageView::Response(response@)) ==> message_from_text(trimmed(r@)) == Some(
            MessageView::Response(response@),
        ),
{
    let mut out: String = Message::Response(response).to_text();
    let ghost text = out@;
    out.push('\n');
    proof {
        assert(out@.drop_last() == text);
        lemma_trim_line(text);
    }
    out
}

/// The request that a line holds.
pub open spec fn line_request(line: Seq<char>) -> Option<RequestView> {
    match message_from_text(trimmed(line)) {
        Some(MessageView::Request(r)) => if trimmed(line).len() > 0 {
            Some(r)
        } else {
            None
        },
        _ => None,
    }
}

} // verus!
