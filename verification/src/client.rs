//! The command line's side: what to ask the daemon, and what to make of its
//! answers.
use vstd::prelude::*;
use crate::daemon::line_request;
use crate::json::{option_view, text_json, Json, JsonView, MAX_DEPTH};
use crate::lsp::jsonrpc::{
    error_view, message_from_text, message_text, ok_view, reads_back, request_view, Id, IdView,
    Message, MessageView, ReadError, Request, RequestView, Response, ResponseView,
};
use crate::lsp::types::{settled, Diagnostic, DiagnosticView, ERROR, HINT, INFORMATION, WARNING};
use crate::protocol::{
    compile_request_from, compile_request_json, compile_response_from, compile_response_json,
    copy_texts, empty_json, law_compile_request_reads_back, law_compile_response_reads_back,
    law_query_request_reads_back, law_status_response_reads_back, law_text_record_reads_back,
    methods, query_request_from, query_request_json, query_response_from, query_response_json,
    status_response_from, status_response_json, texts_view, CompileRequest, CompileRequestView,
    CompileResponse, CompileResponseView, QueryRequest, QueryRequestView, QueryResponse,
    SessionInfoView, ShutdownRequest, StatusRequest, StatusResponse,
};
use crate::text::{
    chars_of, concat, is_digit, law_number_reads_back, lemma_nat_text, lemma_trim_line, nat_text,
    parse_number, parsed_number, trim, trimmed, write_nat,
};

verus! {

/// A request as the client sends it.
pub open spec fn client_request(method: Seq<char>, params: Option<JsonView>) -> RequestView {
    request_view(IdView::Number(1), method, params)
}

/// The line that a request is sent as: its text, and a line feed at the end.
pub open spec fn request_line(r: RequestView) -> Seq<char> {
    message_text(MessageView::Request(r)).push('\n')
}

/// Whether a line holds a request and nothing else: it is one line, the request
/// is its text, and the request is what the daemon reads from it.
pub open spec fn is_line_of(line: Seq<char>, r: RequestView) -> bool {
    &&& line == request_line(r)
    &&& !line.drop_last().contains('\n')
    &&& line_request(line) == Some(r)
}

/// The line that a request is sent as. It is one line; and the request is what
/// the daemon reads from it.
pub fn write_request(method: &str, params: Option<Json>) -> (r: String)
    ensures
        r@ == request_line(client_request(method@, option_view(params))),
        !r@.drop_last().contains('\n'),
        reads_back(MessageView::Request(client_request(method@, option_view(params))))
            ==> line_request(r@) == Some(client_request(method@, option_view(params))),
{
    let mut out: String = Message::Request(Request::new(Id::Number(1), method, params)).to_text();
    let ghost text = out@;
    out.push('\n');
    proof {
        assert(out@.drop_last() == text);
        lemma_trim_line(text);
    }
    out
}

proof fn lemma_request_reads_back(method: Seq<char>, params: JsonView)
    requires
        params !is Null,
        params.reads_back((MAX_DEPTH - 1) as nat),
    ensures
        reads_back(MessageView::Request(client_request(method, Some(params)))),
{
}

/// The line that asks for a file to be checked.
pub fn compile_request(file: &str, flags: &Vec<String>) -> (r: String)
    ensures
        ({
            let request = CompileRequestView { file: file@, flags: texts_view(flags@) };
            &&& is_line_of(
                r@,
                client_request(methods::COMPILE@, Some(compile_request_json(request))),
            )
            &&& compile_request_from(compile_request_json(request)) == Some(request)
        }),
{
    let request: CompileRequest = CompileRequest {
        file: file.to_string(),
        flags: copy_texts(flags),
    };
    proof {
        law_compile_request_reads_back(request@);
        reveal_with_fuel(JsonView::reads_back, 4);
        lemma_request_reads_back(methods::COMPILE@, compile_request_json(request@));
    }
    write_request(methods::COMPILE, Some(request.to_json()))
}

/// The line that asks a query about a line of a file.
pub fn query_request(file: &str, line: u32, text: &str) -> (r: String)
    ensures
        ({
            let request = QueryRequestView { file: file@, line, text: text@ };
            &&& is_line_of(
                r@,
                client_request(methods::QUERY@, Some(query_request_json(request))),
            )
            &&& query_request_from(query_request_json(request)) == Some(request)
        }),
{
    let request: QueryRequest = QueryRequest {
        file: file.to_string(),
        line,
        text: text.to_string(),
    };
    proof {
        law_query_request_reads_back(request@);
        reveal_with_fuel(JsonView::reads_back, 4);
        lemma_request_reads_back(methods::QUERY@, query_request_json(request@));
    }
    write_request(methods::QUERY, Some(request.to_json()))
}

/// The line that asks for the sessions there are.
pub fn status_request() -> (r: String)
    ensures
        is_line_of(r@, client_request(methods::STATUS@, Some(empty_json()))),
{
    proof {
        reveal_with_fuel(JsonView::reads_back, 4);
        lemma_request_reads_back(methods::STATUS@, empty_json());
    }
    write_request(methods::STATUS, Some(StatusRequest {  }.to_json()))
}

/// The line that asks the daemon to stop.
pub fn shutdown_request() -> (r: String)
    ensures
        is_line_of(r@, client_request(methods::SHUTDOWN@, Some(empty_json()))),
{
    proof {
        reveal_with_fuel(JsonView::reads_back, 4);
        lemma_request_reads_back(methods::SHUTDOWN@, empty_json());
    }
    write_request(methods::SHUTDOWN, Some(ShutdownRequest {  }.to_json()))
}

/// Why a line is not an answer.
#[derive(Debug, Clone, Copy, PartialEq, Eq, Structural)]
pub enum AnswerError {
    NotJson,
    NotMessage,
    /// It is a message, but no response.
    NotResponse,
}

/// Reads an answer of the daemon.
pub fn read_response(line: &str) -> (r: Result<Response, AnswerError>)
    ensures
        match r {
            Ok(m) => message_from_text(trimmed(line@)) == Some(MessageView::Response(m@)),
            Err(AnswerError::NotJson) => text_json(trimmed(line@)) is None,
            Err(AnswerError::NotMessage) => text_json(trimmed(line@)) is Some && message_from_text(
                trimmed(line@),
            ) is None,
            Err(AnswerError::NotResponse) => message_from_text(trimmed(line@)) matches Some(m)
                && m !is Response,
        },
{
    match Message::read_text(trim(line)) {
        Err(ReadError::NotJson) => Err(AnswerError::NotJson),
        Err(ReadError::NotMessage(_)) => Err(AnswerError::NotMessage),
        Ok(Message::Response(m)) => Ok(m),
        Ok(_) => Err(AnswerError::NotResponse),
    }
}

/// Where a character comes last.
pub open spec fn last_index(s: Seq<char>, c: char) -> Option<int>
    decreases s.len(),
{
    if s.len() == 0 {
        None
    } else if s.last() == c {
        Some(s.len() - 1)
    } else {
        last_index(s.drop_last(), c)
    }
}

/// Why a text does not name a line of a file.
#[derive(Debug, Clone, Copy, PartialEq, Eq, Structural)]
pub enum FileLineError {
    /// It has no colon.
    NoColon,
    /// What follows the last colon is not a line number.
    BadLine,
}

/// The file and the line that a text names: what comes before its last colon,
/// and the number after it.
pub open spec fn file_line(s: Seq<char>) -> Result<(Seq<char>, u32), FileLineError> {
    match last_index(s, ':') {
        None => Err(FileLineError::NoColon),
        Some(k) => match parsed_number(s.skip(k + 1), u32::MAX as nat) {
            None => Err(FileLineError::BadLine),
            Some(n) => Ok((s.take(k), n as u32)),
        },
    }
}

proof fn lemma_last_index(s: Seq<char>, c: char, k: int)
    requires
        0 <= k < s.len(),
        s[k] == c,
        forall|i: int| k < i < s.len() ==> s[i] != c,
    ensures
        last_index(s, c) == Some(k),
    decreases s.len(),
{
    if k < s.len() - 1 {
        lemma_last_index(s.drop_last(), c, k);
    }
}

/// A file and a line are read back from the text that names them.
pub proof fn law_file_line_reads_back(file: Seq<char>, line: u32)
    ensures
        file_line(file.push(':') + nat_text(line as nat)) == Ok::<
            (Seq<char>, u32),
            FileLineError,
        >((file, line)),
{
    let digits = nat_text(line as nat);
    let s = file.push(':') + digits;
    lemma_nat_text(line as nat);
    assert forall|i: int| file.len() < i < s.len() implies s[i] != ':' by {
        assert(is_digit(digits[i - file.len() - 1]));
    }
    lemma_last_index(s, ':', file.len() as int);
    assert(s.skip(file.len() as int + 1) == digits);
    assert(s.take(file.len() as int) == file);
    law_number_reads_back(line as nat, u32::MAX as nat);
}

/// What is reported of a text that does not name a line of a file.
pub open spec fn file_line_error_text(e: FileLineError) -> Seq<char> {
    match e {
        FileLineError::NoColon => "expected format file.v:line"@,
        FileLineError::BadLine => "invalid line number"@,
    }
}

impl FileLineError {
    /// What is reported.
    pub fn to_text(&self) -> (r: String)
        ensures
            r@ == file_line_error_text(*self),
    {
        match self {
            FileLineError::NoColon => "expected format file.v:line".to_string(),
            FileLineError::BadLine => "invalid line number".to_string(),
        }
    }
}

/// The file and the line that a text names, as in `file.v:42`.
pub fn parse_file_line(s: &str) -> (r: Result<(&str, u32), FileLineError>)
    ensures
        match r {
            Ok((file, line)) => file_line(s@) == Ok::<(Seq<char>, u32), FileLineError>(
                (file@, line),
            ),
            Err(e) => file_line(s@) == Err::<(Seq<char>, u32), FileLineError>(e),
        },
{
    let chars: Vec<char> = chars_of(s);
    let total: usize = chars.len();
    let mut k: usize = total;
    assert(s@.take(total as int) == s@);
    while k > 0 && chars[k - 1] != ':'
        invariant
            chars@ == s@,
            total == s@.len(),
            k <= total,
            last_index(s@.take(k as int), ':') == last_index(s@, ':'),
        decreases k,
    {
        assert(s@.take(k as int).drop_last() == s@.take(k - 1));
        k -= 1;
    }
    if k == 0 {
        return Err(FileLineError::NoColon);
    }
    assert(s@.subrange(k as int, total as int) == s@.skip(k as int));
    match parse_number(s.substring_char(k, total), u32::MAX as u64) {
        None => Err(FileLineError::BadLine),
        Some(n) => {
            assert(s@.subrange(0, k - 1) == s@.take(k - 1));
            Ok((s.substring_char(0, k - 1), n as u32))
        },
    }
}

/// How a command ends.
#[derive(Debug, Clone, PartialEq, Eq)]
pub enum End {
    Success,
    /// The exit status tells of a failure.
    Failure,
    /// An error is reported.
    Error(String),
    /// The answer cannot be read.
    Unreadable,
    /// A position is too large to be shown.
    Overflow,
}

/// What a command writes, and how it ends.
#[derive(Debug, Clone)]
pub struct Outcome {
    /// For the standard output, line by line.
    pub out: Vec<String>,
    /// For the standard error, line by line.
    pub err: Vec<String>,
    pub end: End,
}

/// The model of an end.
pub enum EndView {
    Success,
    Failure,
    Error(Seq<char>),
    Unreadable,
    Overflow,
}

/// The model of an outcome.
pub struct OutcomeView {
    pub out: Seq<Seq<char>>,
    pub err: Seq<Seq<char>>,
    pub end: EndView,
}

impl View for End {
    type V = EndView;

    open spec fn view(&self) -> EndView {
        match *self {
            End::Success => EndView::Success,
            End::Failure => EndView::Failure,
            End::Error(s) => EndView::Error(s@),
            End::Unreadable => EndView::Unreadable,
            End::Overflow => EndView::Overflow,
        }
    }
}

impl View for Outcome {
    type V = OutcomeView;

    open spec fn view(&self) -> OutcomeView {
        OutcomeView { out: texts_view(self.out@), err: texts_view(self.err@), end: self.end@ }
    }
}

/// An outcome that writes nothing.
pub open spec fn silent(end: EndView) -> OutcomeView {
    OutcomeView { out: Seq::empty(), err: Seq::empty(), end }
}

/// What comes of the daemon's answer that a request failed.
pub open spec fn refused(message: Seq<char>) -> OutcomeView {
    OutcomeView {
        out: Seq::empty(),
        err: seq!["error: "@ + message],
        end: EndView::Failure,
    }
}

/// What a severity is called.
pub open spec fn severity_text(severity: Option<i32>) -> Seq<char> {
    match severity {
        Some(n) => if n == ERROR {
            "error"@
        } else if n == WARNING {
            "warning"@
        } else if n == INFORMATION {
            "info"@
        } else if n == HINT {
            "hint"@
        } else {
            "note"@
        },
        None => "note"@,
    }
}

/// Whether the position of a diagnostic can be shown, counted from 1.
pub open spec fn can_show(d: DiagnosticView) -> bool {
    d.range.start.line < u32::MAX && d.range.start.character < u32::MAX
}

/// A diagnostic as it is shown: the file, line and column, both counted from 1,
/// the severity and the message.
pub open spec fn diagnostic_text(file: Seq<char>, d: DiagnosticView) -> Seq<char> {
    file + ":"@ + nat_text((d.range.start.line + 1) as nat) + ":"@ + nat_text(
        (d.range.start.character + 1) as nat,
    ) + ": "@ + severity_text(d.severity) + ": "@ + d.message
}

/// The diagnostics as they are shown, up to one that cannot be.
pub open spec fn shown(file: Seq<char>, s: Seq<DiagnosticView>) -> Seq<Seq<char>>
    decreases s.len(),
{
    if s.len() == 0 || !can_show(s[0]) {
        Seq::empty()
    } else {
        seq![diagnostic_text(file, s[0])] + shown(file, s.drop_first())
    }
}

/// What comes of the answer to a request to check a file.
pub open spec fn compile_outcome(file: Seq<char>, response: ResponseView) -> OutcomeView {
    match (response.error, response.result) {
        (Some(e), _) => refused(e.message),
        (None, None) => silent(EndView::Error("missing result in compile response"@)),
        (None, Some(v)) => match compile_response_from(v) {
            None => silent(EndView::Unreadable),
            Some(r) => OutcomeView {
                out: Seq::empty(),
                err: shown(file, r.diagnostics),
                end: if shown(file, r.diagnostics).len() < r.diagnostics.len() {
                    EndView::Overflow
                } else if r.success {
                    EndView::Success
                } else {
                    EndView::Failure
                },
            },
        },
    }
}

/// What comes of the answer to a query.
pub open spec fn query_outcome(response: ResponseView) -> OutcomeView {
    match (response.error, response.result) {
        (Some(e), _) => refused(e.message),
        (None, None) => silent(EndView::Error("missing result in query response"@)),
        (None, Some(v)) => match query_response_from(v) {
            None => silent(EndView::Unreadable),
            Some(text) => OutcomeView {
                out: seq![text],
                err: Seq::empty(),
                end: EndView::Success,
            },
        },
    }
}

/// The sessions as they are shown.
pub open spec fn status_lines(s: Seq<SessionInfoView>) -> Seq<Seq<char>> {
    if s.len() == 0 {
        seq!["no active sessions"@]
    } else {
        Seq::new(s.len(), |i: int| s[i].file + ": "@ + s[i].status)
    }
}

/// What comes of the answer to a request for the sessions there are.
pub open spec fn status_outcome(response: ResponseView) -> OutcomeView {
    match (response.error, response.result) {
        (Some(e), _) => silent(EndView::Error("status failed: "@ + e.message)),
        (None, None) => silent(EndView::Error("missing result in status response"@)),
        (None, Some(v)) => match status_response_from(v) {
            None => silent(EndView::Unreadable),
            Some(s) => OutcomeView {
                out: status_lines(s),
                err: Seq::empty(),
                end: EndView::Success,
            },
        },
    }
}

/// What comes of the answer to a request to stop.
pub open spec fn stop_outcome(response: ResponseView) -> OutcomeView {
    match response.error {
        Some(e) => silent(EndView::Error("shutdown failed: "@ + e.message)),
        None => OutcomeView {
            out: Seq::empty(),
            err: seq!["daemon stopped"@],
            end: EndView::Success,
        },
    }
}

fn nothing_written(end: End) -> (r: Outcome)
    ensures
        r@ == silent(end@),
{
    let none: Vec<String> = Vec::new();
    assert(texts_view(none@) == Seq::<Seq<char>>::empty());
    Outcome { out: none, err: Vec::new(), end }
}

fn one_line(line: String) -> (r: Vec<String>)
    ensures
        texts_view(r@) == seq![line@],
{
    let mut out: Vec<String> = Vec::new();
    out.push(line);
    assert(texts_view(out@) == seq![line@]);
    out
}

fn report_refusal(message: &str) -> (r: Outcome)
    ensures
        r@ == refused(message@),
{
    let mut r: Outcome = nothing_written(End::Failure);
    r.err = one_line(concat("error: ", message));
    r
}

/// A diagnostic as it is shown, if it can be.
pub fn show_diagnostic(file: &str, d: &Diagnostic) -> (r: Option<String>)
    ensures
        match r {
            Some(s) => can_show(d@) && s@ == diagnostic_text(file@, d@),
            None => !can_show(d@),
        },
{
    let line: u32 = d.range.start.line;
    let column: u32 = d.range.start.character;
    if line == u32::MAX || column == u32::MAX {
        return None;
    }
    let severity: &str = match d.severity {
        Some(n) => if n == ERROR {
            "error"
        } else if n == WARNING {
            "warning"
        } else if n == INFORMATION {
            "info"
        } else if n == HINT {
            "hint"
        } else {
            "note"
        },
        None => "note",
    };
    let line_digits: String = write_nat((line + 1) as u64);
    let column_digits: String = write_nat((column + 1) as u64);
    let mut out: String = file.to_string();
    out.append(":");
    out.append(line_digits.as_str());
    out.append(":");
    out.append(column_digits.as_str());
    out.append(": ");
    out.append(severity);
    out.append(": ");
    out.append(d.message.as_str());
    Some(out)
}

/// What comes of the answer to a request to check a file: the diagnostics, and
/// success or failure.
pub fn compile(file: &str, response: &Response) -> (r: Outcome)
    ensures
        r@ == compile_outcome(file@, response@),
{
    match &response.error {
        Some(e) => return report_refusal(e.message.as_str()),
        None => {},
    }
    let answer: CompileResponse = match &response.result {
        None => return nothing_written(
            End::Error("missing result in compile response".to_string()),
        ),
        Some(v) => match CompileResponse::read(v) {
            None => return nothing_written(End::Unreadable),
            Some(answer) => answer,
        },
    };
    let mut err: Vec<String> = Vec::new();
    let ghost all = answer@.diagnostics;
    let mut i: usize = 0;
    assert(all.skip(0) == all);
    assert(texts_view(err@) + shown(file@, all) == shown(file@, all));
    while i < answer.diagnostics.len()
        invariant
            i <= answer.diagnostics@.len(),
            i == err@.len(),
            all == answer@.diagnostics,
            all.len() == answer.diagnostics@.len(),
            texts_view(err@) + shown(file@, all.skip(i as int)) == shown(file@, all),
            compile_outcome(file@, response@) == (OutcomeView {
                out: Seq::empty(),
                err: shown(file@, all),
                end: if shown(file@, all).len() < all.len() {
                    EndView::Overflow
                } else if answer.success {
                    EndView::Success
                } else {
                    EndView::Failure
                },
            }),
        decreases answer.diagnostics@.len() - i,
    {
        let ghost before = texts_view(err@);
        assert(all.skip(i as int)[0] == answer.diagnostics@[i as int]@);
        assert(all.skip(i as int).drop_first() == all.skip(i + 1));
        match show_diagnostic(file, &answer.diagnostics[i]) {
            Some(line) => {
                err.push(line);
                assert(texts_view(err@) == before.push(line@));
                assert(before.push(line@) + shown(file@, all.skip(i + 1)) == before + (seq![
                    line@,
                ] + shown(file@, all.skip(i + 1))));
            },
            None => {
                assert(before + shown(file@, all.skip(i as int)) == before);
                let mut r: Outcome = nothing_written(End::Overflow);
                r.err = err;
                return r;
            },
        }
        i += 1;
    }
    assert(all.skip(i as int) == Seq::<DiagnosticView>::empty());
    assert(texts_view(err@) + shown(file@, all.skip(i as int)) == texts_view(err@));
    let end: End = if answer.success {
        End::Success
    } else {
        End::Failure
    };
    let mut r: Outcome = nothing_written(end);
    r.err = err;
    r
}

/// What comes of the answer to a query.
pub fn query(response: &Response) -> (r: Outcome)
    ensures
        r@ == query_outcome(response@),
{
    match &response.error {
        Some(e) => return report_refusal(e.message.as_str()),
        None => {},
    }
    match &response.result {
        None => nothing_written(End::Error("missing result in query response".to_string())),
        Some(v) => match QueryResponse::read(v) {
            None => nothing_written(End::Unreadable),
            Some(answer) => {
                let mut r: Outcome = nothing_written(End::Success);
                r.out = one_line(answer.response);
                r
            },
        },
    }
}

/// What comes of the answer to a request for the sessions there are.
pub fn status(response: &Response) -> (r: Outcome)
    ensures
        r@ == status_outcome(response@),
{
    match &response.error {
        Some(e) => return nothing_written(
            End::Error(concat("status failed: ", e.message.as_str())),
        ),
        None => {},
    }
    let answer: StatusResponse = match &response.result {
        None => return nothing_written(
            End::Error("missing result in status response".to_string()),
        ),
        Some(v) => match StatusResponse::read(v) {
            None => return nothing_written(End::Unreadable),
            Some(answer) => answer,
        },
    };
    let mut r: Outcome = nothing_written(End::Success);
    if answer.sessions.len() == 0 {
        r.out = one_line("no active sessions".to_string());
        return r;
    }
    let mut out: Vec<String> = Vec::new();
    let mut i: usize = 0;
    while i < answer.sessions.len()
        invariant
            i <= answer.sessions@.len(),
            i == out@.len(),
            forall|k: int|
                0 <= k < i ==> (#[trigger] out@[k])@ == answer@[k].file + ": "@ + answer@[k].status,
        decreases answer.sessions@.len() - i,
    {
        let start: String = concat(answer.sessions[i].file.as_str(), ": ");
        out.push(concat(start.as_str(), answer.sessions[i].status.as_str()));
        i += 1;
    }
    assert(texts_view(out@) == status_lines(answer@));
    r.out = out;
    r
}

/// What comes of the answer to a request to stop.
pub fn stop(response: &Response) -> (r: Outcome)
    ensures
        r@ == stop_outcome(response@),
{
    match &response.error {
        Some(e) => nothing_written(End::Error(concat("shutdown failed: ", e.message.as_str()))),
        None => {
            let mut r: Outcome = nothing_written(End::Success);
            r.err = one_line("daemon stopped".to_string());
            r
        },
    }
}

proof fn lemma_shown(file: Seq<char>, s: Seq<DiagnosticView>)
    requires
        forall|i: int| 0 <= i < s.len() ==> can_show(#[trigger] s[i]),
    ensures
        shown(file, s) == Seq::new(s.len(), |i: int| diagnostic_text(file, s[i])),
    decreases s.len(),
{
    if s.len() > 0 {
        let tail = s.drop_first();
        assert forall|i: int| 0 <= i < tail.len() implies can_show(#[trigger] tail[i]) by {
            assert(tail[i] == s[i + 1]);
        }
        lemma_shown(file, tail);
    }
}

/// What the daemon found in a file is what the user is shown, one line for each
/// diagnostic, in order; and the command succeeds if the file was found right.
pub proof fn law_diagnostics_reach_the_user(file: Seq<char>, id: IdView, r: CompileResponseView)
    requires
        settled(r.diagnostics),
        forall|i: int| 0 <= i < r.diagnostics.len() ==> can_show(#[trigger] r.diagnostics[i]),
    ensures
        compile_outcome(file, ok_view(id, compile_response_json(r))) == (OutcomeView {
            out: Seq::empty(),
            err: Seq::new(r.diagnostics.len(), |i: int| diagnostic_text(file, r.diagnostics[i])),
            end: if r.success {
                EndView::Success
            } else {
                EndView::Failure
            },
        }),
{
    law_compile_response_reads_back(r);
    lemma_shown(file, r.diagnostics);
}

/// The daemon's answer to a query is what the user is shown, and so are the
/// sessions there are; and an error that the daemon answers with is shown, and
/// the command fails.
pub proof fn law_answers_reach_the_user(
    id: IdView,
    text: Seq<char>,
    sessions: Seq<SessionInfoView>,
    file: Seq<char>,
    code: i32,
)
    ensures
        query_outcome(ok_view(id, query_response_json(text))) == (OutcomeView {
            out: seq![text],
            err: Seq::empty(),
            end: EndView::Success,
        }),
        status_outcome(ok_view(id, status_response_json(sessions))) == (OutcomeView {
            out: status_lines(sessions),
            err: Seq::empty(),
            end: EndView::Success,
        }),
        compile_outcome(file, error_view(id, code, text)) == refused(text),
        query_outcome(error_view(id, code, text)) == refused(text),
{
    law_text_record_reads_back(text);
    law_status_response_reads_back(sessions);
}

} // verus!
