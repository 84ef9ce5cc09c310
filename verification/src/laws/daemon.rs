//! What the daemon does, request by request.
use vstd::prelude::*;
use vstd::utf8::*;
use crate::daemon::{
    can_take, daemon_wf, law_every_text_is_a_query, pid_bytes, query_parts, response_line,
    socket_bytes, step, DaemonView, GoalView, InputView, Limit, NextView, OpenErrorView, OutputView,
    PhaseView, Rejection,
};
use crate::json::{text_json, JsonView};
use crate::laws::messages::has;
use crate::laws::protocol::law_texts_are_read;
use crate::laws::session::law_hash_is_of_the_whole_text;
use crate::laws::text::{blank, is_bare, law_trimming_gives_what_is_between};
use crate::lsp::jsonrpc::{
    id_text, message_from, message_text, IdView, MessageView, RequestView, ResponseView,
};
use crate::lsp::transport::{frame_error_text, message_frame, received_as};
use crate::lsp::types::{diagnostic_json, Position};
use crate::lsp::vsrocq::{
    broken_text, did_change_message, exit_message, interpret_message,
    law_messages_find_their_reader, next_answer, query_message, shutdown_message, AnswerView,
    PendingQuery, QueryKind,
};
use crate::path::{lossy_text, same};
use crate::session::{
    hash_text, is_error, session_wf, sha256, started, waited, with_unread, ArrivalView,
    CompletionView, SessionView, StartView, StatusView,
};
use crate::text::{int_text, nat_text, trimmed};

verus! {

/// Whether an output answers a request, under its id, with an error.
pub open spec fn answers_error(out: OutputView, id: IdView, code: int, message: Seq<char>) -> bool {
    out matches OutputView::Reply(r) && r.jsonrpc == "2.0"@ && r.id == id && r.result is None && (
    r.error matches Some(e) && e.code == code && e.message == message && e.data is None)
}

/// Whether an output answers a request, under its id, with a result.
pub open spec fn answers(out: OutputView, id: IdView, result: JsonView) -> bool {
    out matches OutputView::Reply(r) && r.jsonrpc == "2.0"@ && r.id == id && r.error is None
        && r.result == Some(result)
}

/// Whether a daemon waits for a line, and has changed in nothing else.
pub open spec fn is_done(d: DaemonView, e: DaemonView) -> bool {
    e.phase is Idle && e.session == d.session && e.process_id == d.process_id
        && e.shutdown_requested == d.shutdown_requested
}

/// Whether a daemon waits for something, and has changed in nothing else.
pub open spec fn goes_on(d: DaemonView, e: DaemonView, phase: PhaseView) -> bool {
    e.phase == phase && e.session == d.session && e.process_id == d.process_id
        && e.shutdown_requested == d.shutdown_requested
}

/// A line is what is in it, without the white space around. An empty one gets no
/// answer, nor does one that is not JSON or no message. A message that is no
/// request is refused. None of these changes the daemon.
pub proof fn law_lines_that_are_no_requests(
    d: DaemonView,
    before: Seq<char>,
    text: Seq<char>,
    after: Seq<char>,
    v: JsonView,
)
    requires
        d.phase is Idle,
        is_bare(text),
        blank(before, 0, before.len() as int),
        blank(after, 0, after.len() as int),
    ensures
        ({
            let (e, out) = step(d, InputView::Line(before + text + after));
            &&& text.len() == 0 ==> e == d && out is Hangup
            &&& text.len() > 0 && text_json(text) is None ==> e == d && out == OutputView::Reject(
                Rejection::NotJson,
            )
            &&& text.len() > 0 && text_json(text) == Some(v) && message_from(v) is None ==> e == d
                && out == OutputView::Reject(Rejection::NotMessage)
            &&& text.len() > 0 && text_json(text) == Some(v) && (message_from(v) matches Some(m)
                && m !is Request) ==> e == d && answers_error(
                out,
                IdView::Number(0),
                -32600,
                "expected a request"@,
            )
        }),
{
    law_trimming_gives_what_is_between(before, text, after);
}

/// Whether a line holds a request, and nothing but white space around it.
pub open spec fn holds(line: Seq<char>, r: RequestView) -> bool {
    &&& trimmed(line).len() > 0
    &&& text_json(trimmed(line)) matches Some(v) && message_from(v) == Some(
        MessageView::Request(r),
    )
}

proof fn lemma_method_names()
    ensures
        "compile"@ != "query"@,
        "compile"@ != "status"@,
        "compile"@ != "shutdown"@,
        "compile"@ != "invalidate"@,
        "query"@ != "status"@,
        "query"@ != "shutdown"@,
        "query"@ != "invalidate"@,
        "status"@ != "shutdown"@,
        "status"@ != "invalidate"@,
        "shutdown"@ != "invalidate"@,
{
    reveal_strlit("compile");
    reveal_strlit("query");
    reveal_strlit("status");
    reveal_strlit("shutdown");
    reveal_strlit("invalidate");
    assert("compile"@.len() == 7);
    assert("query"@.len() == 5);
    assert("status"@.len() == 6);
    assert("shutdown"@.len() == 8);
    assert("invalidate"@.len() == 10);
}

/// A request to check a file: where there is a session, the canonical path of the
/// file is asked for; where there is none, the file is opened. Wrong parameters
/// are refused.
pub proof fn law_compile_requests(
    d: DaemonView,
    line: Seq<char>,
    r: RequestView,
    m: Map<Seq<char>, JsonView>,
    file: Seq<char>,
)
    requires
        d.phase is Idle,
        holds(line, r),
        r.method == "compile"@,
    ensures
        ({
            let (e, out) = step(d, InputView::Line(line));
            let flags = Seq::<Seq<char>>::empty();
            &&& r.params is None ==> is_done(d, e) && answers_error(
                out,
                r.id,
                -32602,
                "invalid compile params"@,
            )
            &&& r.params == Some(JsonView::Object(m)) && !(m.dom().contains("file"@)
                && m["file"@] is Text) ==> is_done(d, e) && answers_error(
                out,
                r.id,
                -32602,
                "invalid compile params"@,
            )
            &&& r.params == Some(JsonView::Object(m)) && has(m, "file"@, JsonView::Text(file))
                && !m.dom().contains("flags"@) && d.session is Some ==> goes_on(
                d,
                e,
                PhaseView::Resolving { id: r.id, file, goal: GoalView::Compile { flags } },
            ) && out == OutputView::Resolve(encode_utf8(file))
            &&& r.params == Some(JsonView::Object(m)) && has(m, "file"@, JsonView::Text(file))
                && !m.dom().contains("flags"@) && d.session is None ==> goes_on(
                d,
                e,
                PhaseView::Opening { id: r.id, file, flags },
            ) && out == OutputView::Open { path: encode_utf8(file), flags }
        }),
{
    lemma_method_names();
}

/// The flags that come with a request to check a file are those that it is
/// checked with.
pub proof fn law_flags_are_taken_along(
    d: DaemonView,
    line: Seq<char>,
    r: RequestView,
    m: Map<Seq<char>, JsonView>,
    file: Seq<char>,
    items: Seq<JsonView>,
    flags: Seq<Seq<char>>,
)
    requires
        d.phase is Idle,
        holds(line, r),
        r.method == "compile"@,
        r.params == Some(JsonView::Object(m)),
        has(m, "file"@, JsonView::Text(file)),
        has(m, "flags"@, JsonView::Array(items)),
        items.len() == flags.len(),
        forall|i: int|
            0 <= i < items.len() ==> #[trigger] items[i] == JsonView::Text(flags[i]),
    ensures
        ({
            let (e, out) = step(d, InputView::Line(line));
            &&& d.session is Some ==> goes_on(
                d,
                e,
                PhaseView::Resolving { id: r.id, file, goal: GoalView::Compile { flags } },
            ) && out == OutputView::Resolve(encode_utf8(file))
            &&& d.session is None ==> goes_on(
                d,
                e,
                PhaseView::Opening { id: r.id, file, flags },
            ) && out == OutputView::Open { path: encode_utf8(file), flags }
        }),
{
    lemma_method_names();
    law_texts_are_read(items, flags, 0);
}

/// A query, or a request to forget a file: the canonical path of the file is asked
/// for. Without a session there is nothing to query; and wrong parameters are
/// refused.
pub proof fn law_query_and_invalidate_requests(
    d: DaemonView,
    line: Seq<char>,
    r: RequestView,
    m: Map<Seq<char>, JsonView>,
    file: Seq<char>,
    n: u32,
    text: Seq<char>,
)
    requires
        d.phase is Idle,
        holds(line, r),
    ensures
        ({
            let (e, out) = step(d, InputView::Line(line));
            let asks = r.params == Some(JsonView::Object(m)) && has(
                m,
                "file"@,
                JsonView::Text(file),
            ) && has(m, "line"@, JsonView::Int(n as int)) && has(m, "text"@, JsonView::Text(text));
            &&& r.method == "query"@ && r.params is None ==> is_done(d, e) && answers_error(
                out,
                r.id,
                -32602,
                "invalid query params"@,
            )
            &&& r.method == "query"@ && r.params == Some(JsonView::Object(m))
                && !m.dom().contains("text"@) ==> is_done(d, e) && answers_error(
                out,
                r.id,
                -32602,
                "invalid query params"@,
            )
            &&& r.method == "query"@ && asks && d.session is None ==> is_done(d, e)
                && answers_error(out, r.id, -32000, "no active session — compile first"@)
            &&& r.method == "query"@ && asks && d.session is Some ==> goes_on(
                d,
                e,
                PhaseView::Resolving { id: r.id, file, goal: GoalView::Query { line: n, text } },
            ) && out == OutputView::Resolve(encode_utf8(file))
            &&& r.method == "invalidate"@ && r.params is None ==> is_done(d, e) && answers_error(
                out,
                r.id,
                -32602,
                "invalid invalidate params"@,
            )
            &&& r.method == "invalidate"@ && r.params == Some(JsonView::Object(m))
                && !m.dom().contains("file"@) ==> is_done(d, e) && answers_error(
                out,
                r.id,
                -32602,
                "invalid invalidate params"@,
            )
            &&& r.method == "invalidate"@ && r.params == Some(JsonView::Object(m)) && has(
                m,
                "file"@,
                JsonView::Text(file),
            ) ==> goes_on(
                d,
                e,
                PhaseView::Resolving { id: r.id, file, goal: GoalView::Forget },
            ) && out == OutputView::Resolve(encode_utf8(file))
        }),
{
    lemma_method_names();
}

/// A request for the status is answered with the session there is: its file and
/// how far it has been processed. A request to stop is answered at once where
/// there is none. A method that there is not is refused by name.
pub proof fn law_other_requests(d: DaemonView, line: Seq<char>, r: RequestView)
    requires
        d.phase is Idle,
        holds(line, r),
    ensures
        ({
            let (e, out) = step(d, InputView::Line(line));
            let list = out->Reply_0.result->0.get("sessions"@);
            &&& r.method == "status"@ ==> is_done(d, e) && out is Reply && out->Reply_0.id == r.id
                && out->Reply_0.error is None && out->Reply_0.result is Some
            &&& r.method == "status"@ && d.session is None ==> list is Some && list->0 is Array
                && list->0->Array_0.len() == 0
            &&& r.method == "status"@ && (d.session matches Some(s)) ==> list is Some
                && list->0 is Array && list->0->Array_0.len() == 1 && list->0->Array_0[0].get(
                "file"@,
            ) == Some(JsonView::Text(lossy_text(d.session->0.path))) && (
            d.session->0.status is Complete ==> list->0->Array_0[0].get("status"@) == Some(
                JsonView::Text("Complete"@),
            )) && (d.session->0.status is Processing ==> list->0->Array_0[0].get("status"@) == Some(
                JsonView::Text("Processing"@),
            ))
            &&& r.method == "shutdown"@ && d.session is None ==> e.phase is Idle
                && e.shutdown_requested && e.session is None && answers(
                out,
                r.id,
                JsonView::Object(Map::empty()),
            )
            &&& r.method == "shutdown"@ && (d.session matches Some(s)) ==> e.shutdown_requested
                && e.session is None && e.phase is Parting && e.phase->Parting_next
                == (NextView::Answer { id: r.id }) && out == OutputView::Send(
                seq![message_frame(shutdown_message(d.session->0.client.next_id))],
            )
            &&& r.method != "compile"@ && r.method != "query"@ && r.method != "status"@ && r.method
                != "shutdown"@ && r.method != "invalidate"@ ==> is_done(d, e) && answers_error(
                out,
                r.id,
                -32601,
                "method not found: "@ + r.method,
            )
        }),
{
    lemma_method_names();
    reveal_strlit("file");
    reveal_strlit("status");
    assert("file"@.len() == 4);
    assert("status"@.len() == 6);
}

/// Where a file has no canonical path, the path that it was given by stands for
/// it.
pub proof fn law_a_path_stands_for_itself(d: DaemonView, id: IdView, file: Seq<char>, goal: GoalView)
    requires
        d.phase == (PhaseView::Resolving { id, file, goal }),
    ensures
        step(d, InputView::Resolved(None)) == step(
            d,
            InputView::Resolved(Some(encode_utf8(file))),
        ),
{
}

/// A file is checked again in its session where the session is for the same path
/// and has the same flags, one by one; otherwise the session makes way.
pub proof fn law_a_session_is_kept_for_the_same_file_and_flags(
    d: DaemonView,
    id: IdView,
    file: Seq<char>,
    flags: Seq<Seq<char>>,
    path: Seq<u8>,
)
    requires
        d.phase == (PhaseView::Resolving { id, file, goal: GoalView::Compile { flags } }),
        d.session is Some,
    ensures
        ({
            let s = d.session->0;
            let (e, out) = step(d, InputView::Resolved(Some(path)));
            if same(s.path, path) && s.flags.len() == flags.len() && (forall|i: int|
                0 <= i < flags.len() ==> s.flags[i] == flags[i]) {
                goes_on(d, e, PhaseView::Rereading { id }) && out == OutputView::Read(s.path)
            } else {
                e.session is None && e.phase is Parting && e.phase->Parting_next
                    == (NextView::Open { id, file, flags }) && out == OutputView::Send(
                    seq![message_frame(shutdown_message(s.client.next_id))],
                )
            }
        }),
{
    let s = d.session->0;
    if s.flags.len() == flags.len() && (forall|i: int|
        0 <= i < flags.len() ==> s.flags[i] == flags[i]) {
        assert(s.flags =~= flags);
    }
}

/// A query that a session is asked is sent as one request, under the next id, of
/// the kind and about the pattern that its text comes to, at the start of the
/// line that it was asked about, of the document's version. The session stays as
/// it is, but that its next request has the next id.
pub proof fn law_a_query_is_sent(
    d: DaemonView,
    id: IdView,
    file: Seq<char>,
    line: u32,
    text: Seq<char>,
    path: Seq<u8>,
)
    requires
        d.phase == (PhaseView::Resolving { id, file, goal: GoalView::Query { line, text } }),
        d.session is Some,
        same(d.session->0.path, path),
    ensures
        ({
            let s = d.session->0;
            let (e, out) = step(d, InputView::Resolved(Some(path)));
            let word = query_parts(text).0;
            let kind = if word == "check"@ {
                QueryKind::Check
            } else if word == "print"@ {
                QueryKind::Print
            } else {
                QueryKind::About
            };
            let query = PendingQuery { kind, id: s.client.next_id };
            &&& out == OutputView::Send(
                seq![
                    message_frame(
                        query_message(
                            query,
                            s.uri,
                            s.version,
                            Position { line, character: 0 },
                            query_parts(text).1,
                        ),
                    ),
                ],
            )
            &&& e.phase == (PhaseView::Asking { id, query })
            &&& e.session is Some
            &&& e.session->0 == (SessionView { client: e.session->0.client, ..s })
            &&& e.session->0.client.unread == s.client.unread
            &&& s.client.next_id < 0x7fff_ffff_ffff_ffff ==> e.session->0.client.next_id
                == s.client.next_id + 1
        }),
{
    law_every_text_is_a_query(text);
    reveal_strlit("check");
    reveal_strlit("Check");
    reveal_strlit("print");
    reveal_strlit("Print");
    reveal_strlit("about");
    reveal_strlit("About");
    assert("check"@[0] == 'c' && "Check"@[0] == 'C' && "print"@[0] == 'p' && "Print"@[0] == 'P'
        && "about"@[0] == 'a' && "About"@[0] == 'A');
}

/// The response to a query, once it has arrived in whole, is the answer: the text
/// that it comes to, or that it failed. What follows it is left to be read.
pub proof fn law_a_query_is_answered(
    d: DaemonView,
    id: IdView,
    query: PendingQuery,
    bytes: Seq<u8>,
    rest: Seq<u8>,
    response: ResponseView,
    text: Seq<char>,
)
    requires
        d.phase == (PhaseView::Answering { id, query }),
        d.session matches Some(s) && s.client.unread.len() == 0,
        received_as(bytes, MessageView::Response(response)),
        id_text(response.id) == int_text(query.id as int),
    ensures
        ({
            let (e, out) = step(d, InputView::Arrived(bytes + rest));
            let kind = match query.kind {
                QueryKind::Check => "check"@,
                QueryKind::Print => "print"@,
                QueryKind::About => "about"@,
            };
            &&& e.phase is Idle
            &&& e.session matches Some(s) && s.client.unread == rest
            &&& response.error is None && response.result == Some(JsonView::Text(text)) ==> out
                is Reply && out->Reply_0.id == id && out->Reply_0.error is None && (
            out->Reply_0.result matches Some(v) && v.get("response"@) == Some(
                JsonView::Text(text),
            ))
            &&& response.error matches Some(error) ==> answers_error(
                out,
                id,
                -32000,
                "query failed: "@ + (kind + " failed: "@ + error.message),
            )
        }),
{
    let s = d.session->0;
    assert(s.client.unread + (bytes + rest) =~= bytes + rest);
    law_messages_find_their_reader(
        bytes,
        MessageView::Response(response),
        rest,
        false,
        int_text(query.id as int),
    );
}

/// What went wrong with a request is told with what was being done. The daemon
/// then waits for the next line.
pub proof fn law_failures_are_told(
    d: DaemonView,
    id: IdView,
    file: Seq<char>,
    flags: Seq<Seq<char>>,
    path: Seq<u8>,
    text: Seq<char>,
    session: SessionView,
    sent: usize,
    query: PendingQuery,
)
    ensures
        d.phase == (PhaseView::Opening { id, file, flags }) ==> {
            let start = "failed to open session: "@;
            let failed = |e: OpenErrorView| step(d, InputView::OpenFailed(e));
            &&& is_done(d, failed(OpenErrorView::Unresolved).0)
            &&& answers_error(
                failed(OpenErrorView::Unresolved).1,
                id,
                -32000,
                start + ("cannot resolve path: "@ + lossy_text(encode_utf8(file))),
            )
            &&& answers_error(
                failed(OpenErrorView::Unreadable(path)).1,
                id,
                -32000,
                start + ("reading "@ + lossy_text(path)),
            )
            &&& answers_error(
                failed(OpenErrorView::Spawn(text)).1,
                id,
                -32000,
                start + ("failed to spawn "@ + text),
            )
            &&& answers_error(failed(OpenErrorView::Other(text)).1, id, -32000, start + text)
        },
        d.phase == (PhaseView::Greeting { id, session }) ==> is_done(
            d,
            step(d, InputView::SendFailed { sent, error: text }).0,
        ) && answers_error(
            step(d, InputView::SendFailed { sent, error: text }).1,
            id,
            -32000,
            "failed to open session: "@ + "LSP initialize"@,
        ),
        d.phase == (PhaseView::Meeting { id, session }) ==> is_done(
            d,
            step(d, InputView::TimedOut).0,
        ) && answers_error(
            step(d, InputView::TimedOut).1,
            id,
            -32000,
            "compilation error: "@ + ("timed out waiting for vsrocqtop after "@ + nat_text(300)
                + "s"@),
        ) && answers_error(
            step(d, InputView::ReadFailed).1,
            id,
            -32000,
            "failed to open session: "@ + "LSP initialize"@,
        ),
        d.phase == (PhaseView::Starting { id, session }) ==> is_done(
            d,
            step(d, InputView::SendFailed { sent, error: text }).0,
        ) && answers_error(
            step(d, InputView::SendFailed { sent, error: text }).1,
            id,
            -32000,
            "failed to open session: "@ + if sent == 0 {
                "LSP initialize"@
            } else {
                text
            },
        ),
        d.phase == (PhaseView::Rereading { id }) && d.session is Some ==> is_done(
            d,
            step(d, InputView::Unreadable).0,
        ) && answers_error(
            step(d, InputView::Unreadable).1,
            id,
            -32000,
            "recompile failed: "@ + ("reading "@ + lossy_text(d.session->0.path)),
        ),
        d.phase == (PhaseView::Processing { id }) && (d.session matches Some(s) && s.status
            is Processing) ==> is_done(d, step(d, InputView::TimedOut).0) && answers_error(
            step(d, InputView::TimedOut).1,
            id,
            -32000,
            "compilation error: "@ + ("timed out waiting for vsrocqtop after "@ + nat_text(300)
                + "s"@),
        ),
        d.phase == (PhaseView::Asking { id, query }) ==> is_done(
            d,
            step(d, InputView::SendFailed { sent, error: text }).0,
        ) && answers_error(
            step(d, InputView::SendFailed { sent, error: text }).1,
            id,
            -32000,
            "query failed: "@ + text,
        ),
{
}

/// Where a changed text could be sent in part only, it counts as sent: its digest
/// and its version are the session's, and what was found before is not.
pub proof fn law_a_text_sent_in_part(
    d: DaemonView,
    id: IdView,
    content: Seq<char>,
    version: i32,
    sent: usize,
    error: Seq<char>,
)
    requires
        d.phase == (PhaseView::Resending { id, content, version }),
        d.session is Some,
    ensures
        ({
            let s = d.session->0;
            let (e, out) = step(d, InputView::SendFailed { sent, error });
            &&& e.phase is Idle
            &&& answers_error(out, id, -32000, "recompile failed: "@ + error)
            &&& sent == 0 ==> e.session == d.session
            &&& sent > 0 ==> (e.session matches Some(t) && t.content == content && t.content_hash
                == hash_text(content) && t.version == version && t.diagnostics.len() == 0
                && t.status == StatusView::Processing && t.path == s.path && t.uri == s.uri
                && t.flags == s.flags && t.client == s.client)
        }),
{
}

/// The text of a session's file is sent exactly where its digest is another one
/// than that of the text that was sent last; and it is sent as the next version.
pub proof fn law_a_changed_text_is_sent(d: DaemonView, id: IdView, content: Seq<char>)
    requires
        d.phase == (PhaseView::Rereading { id }),
        d.session matches Some(s) && s.content_hash == hash_text(s.content) && s.version < i32::MAX,
    ensures
        ({
            let s = d.session->0;
            let (e, out) = step(d, InputView::Content(content));
            &&& out is Send <==> sha256(encode_utf8(content))
                != sha256(encode_utf8(s.content))
            &&& out is Send ==> goes_on(
                d,
                e,
                PhaseView::Resending { id, content, version: (s.version + 1) as i32 },
            ) && out->Send_0.len() == 2 && out->Send_0[0] == message_frame(
                did_change_message(s.uri, (s.version + 1) as i32, content),
            ) && out->Send_0[1] == message_frame(
                interpret_message(s.uri, (s.version + 1) as i32),
            )
        }),
{
    let s = d.session->0;
    law_hash_is_of_the_whole_text(content, s.content);
}

/// Once a file has been processed, the answer is its diagnostics, and success
/// exactly where it was processed to its end and none of them is an error.
pub proof fn law_a_processed_file_is_answered(d: DaemonView, id: IdView, i: int)
    requires
        d.phase == (PhaseView::Processing { id }),
        d.session matches Some(s) && s.status !is Processing,
    ensures
        ({
            let s = d.session->0;
            let (e, out) = step(d, InputView::Arrived(Seq::empty()));
            let v = out->Reply_0.result->0;
            let list = v.get("diagnostics"@)->0;
            &&& e.phase is Idle
            &&& out is Reply
            &&& out->Reply_0.id == id
            &&& out->Reply_0.error is None
            &&& list is Array
            &&& list->Array_0.len() == s.diagnostics.len()
            &&& 0 <= i < s.diagnostics.len() ==> list->Array_0[i]
                == diagnostic_json(s.diagnostics[i])
            &&& v.get("success"@) == Some(
                JsonView::Bool(
                    s.status is Complete && forall|k: int|
                        0 <= k < s.diagnostics.len() ==> (#[trigger] s.diagnostics[k]).severity
                            != Some(1i32),
                ),
            )
        }),
{
    let s = d.session->0;
    reveal_strlit("success");
    reveal_strlit("diagnostics");
    assert("success"@.len() == 7);
    assert("diagnostics"@.len() == 11);
    if forall|k: int|
        0 <= k < s.diagnostics.len() ==> (#[trigger] s.diagnostics[k]).severity != Some(1i32) {
    } else {
        let k = choose|k: int|
            0 <= k < s.diagnostics.len() && (#[trigger] s.diagnostics[k]).severity == Some(1i32);
        assert(is_error(s.diagnostics[k]));
    }
}

/// What comes of waiting for a file to be processed: what `vsrocqtop` sent, that it
/// will send no more, that no more can be read, or that the time is up.
pub open spec fn heard_of(input: InputView) -> Option<ArrivalView> {
    match input {
        InputView::Arrived(bytes) => Some(ArrivalView::Bytes(bytes)),
        InputView::Ended => Some(ArrivalView::Ended),
        InputView::ReadFailed => Some(ArrivalView::Broken),
        InputView::TimedOut => Some(ArrivalView::TimedOut),
        _ => None,
    }
}

/// Whatever comes of waiting for a file is taken into its session. The waiting goes
/// on, or ends with an answer, or fails, which is told.
pub proof fn law_waiting_for_a_file(d: DaemonView, id: IdView, input: InputView)
    requires
        d.phase == (PhaseView::Processing { id }),
        d.session is Some,
        heard_of(input) is Some,
    ensures
        ({
            let (read, t) = waited(d.session->0, 300, heard_of(input)->0);
            let (e, out) = step(d, input);
            &&& e.session == Some(t)
            &&& read is Pending ==> e.phase == d.phase && out == OutputView::Receive(Limit::Running)
            &&& read is Done ==> e.phase is Idle && out is Reply && out->Reply_0.id == id
                && out->Reply_0.error is None
            &&& read matches CompletionView::Failed(text) ==> e.phase is Idle && answers_error(
                out,
                id,
                -32000,
                "compilation error: "@ + text,
            )
        }),
{
}

/// Whatever comes of waiting for a conversation to start is taken into the session
/// that is to be. What opens the file is sent once it has started.
pub proof fn law_waiting_for_a_start(
    d: DaemonView,
    id: IdView,
    session: SessionView,
    input: InputView,
)
    requires
        d.phase == (PhaseView::Meeting { id, session }),
        heard_of(input) is Some,
        input !is TimedOut,
    ensures
        ({
            let (start, t) = started(session, heard_of(input)->0);
            let (e, out) = step(d, input);
            &&& start is Pending ==> goes_on(d, e, PhaseView::Meeting { id, session: t }) && out
                == OutputView::Receive(Limit::Running)
            &&& start matches StartView::Send(sends) ==> goes_on(
                d,
                e,
                PhaseView::Starting { id, session: t },
            ) && out == OutputView::Send(sends)
            &&& start is Failed ==> is_done(d, e) && answers_error(
                out,
                id,
                -32000,
                "failed to open session: "@ + "LSP initialize"@,
            )
        }),
{
}

/// The answer to a query is looked for in what there is to read: what was there
/// before, and then what arrives; at the end of it, there is no more to wait for.
pub proof fn law_waiting_for_an_answer(
    d: DaemonView,
    id: IdView,
    query: PendingQuery,
    input: InputView,
)
    requires
        d.phase == (PhaseView::Asking { id, query }) && input is Sent || d.phase == (
        PhaseView::Answering { id, query }) && (input is Arrived || input is Ended),
        d.session is Some,
    ensures
        ({
            let s = d.session->0;
            let unread = if input is Arrived {
                s.client.unread + input->Arrived_0
            } else {
                s.client.unread
            };
            let (read, rest) = next_answer(unread, input is Ended, int_text(query.id as int));
            let (e, out) = step(d, input);
            &&& e.session == Some(with_unread(s, rest))
            &&& read is Pending ==> e.phase == (PhaseView::Answering { id, query }) && out
                == OutputView::Receive(Limit::Unlimited)
            &&& read matches AnswerView::Failed(error) ==> e.phase is Idle && answers_error(
                out,
                id,
                -32000,
                "query failed: "@ + frame_error_text(error),
            )
            &&& read is Response ==> e.phase is Idle && out is Reply && out->Reply_0.id == id
        }),
        d.phase == (PhaseView::Answering { id, query }) ==> is_done(
            d,
            step(d, InputView::ReadFailed).0,
        ) && answers_error(
            step(d, InputView::ReadFailed).1,
            id,
            -32000,
            "query failed: "@ + broken_text(d.session->0.client.unread),
        ),
{
}

/// A daemon that is to end asks to end its session's conversation first; without a
/// session it is done.
pub proof fn law_ending_of_the_daemon(d: DaemonView)
    requires
        d.phase is Idle,
    ensures
        ({
            let (e, out) = step(d, InputView::Stop);
            &&& d.session is None ==> e == d && out is Hangup
            &&& d.session is Some ==> e.session is None && e.phase is Parting
                && e.phase->Parting_next is Leave && e.phase->Parting_request
                == d.session->0.client.next_id && out == OutputView::Send(
                seq![message_frame(shutdown_message(d.session->0.client.next_id))],
            )
            &&& e.shutdown_requested == d.shutdown_requested
        }),
{
}

/// Whether a daemon waits for an input.
pub open spec fn waits_for(phase: PhaseView, input: InputView) -> bool {
    match phase {
        PhaseView::Idle => input is Line || input is Stop,
        PhaseView::Resolving { .. } => input is Resolved,
        PhaseView::Closing { .. } => input is Closed,
        PhaseView::Opening { .. } => input is Opened || input is OpenFailed,
        PhaseView::Rereading { .. } => input is Content || input is Unreadable,
        PhaseView::Parting { .. }
        | PhaseView::Greeting { .. }
        | PhaseView::Starting { .. }
        | PhaseView::Resending { .. }
        | PhaseView::Asking { .. } => input is Sent || input is SendFailed,
        PhaseView::Stopping { .. } | PhaseView::Meeting { .. } | PhaseView::Processing { .. } => {
            input is Arrived || input is Ended || input is ReadFailed || input is TimedOut
        },
        PhaseView::Answering { .. } => input is Arrived || input is Ended || input is ReadFailed,
    }
}

/// What is not waited for changes nothing.
pub proof fn law_nothing_else_is_taken(d: DaemonView, input: InputView)
    requires
        !waits_for(d.phase, input),
    ensures
        step(d, input) == (d, OutputView::Nothing),
{
}

/// Everything can be taken but a changed text for which there is no version left.
pub proof fn law_what_can_be_taken(d: DaemonView, input: InputView)
    ensures
        !can_take(d, input) <==> d.phase is Rereading && d.session is Some && input is Content
            && d.session->0.version == 0x7fff_ffff && hash_text(input->Content_0)
            != d.session->0.content_hash,
{
}

/// A daemon is in order only if its session is, or the one that it is about to
/// have; and if it has a session while it checks a file or asks a query, and none
/// while it opens a file or ends a conversation.
pub proof fn law_a_daemon_in_order(d: DaemonView)
    requires
        daemon_wf(d),
    ensures
        d.session matches Some(s) ==> session_wf(s),
        d.phase matches PhaseView::Starting { session, .. } ==> session_wf(session),
        d.phase matches PhaseView::Meeting { session, .. } ==> session_wf(session),
        d.phase matches PhaseView::Greeting { session, .. } ==> session_wf(session),
        d.phase is Rereading || d.phase is Resending || d.phase is Processing || d.phase is Asking
            || d.phase is Answering ==> d.session is Some,
        d.phase is Parting || d.phase is Stopping || d.phase is Closing || d.phase is Opening
            || d.phase is Greeting || d.phase is Meeting || d.phase is Starting ==> d.session
            is None,
{
}

/// Ending a conversation: the request to end it is sent and waited for within two
/// seconds; then it is told to exit, whatever came of the request; and then what
/// was to be done is done.
pub proof fn law_ending(
    d: DaemonView,
    session: SessionView,
    request: i64,
    next: NextView,
    sent: usize,
    error: Seq<char>,
)
    requires
        d.phase == (PhaseView::Parting { session, request, next }),
    ensures
        ({
            let (e, out) = step(d, InputView::SendFailed { sent, error });
            let (f, after) = step(e, InputView::Closed);
            let (w, wait) = step(d, InputView::Sent);
            &&& goes_on(d, e, PhaseView::Closing { next })
            &&& out == OutputView::Close(message_frame(exit_message()))
            &&& wait is Receive ==> wait == OutputView::Receive(Limit::Within(2)) && w.phase
                is Stopping && w.phase->Stopping_next == next && w.phase->Stopping_request
                == request
            &&& wait !is Receive ==> (w, wait) == (e, out)
            &&& next matches NextView::Open { id, file, flags } ==> goes_on(
                d,
                f,
                PhaseView::Opening { id, file, flags },
            ) && after == OutputView::Open { path: encode_utf8(file), flags }
            &&& next matches NextView::Answer { id } ==> is_done(d, f) && answers(
                after,
                id,
                JsonView::Object(Map::empty()),
            )
            &&& next is Leave ==> is_done(d, f) && after is Hangup
        }),
{
}

/// A file that has been read and has a process is greeted; it has no more to do
/// with the daemon until the conversation has started.
pub proof fn law_a_new_session_is_greeted(
    d: DaemonView,
    id: IdView,
    file: Seq<char>,
    flags: Seq<Seq<char>>,
    path: Seq<u8>,
    content: Seq<char>,
)
    requires
        d.phase == (PhaseView::Opening { id, file, flags }),
    ensures
        ({
            let (e, out) = step(d, InputView::Opened { path, content });
            &&& e.session == d.session
            &&& e.phase matches PhaseView::Greeting { id: same_id, session: s } && same_id == id
                && s.path == path && s.content == content && s.flags == flags && s.version == 1
                && s.diagnostics.len() == 0 && s.status == StatusView::Processing
                && s.content_hash == hash_text(content) && s.client.unread.len() == 0
                && s.client.next_id == 2
            &&& out is Send
            &&& out->Send_0.len() == 1
        }),
{
}

/// The daemon listens at `rocqd.sock` in the runtime directory; without one, at a
/// name in `/tmp` with the user's id, so that no two users share it. Its process
/// id is written beside it.
pub proof fn law_where_the_daemon_listens(dir: Seq<u8>, uid: u32)
    ensures
        dir.len() > 0 && dir.last() != 47 ==> socket_bytes(Some(dir), uid) == dir.push(47)
            + encode_utf8("rocqd.sock"@) && pid_bytes(Some(dir), uid) == dir.push(47)
            + encode_utf8("rocqd.pid"@),
        dir.len() > 0 && dir.last() == 47 ==> socket_bytes(Some(dir), uid) == dir + encode_utf8(
            "rocqd.sock"@,
        ) && pid_bytes(Some(dir), uid) == dir + encode_utf8("rocqd.pid"@),
        socket_bytes(None, uid) == encode_utf8("/tmp/rocqd-"@ + nat_text(uid as nat) + ".sock"@),
        pid_bytes(None, uid) == encode_utf8("/tmp/rocqd-"@ + nat_text(uid as nat) + ".pid"@),
{
    reveal_strlit("rocqd.sock");
    reveal_strlit("rocqd.pid");
    assert("rocqd.sock"@[0] == 'r');
    assert("rocqd.pid"@[0] == 'r');
    is_ascii_chars_encode_utf8("rocqd.sock"@);
    is_ascii_chars_encode_utf8("rocqd.pid"@);
}

/// A response is sent as its text and a line feed.
pub proof fn law_a_response_is_a_line(r: ResponseView)
    ensures
        response_line(r).len() == message_text(MessageView::Response(r)).len() + 1,
        response_line(r).last() == '\n',
        response_line(r).drop_last() == message_text(MessageView::Response(r)),
{
}

} // verus!
