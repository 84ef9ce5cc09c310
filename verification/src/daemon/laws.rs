//! What holds of everything that the daemon does.
use vstd::prelude::*;
use vstd::utf8::*;
use crate::daemon::{
    answer, ask, close, go_on, idle, in_phase, law_every_text_is_a_query, line_request, on_line,
    on_parted, on_query, on_request, on_resolved, on_started, part, phase_fits, process, reply,
    session_list, step, with_more, with_session, with_text, DaemonView, GoalView, InputView, Limit,
    NextView, OutputView, PhaseView, COMPILE_SECS, METHOD_NOT_FOUND, REQUEST_FAILED,
};
use crate::json::{list_map, JsonView, MAX_DEPTH};
use crate::lsp::jsonrpc::{
    error_members, error_view, id_text, lemma_two, ok_view, reads_back, IdView, MessageView,
    RequestView, ResponseView,
};
use crate::lsp::transport::{headers, line_feed, message_frame, receive, received_as, ReceivedView};
use crate::lsp::types::settled;
use crate::lsp::vsrocq::{
    exit_message, law_answers_in_pieces, law_messages_find_their_reader,
    law_nothing_is_awaited_at_the_end, next_answer, shutdown_message, AnswerView, PendingQuery,
    EXIT_WAIT_SECS, FIRST_ID,
};
use crate::path::same;
use crate::protocol::{
    compile_request_from, compile_response_from, compile_response_json, empty_json,
    law_compile_response_reads_back, methods, query_response_json, status_response_json,
    CompileRequestView, SessionInfoView,
};
use crate::session::{
    can_take_text, change_sends, greeting, hash_text, heard, law_draining_in_pieces, law_processing,
    law_processing_ends, opened, opening_sends, outcome_view, resent, session_wf, taken_in, waited,
    with_unread, ArrivalView, SessionView,
};
use crate::text::int_text;

verus! {

/// The id of the request that is to be worked on next.
pub open spec fn next_id(next: NextView) -> Option<IdView> {
    match next {
        NextView::Open { id, .. } => Some(id),
        NextView::Answer { id } => Some(id),
        NextView::Leave => None,
    }
}

/// The id of the request that is being worked on. There is none while the
/// daemon ends.
pub open spec fn phase_id(phase: PhaseView) -> Option<IdView> {
    match phase {
        PhaseView::Idle => None,
        PhaseView::Resolving { id, .. } => Some(id),
        PhaseView::Parting { next, .. } => next_id(next),
        PhaseView::Stopping { next, .. } => next_id(next),
        PhaseView::Closing { next } => next_id(next),
        PhaseView::Opening { id, .. } => Some(id),
        PhaseView::Greeting { id, .. } => Some(id),
        PhaseView::Meeting { id, .. } => Some(id),
        PhaseView::Starting { id, .. } => Some(id),
        PhaseView::Rereading { id } => Some(id),
        PhaseView::Resending { id, .. } => Some(id),
        PhaseView::Processing { id } => Some(id),
        PhaseView::Asking { id, .. } => Some(id),
        PhaseView::Answering { id, .. } => Some(id),
    }
}

/// Whether `vsrocqtop` is waited for, and not without a limit.
pub open spec fn waits_within(out: OutputView) -> bool {
    out matches OutputView::Receive(limit) && limit !is Unlimited
}

/// Whether a daemon that wants something done waits for what comes of it.
spec fn asks_for(phase: PhaseView, out: OutputView) -> bool {
    match phase {
        PhaseView::Idle => false,
        PhaseView::Resolving { .. } => out is Resolve,
        PhaseView::Parting { .. } => out is Send,
        PhaseView::Stopping { .. } => waits_within(out),
        PhaseView::Closing { .. } => out is Close,
        PhaseView::Opening { .. } => out is Open,
        PhaseView::Greeting { .. } => out is Send,
        PhaseView::Meeting { .. } => waits_within(out),
        PhaseView::Starting { .. } => out is Send,
        PhaseView::Rereading { .. } => out is Read,
        PhaseView::Resending { .. } => out is Send,
        PhaseView::Processing { .. } => waits_within(out),
        PhaseView::Asking { .. } => out is Send,
        PhaseView::Answering { .. } => out == OutputView::Receive(Limit::Unlimited),
    }
}

/// What a step on a request comes to: it is answered, under its id, or it is
/// worked on further. Without a request there is no answer at the end.
spec fn stays_with(id: Option<IdView>, e: DaemonView, out: OutputView) -> bool {
    &&& phase_fits(e)
    &&& match out {
        OutputView::Reply(r) => Some(r.id) == id && e.phase is Idle,
        OutputView::Hangup => id is None && e.phase is Idle,
        OutputView::Nothing | OutputView::Reject(_) => false,
        _ => phase_id(e.phase) == id && asks_for(e.phase, out),
    }
}

proof fn lemma_close(d: DaemonView, next: NextView)
    ensures
        stays_with(next_id(next), close(d, next).0, close(d, next).1),
        d.session is None ==> stays_with(next_id(next), go_on(d, next).0, go_on(d, next).1),
        d.session is None ==> stays_with(next_id(next), part(d, next).0, part(d, next).1),
{
}

proof fn lemma_on_request(d: DaemonView, r: RequestView)
    ensures
        stays_with(Some(r.id), on_request(d, r).0, on_request(d, r).1),
{
    lemma_close(DaemonView { shutdown_requested: true, ..d }, NextView::Answer { id: r.id });
}

proof fn lemma_on_line(d: DaemonView, line: Seq<char>)
    requires
        d.phase is Idle,
    ensures
        ({
            let (e, out) = on_line(d, line);
            match line_request(line) {
                Some(r) => stays_with(Some(r.id), e, out),
                None => e == d && (out is Reply || out is Hangup || out is Reject),
            }
        }),
{
    if let Some(r) = line_request(line) {
        lemma_on_request(d, r);
    }
}

proof fn lemma_on_resolved(
    d: DaemonView,
    id: IdView,
    file: Seq<char>,
    goal: GoalView,
    found: Option<Seq<u8>>,
)
    ensures
        ({
            let (e, out) = on_resolved(d, id, file, goal, found);
            stays_with(Some(id), e, out)
        }),
{
    lemma_close(d, NextView::Answer { id });
    if let GoalView::Compile { flags } = goal {
        lemma_close(d, NextView::Open { id, file, flags });
    }
}

proof fn lemma_process(d: DaemonView, id: IdView, a: ArrivalView)
    requires
        d.session is Some,
    ensures
        stays_with(Some(id), process(d, id, a).0, process(d, id, a).1),
{
}

proof fn lemma_answer(d: DaemonView, id: IdView, query: PendingQuery, ended: bool)
    requires
        d.session is Some,
    ensures
        stays_with(Some(id), answer(d, id, query, ended).0, answer(d, id, query, ended).1),
{
}

proof fn lemma_started(d: DaemonView, id: IdView, session: SessionView, a: ArrivalView)
    requires
        d.session is None,
    ensures
        stays_with(Some(id), on_started(d, id, session, a).0, on_started(d, id, session, a).1),
{
}

proof fn lemma_parted(
    d: DaemonView,
    session: SessionView,
    request: i64,
    next: NextView,
    a: ArrivalView,
)
    requires
        d.session is None,
    ensures
        ({
            let (e, out) = on_parted(d, session, request, next, a);
            stays_with(next_id(next), e, out)
        }),
{
}

/// What a step in the given phase comes to.
spec fn goes_on(d: DaemonView, input: InputView) -> bool {
    let (e, out) = step(d, input);
    stays_with(phase_id(d.phase), e, out) || (out is Nothing && e == d)
}

proof fn lemma_arrival(d: DaemonView, input: InputView)
    requires
        phase_fits(d),
        d.phase is Processing || d.phase is Meeting || d.phase is Stopping,
    ensures
        goes_on(d, input),
{
    let e = idle(d);
    match d.phase {
        PhaseView::Processing { id } => match input {
            InputView::Arrived(bytes) => lemma_process(e, id, ArrivalView::Bytes(bytes)),
            InputView::Ended => lemma_process(e, id, ArrivalView::Ended),
            InputView::ReadFailed => lemma_process(e, id, ArrivalView::Broken),
            InputView::TimedOut => lemma_process(e, id, ArrivalView::TimedOut),
            _ => {},
        },
        PhaseView::Meeting { id, session } => match input {
            InputView::Arrived(bytes) => lemma_started(e, id, session, ArrivalView::Bytes(bytes)),
            InputView::Ended => lemma_started(e, id, session, ArrivalView::Ended),
            InputView::ReadFailed => lemma_started(e, id, session, ArrivalView::Broken),
            _ => {},
        },
        PhaseView::Stopping { session, request, next } => {
            lemma_close(e, next);
            if let InputView::Arrived(bytes) = input {
                lemma_parted(e, session, request, next, ArrivalView::Bytes(bytes));
            }
        },
        _ => {},
    }
}

proof fn lemma_busy_step(d: DaemonView, input: InputView)
    requires
        phase_fits(d),
        d.phase !is Idle,
    ensures
        goes_on(d, input),
{
    let e = idle(d);
    match d.phase {
        PhaseView::Resolving { id, file, goal } => if let InputView::Resolved(found) = input {
            lemma_on_resolved(e, id, file, goal, found);
        },
        PhaseView::Parting { session, request, next } => {
            lemma_close(e, next);
            lemma_parted(e, session, request, next, ArrivalView::Nothing);
        },
        PhaseView::Closing { next } => {
            lemma_close(e, next);
        },
        PhaseView::Greeting { id, session } => {
            lemma_started(e, id, session, ArrivalView::Nothing);
        },
        PhaseView::Starting { id, session } => {
            lemma_process(with_session(e, Some(session)), id, ArrivalView::Nothing);
        },
        PhaseView::Rereading { id } => {
            lemma_process(e, id, ArrivalView::Nothing);
        },
        PhaseView::Resending { id, content, version } => {
            lemma_process(with_text(e, content, version), id, ArrivalView::Nothing);
        },
        PhaseView::Processing { .. } => lemma_arrival(d, input),
        PhaseView::Meeting { .. } => lemma_arrival(d, input),
        PhaseView::Stopping { .. } => lemma_arrival(d, input),
        PhaseView::Asking { id, query } => {
            lemma_answer(e, id, query, false);
        },
        PhaseView::Answering { id, query } => {
            lemma_answer(e, id, query, true);
            if let InputView::Arrived(bytes) = input {
                lemma_answer(with_more(e, bytes), id, query, false);
            }
        },
        _ => {},
    }
}

/// One step: a line starts a request, and another input takes it further or,
/// where it is not waited for, changes nothing.
proof fn lemma_step(d: DaemonView, input: InputView)
    requires
        phase_fits(d),
    ensures
        d.phase !is Idle ==> goes_on(d, input),
        d.phase is Idle ==> ({
            let (e, out) = step(d, input);
            match input {
                InputView::Line(line) => match line_request(line) {
                    Some(r) => stays_with(Some(r.id), e, out),
                    None => e == d && (out is Reply || out is Hangup || out is Reject),
                },
                InputView::Stop => stays_with(None, e, out),
                _ => out is Nothing && e == d,
            }
        }),
{
    if d.phase is Idle {
        lemma_close(idle(d), NextView::Leave);
        if let InputView::Line(line) = input {
            lemma_on_line(idle(d), line);
        }
    } else {
        lemma_busy_step(d, input);
    }
}

/// The outputs that some inputs lead to, one by one.
pub open spec fn run(d: DaemonView, inputs: Seq<InputView>) -> Seq<OutputView>
    decreases inputs.len(),
{
    if inputs.len() == 0 {
        Seq::empty()
    } else {
        let (e, out) = step(d, inputs[0]);
        seq![out] + run(e, inputs.drop_first())
    }
}

proof fn lemma_run(d: DaemonView, inputs: Seq<InputView>, id: IdView)
    requires
        phase_fits(d),
        d.phase is Idle || phase_id(d.phase) == Some(id),
        forall|i: int|
            0 <= i < inputs.len() ==> (#[trigger] inputs[i]) !is Line && inputs[i] !is Stop,
    ensures
        ({
            let outputs = run(d, inputs);
            &&& outputs.len() == inputs.len()
            &&& forall|i: int|
                0 <= i < outputs.len() ==> ((#[trigger] outputs[i]) matches OutputView::Reply(r)
                    ==> r.id == id) && outputs[i] !is Hangup && outputs[i] !is Reject
            &&& forall|i: int, j: int|
                0 <= i < j < outputs.len() && outputs[i] is Reply ==> outputs[j] is Nothing
            &&& d.phase is Idle ==> forall|i: int|
                0 <= i < outputs.len() ==> (#[trigger] outputs[i]) is Nothing
        }),
    decreases inputs.len(),
{
    if inputs.len() > 0 {
        lemma_step(d, inputs[0]);
        let (e, out) = step(d, inputs[0]);
        let tail = inputs.drop_first();
        assert forall|i: int| 0 <= i < tail.len() implies (#[trigger] tail[i]) !is Line
            && tail[i] !is Stop by {
            assert(tail[i] == inputs[i + 1]);
        }
        lemma_run(e, tail, id);
        let outputs = run(d, inputs);
        let rest = run(e, tail);
        assert forall|i: int| 0 < i < outputs.len() implies #[trigger] outputs[i] == rest[i - 1] by {}
    }
}

/// A request is answered at most once, and under its own id; nothing is done
/// after the answer. That holds whatever comes of what the daemon wants done,
/// as long as no other line is taken and the daemon is not told to end.
pub proof fn law_a_request_gets_one_answer(
    d: DaemonView,
    line: Seq<char>,
    request: RequestView,
    inputs: Seq<InputView>,
)
    requires
        d.phase is Idle,
        line_request(line) == Some(request),
        forall|i: int|
            0 <= i < inputs.len() ==> (#[trigger] inputs[i]) !is Line && inputs[i] !is Stop,
    ensures
        ({
            let outputs = run(d, seq![InputView::Line(line)] + inputs);
            &&& outputs.len() == inputs.len() + 1
            &&& forall|i: int|
                0 <= i < outputs.len() ==> ((#[trigger] outputs[i]) matches OutputView::Reply(r)
                    ==> r.id == request.id) && outputs[i] !is Hangup && outputs[i] !is Reject
            &&& forall|i: int, j: int|
                0 <= i < j < outputs.len() && outputs[i] is Reply ==> outputs[j] is Nothing
        }),
{
    let all = seq![InputView::Line(line)] + inputs;
    lemma_step(d, all[0]);
    let (e, out) = step(d, all[0]);
    assert(all.drop_first() == inputs);
    lemma_run(e, inputs, request.id);
    let outputs = run(d, all);
    let rest = run(e, inputs);
    assert forall|i: int| 0 < i < outputs.len() implies #[trigger] outputs[i] == rest[i - 1] by {}
}

/// Requests are taken one at a time: while one is worked on, no line is taken.
pub proof fn law_one_request_at_a_time(d: DaemonView, line: Seq<char>)
    requires
        d.phase !is Idle,
    ensures
        step(d, InputView::Line(line)) == (d, OutputView::Nothing),
{
}

/// Whether an input tells what came of an output.
pub open spec fn follows(out: OutputView, input: InputView) -> bool {
    match out {
        OutputView::Resolve(_) => input is Resolved,
        OutputView::Close(_) => input is Closed,
        OutputView::Open { .. } => input is Opened || input is OpenFailed,
        OutputView::Send(_) => input is Sent || input is SendFailed,
        OutputView::Read(_) => input is Content || input is Unreadable,
        OutputView::Receive(limit) => input is Arrived || input is Ended || input is ReadFailed || (
        limit !is Unlimited && input is TimedOut),
        _ => false,
    }
}

proof fn lemma_taken_further(d: DaemonView, out: OutputView, next: InputView)
    requires
        phase_fits(d),
        asks_for(d.phase, out),
        follows(out, next),
    ensures
        step(d, next).1 !is Nothing,
        next is Ended || next is ReadFailed || next is TimedOut ==> step(d, next).1 !is Receive,
{
    lemma_expected(d, out, next);
    if next is Ended || next is ReadFailed || next is TimedOut {
        lemma_not_awaited(d, next);
    }
}

/// What is waited for in each phase comes to an end when the stream does.
proof fn lemma_not_awaited(d: DaemonView, next: InputView)
    requires
        phase_fits(d),
        next is Ended || next is ReadFailed || next is TimedOut,
        step(d, next).1 !is Nothing,
    ensures
        step(d, next).1 !is Receive,
{
    let e = idle(d);
    match d.phase {
        PhaseView::Processing { id } => {
            let s = d.session->0;
            law_processing_ends(s);
            assert(taken_in(s, ArrivalView::Ended) == s);
            assert(process(e, id, ArrivalView::Ended).1 is Reply);
        },
        PhaseView::Meeting { id, session } => {
            law_nothing_is_awaited_at_the_end(session.client.unread, int_text(FIRST_ID as int));
            assert(taken_in(session, ArrivalView::Ended) == session);
            assert(on_started(e, id, session, ArrivalView::Ended).1 !is Receive);
        },
        PhaseView::Answering { query, .. } => law_nothing_is_awaited_at_the_end(
            d.session->0.client.unread,
            int_text(query.id as int),
        ),
        _ => {},
    }
}

proof fn lemma_expected(d: DaemonView, out: OutputView, next: InputView)
    requires
        phase_fits(d),
        asks_for(d.phase, out),
        follows(out, next),
    ensures
        step(d, next).1 !is Nothing,
{
    let e = idle(d);
    match d.phase {
        PhaseView::Resolving { id, file, goal } => if let InputView::Resolved(found) = next {
            lemma_on_resolved(e, id, file, goal, found);
        },
        PhaseView::Parting { session, request, next: after } => {
            lemma_parted(e, session, request, after, ArrivalView::Nothing);
        },
        PhaseView::Stopping { session, request, next: after } => {
            if let InputView::Arrived(bytes) = next {
                lemma_parted(e, session, request, after, ArrivalView::Bytes(bytes));
            }
        },
        PhaseView::Closing { next: after } => lemma_close(e, after),
        PhaseView::Greeting { id, session } => {
            lemma_started(e, id, session, ArrivalView::Nothing);
        },
        PhaseView::Meeting { id, session } => {
            lemma_started(e, id, session, ArrivalView::Ended);
            lemma_started(e, id, session, ArrivalView::Broken);
            if let InputView::Arrived(bytes) = next {
                lemma_started(e, id, session, ArrivalView::Bytes(bytes));
            }
        },
        PhaseView::Starting { id, session } => {
            lemma_process(with_session(e, Some(session)), id, ArrivalView::Nothing);
        },
        PhaseView::Rereading { id } => lemma_process(e, id, ArrivalView::Nothing),
        PhaseView::Resending { id, content, version } => {
            lemma_process(with_text(e, content, version), id, ArrivalView::Nothing);
        },
        PhaseView::Processing { id } => {
            lemma_process(e, id, ArrivalView::Ended);
            lemma_process(e, id, ArrivalView::Broken);
            lemma_process(e, id, ArrivalView::TimedOut);
            if let InputView::Arrived(bytes) = next {
                lemma_process(e, id, ArrivalView::Bytes(bytes));
            }
        },
        PhaseView::Asking { id, query } => lemma_answer(e, id, query, false),
        PhaseView::Answering { id, query } => {
            lemma_answer(e, id, query, true);
            if let InputView::Arrived(bytes) = next {
                lemma_answer(with_more(e, bytes), id, query, false);
            }
        },
        _ => {},
    }
}

/// What came of an output is always taken further. And when `vsrocqtop` sends no
/// more, or the time is up, it is not waited for.
pub proof fn law_what_came_is_taken_further(d: DaemonView, input: InputView, next: InputView)
    requires
        phase_fits(d),
        follows(step(d, input).1, next),
    ensures
        step(step(d, input).0, next).1 !is Nothing,
        next is Ended || next is ReadFailed || next is TimedOut ==> step(
            step(d, input).0,
            next,
        ).1 !is Receive,
{
    lemma_step(d, input);
    lemma_taken_further(step(d, input).0, step(d, input).1, next);
}

/// Only for the answer to a query is `vsrocqtop` waited for without a limit. Any
/// other wait has one, which runs from its beginning: what arrives does not
/// renew it.
pub proof fn law_waits_have_a_limit(d: DaemonView, input: InputView)
    requires
        phase_fits(d),
    ensures
        ({
            let (e, out) = step(d, input);
            &&& out is Receive && e.phase !is Answering ==> out->Receive_0 == (if input is Arrived {
                Limit::Running
            } else if e.phase is Stopping {
                Limit::Within(EXIT_WAIT_SECS)
            } else {
                Limit::Within(COMPILE_SECS)
            })
            &&& out is Receive && input is Arrived ==> e.phase is Answering == d.phase is Answering
                && e.phase is Processing == d.phase is Processing && e.phase is Meeting
                == d.phase is Meeting && e.phase is Stopping == d.phase is Stopping
        }),
{
    lemma_step(d, input);
    if d.phase is Idle {
        if let InputView::Line(line) = input {
            if let Some(r) = line_request(line) {
                lemma_request_does_not_wait(idle(d), r);
            }
        }
    } else if input is Ended || input is ReadFailed || input is TimedOut {
        if step(d, input).1 !is Nothing {
            lemma_not_awaited(d, input);
        }
    } else {
        lemma_limits(d, input);
    }
}

proof fn lemma_request_does_not_wait(d: DaemonView, r: RequestView)
    ensures
        on_request(d, r).1 !is Receive,
{
}

proof fn lemma_limits(d: DaemonView, input: InputView)
    requires
        phase_fits(d),
        d.phase !is Idle,
        input !is Ended && input !is ReadFailed && input !is TimedOut,
    ensures
        ({
            let (e, out) = step(d, input);
            &&& out is Receive && e.phase !is Answering ==> out->Receive_0 == (if input is Arrived {
                Limit::Running
            } else if e.phase is Stopping {
                Limit::Within(EXIT_WAIT_SECS)
            } else {
                Limit::Within(COMPILE_SECS)
            })
            &&& out is Receive && input is Arrived ==> e.phase is Answering == d.phase is Answering
                && e.phase is Processing == d.phase is Processing && e.phase is Meeting
                == d.phase is Meeting && e.phase is Stopping == d.phase is Stopping
        }),
{
}

/// There is one session at most, and it makes way for another file: a file is
/// opened only where there is none, and a session goes only by asking to end
/// its conversation.
pub proof fn law_a_session_makes_way(d: DaemonView, input: InputView)
    requires
        phase_fits(d),
    ensures
        ({
            let (e, out) = step(d, input);
            &&& out is Open ==> e.session is None
            &&& out is Close ==> d.phase is Parting || d.phase is Stopping
            &&& d.session is Some && e.session is None ==> e.phase is Parting && out
                == OutputView::Send(
                seq![message_frame(shutdown_message(d.session->0.client.next_id))],
            )
        }),
{
    lemma_step(d, input);
    let e = idle(d);
    match d.phase {
        PhaseView::Idle => {
            lemma_closing(e, NextView::Leave);
            if let InputView::Line(line) = input {
                if let Some(r) = line_request(line) {
                    lemma_request_and_session(e, r);
                }
            }
        },
        PhaseView::Resolving { id, file, goal } => if let InputView::Resolved(found) = input {
            lemma_resolved_and_session(e, id, file, goal, found);
        },
        PhaseView::Rereading { .. }
        | PhaseView::Resending { .. }
        | PhaseView::Processing { .. }
        | PhaseView::Asking { .. }
        | PhaseView::Answering { .. } => lemma_session_stays(d, input),
        _ => {},
    }
}

proof fn lemma_session_stays(d: DaemonView, input: InputView)
    requires
        d.session is Some,
        d.phase is Rereading || d.phase is Resending || d.phase is Processing || d.phase is Asking
            || d.phase is Answering,
    ensures
        step(d, input).0.session is Some,
        step(d, input).1 !is Close,
{
}

proof fn lemma_resolved_and_session(
    d: DaemonView,
    id: IdView,
    file: Seq<char>,
    goal: GoalView,
    found: Option<Seq<u8>>,
)
    ensures
        ({
            let (e, out) = on_resolved(d, id, file, goal, found);
            goes_by_asking(d, e, out)
        }),
{
    lemma_closing(d, NextView::Answer { id });
    match goal {
        GoalView::Compile { flags } => lemma_closing(d, NextView::Open { id, file, flags }),
        GoalView::Query { text, .. } => law_every_text_is_a_query(text),
        _ => {},
    }
}

/// How a session goes, if it does.
spec fn goes_by_asking(d: DaemonView, e: DaemonView, out: OutputView) -> bool {
    &&& out is Open ==> e.session is None
    &&& out !is Close
    &&& d.session is Some && e.session is None ==> e.phase is Parting && out == OutputView::Send(
        seq![message_frame(shutdown_message(d.session->0.client.next_id))],
    )
}

proof fn lemma_closing(d: DaemonView, next: NextView)
    ensures
        goes_by_asking(d, close(d, next).0, close(d, next).1),
{
}

proof fn lemma_request_and_session(d: DaemonView, r: RequestView)
    ensures
        goes_by_asking(d, on_request(d, r).0, on_request(d, r).1),
{
    let marked = DaemonView { shutdown_requested: true, ..d };
    lemma_closing(marked, NextView::Answer { id: r.id });
}

/// A conversation is ended only after its process has been asked to, and has
/// answered, cannot be asked, or does not answer in time. Then what was to be
/// done next is done.
pub proof fn law_a_conversation_is_ended(
    d: DaemonView,
    session: SessionView,
    request: i64,
    next: NextView,
    bytes: Seq<u8>,
)
    requires
        d.phase == (PhaseView::Stopping { session, request, next }),
    ensures
        ({
            let ended = part(idle(d), next);
            let (e, out) = step(d, InputView::Arrived(bytes));
            let (read, rest) = next_answer(
                session.client.unread + bytes,
                false,
                int_text(request as int),
            );
            &&& read is Response ==> (e, out) == ended
            &&& read is Failed ==> (e, out) == ended
            &&& read is Pending ==> out == OutputView::Receive(Limit::Running)
            &&& step(d, InputView::Ended) == ended
            &&& step(d, InputView::ReadFailed) == ended
            &&& step(d, InputView::TimedOut) == ended
            &&& ended.1 == OutputView::Close(message_frame(exit_message()))
            &&& step(ended.0, InputView::Closed) == go_on(idle(d), next)
        }),
{
}

/// Checking the file that the session is for, with the flags that its process was
/// run with, uses the session again: nothing is opened or ended, and the file is
/// read. If its text has not changed, nothing is sent; and if it has been
/// processed, what was found is the answer at once. If the text has changed, it
/// is sent under the next version.
pub proof fn law_a_session_is_used_again(
    d: DaemonView,
    id: IdView,
    file: Seq<char>,
    flags: Seq<Seq<char>>,
    path: Seq<u8>,
    content: Seq<char>,
)
    requires
        d.phase == (PhaseView::Resolving { id, file, goal: GoalView::Compile { flags } }),
        d.session matches Some(s) && same(s.path, path) && s.flags == flags && session_wf(s)
            && can_take_text(s, content),
    ensures
        ({
            let s = d.session->0;
            let (e, out) = step(d, InputView::Resolved(Some(path)));
            let (f, next) = step(e, InputView::Content(content));
            &&& out == OutputView::Read(s.path)
            &&& e.session == d.session
            &&& content == s.content ==> next !is Send
            &&& content == s.content && s.status !is Processing ==> (f, next) == reply(
                d,
                ok_view(id, compile_response_json(outcome_view(s))),
            )
            &&& next is Send ==> content != s.content && f.session == d.session && next
                == OutputView::Send(change_sends(s, content, (s.version + 1) as i32))
        }),
{
}

/// A text that has changed counts as sent when it has been: the session then has
/// its next version, what was found is forgotten, and the file has yet to be
/// processed. Where it could not be sent the session stays as it is, so that
/// the same text is sent when the file is checked again.
pub proof fn law_a_text_counts_when_it_was_sent(
    d: DaemonView,
    id: IdView,
    content: Seq<char>,
    version: i32,
    error: Seq<char>,
    again: IdView,
)
    requires
        d.phase == (PhaseView::Resending { id, content, version }),
        d.session matches Some(s) && hash_text(content) != s.content_hash,
    ensures
        ({
            let s = d.session->0;
            let sent = step(d, InputView::Sent);
            let unsent = step(d, InputView::SendFailed { sent: 0, error });
            let retry = in_phase(unsent.0, PhaseView::Rereading { id: again });
            &&& sent == process(
                with_session(idle(d), Some(resent(s, content, version))),
                id,
                ArrivalView::Nothing,
            )
            &&& unsent.0.session == d.session
            &&& unsent.1 == OutputView::Reply(
                error_view(id, REQUEST_FAILED, "recompile failed: "@ + error),
            )
            &&& step(retry, InputView::Content(content)).1 == OutputView::Send(
                change_sends(s, content, (s.version + 1) as i32),
            )
        }),
{
}

/// Checking another file than the one that the session is for, or the same one
/// with other flags, ends the session first, and then opens the file with the
/// flags that it is to be checked with.
pub proof fn law_another_file_is_opened(
    d: DaemonView,
    id: IdView,
    file: Seq<char>,
    flags: Seq<Seq<char>>,
    path: Seq<u8>,
    end: InputView,
)
    requires
        d.phase == (PhaseView::Resolving { id, file, goal: GoalView::Compile { flags } }),
        d.session matches Some(s) && (!same(s.path, path) || s.flags != flags),
        end is Ended || end is ReadFailed || end is TimedOut,
    ensures
        ({
            let (e, out) = step(d, InputView::Resolved(Some(path)));
            let (f, close) = step(e, InputView::SendFailed { sent: 0, error: Seq::empty() });
            let waiting = DaemonView {
                phase: PhaseView::Stopping {
                    session: e.phase->Parting_session,
                    request: e.phase->Parting_request,
                    next: e.phase->Parting_next,
                },
                ..e
            };
            &&& e.session is None
            &&& e.phase is Parting
            &&& out == OutputView::Send(
                seq![message_frame(shutdown_message(d.session->0.client.next_id))],
            )
            &&& close == OutputView::Close(message_frame(exit_message()))
            &&& step(waiting, end) == (f, close)
            &&& step(f, InputView::Closed).1 == OutputView::Open { path: encode_utf8(file), flags }
            &&& step(f, InputView::Closed).0.session is None
        }),
{
}

/// Forgetting a file ends the session if it is that file's, and leaves it alone
/// if not.
pub proof fn law_forgetting(d: DaemonView, id: IdView, file: Seq<char>, path: Seq<u8>)
    requires
        d.phase == (PhaseView::Resolving { id, file, goal: GoalView::Forget }),
    ensures
        ({
            let (e, out) = step(d, InputView::Resolved(Some(path)));
            if d.session is Some && same(d.session->0.path, path) {
                &&& e.session is None
                &&& (e, out) == close(idle(d), NextView::Answer { id })
                &&& go_on(idle(e), NextView::Answer { id }) == reply(e, ok_view(id, empty_json()))
            } else {
                (e, out) == reply(d, ok_view(id, empty_json()))
            }
        }),
{
}

/// A query is asked of the session of the file that it names. Where the session
/// is another file's, or there is none, it is refused: nothing is asked, and
/// the session stays as it is.
pub proof fn law_a_query_goes_to_its_file(
    d: DaemonView,
    id: IdView,
    file: Seq<char>,
    line: u32,
    text: Seq<char>,
    path: Seq<u8>,
)
    requires
        d.phase == (PhaseView::Resolving { id, file, goal: GoalView::Query { line, text } }),
    ensures
        ({
            let (e, out) = step(d, InputView::Resolved(Some(path)));
            if d.session is Some && same(d.session->0.path, path) {
                out is Send && e.phase is Asking && e.session is Some && e.session->0.path
                    == d.session->0.path
            } else {
                &&& out == OutputView::Reply(
                    error_view(id, REQUEST_FAILED, "no active session — compile first"@),
                )
                &&& e == idle(d)
            }
        }),
{
    law_every_text_is_a_query(text);
}

/// Whether two sessions differ in their conversations alone.
pub open spec fn same_but_client(a: Option<SessionView>, b: Option<SessionView>) -> bool {
    match (a, b) {
        (Some(s), Some(t)) => t == (SessionView { client: t.client, ..s }),
        (None, None) => true,
        _ => false,
    }
}

/// A query leaves the session as it is, but for the conversation: whatever
/// comes of it, the file, its text and its diagnostics stay.
pub proof fn law_queries_change_nothing(d: DaemonView, input: InputView)
    requires
        phase_fits(d),
        d.phase is Asking || d.phase is Answering || (d.phase matches PhaseView::Resolving {
            goal: GoalView::Query { .. },
            ..
        }) || (d.phase is Idle && (input matches InputView::Line(line) && line_request(
            line,
        ) matches Some(r) && r.method == methods::QUERY@)),
    ensures
        same_but_client(d.session, step(d, input).0.session),
        step(d, input).0.shutdown_requested == d.shutdown_requested,
{
    lemma_method_names();
    let e = idle(d);
    match d.phase {
        PhaseView::Asking { id, query } => {
            lemma_answer_session(e, id, query, false);
        },
        PhaseView::Answering { id, query } => {
            lemma_answer_session(e, id, query, true);
            if let InputView::Arrived(bytes) = input {
                lemma_answer_session(with_more(e, bytes), id, query, false);
            }
        },
        PhaseView::Resolving { id, goal, .. } => {
            if let GoalView::Query { line, text } = goal {
                if let Some(s) = d.session {
                    law_every_text_is_a_query(text);
                    assert(same_but_client(d.session, ask(e, s, id, line, text).0.session));
                }
            }
        },
        _ => {
            let r = line_request(input->Line_0)->0;
            assert(step(d, input) == on_query(e, r.id, r.params));
        },
    }
}

proof fn lemma_answer_session(d: DaemonView, id: IdView, query: PendingQuery, ended: bool)
    ensures
        same_but_client(d.session, answer(d, id, query, ended).0.session),
        answer(d, id, query, ended).0.shutdown_requested == d.shutdown_requested,
{
}

proof fn lemma_method_names()
    ensures
        methods::COMPILE@ != methods::QUERY@,
        methods::COMPILE@ != methods::STATUS@,
        methods::COMPILE@ != methods::SHUTDOWN@,
        methods::COMPILE@ != methods::INVALIDATE@,
        methods::QUERY@ != methods::STATUS@,
        methods::QUERY@ != methods::SHUTDOWN@,
        methods::QUERY@ != methods::INVALIDATE@,
        methods::STATUS@ != methods::SHUTDOWN@,
        methods::STATUS@ != methods::INVALIDATE@,
        methods::SHUTDOWN@ != methods::INVALIDATE@,
{
    reveal_strlit("compile");
    reveal_strlit("query");
    reveal_strlit("status");
    reveal_strlit("shutdown");
    reveal_strlit("invalidate");
    assert(methods::COMPILE@.len() == 7);
    assert(methods::QUERY@.len() == 5);
    assert(methods::STATUS@.len() == 6);
    assert(methods::SHUTDOWN@.len() == 8);
    assert(methods::INVALIDATE@.len() == 10);
}

/// A request for the status changes nothing, and is answered at once with the
/// sessions there are. So is, with an error, a request for a method that there
/// is not; and nothing else changes the daemon.
pub proof fn law_status_changes_nothing(d: DaemonView, line: Seq<char>)
    requires
        d.phase is Idle,
    ensures
        ({
            let (e, out) = step(d, InputView::Line(line));
            match line_request(line) {
                Some(r) => {
                    &&& r.method == methods::STATUS@ ==> e == d && out == OutputView::Reply(
                        ok_view(r.id, status_response_json(session_list(d))),
                    )
                    &&& r.method != methods::COMPILE@ && r.method != methods::QUERY@ && r.method
                        != methods::STATUS@ && r.method != methods::SHUTDOWN@ && r.method
                        != methods::INVALIDATE@ ==> e == d && out == OutputView::Reply(
                        error_view(r.id, METHOD_NOT_FOUND, "method not found: "@ + r.method),
                    )
                },
                None => e == d,
            }
        }),
{
    lemma_method_names();
    lemma_on_line(idle(d), line);
    if let Some(r) = line_request(line) {
        assert(step(d, InputView::Line(line)) == on_request(idle(d), r));
    }
}

/// The daemon stops when it is asked to, and only then: a request to stop marks
/// it and ends the session, and no step takes the mark away.
pub proof fn law_stopping(d: DaemonView, input: InputView)
    requires
        phase_fits(d),
    ensures
        ({
            let (e, out) = step(d, input);
            let asked = d.phase is Idle && (input matches InputView::Line(line) && line_request(
                line,
            ) matches Some(r) && r.method == methods::SHUTDOWN@);
            &&& e.shutdown_requested == (d.shutdown_requested || asked)
            &&& asked ==> e.session is None && (out is Send || out is Reply)
        }),
{
    lemma_method_names();
    if let InputView::Line(line) = input {
        if d.phase is Idle {
            lemma_on_line(idle(d), line);
            if let Some(r) = line_request(line) {
                assert(step(d, input) == on_request(idle(d), r));
                lemma_request_and_mark(idle(d), r);
            }
        }
    }
}

proof fn lemma_request_and_mark(d: DaemonView, r: RequestView)
    ensures
        on_request(d, r).0.shutdown_requested == (d.shutdown_requested || r.method
            == methods::SHUTDOWN@),
        r.method == methods::SHUTDOWN@ ==> on_request(d, r).0.session is None,
{
    lemma_method_names();
}

/// A file that was checked has been processed: it is complete, or blocked on an
/// error. What the client reads from the answer are the session's diagnostics,
/// and that there was success if it is complete and there is no error among
/// them.
pub proof fn law_a_checked_file_is_processed(
    d: DaemonView,
    input: InputView,
    response: ResponseView,
)
    requires
        phase_fits(d),
        d.phase is Starting || d.phase is Rereading || d.phase is Resending || d.phase
            is Processing,
        step(d, input).1 == OutputView::Reply(response),
        response.error is None,
    ensures
        ({
            let e = step(d, input).0;
            &&& e.session is Some
            &&& e.session->0.status !is Processing
            &&& response.result == Some(compile_response_json(outcome_view(e.session->0)))
            &&& settled(e.session->0.diagnostics) ==> compile_response_from(response.result->0)
                == Some(outcome_view(e.session->0))
        }),
{
    let e = idle(d);
    match d.phase {
        PhaseView::Starting { id, session } => if input is Sent {
            lemma_processed(with_session(e, Some(session)), id, ArrivalView::Nothing);
        },
        PhaseView::Rereading { id } => if let InputView::Content(content) = input {
            if hash_text(content) == d.session->0.content_hash {
                lemma_processed(e, id, ArrivalView::Nothing);
            }
        },
        PhaseView::Resending { id, content, version } => if input is Sent {
            lemma_processed(with_text(e, content, version), id, ArrivalView::Nothing);
        },
        PhaseView::Processing { id } => match input {
            InputView::Arrived(bytes) => lemma_processed(e, id, ArrivalView::Bytes(bytes)),
            InputView::Ended => lemma_processed(e, id, ArrivalView::Ended),
            InputView::ReadFailed => lemma_processed(e, id, ArrivalView::Broken),
            InputView::TimedOut => lemma_processed(e, id, ArrivalView::TimedOut),
            _ => {},
        },
        _ => {},
    }
}

proof fn lemma_processed(d: DaemonView, id: IdView, a: ArrivalView)
    requires
        d.session is Some,
    ensures
        ({
            let (e, out) = process(d, id, a);
            out matches OutputView::Reply(response) ==> response.error is None ==> {
                &&& e.session is Some
                &&& e.session->0.status !is Processing
                &&& response.result == Some(compile_response_json(outcome_view(e.session->0)))
                &&& settled(e.session->0.diagnostics) ==> compile_response_from(response.result->0)
                    == Some(outcome_view(e.session->0))
            }
        }),
{
    let s = d.session->0;
    law_processing(s, false);
    law_processing(s, true);
    if let ArrivalView::Bytes(b) = a {
        law_processing(with_unread(s, s.client.unread + b), false);
    }
    let t = waited(s, COMPILE_SECS as nat, a).1;
    if settled(t.diagnostics) {
        law_compile_response_reads_back(outcome_view(t));
    }
}

/// Every answer that the daemon gives can be read back from its line: an error,
/// the answer to a query, the sessions, and an empty one; and so can what was
/// found in a file, where its diagnostics can.
pub proof fn law_answers_read_back(
    id: IdView,
    code: i32,
    text: Seq<char>,
    sessions: Seq<SessionInfoView>,
    found: JsonView,
)
    requires
        found !is Null,
        found.reads_back((MAX_DEPTH - 1) as nat),
    ensures
        reads_back(MessageView::Response(error_view(id, code, text))),
        reads_back(MessageView::Response(ok_view(id, query_response_json(text)))),
        reads_back(MessageView::Response(ok_view(id, status_response_json(sessions)))),
        reads_back(MessageView::Response(ok_view(id, empty_json()))),
        reads_back(MessageView::Response(ok_view(id, found))),
{
    reveal_with_fuel(JsonView::reads_back, 5);
    lemma_ok_reads_back(id, query_response_json(text));
    lemma_ok_reads_back(id, status_response_json(sessions));
    lemma_ok_reads_back(id, empty_json());
    lemma_ok_reads_back(id, found);
    let code_member = ("code"@, JsonView::Int(code as int));
    let message_member = ("message"@, JsonView::Text(text));
    let error = error_view(id, code, text).error->0;
    assert(error_members(error) == seq![code_member, message_member]);
    lemma_two(code_member, message_member);
    assert(JsonView::Object(list_map(error_members(error))).reads_back((MAX_DEPTH - 1) as nat));
}

proof fn lemma_ok_reads_back(id: IdView, result: JsonView)
    requires
        result !is Null,
        result.reads_back((MAX_DEPTH - 1) as nat),
    ensures
        reads_back(MessageView::Response(ok_view(id, result))),
{
}

/// It makes no difference to a file in which pieces `vsrocqtop` reports: either
/// the first piece decides, or it comes to what all of it at once does.
pub proof fn law_reports_in_pieces(d: DaemonView, a: Seq<u8>, b: Seq<u8>)
    requires
        d.phase is Processing,
        d.session is Some,
    ensures
        ({
            let (e, out) = step(d, InputView::Arrived(a));
            let whole = step(d, InputView::Arrived(a + b));
            if out is Receive {
                step(e, InputView::Arrived(b)) == whole
            } else {
                out == whole.1
            }
        }),
{
    let s = d.session->0;
    let unread = s.client.unread;
    assert(unread + (a + b) == unread + a + b);
    let t = with_unread(s, unread + a);
    assert(taken_in(s, ArrivalView::Bytes(a)) == t);
    assert(taken_in(s, ArrivalView::Bytes(a + b)) == with_unread(t, unread + a + b));
    law_draining_in_pieces(t, b, false);
    law_processing(t, false);
}

/// It makes no difference to a query in which pieces the answer arrives.
pub proof fn law_answers_arrive_in_pieces(d: DaemonView, a: Seq<u8>, b: Seq<u8>)
    requires
        d.phase is Answering,
        d.session is Some,
    ensures
        ({
            let (e, out) = step(d, InputView::Arrived(a));
            let whole = step(d, InputView::Arrived(a + b));
            if out is Receive {
                step(e, InputView::Arrived(b)) == whole
            } else {
                out == whole.1
            }
        }),
{
    let unread = d.session->0.client.unread;
    assert(unread + (a + b) == unread + a + b);
    law_answers_in_pieces(unread + a, b, false, int_text(d.phase->Answering_query.id as int));
}

/// Checking a file where there is no session: the file is opened with the flags
/// that it is to be checked with, the conversation is asked to start, and only
/// after the response are the messages that open the file sent. What
/// `vsrocqtop` then reports of it decides.
pub proof fn law_checking_a_new_file(
    d: DaemonView,
    line: Seq<char>,
    request: RequestView,
    compile: CompileRequestView,
    path: Seq<u8>,
    content: Seq<char>,
    response: ResponseView,
    reply_bytes: Seq<u8>,
    bytes: Seq<u8>,
)
    requires
        d.phase is Idle,
        d.session is None,
        line_request(line) == Some(request),
        request.method == methods::COMPILE@,
        request.params matches Some(v) && compile_request_from(v) == Some(compile),
        received_as(reply_bytes, MessageView::Response(response)),
        id_text(response.id) == int_text(FIRST_ID as int),
    ensures
        ({
            let s = opened(path, content, compile.flags);
            let opening = step(d, InputView::Line(line));
            let greeted = step(opening.0, InputView::Opened { path, content });
            let meeting = step(greeted.0, InputView::Sent);
            let starting = step(meeting.0, InputView::Arrived(reply_bytes));
            let waiting = step(starting.0, InputView::Sent);
            &&& opening.1 == OutputView::Open {
                path: encode_utf8(compile.file),
                flags: compile.flags,
            }
            &&& greeted.1 == OutputView::Send(seq![greeting(path, d.process_id)])
            &&& meeting.1 == OutputView::Receive(Limit::Within(COMPILE_SECS))
            &&& starting.1 == OutputView::Send(opening_sends(s))
            &&& waiting.1 == OutputView::Receive(Limit::Within(COMPILE_SECS))
            &&& waiting.0.session == Some(s)
            &&& step(waiting.0, InputView::Arrived(bytes)) == process(
                with_session(d, Some(s)),
                request.id,
                ArrivalView::Bytes(bytes),
            )
        }),
{
    let s = opened(path, content, compile.flags);
    let none = Seq::<u8>::empty();
    let id = int_text(FIRST_ID as int);
    assert(line_feed(none, 0) is None);
    assert(headers(none, 0, false, None) is Pending);
    assert(receive(none, false) == (ReceivedView::Pending, none));
    assert(next_answer(none, false, id) == (AnswerView::Pending, none));
    assert(with_unread(s, none) == s);
    assert(none + reply_bytes == reply_bytes + none);
    law_messages_find_their_reader(
        reply_bytes,
        MessageView::Response(response),
        none,
        false,
        id,
    );
    assert(heard(s, FIRST_ID, ArrivalView::Bytes(reply_bytes)) == (
        AnswerView::Response(response),
        s,
    ));
}

} // verus!
