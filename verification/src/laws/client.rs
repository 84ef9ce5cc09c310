//! The command line.
use vstd::prelude::*;
use crate::client::{
    can_show, client_request, compile_outcome, diagnostic_text, file_line, file_line_error_text,
    last_index, query_outcome, request_line, severity_text, shown, status_outcome, stop_outcome,
    EndView, FileLineError,
};
use crate::lsp::jsonrpc::{message_text, ErrorView, IdView, MessageView, RequestView, ResponseView};
use crate::lsp::types::DiagnosticView;
use crate::protocol::{
    compile_response_from, query_response_from, status_response_from, CompileResponseView,
};
use crate::text::{digits_value, is_digit, lemma_nat_text, nat_text, parsed_number};

verus! {

/// Whether a text is a number in decimal.
pub open spec fn writes(text: Seq<char>, n: int) -> bool {
    &&& text.len() > 0
    &&& forall|i: int| 0 <= i < text.len() ==> '0' <= #[trigger] text[i] <= '9'
    &&& digits_value(text) == n
}

/// What a severity is called: 1 is an error, 2 a warning, 3 an information and 4
/// a hint; anything else is a note.
pub proof fn law_severities(n: i32)
    ensures
        severity_text(Some(1i32)) == "error"@,
        severity_text(Some(2i32)) == "warning"@,
        severity_text(Some(3i32)) == "info"@,
        severity_text(Some(4i32)) == "hint"@,
        severity_text(None) == "note"@,
        n < 1 || n > 4 ==> severity_text(Some(n)) == "note"@,
{
}

/// What is shown of a diagnostic does not depend on where its range ends, nor on
/// anything else but where it starts, its severity and its message.
pub proof fn law_shown_by_its_start(file: Seq<char>, a: DiagnosticView, b: DiagnosticView)
    requires
        a.range.start == b.range.start,
        a.severity == b.severity,
        a.message == b.message,
    ensures
        diagnostic_text(file, a) == diagnostic_text(file, b),
        can_show(a) == can_show(b),
{
}

/// What is shown of a diagnostic is the file, the line and the column at which
/// its range starts, both counted from 1, the severity's name, and the message.
/// Only the greatest line and column cannot be shown.
pub proof fn law_shown_place(file: Seq<char>, d: DiagnosticView)
    ensures
        exists|line: Seq<char>, column: Seq<char>|
            #![trigger writes(line, d.range.start.line + 1), writes(
                column,
                d.range.start.character + 1,
            )]
            writes(line, d.range.start.line + 1) && writes(column, d.range.start.character + 1)
                && diagnostic_text(file, d) == file + seq![':'] + line + seq![':'] + column + seq![
                ':',
                ' ',
            ] + severity_text(d.severity) + seq![':', ' '] + d.message,
        can_show(d) <==> d.range.start.line != 0xffff_ffffu32 && d.range.start.character
            != 0xffff_ffffu32,
{
    let line = nat_text((d.range.start.line + 1) as nat);
    let column = nat_text((d.range.start.character + 1) as nat);
    lemma_nat_text((d.range.start.line + 1) as nat);
    lemma_nat_text((d.range.start.character + 1) as nat);
    assert forall|i: int| 0 <= i < line.len() implies '0' <= #[trigger] line[i] <= '9' by {
        assert(is_digit(line[i]));
    }
    assert forall|i: int| 0 <= i < column.len() implies '0' <= #[trigger] column[i] <= '9' by {
        assert(is_digit(column[i]));
    }
    assert(writes(line, d.range.start.line + 1));
    assert(writes(column, d.range.start.character + 1));
    reveal_strlit(":");
    reveal_strlit(": ");
    assert(":"@ =~= seq![':']);
    assert(": "@ =~= seq![':', ' ']);
}

/// The diagnostics are shown in their order, one line each, and up to the first
/// that cannot be.
pub proof fn law_shown_in_order(file: Seq<char>, s: Seq<DiagnosticView>, i: int)
    requires
        0 <= i <= s.len(),
        forall|j: int| 0 <= j < i ==> can_show(#[trigger] s[j]),
        i < s.len() ==> !can_show(s[i]),
    ensures
        shown(file, s).len() == i,
        forall|j: int|
            0 <= j < i ==> #[trigger] shown(file, s)[j] == diagnostic_text(file, s[j]),
    decreases s.len(),
{
    if i > 0 {
        let tail = s.drop_first();
        assert(can_show(s[0]));
        assert forall|j: int| 0 <= j < i - 1 implies can_show(#[trigger] tail[j]) by {
            assert(tail[j] == s[j + 1]);
        }
        if i < s.len() {
            assert(tail[i - 1] == s[i]);
        }
        law_shown_in_order(file, tail, i - 1);
        assert forall|j: int| 0 <= j < i implies #[trigger] shown(file, s)[j] == diagnostic_text(
            file,
            s[j],
        ) by {
            if j > 0 {
                assert(shown(file, s)[j] == shown(file, tail)[j - 1]);
                assert(tail[j - 1] == s[j]);
            }
        }
    }
}

/// How checking a file ends, and what it writes: an error that the daemon answers
/// with is written and is a failure, whatever else the answer holds; otherwise
/// the diagnostics are written, and the ending is a success exactly where the
/// daemon found the file right and everything could be shown.
pub proof fn law_checking_ends(
    file: Seq<char>,
    response: ResponseView,
    e: ErrorView,
    r: CompileResponseView,
)
    ensures
        ({
            let o = compile_outcome(file, response);
            &&& o.out.len() == 0
            &&& response.error == Some(e) ==> o.err == seq!["error: "@ + e.message] && o.end
                is Failure
            &&& response.error is None && response.result is None ==> o.err.len() == 0 && o.end
                == EndView::Error("missing result in compile response"@)
            &&& response.error is None && (response.result matches Some(v)
                && compile_response_from(v) is None) ==> o.err.len() == 0 && o.end is Unreadable
            &&& response.error is None && (response.result matches Some(v)
                && compile_response_from(v) == Some(r)) ==> {
                &&& o.err == shown(file, r.diagnostics)
                &&& o.end is Success <==> r.success && o.err.len() >= r.diagnostics.len()
                &&& o.end is Failure <==> !r.success && o.err.len() >= r.diagnostics.len()
                &&& o.end is Overflow <==> o.err.len() < r.diagnostics.len()
            }
        }),
{
}

/// How a query ends, and what it writes: the answer, or the error.
pub proof fn law_asking_ends(response: ResponseView, e: ErrorView, text: Seq<char>)
    ensures
        ({
            let o = query_outcome(response);
            &&& response.error == Some(e) ==> o.out.len() == 0 && o.err == seq![
                "error: "@ + e.message,
            ] && o.end is Failure
            &&& response.error is None && response.result is None ==> o.out.len() == 0
                && o.err.len() == 0 && o.end == EndView::Error("missing result in query response"@)
            &&& response.error is None && (response.result matches Some(v) && query_response_from(
                v,
            ) is None) ==> o.out.len() == 0 && o.err.len() == 0 && o.end is Unreadable
            &&& response.error is None && (response.result matches Some(v) && query_response_from(
                v,
            ) == Some(text)) ==> o.out == seq![text] && o.err.len() == 0 && o.end is Success
        }),
{
}

/// How asking for the sessions ends, and what it writes: one line for each, with
/// its file and its status, or that there is none; or the error.
pub proof fn law_status_ends(response: ResponseView, e: ErrorView)
    ensures
        ({
            let o = status_outcome(response);
            &&& o.err.len() == 0
            &&& response.error == Some(e) ==> o.out.len() == 0 && o.end == EndView::Error(
                "status failed: "@ + e.message,
            )
            &&& response.error is None && response.result is None ==> o.out.len() == 0 && o.end
                == EndView::Error("missing result in status response"@)
            &&& response.error is None && (response.result matches Some(v)
                && status_response_from(v) is None) ==> o.out.len() == 0 && o.end is Unreadable
            &&& response.error is None && (response.result matches Some(v)
                && status_response_from(v) is Some) ==> {
                let s = status_response_from(response.result->0)->0;
                &&& o.end is Success
                &&& s.len() == 0 ==> o.out == seq!["no active sessions"@]
                &&& s.len() > 0 ==> o.out.len() == s.len() && forall|i: int|
                    0 <= i < s.len() ==> #[trigger] o.out[i] == s[i].file + ": "@ + s[i].status
            }
        }),
{
}

/// How asking the daemon to stop ends.
pub proof fn law_stopping_ends(response: ResponseView, e: ErrorView)
    ensures
        ({
            let o = stop_outcome(response);
            &&& o.out.len() == 0
            &&& response.error == Some(e) ==> o.err.len() == 0 && o.end == EndView::Error(
                "shutdown failed: "@ + e.message,
            )
            &&& response.error is None ==> o.err == seq!["daemon stopped"@] && o.end is Success
        }),
{
}

proof fn lemma_last_index_at(s: Seq<char>, k: int)
    requires
        0 <= k < s.len(),
        s[k] == ':',
        forall|i: int| k < i < s.len() ==> s[i] != ':',
    ensures
        last_index(s, ':') == Some(k),
    decreases s.len(),
{
    if k < s.len() - 1 {
        lemma_last_index_at(s.drop_last(), k);
    }
}

proof fn lemma_no_index(s: Seq<char>)
    requires
        forall|i: int| 0 <= i < s.len() ==> s[i] != ':',
    ensures
        last_index(s, ':') is None,
    decreases s.len(),
{
    if s.len() > 0 {
        lemma_no_index(s.drop_last());
    }
}

/// A line of a file is named by the file, a colon and the number: the last colon
/// counts, what is before it is the file, colons and all, and what is after it
/// must be a number of at most 32 bits. A text without a colon names none.
pub proof fn law_named_line(file: Seq<char>, number: Seq<char>)
    requires
        forall|i: int| 0 <= i < number.len() ==> number[i] != ':',
    ensures
        parsed_number(number, 0xffff_ffff) is Some ==> file_line(file + seq![':'] + number) == Ok::<
            (Seq<char>, u32),
            FileLineError,
        >((file, parsed_number(number, 0xffff_ffff)->0 as u32)),
        parsed_number(number, 0xffff_ffff) is None ==> file_line(file + seq![':'] + number) == Err::<
            (Seq<char>, u32),
            FileLineError,
        >(FileLineError::BadLine),
        file_line(number) == Err::<(Seq<char>, u32), FileLineError>(FileLineError::NoColon),
{
    let s = file + seq![':'] + number;
    let k = file.len() as int;
    assert(s[k] == ':');
    assert forall|i: int| k < i < s.len() implies s[i] != ':' by {
        assert(s[i] == number[i - k - 1]);
    }
    lemma_last_index_at(s, k);
    assert(s.skip(k + 1) =~= number);
    assert(s.take(k) =~= file);
    lemma_no_index(number);
}

/// The client's requests have the id 1, and the method and parameters that they
/// are for.
pub proof fn law_client_requests(method: Seq<char>, params: Option<crate::json::JsonView>)
    ensures
        ({
            let r = client_request(method, params);
            &&& r.jsonrpc == "2.0"@
            &&& r.id == IdView::Number(1)
            &&& r.method == method
            &&& r.params == params
        }),
{
}

/// A request is sent as its text and a line feed.
pub proof fn law_a_request_is_a_line(r: RequestView)
    ensures
        request_line(r).len() == message_text(MessageView::Request(r)).len() + 1,
        request_line(r).last() == '\n',
        request_line(r).drop_last() == message_text(MessageView::Request(r)),
{
}

/// What is wrong with a text that should name a line is told by one text each.
pub proof fn law_wrong_lines(e: FileLineError)
    ensures
        e is NoColon ==> file_line_error_text(e) == "expected format file.v:line"@,
        e is BadLine ==> file_line_error_text(e) == "invalid line number"@,
{
}

} // verus!
