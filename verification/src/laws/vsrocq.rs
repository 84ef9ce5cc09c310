//! What is said to `vsrocqtop`, and what it says.
use vstd::prelude::*;
use crate::json::{pretty_text, JsonView};
use crate::laws::messages::has;
use crate::laws::transport::{is_line_with, law_headers_line_by_line, law_headers_without_a_line};
use crate::lsp::jsonrpc::{IdView, MessageView, NotificationView, RequestView, ResponseView};
use crate::lsp::transport::{frame_error_text, message_frame, receive, FrameError, ReceivedView};
use crate::lsp::types::{diagnostics_from, range_from, Position, Range};
use crate::lsp::vsrocq::{
    after_request, block_from, broken_text, did_change_message, did_open_message, event_of,
    exit_message, file_uri, highlights_from, initialize_message, initialized_message,
    initialized_read, interpret_message, next_answer, next_event, query_message, query_read,
    ranges_from, reply, shutdown_message, AnswerView, BlockView, ClientView, EventReadView,
    InitializedView, PendingQuery, QueryKind, QueryReadView,
};
use crate::path::lossy_text;
use crate::text::parsed_number;

verus! {

/// Whether a message is a request with this id and method.
pub open spec fn is_request(m: MessageView, id: i64, method: Seq<char>) -> bool {
    m matches MessageView::Request(r) && r.jsonrpc == "2.0"@ && r.id == IdView::Number(id)
        && r.method == method
}

/// Whether a message is a notification with this method.
pub open spec fn is_notice(m: MessageView, method: Seq<char>) -> bool {
    m matches MessageView::Notification(n) && n.jsonrpc == "2.0"@ && n.method == method
}

/// The parameters of a message.
pub open spec fn params_of(m: MessageView) -> Option<JsonView> {
    match m {
        MessageView::Request(r) => r.params,
        MessageView::Notification(n) => n.params,
        MessageView::Response(_) => None,
    }
}

/// What a message says under a key.
pub open spec fn said(m: MessageView, key: Seq<char>) -> JsonView {
    params_of(m)->0.get(key)->0
}

/// Whether a value names a version of a document, and nothing else.
pub open spec fn names_version(v: JsonView, uri: Seq<char>, version: int) -> bool {
    &&& v.get("uri"@) == Some(JsonView::Text(uri))
    &&& v.get("version"@) == Some(JsonView::Int(version))
    &&& forall|k: Seq<char>| #[trigger] v->Object_0.dom().contains(k) ==> k == "uri"@ || k
        == "version"@
}

/// Opening a document says its URI, its language, that it is version 1, and its
/// whole text.
pub proof fn law_opening_gives_the_whole_text(uri: Seq<char>, text: Seq<char>)
    ensures
        ({
            let m = did_open_message(uri, text);
            let document = said(m, "textDocument"@);
            &&& is_notice(m, "textDocument/didOpen"@)
            &&& document.get("uri"@) == Some(JsonView::Text(uri))
            &&& document.get("languageId"@) == Some(JsonView::Text("rocq"@))
            &&& document.get("version"@) == Some(JsonView::Int(1))
            &&& document.get("text"@) == Some(JsonView::Text(text))
        }),
{
    reveal_strlit("uri");
    reveal_strlit("languageId");
    reveal_strlit("version");
    reveal_strlit("text");
    assert("uri"@.len() == 3);
    assert("languageId"@.len() == 10);
    assert("version"@.len() == 7);
    assert("text"@.len() == 4);
}

/// Changing a document says its URI and its new version, and gives one change,
/// which is the whole text and not a part of it.
pub proof fn law_changing_gives_the_whole_text(uri: Seq<char>, version: i32, text: Seq<char>)
    ensures
        ({
            let m = did_change_message(uri, version, text);
            let changes = said(m, "contentChanges"@);
            &&& is_notice(m, "textDocument/didChange"@)
            &&& names_version(said(m, "textDocument"@), uri, version as int)
            &&& changes is Array
            &&& changes->Array_0.len() == 1
            &&& changes->Array_0[0].get("text"@) == Some(JsonView::Text(text))
            &&& forall|k: Seq<char>| #[trigger]
                changes->Array_0[0]->Object_0.dom().contains(k) ==> k == "text"@
        }),
{
    reveal_strlit("uri");
    reveal_strlit("version");
    reveal_strlit("textDocument");
    reveal_strlit("contentChanges");
    assert("uri"@.len() == 3);
    assert("version"@.len() == 7);
    assert("textDocument"@.len() == 12);
    assert("contentChanges"@.len() == 14);
}

/// Processing is asked for by the document and the version that it has.
pub proof fn law_processing_is_asked_of_a_version(uri: Seq<char>, version: i32)
    ensures
        ({
            let m = interpret_message(uri, version);
            &&& is_notice(m, "prover/interpretToEnd"@)
            &&& names_version(said(m, "textDocument"@), uri, version as int)
        }),
{
    reveal_strlit("uri");
    reveal_strlit("version");
    assert("uri"@.len() == 3);
    assert("version"@.len() == 7);
}

/// A conversation is started by a request that tells the process and the
/// directory, where there is one, asks for continuous processing, for no
/// delegation, and for stopping at the first error; then by a notification
/// without content. It is ended by a request and a notification without
/// parameters.
pub proof fn law_starting_and_ending(id: i64, process_id: u32, root: Option<Seq<char>>)
    ensures
        ({
            let m = initialize_message(id, process_id, root);
            let options = said(m, "initializationOptions"@).get("proof"@)->0;
            &&& is_request(m, id, "initialize"@)
            &&& said(m, "processId"@) == JsonView::Int(process_id as int)
            &&& said(m, "rootUri"@) == match root {
                Some(uri) => JsonView::Text(uri),
                None => JsonView::Null,
            }
            &&& said(m, "capabilities"@) == JsonView::Object(Map::empty())
            &&& options.get("mode"@) == Some(JsonView::Int(1))
            &&& options.get("delegation"@) == Some(JsonView::Text("None"@))
            &&& options.get("block"@) == Some(JsonView::Bool(true))
        }),
        is_notice(initialized_message(), "initialized"@),
        params_of(initialized_message()) == Some(JsonView::Object(Map::empty())),
        is_request(shutdown_message(id), id, "shutdown"@),
        params_of(shutdown_message(id)) is None,
        is_notice(exit_message(), "exit"@),
        params_of(exit_message()) is None,
{
    reveal_strlit("processId");
    reveal_strlit("capabilities");
    reveal_strlit("rootUri");
    reveal_strlit("initializationOptions");
    reveal_strlit("mode");
    reveal_strlit("delegation");
    reveal_strlit("block");
    assert("processId"@.len() == 9);
    assert("capabilities"@.len() == 12);
    assert("rootUri"@.len() == 7);
    assert("initializationOptions"@.len() == 21);
    assert("mode"@.len() == 4);
    assert("delegation"@.len() == 10);
    assert("block"@.len() == 5);
}

/// A query is asked under its own id, by the method of its kind, of the version
/// that the document has, at a place, and about a pattern.
pub proof fn law_queries_are_asked(
    id: i64,
    uri: Seq<char>,
    version: i32,
    position: Position,
    pattern: Seq<char>,
    kind: QueryKind,
)
    ensures
        ({
            let m = query_message(PendingQuery { kind, id }, uri, version, position, pattern);
            let place = said(m, "position"@);
            &&& kind is Check ==> is_request(m, id, "prover/check"@)
            &&& kind is Print ==> is_request(m, id, "prover/print"@)
            &&& kind is About ==> is_request(m, id, "prover/about"@)
            &&& names_version(said(m, "textDocument"@), uri, version as int)
            &&& place.get("line"@) == Some(JsonView::Int(position.line as int))
            &&& place.get("character"@) == Some(JsonView::Int(position.character as int))
            &&& said(m, "pattern"@) == JsonView::Text(pattern)
        }),
{
    reveal_strlit("uri");
    reveal_strlit("version");
    reveal_strlit("textDocument");
    reveal_strlit("position");
    reveal_strlit("pattern");
    reveal_strlit("line");
    reveal_strlit("character");
    assert("uri"@.len() == 3);
    assert("version"@.len() == 7);
    assert("textDocument"@.len() == 12);
    assert("position"@.len() == 8);
    assert("pattern"@.len() == 7);
    assert("line"@.len() == 4);
    assert("character"@.len() == 9);
}

/// After a request, the next one has the next number; after the greatest, the
/// least. What there is to read stays.
pub proof fn law_ids_follow(c: ClientView)
    ensures
        c.next_id < 0x7fff_ffff_ffff_ffff ==> after_request(c).next_id == c.next_id + 1,
        c.next_id == 0x7fff_ffff_ffff_ffff ==> after_request(c).next_id
            == -0x8000_0000_0000_0000,
        after_request(c).unread == c.unread,
{
}

/// The ranges of a list are read one by one, in order, and all of them.
pub proof fn law_ranges_of_a_list(items: Seq<JsonView>, ranges: Seq<Range>)
    requires
        items.len() == ranges.len(),
        forall|i: int|
            0 <= i < items.len() ==> range_from(#[trigger] items[i]) == Some(ranges[i]),
    ensures
        ranges_from(JsonView::Array(items)) == Some(ranges),
{
    assert(ranges_from(JsonView::Array(items))->0 =~= ranges);
}

/// Each kind of range of a report is read from the member of its name, whatever
/// else there is; one that is left out is empty.
pub proof fn law_highlights_are_read(
    m: Map<Seq<char>, JsonView>,
    prepared: Seq<Range>,
    processing: Seq<Range>,
    processed: Seq<Range>,
)
    requires
        m.dom().contains("preparedRange"@) ==> ranges_from(m["preparedRange"@]) == Some(prepared),
        m.dom().contains("processingRange"@) ==> ranges_from(m["processingRange"@]) == Some(
            processing,
        ),
        m.dom().contains("processedRange"@) ==> ranges_from(m["processedRange"@]) == Some(processed),
    ensures
        ({
            let h = highlights_from(JsonView::Object(m));
            &&& h is Some
            &&& h->0.prepared_range == if m.dom().contains("preparedRange"@) {
                prepared
            } else {
                Seq::empty()
            }
            &&& h->0.processing_range == if m.dom().contains("processingRange"@) {
                processing
            } else {
                Seq::empty()
            }
            &&& h->0.processed_range == if m.dom().contains("processedRange"@) {
                processed
            } else {
                Seq::empty()
            }
        }),
{
}

/// A block is read from its URI, its range and its message, which is empty where
/// it is left out.
pub proof fn law_blocks_are_read(
    m: Map<Seq<char>, JsonView>,
    uri: Seq<char>,
    range: Range,
    message: Seq<char>,
)
    requires
        has(m, "uri"@, JsonView::Text(uri)),
        m.dom().contains("range"@),
        range_from(m["range"@]) == Some(range),
    ensures
        has(m, "message"@, JsonView::Text(message)) ==> block_from(JsonView::Object(m)) == Some(
            BlockView { uri, range, message },
        ),
        !m.dom().contains("message"@) ==> block_from(JsonView::Object(m)) == Some(
            BlockView { uri, range, message: Seq::empty() },
        ),
{
}

/// A notification is an event by its method: diagnostics, which are none where
/// the list cannot be read; how far a document has been processed; or a block. A
/// notification of another method, or without parameters, is none, and neither
/// is a request or a response.
pub proof fn law_events_are_told_by_their_method(
    n: NotificationView,
    m: Map<Seq<char>, JsonView>,
    uri: Seq<char>,
    request: RequestView,
    response: ResponseView,
)
    requires
        n.params == Some(JsonView::Object(m)),
    ensures
        ({
            let e = event_of(MessageView::Notification(n));
            let list = m["diagnostics"@];
            &&& n.method == "textDocument/publishDiagnostics"@ && has(
                m,
                "uri"@,
                JsonView::Text(uri),
            ) && m.dom().contains("diagnostics"@) ==> e is Some && e->0 is Diagnostics
                && e->0->uri == uri && (diagnostics_from(list) is Some
                ==> e->0->diagnostics == diagnostics_from(list)->0) && (diagnostics_from(
                list,
            ) is None ==> e->0->diagnostics.len() == 0)
            &&& n.method == "textDocument/publishDiagnostics"@ && !(m.dom().contains("uri"@)
                && m["uri"@] is Text && m.dom().contains("diagnostics"@)) ==> e is None
            &&& n.method == "prover/updateHighlights"@ ==> (e is Some <==> highlights_from(
                JsonView::Object(m),
            ) is Some) && (e is Some ==> e->0 is UpdateHighlights && e->0->UpdateHighlights_0
                == highlights_from(JsonView::Object(m))->0)
            &&& n.method == "prover/blockOnError"@ ==> (e is Some <==> block_from(
                JsonView::Object(m),
            ) is Some) && (e is Some ==> e->0 is BlockOnError && e->0->BlockOnError_0
                == block_from(JsonView::Object(m))->0)
            &&& n.method != "textDocument/publishDiagnostics"@ && n.method
                != "prover/updateHighlights"@ && n.method != "prover/blockOnError"@ ==> e is None
            &&& event_of(MessageView::Notification(NotificationView { params: None, ..n })) is None
            &&& event_of(MessageView::Request(request)) is None
            &&& event_of(MessageView::Response(response)) is None
        }),
{
    reveal_strlit("textDocument/publishDiagnostics");
    reveal_strlit("prover/updateHighlights");
    reveal_strlit("prover/blockOnError");
    assert("textDocument/publishDiagnostics"@.len() == 31);
    assert("prover/updateHighlights"@.len() == 23);
    assert("prover/blockOnError"@.len() == 19);
}

/// A query is answered by the text of its result: a text as it is, a message
/// without what is around it, anything else as indented JSON, and nothing where
/// there is none. An error is reported with the kind of the query.
pub proof fn law_replies(
    kind: QueryKind,
    response: ResponseView,
    text: Seq<char>,
    m: Map<Seq<char>, JsonView>,
)
    ensures
        response.error matches Some(e) ==> reply(kind, response) == Err::<Seq<char>, Seq<char>>(
            (match kind {
                QueryKind::Check => "check"@,
                QueryKind::Print => "print"@,
                QueryKind::About => "about"@,
            }) + " failed: "@ + e.message,
        ),
        response.error is None && response.result == Some(JsonView::Text(text)) ==> reply(
            kind,
            response,
        ) == Ok::<Seq<char>, Seq<char>>(text),
        response.error is None && response.result == Some(JsonView::Object(m)) && has(
            m,
            "message"@,
            JsonView::Text(text),
        ) ==> reply(kind, response) == Ok::<Seq<char>, Seq<char>>(text),
        response.error is None && response.result == Some(JsonView::Object(m)) && !(m.dom().contains(
            "message"@,
        ) && m["message"@] is Text) ==> reply(kind, response) == Ok::<Seq<char>, Seq<char>>(
            pretty_text(JsonView::Object(m)),
        ),
        response.error is None && (response.result matches Some(v) && v !is Object && v !is Text)
            ==> reply(kind, response) == Ok::<Seq<char>, Seq<char>>(
            pretty_text(response.result->0),
        ),
        response.error is None && response.result is None ==> reply(kind, response) == Ok::<
            Seq<char>,
            Seq<char>,
        >(Seq::empty()),
{
}

/// Waiting for a response to a query goes on until there is one; the response
/// decides, or what went wrong is reported.
pub proof fn law_a_response_decides(kind: QueryKind, response: ResponseView, e: FrameError)
    ensures
        query_read(kind, AnswerView::Pending) is Pending,
        query_read(kind, AnswerView::Failed(e)) == QueryReadView::Failed(frame_error_text(e)),
        reply(kind, response) matches Ok(text) ==> query_read(kind, AnswerView::Response(response))
            == QueryReadView::Answer(text),
        reply(kind, response) matches Err(text) ==> query_read(
            kind,
            AnswerView::Response(response),
        ) == QueryReadView::Failed(text),
{
}

/// The notification that a conversation has started is sent once the request to
/// start it has been answered, whatever the answer is, and not before.
pub proof fn law_started_after_the_response(response: ResponseView, e: FrameError)
    ensures
        initialized_read(AnswerView::Pending) is Pending,
        initialized_read(AnswerView::Response(response)) == InitializedView::Send(
            message_frame(initialized_message()),
        ),
        initialized_read(AnswerView::Failed(e)) == InitializedView::Failed(e),
{
}

/// Where no message can be received, neither an event nor an answer is read; and
/// where more bytes are needed, both have to wait for them.
pub proof fn law_a_failure_ends_waiting(input: Seq<u8>, ended: bool, id: Seq<char>)
    ensures
        receive(input, ended).0 matches ReceivedView::Failed(e) ==> next_event(input, ended) == (
            EventReadView::Failed(e),
            receive(input, ended).1,
        ) && next_answer(input, ended, id) == (AnswerView::Failed(e), receive(input, ended).1),
        receive(input, ended).0 is Pending ==> next_event(input, ended).0 is Pending
            && next_answer(input, ended, id).0 is Pending,
{
}

/// What went wrong with a message is told by one text each.
pub proof fn law_frame_errors(e: FrameError)
    ensures
        e is HeaderEnd ==> frame_error_text(e) == "unexpected EOF while reading headers"@,
        e is HeaderNotUtf8 ==> frame_error_text(e) == "reading header line"@,
        e is BadLength ==> frame_error_text(e) == "parsing Content-Length"@,
        e is MissingLength ==> frame_error_text(e) == "missing Content-Length header"@,
        e is BodyEnd ==> frame_error_text(e) == "reading message body"@,
        e is BodyNotUtf8 ==> frame_error_text(e) == "message body is not valid UTF-8"@,
        e is NotJson ==> frame_error_text(e) == "parsing message JSON"@,
        e is NotMessage ==> frame_error_text(e) == "parsing JSON-RPC message"@,
{
}

/// Where no more can be read, what was being waited for is reported: a line of the
/// headers, or the body that they announced.
pub proof fn law_what_was_waited_for(
    unread: Seq<u8>,
    line: Seq<u8>,
    value: Seq<char>,
    blank: Seq<u8>,
    part: Seq<u8>,
)
    requires
        is_line_with(line, "Content-Length: "@ + value),
        parsed_number(value, usize::MAX as nat) is Some,
        is_line_with(blank, Seq::empty()),
    ensures
        (forall|i: int| 0 <= i < unread.len() ==> unread[i] != 10) ==> broken_text(unread)
            == "reading header line"@,
        (forall|i: int| 0 <= i < unread.len() ==> unread[i] != 10) ==> broken_text(line + unread)
            == "reading header line"@,
        broken_text(line + (blank + part)) == "reading message body"@,
{
    let content = "Content-Length: "@ + value;
    let length = parsed_number(value, usize::MAX as nat);
    if forall|i: int| 0 <= i < unread.len() ==> unread[i] != 10 {
        law_headers_without_a_line(unread, None);
        law_headers_without_a_line(unread, length);
        law_headers_line_by_line(line, content, unread, false, None, value);
    }
    law_headers_line_by_line(line, content, blank + part, false, None, value);
    law_headers_line_by_line(blank, Seq::empty(), part, false, length, Seq::empty());
}

/// The URI of a file is its path after `file://`. A relative path is taken from
/// the base, with one slash between; an absolute one is not.
pub proof fn law_uris(base: Seq<u8>, path: Seq<u8>)
    requires
        path.len() > 0,
    ensures
        path[0] == 47 ==> file_uri(path, base) == "file://"@ + lossy_text(path),
        path[0] != 47 && base.len() > 0 && base.last() != 47 ==> file_uri(path, base) == "file://"@
            + lossy_text(base.push(47) + path),
        path[0] != 47 && base.len() > 0 && base.last() == 47 ==> file_uri(path, base) == "file://"@
            + lossy_text(base + path),
        base.len() == 0 ==> file_uri(path, base) == "file://"@ + lossy_text(path),
{
    assert(base.len() == 0 ==> base + path == path);
}

} // verus!
