//! Messages, and what they carry.
use vstd::prelude::*;
use vstd::utf8::*;
use crate::json::{list_map, object_text, JsonView};
use crate::lsp::jsonrpc::{
    error_members, error_view, id_text, lemma_two, message_from, message_json, message_kind,
    message_text, notification_view, ok_view, optional_member, request_view, result_members,
    ErrorView, IdView, MessageKind, MessageView, NotificationView, RequestView, ResponseView,
};
use crate::lsp::types::{
    diagnostic_fits, diagnostic_json, diagnostics_from, diagnostics_json, inner, is_plain,
    is_plain_list, law_range_reads_back, lsp_diagnostics, position_from, range_from, related_fit,
    uri_fits, uris_fit, DiagnosticView, Position, Range,
};
use crate::text::int_text;

verus! {

/// Whether an object has a member with this value.
pub open spec fn has(m: Map<Seq<char>, JsonView>, key: Seq<char>, v: JsonView) -> bool {
    m.dom().contains(key) && m[key] == v
}

/// What an object has under a key, `null` being nothing.
pub open spec fn under(m: Map<Seq<char>, JsonView>, key: Seq<char>) -> Option<JsonView> {
    if m.dom().contains(key) && m[key] !is Null {
        Some(m[key])
    } else {
        None
    }
}

/// A value with an id and a method is read as a request with that id, that method
/// and its parameters, whatever other members it has. An id is a number of 64
/// bits or a text; without one that is, there is no request.
pub proof fn law_requests_are_read(
    m: Map<Seq<char>, JsonView>,
    jsonrpc: Seq<char>,
    method: Seq<char>,
    n: int,
    id: Seq<char>,
)
    requires
        has(m, "jsonrpc"@, JsonView::Text(jsonrpc)),
        has(m, "method"@, JsonView::Text(method)),
        m.dom().contains("id"@),
    ensures
        m["id"@] == JsonView::Int(n) && i64::MIN <= n <= i64::MAX ==> message_from(
            JsonView::Object(m),
        ) == Some(
            MessageView::Request(
                RequestView {
                    jsonrpc,
                    id: IdView::Number(n as i64),
                    method,
                    params: under(m, "params"@),
                },
            ),
        ),
        m["id"@] == JsonView::Text(id) ==> message_from(JsonView::Object(m)) == Some(
            MessageView::Request(
                RequestView { jsonrpc, id: IdView::Text(id), method, params: under(m, "params"@) },
            ),
        ),
        m["id"@] !is Int && m["id"@] !is Text ==> message_from(JsonView::Object(m)) is None,
        m["id"@] == JsonView::Int(n) && !(i64::MIN <= n <= i64::MAX) ==> message_from(
            JsonView::Object(m),
        ) is None,
{
}

/// A value with an id and no method is read as a response with that id, its result
/// and its error, whatever other members it has.
pub proof fn law_responses_are_read(
    m: Map<Seq<char>, JsonView>,
    jsonrpc: Seq<char>,
    n: int,
    e: Map<Seq<char>, JsonView>,
    code: int,
    message: Seq<char>,
)
    requires
        has(m, "jsonrpc"@, JsonView::Text(jsonrpc)),
        has(m, "id"@, JsonView::Int(n)),
        i64::MIN <= n <= i64::MAX,
        !m.dom().contains("method"@),
    ensures
        under(m, "error"@) is None ==> message_from(JsonView::Object(m)) == Some(
            MessageView::Response(
                ResponseView {
                    jsonrpc,
                    id: IdView::Number(n as i64),
                    result: under(m, "result"@),
                    error: None,
                },
            ),
        ),
        has(m, "error"@, JsonView::Object(e)) && has(e, "code"@, JsonView::Int(code)) && i32::MIN
            <= code <= i32::MAX && has(e, "message"@, JsonView::Text(message)) ==> message_from(
            JsonView::Object(m),
        ) == Some(
            MessageView::Response(
                ResponseView {
                    jsonrpc,
                    id: IdView::Number(n as i64),
                    result: under(m, "result"@),
                    error: Some(
                        ErrorView { code: code as i32, message, data: under(e, "data"@) },
                    ),
                },
            ),
        ),
{
}

/// A value with a method and no id is read as a notification with that method and
/// its parameters, whatever other members it has.
pub proof fn law_notifications_are_read(
    m: Map<Seq<char>, JsonView>,
    jsonrpc: Seq<char>,
    method: Seq<char>,
)
    requires
        has(m, "jsonrpc"@, JsonView::Text(jsonrpc)),
        has(m, "method"@, JsonView::Text(method)),
        !m.dom().contains("id"@),
    ensures
        message_from(JsonView::Object(m)) == Some(
            MessageView::Notification(
                NotificationView { jsonrpc, method, params: under(m, "params"@) },
            ),
        ),
{
}

/// What has neither an id nor a method that is a text is no message; nor is what
/// does not say its version.
pub proof fn law_no_message(m: Map<Seq<char>, JsonView>)
    ensures
        !m.dom().contains("id"@) && !(m.dom().contains("method"@) && m["method"@] is Text)
            ==> message_from(JsonView::Object(m)) is None,
        !(m.dom().contains("jsonrpc"@) && m["jsonrpc"@] is Text) ==> message_from(
            JsonView::Object(m),
        ) is None,
{
}

/// What a value is taken for depends on whether it has an id and a method, and on
/// nothing else; a text or a list has neither.
pub proof fn law_kinds_of_messages(m: Map<Seq<char>, JsonView>, v: JsonView)
    ensures
        m.dom().contains("id"@) && m.dom().contains("method"@) ==> message_kind(JsonView::Object(m))
            == MessageKind::Request,
        m.dom().contains("id"@) && !m.dom().contains("method"@) ==> message_kind(
            JsonView::Object(m),
        ) == MessageKind::Response,
        !m.dom().contains("id"@) ==> message_kind(JsonView::Object(m))
            == MessageKind::Notification,
        v !is Object ==> message_kind(v) == MessageKind::Notification,
{
}

/// A message is written with its parts and nothing else: each under its name, and
/// one that is not there is not written.
pub proof fn law_messages_are_written(m: MessageView)
    ensures
        ({
            let j = message_json(m);
            &&& j is Object
            &&& match m {
                MessageView::Request(r) => {
                    &&& j.get("jsonrpc"@) == Some(JsonView::Text(r.jsonrpc))
                    &&& j.get("id"@) == Some(id_value(r.id))
                    &&& j.get("method"@) == Some(JsonView::Text(r.method))
                    &&& j.get("params"@) == r.params
                    &&& forall|k: Seq<char>| #[trigger]
                        j->Object_0.dom().contains(k) ==> k == "jsonrpc"@ || k == "id"@ || k
                            == "method"@ || k == "params"@
                },
                MessageView::Notification(n) => {
                    &&& j.get("jsonrpc"@) == Some(JsonView::Text(n.jsonrpc))
                    &&& j.get("method"@) == Some(JsonView::Text(n.method))
                    &&& j.get("params"@) == n.params
                    &&& forall|k: Seq<char>| #[trigger]
                        j->Object_0.dom().contains(k) ==> k == "jsonrpc"@ || k == "method"@ || k
                            == "params"@
                },
                MessageView::Response(r) => {
                    &&& j.get("jsonrpc"@) == Some(JsonView::Text(r.jsonrpc))
                    &&& j.get("id"@) == Some(id_value(r.id))
                    &&& j.get("result"@) == r.result
                    &&& j.get("error"@) is Some <==> r.error is Some
                    &&& r.error matches Some(e) ==> {
                        let v = j.get("error"@)->0;
                        &&& v.get("code"@) == Some(JsonView::Int(e.code as int))
                        &&& v.get("message"@) == Some(JsonView::Text(e.message))
                        &&& v.get("data"@) == e.data
                    }
                    &&& forall|k: Seq<char>| #[trigger]
                        j->Object_0.dom().contains(k) ==> k == "jsonrpc"@ || k == "id"@ || k
                            == "result"@ || k == "error"@
                },
            }
        }),
{
    lemma_names_differ();
    match m {
        MessageView::Request(r) => {
            let a = ("jsonrpc"@, JsonView::Text(r.jsonrpc));
            let b = ("id"@, id_value(r.id));
            let c = ("method"@, JsonView::Text(r.method));
            lemma_two(a, b);
            assert(seq![a, b, c].drop_last() =~= seq![a, b]);
            lemma_one_more(seq![a, b, c], "params"@, r.params);
        },
        MessageView::Notification(n) => {
            let a = ("jsonrpc"@, JsonView::Text(n.jsonrpc));
            let b = ("method"@, JsonView::Text(n.method));
            lemma_two(a, b);
            lemma_one_more(seq![a, b], "params"@, n.params);
        },
        MessageView::Response(r) => {
            let a = ("jsonrpc"@, JsonView::Text(r.jsonrpc));
            let b = ("id"@, id_value(r.id));
            lemma_two(a, b);
            lemma_one_more(seq![a, b], "result"@, r.result);
            let error = match r.error {
                Some(e) => Some(JsonView::Object(list_map(error_members(e)))),
                None => None,
            };
            lemma_one_more(result_members(r), "error"@, error);
            if let Some(e) = r.error {
                let code = ("code"@, JsonView::Int(e.code as int));
                let message = ("message"@, JsonView::Text(e.message));
                lemma_two(code, message);
                lemma_one_more(seq![code, message], "data"@, e.data);
            }
        },
    }
}

/// The text of a message has its parts in the order in which they are given here:
/// the version, the id, then the method and the parameters, or the result and the
/// error; in an error, the code, the message and the data.
pub proof fn law_texts_of_messages(
    id: IdView,
    version: Seq<char>,
    method: Seq<char>,
    v: JsonView,
    code: i32,
    message: Seq<char>,
)
    ensures
        ({
            let start = ("jsonrpc"@, JsonView::Text(version));
            let name = ("method"@, JsonView::Text(method));
            let number = ("id"@, id_value(id));
            let request = |params: Option<JsonView>|
                message_text(
                    MessageView::Request(RequestView { jsonrpc: version, id, method, params }),
                );
            let notification = |params: Option<JsonView>|
                message_text(
                    MessageView::Notification(
                        NotificationView { jsonrpc: version, method, params },
                    ),
                );
            let response = |result: Option<JsonView>, error: Option<ErrorView>|
                message_text(
                    MessageView::Response(ResponseView { jsonrpc: version, id, result, error }),
                );
            &&& request(None) == object_text(seq![start, number, name])
            &&& request(Some(v)) == object_text(seq![start, number, name, ("params"@, v)])
            &&& notification(None) == object_text(seq![start, name])
            &&& notification(Some(v)) == object_text(seq![start, name, ("params"@, v)])
            &&& response(Some(v), None) == object_text(seq![start, number, ("result"@, v)])
            &&& response(None, Some(ErrorView { code, message, data: None })) == object_text(
                seq![start, number],
            ).drop_last() + seq![',', '"'] + "error"@ + seq!['"', ':'] + object_text(
                seq![
                    ("code"@, JsonView::Int(code as int)),
                    ("message"@, JsonView::Text(message)),
                ],
            ) + seq!['}']
        }),
{
    let start = ("jsonrpc"@, JsonView::Text(version));
    let name = ("method"@, JsonView::Text(method));
    let number = ("id"@, id_value(id));
    let none = Seq::<(Seq<char>, JsonView)>::empty();
    assert(seq![start, number, name] + none =~= seq![start, number, name]);
    assert(seq![start, number, name] + seq![("params"@, v)] =~= seq![
        start,
        number,
        name,
        ("params"@, v),
    ]);
    assert(seq![start, name] + none =~= seq![start, name]);
    assert(seq![start, name] + seq![("params"@, v)] =~= seq![start, name, ("params"@, v)]);
    assert(seq![start, number] + seq![("result"@, v)] =~= seq![start, number, ("result"@, v)]);
    assert(seq![start, number] + none =~= seq![start, number]);
    let parts = seq![
        ("code"@, JsonView::Int(code as int)),
        ("message"@, JsonView::Text(message)),
    ];
    assert(parts + none =~= parts);
}

/// An id as JSON: a number as a number, a text as a text.
pub open spec fn id_value(id: IdView) -> JsonView {
    match id {
        IdView::Number(n) => JsonView::Int(n as int),
        IdView::Text(s) => JsonView::Text(s),
    }
}

proof fn lemma_one_more(list: Seq<(Seq<char>, JsonView)>, key: Seq<char>, v: Option<JsonView>)
    ensures
        list_map(list + optional_member(key, v)) == match v {
            Some(v) => list_map(list).insert(key, v),
            None => list_map(list),
        },
{
    match v {
        Some(x) => {
            assert((list + optional_member(key, v)).drop_last() =~= list);
        },
        None => {
            assert(list + optional_member(key, v) =~= list);
        },
    }
}

proof fn lemma_names_differ()
    ensures
        "jsonrpc"@ != "id"@,
        "jsonrpc"@ != "method"@,
        "jsonrpc"@ != "params"@,
        "jsonrpc"@ != "result"@,
        "jsonrpc"@ != "error"@,
        "id"@ != "method"@,
        "id"@ != "params"@,
        "id"@ != "result"@,
        "id"@ != "error"@,
        "method"@ != "params"@,
        "result"@ != "error"@,
        "code"@ != "message"@,
        "code"@ != "data"@,
        "message"@ != "data"@,
{
    reveal_strlit("jsonrpc");
    reveal_strlit("id");
    reveal_strlit("method");
    reveal_strlit("params");
    reveal_strlit("result");
    reveal_strlit("error");
    reveal_strlit("code");
    reveal_strlit("message");
    reveal_strlit("data");
    assert("jsonrpc"@.len() == 7);
    assert("id"@.len() == 2);
    assert("method"@.len() == 6 && "method"@[0] == 'm');
    assert("params"@.len() == 6 && "params"@[0] == 'p');
    assert("result"@.len() == 6);
    assert("error"@.len() == 5);
    assert("code"@.len() == 4 && "code"@[0] == 'c');
    assert("message"@.len() == 7);
    assert("data"@.len() == 4 && "data"@[0] == 'd');
}

/// What the parts of a new message are: those that it was made of, and the
/// version of the protocol. A response has a result or an error.
pub proof fn law_new_messages(
    id: IdView,
    method: Seq<char>,
    params: Option<JsonView>,
    result: JsonView,
    code: i32,
    message: Seq<char>,
)
    ensures
        request_view(id, method, params) == (RequestView { jsonrpc: "2.0"@, id, method, params }),
        notification_view(method, params) == (NotificationView { jsonrpc: "2.0"@, method, params }),
        ok_view(id, result) == (ResponseView {
            jsonrpc: "2.0"@,
            id,
            result: Some(result),
            error: None,
        }),
        error_view(id, code, message) == (ResponseView {
            jsonrpc: "2.0"@,
            id,
            result: None,
            error: Some(ErrorView { code, message, data: None }),
        }),
        id_text(id) == match id {
            IdView::Number(n) => int_text(n as int),
            IdView::Text(s) => s,
        },
{
}

/// A place is read from its line and its character, whatever other members there
/// are; each must be a number of 32 bits.
pub proof fn law_positions_are_read(m: Map<Seq<char>, JsonView>, line: int, character: int)
    requires
        has(m, "line"@, JsonView::Int(line)),
        has(m, "character"@, JsonView::Int(character)),
    ensures
        0 <= line <= 0xffff_ffff && 0 <= character <= 0xffff_ffff ==> position_from(
            JsonView::Object(m),
        ) == Some(Position { line: line as u32, character: character as u32 }),
        !(0 <= line <= 0xffff_ffff && 0 <= character <= 0xffff_ffff) ==> position_from(
            JsonView::Object(m),
        ) is None,
{
}

/// A range is read from its start and its end.
pub proof fn law_ranges_are_read(
    m: Map<Seq<char>, JsonView>,
    s: JsonView,
    e: JsonView,
    start: Position,
    end: Position,
)
    requires
        has(m, "start"@, s),
        has(m, "end"@, e),
        position_from(s) == Some(start),
        position_from(e) == Some(end),
    ensures
        range_from(JsonView::Object(m)) == Some(Range { start, end }),
{
}

/// A diagnostic is written with its range, its severity if it has one, its message
/// and whatever else it carries; and a place with its line and its character.
pub proof fn law_diagnostics_are_written(d: DiagnosticView, key: Seq<char>)
    ensures
        ({
            let j = diagnostic_json(d);
            let r = j.get("range"@);
            &&& j.get("message"@) == Some(JsonView::Text(d.message))
            &&& d.severity matches Some(n) ==> j.get("severity"@) == Some(JsonView::Int(n as int))
            &&& d.severity is None ==> j.get("severity"@) is None
            &&& r is Some
            &&& r->0.get("start"@)->0.get("line"@) == Some(
                JsonView::Int(d.range.start.line as int),
            )
            &&& r->0.get("start"@)->0.get("character"@) == Some(
                JsonView::Int(d.range.start.character as int),
            )
            &&& r->0.get("end"@)->0.get("line"@) == Some(JsonView::Int(d.range.end.line as int))
            &&& r->0.get("end"@)->0.get("character"@) == Some(
                JsonView::Int(d.range.end.character as int),
            )
            &&& key != "range"@ && key != "severity"@ && key != "message"@ ==> j.get(key)
                == JsonView::Object(d.extra).get(key)
        }),
{
    reveal_strlit("range");
    reveal_strlit("severity");
    reveal_strlit("message");
    reveal_strlit("line");
    reveal_strlit("character");
    reveal_strlit("start");
    reveal_strlit("end");
    assert("range"@.len() == 5);
    assert("severity"@.len() == 8);
    assert("message"@.len() == 7);
    assert("line"@.len() == 4);
    assert("character"@.len() == 9);
    assert("start"@.len() == 5);
    assert("end"@.len() == 3);
}

/// The diagnostics that a list gives are those that `lsp_types` reads from it, one
/// by one and in order: range, severity, message and the rest of each. A list is
/// written one by one too.
pub proof fn law_diagnostics_are_read(
    v: JsonView,
    items: Seq<JsonView>,
    i: int,
    m: Map<Seq<char>, JsonView>,
    range: Range,
    message: Seq<char>,
    severity: i32,
    key: Seq<char>,
)
    requires
        lsp_diagnostics(v) == Some(items),
        uris_fit(v),
        0 <= i < items.len(),
        items[i] == JsonView::Object(m),
        m.dom().contains("range"@),
        range_from(m["range"@]) == Some(range),
        has(m, "message"@, JsonView::Text(message)),
    ensures
        diagnostics_from(v) is Some,
        diagnostics_from(v)->0.len() == items.len(),
        ({
            let d = diagnostics_from(v)->0[i];
            &&& d.range == range
            &&& d.message == message
            &&& has(m, "severity"@, JsonView::Int(severity as int)) ==> d.severity == Some(severity)
            &&& !m.dom().contains("severity"@) ==> d.severity is None
            &&& key != "range"@ && key != "severity"@ && key != "message"@ ==> JsonView::Object(
                d.extra,
            ).get(key) == JsonView::Object(m).get(key)
        }),
{
}

/// A list of diagnostics is written one by one, in order.
pub proof fn law_diagnostics_are_listed(s: Seq<DiagnosticView>, i: int)
    requires
        0 <= i < s.len(),
    ensures
        diagnostics_json(s) is Array,
        diagnostics_json(s)->Array_0.len() == s.len(),
        diagnostics_json(s)->Array_0[i] == diagnostic_json(s[i]),
{
}

/// A value can be read back from its text unless there is a number in it that is no
/// integer, or it is nested too deeply.
pub proof fn law_what_reads_back(
    v: JsonView,
    items: Seq<JsonView>,
    m: Map<Seq<char>, JsonView>,
    depth: nat,
)
    ensures
        v is Null || v is Bool || v is Int || v is Text ==> v.reads_back(depth),
        v is Float ==> !v.reads_back(depth),
        JsonView::Array(items).reads_back(depth + 1) <==> forall|i: int|
            0 <= i < items.len() ==> (#[trigger] items[i]).reads_back(depth),
        JsonView::Object(m).reads_back(depth + 1) <==> forall|k: Seq<char>| #[trigger]
            m.dom().contains(k) ==> m[k].reads_back(depth),
        !JsonView::Array(items).reads_back(0),
        !JsonView::Object(m).reads_back(0),
{
    let list = JsonView::Array(items);
    let object = JsonView::Object(m);
    assert((depth + 1 - 1) as nat == depth);
    if list.reads_back(depth + 1) {
        assert forall|i: int| 0 <= i < items.len() implies (#[trigger] items[i]).reads_back(
            depth,
        ) by {
            assert(list->Array_0[i].reads_back((depth + 1 - 1) as nat));
        }
    }
    if object.reads_back(depth + 1) {
        assert forall|k: Seq<char>| #[trigger] m.dom().contains(k) implies m[k].reads_back(
            depth,
        ) by {
            assert(object->Object_0.dom().contains(k));
        }
    }
}

/// Of a list of diagnostics that refer to no URI, none is too long.
pub proof fn law_short_uris_fit(items: Seq<JsonView>)
    requires
        forall|i: int|
            0 <= i < items.len() ==> (#[trigger] items[i]) is Object
                && !items[i]->Object_0.dom().contains("codeDescription"@)
                && !items[i]->Object_0.dom().contains("relatedInformation"@),
    ensures
        uris_fit(JsonView::Array(items)),
{
}

/// Diagnostics one of which is described at a URI of more bytes than a signed
/// number of 32 bits counts are not read; with a shorter one, that is no obstacle.
pub proof fn law_long_uris_do_not_fit(
    items: Seq<JsonView>,
    i: int,
    m: Map<Seq<char>, JsonView>,
    description: Map<Seq<char>, JsonView>,
    uri: Seq<char>,
)
    requires
        0 <= i < items.len(),
        items[i] == JsonView::Object(m),
        has(m, "codeDescription"@, JsonView::Object(description)),
        has(description, "href"@, JsonView::Text(uri)),
    ensures
        encode_utf8(uri).len() > 0x7fff_ffff ==> diagnostics_from(JsonView::Array(items)) is None,
        encode_utf8(uri).len() <= 0x7fff_ffff && items.len() == 1 && !m.dom().contains(
            "relatedInformation"@,
        ) ==> uris_fit(JsonView::Array(items)),
{
    if encode_utf8(uri).len() > 0x7fff_ffff {
        assert(!diagnostic_fits(items[i]));
    }
}

/// So it is with the places that a diagnostic refers to.
pub proof fn law_long_places_do_not_fit(
    items: Seq<JsonView>,
    i: int,
    m: Map<Seq<char>, JsonView>,
    related: Seq<JsonView>,
    k: int,
    information: Map<Seq<char>, JsonView>,
    location: Map<Seq<char>, JsonView>,
    uri: Seq<char>,
)
    requires
        0 <= i < items.len(),
        items[i] == JsonView::Object(m),
        has(m, "relatedInformation"@, JsonView::Array(related)),
        0 <= k < related.len(),
        related[k] == JsonView::Object(information),
        has(information, "location"@, JsonView::Object(location)),
        has(location, "uri"@, JsonView::Text(uri)),
    ensures
        encode_utf8(uri).len() > 0x7fff_ffff ==> diagnostics_from(JsonView::Array(items)) is None,
        encode_utf8(uri).len() <= 0x7fff_ffff && items.len() == 1 && related.len() == 1
            && !m.dom().contains("codeDescription"@) ==> uris_fit(JsonView::Array(items)),
{
    if encode_utf8(uri).len() > 0x7fff_ffff {
        let v = related[k].field(0, "location"@);
        assert(!uri_fits(inner(v, 0, "uri"@)));
        assert(!related_fit(items[i].field(6, "relatedInformation"@)));
        assert(!diagnostic_fits(items[i]));
    }
}

/// A diagnostic that carries no more than a range, a severity and a message is
/// written plainly; and so is a list of such.
pub proof fn law_plain_diagnostics(s: Seq<DiagnosticView>)
    requires
        forall|i: int|
            0 <= i < s.len() ==> (#[trigger] s[i]).extra == Map::<Seq<char>, JsonView>::empty(),
    ensures
        is_plain_list(diagnostics_json(s)),
{
    assert forall|i: int| 0 <= i < s.len() implies is_plain(
        #[trigger] diagnostics_json(s)->Array_0[i],
    ) by {
        law_diagnostics_are_written(s[i], "range"@);
        law_range_reads_back(s[i].range);
        reveal_strlit("range");
        reveal_strlit("severity");
        reveal_strlit("message");
        assert("range"@.len() == 5);
        assert("severity"@.len() == 8);
        assert("message"@.len() == 7);
        assert(s[i].extra == Map::<Seq<char>, JsonView>::empty());
        assert(diagnostics_json(s)->Array_0[i] == diagnostic_json(s[i]));
    }
}

/// A record is an object, or a list of no more items than it has fields. A field is
/// the member of an object by its name, or the item of a list by its place.
pub proof fn law_records_and_fields(
    m: Map<Seq<char>, JsonView>,
    items: Seq<JsonView>,
    v: JsonView,
    size: nat,
    index: int,
    key: Seq<char>,
)
    ensures
        JsonView::Object(m).is_record(size),
        JsonView::Array(items).is_record(size) <==> items.len() <= size,
        v !is Object && v !is Array ==> !v.is_record(size) && v.field(index, key) is None && v.get(
            key,
        ) is None,
        m.dom().contains(key) ==> JsonView::Object(m).field(index, key) == Some(m[key])
            && JsonView::Object(m).get(key) == Some(m[key]),
        !m.dom().contains(key) ==> JsonView::Object(m).field(index, key) is None
            && JsonView::Object(m).get(key) is None,
        0 <= index < items.len() ==> JsonView::Array(items).field(index, key) == Some(items[index]),
        !(0 <= index < items.len()) ==> JsonView::Array(items).field(index, key) is None,
        JsonView::Array(items).get(key) is None,
{
}

/// A text is its characters, and nothing else is a text. A number is in a range
/// exactly where it is not less than its least and not more than its greatest.
pub proof fn law_texts_and_numbers(v: JsonView, s: Seq<char>, n: int, low: int, high: int)
    ensures
        v.text() == Some(s) <==> v == JsonView::Text(s),
        v.text() is None <==> v !is Text,
        v.int_between(low, high) == Some(n) <==> v == JsonView::Int(n) && low <= n && n <= high,
        v !is Int ==> v.int_between(low, high) is None,
{
}

} // verus!
