//! What the daemon and its clients say to each other.
use vstd::prelude::*;
use crate::json::JsonView;
use crate::laws::messages::has;
use crate::lsp::types::{diagnostic_json, diagnostics_from, DiagnosticView};
use crate::protocol::{
    compile_request_from, compile_request_json, compile_response_from, compile_response_json,
    empty_json, invalidate_request_from, invalidate_request_json, query_request_from,
    query_request_json, query_response_from, query_response_json, status_response_from,
    status_response_json, texts_from, CompileRequestView, CompileResponseView, QueryRequestView,
    SessionInfoView,
};

verus! {

/// Whether a value is an object with this one member.
pub open spec fn is_only(v: JsonView, key: Seq<char>, text: Seq<char>) -> bool {
    &&& v is Object
    &&& v.get(key) == Some(JsonView::Text(text))
    &&& forall|k: Seq<char>| #[trigger] v->Object_0.dom().contains(k) ==> k == key
}

/// A list of texts is read text by text, in order, and all of it; one that holds
/// anything else is not.
pub proof fn law_texts_are_read(items: Seq<JsonView>, texts: Seq<Seq<char>>, i: int)
    ensures
        items.len() == texts.len() && (forall|k: int|
            0 <= k < items.len() ==> #[trigger] items[k] == JsonView::Text(texts[k]))
            ==> texts_from(JsonView::Array(items)) == Some(texts),
        0 <= i < items.len() && items[i] !is Text ==> texts_from(JsonView::Array(items)) is None,
{
    if items.len() == texts.len() && (forall|k: int|
        0 <= k < items.len() ==> #[trigger] items[k] == JsonView::Text(texts[k])) {
        assert(texts_from(JsonView::Array(items))->0 =~= texts);
    }
}

/// A request to check a file is read from the file and the flags, whatever else
/// there is. There are no flags where they are left out; and without a file, or
/// with flags that are no texts, there is no request.
pub proof fn law_compile_requests_are_read(
    m: Map<Seq<char>, JsonView>,
    file: Seq<char>,
    flags: Seq<Seq<char>>,
)
    ensures
        ({
            let r = compile_request_from(JsonView::Object(m));
            &&& has(m, "file"@, JsonView::Text(file)) && !m.dom().contains("flags"@) ==> r == Some(
                CompileRequestView { file, flags: Seq::empty() },
            )
            &&& has(m, "file"@, JsonView::Text(file)) && m.dom().contains("flags"@) && texts_from(
                m["flags"@],
            ) == Some(flags) ==> r == Some(CompileRequestView { file, flags })
            &&& !(m.dom().contains("file"@) && m["file"@] is Text) ==> r is None
            &&& m.dom().contains("flags"@) && texts_from(m["flags"@]) is None ==> r is None
        }),
{
}

/// A request to check a file says the file and the flags, in order.
pub proof fn law_compile_requests_are_written(r: CompileRequestView, i: int)
    ensures
        ({
            let v = compile_request_json(r);
            let flags = v.get("flags"@)->0;
            &&& v.get("file"@) == Some(JsonView::Text(r.file))
            &&& flags is Array
            &&& flags->Array_0.len() == r.flags.len()
            &&& 0 <= i < r.flags.len() ==> flags->Array_0[i] == JsonView::Text(r.flags[i])
        }),
{
    reveal_strlit("file");
    reveal_strlit("flags");
    assert("file"@.len() == 4);
    assert("flags"@.len() == 5);
}

/// What was found in a file is written as its diagnostics, in order, and whether
/// there was success; and it is read from these.
pub proof fn law_compile_responses(
    r: CompileResponseView,
    i: int,
    m: Map<Seq<char>, JsonView>,
    diagnostics: Seq<DiagnosticView>,
    success: bool,
)
    ensures
        ({
            let v = compile_response_json(r);
            let list = v.get("diagnostics"@)->0;
            &&& v.get("success"@) == Some(JsonView::Bool(r.success))
            &&& list is Array
            &&& list->Array_0.len() == r.diagnostics.len()
            &&& 0 <= i < r.diagnostics.len() ==> list->Array_0[i] == diagnostic_json(
                r.diagnostics[i],
            )
        }),
        has(m, "success"@, JsonView::Bool(success)) && m.dom().contains("diagnostics"@)
            && diagnostics_from(m["diagnostics"@]) == Some(diagnostics) ==> compile_response_from(
            JsonView::Object(m),
        ) == Some(CompileResponseView { diagnostics, success }),
        !(m.dom().contains("success"@) && m["success"@] is Bool) ==> compile_response_from(
            JsonView::Object(m),
        ) is None,
        !(m.dom().contains("diagnostics"@) && diagnostics_from(m["diagnostics"@]) is Some)
            ==> compile_response_from(JsonView::Object(m)) is None,
{
    reveal_strlit("success");
    reveal_strlit("diagnostics");
    assert("success"@.len() == 7);
    assert("diagnostics"@.len() == 11);
}

/// A query is read from its file, its line, which is a number of 32 bits, and its
/// text, whatever else there is; and it is written so.
pub proof fn law_query_requests(
    m: Map<Seq<char>, JsonView>,
    file: Seq<char>,
    line: int,
    text: Seq<char>,
    r: QueryRequestView,
)
    ensures
        has(m, "file"@, JsonView::Text(file)) && has(m, "line"@, JsonView::Int(line)) && has(
            m,
            "text"@,
            JsonView::Text(text),
        ) && 0 <= line <= 0xffff_ffff ==> query_request_from(JsonView::Object(m)) == Some(
            QueryRequestView { file, line: line as u32, text },
        ),
        has(m, "line"@, JsonView::Int(line)) && !(0 <= line <= 0xffff_ffff) ==> query_request_from(
            JsonView::Object(m),
        ) is None,
        !(m.dom().contains("file"@) && m["file"@] is Text) ==> query_request_from(
            JsonView::Object(m),
        ) is None,
        !(m.dom().contains("line"@) && m["line"@] is Int) ==> query_request_from(
            JsonView::Object(m),
        ) is None,
        !(m.dom().contains("text"@) && m["text"@] is Text) ==> query_request_from(
            JsonView::Object(m),
        ) is None,
        query_request_json(r).get("file"@) == Some(JsonView::Text(r.file)),
        query_request_json(r).get("line"@) == Some(JsonView::Int(r.line as int)),
        query_request_json(r).get("text"@) == Some(JsonView::Text(r.text)),
{
    reveal_strlit("file");
    reveal_strlit("line");
    reveal_strlit("text");
    assert("file"@[0] == 'f');
    assert("line"@[0] == 'l');
    assert("text"@[0] == 't');
}

/// The answer to a query is one text, and so is the file that is to be forgotten.
/// Each is read from the member of its name, whatever else there is, and written
/// as that member alone. An empty answer has no members.
pub proof fn law_single_texts(m: Map<Seq<char>, JsonView>, text: Seq<char>)
    ensures
        has(m, "response"@, JsonView::Text(text)) ==> query_response_from(JsonView::Object(m))
            == Some(text),
        !(m.dom().contains("response"@) && m["response"@] is Text) ==> query_response_from(
            JsonView::Object(m),
        ) is None,
        has(m, "file"@, JsonView::Text(text)) ==> invalidate_request_from(JsonView::Object(m))
            == Some(text),
        !(m.dom().contains("file"@) && m["file"@] is Text) ==> invalidate_request_from(
            JsonView::Object(m),
        ) is None,
        is_only(query_response_json(text), "response"@, text),
        is_only(invalidate_request_json(text), "file"@, text),
        empty_json() == JsonView::Object(Map::empty()),
{
}

/// The sessions are written one by one, in order, each with its file and its
/// status.
pub proof fn law_sessions_are_written(s: Seq<SessionInfoView>, i: int)
    requires
        0 <= i < s.len(),
    ensures
        ({
            let list = status_response_json(s).get("sessions"@)->0;
            &&& list is Array
            &&& list->Array_0.len() == s.len()
            &&& list->Array_0[i].get("file"@) == Some(JsonView::Text(s[i].file))
            &&& list->Array_0[i].get("status"@) == Some(JsonView::Text(s[i].status))
        }),
{
    reveal_strlit("file");
    reveal_strlit("status");
    assert("file"@.len() == 4);
    assert("status"@.len() == 6);
}

/// The sessions are read one by one, in order, each from its file and its status,
/// whatever else there is.
pub proof fn law_sessions_are_read(
    m: Map<Seq<char>, JsonView>,
    items: Seq<JsonView>,
    s: Seq<SessionInfoView>,
)
    requires
        has(m, "sessions"@, JsonView::Array(items)),
        items.len() == s.len(),
        forall|i: int|
            0 <= i < items.len() ==> (#[trigger] items[i]) is Object && has(
                items[i]->Object_0,
                "file"@,
                JsonView::Text(s[i].file),
            ) && has(items[i]->Object_0, "status"@, JsonView::Text(s[i].status)),
    ensures
        status_response_from(JsonView::Object(m)) == Some(s),
{
    let read = status_response_from(JsonView::Object(m));
    assert(read is Some);
    assert forall|i: int| 0 <= i < s.len() implies read->0[i] == s[i] by {
        assert(items[i] is Object);
    }
    assert(read->0 =~= s);
}

/// A record can be given as a list of its fields in order.
pub proof fn law_records_can_be_lists(
    file: Seq<char>,
    line: u32,
    text: Seq<char>,
    flags: Seq<JsonView>,
)
    ensures
        query_request_from(
            JsonView::Array(
                seq![JsonView::Text(file), JsonView::Int(line as int), JsonView::Text(text)],
            ),
        ) == Some(QueryRequestView { file, line, text }),
        compile_request_from(JsonView::Array(seq![JsonView::Text(file)])) == Some(
            CompileRequestView { file, flags: Seq::empty() },
        ),
        texts_from(JsonView::Array(flags)) is Some ==> compile_request_from(
            JsonView::Array(seq![JsonView::Text(file), JsonView::Array(flags)]),
        ) == Some(
            CompileRequestView { file, flags: texts_from(JsonView::Array(flags))->0 },
        ),
{
}

} // verus!
