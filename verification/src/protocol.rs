//! The requests that the daemon answers, and what it answers.
use vstd::prelude::*;
use crate::json::{add_member, items_view, Json, JsonView};
use crate::lsp::types::{
    diagnostics_from, diagnostics_json, diagnostics_view, read_diagnostics, settled,
    write_diagnostics, Diagnostic, DiagnosticView,
};
use crate::text::same_text;

pub mod methods;

verus! {

/// A request to check a file.
#[derive(Debug, Clone)]
pub struct CompileRequest {
    pub file: String,
    pub flags: Vec<String>,
}

/// What checking a file came to.
#[derive(Debug, Clone)]
pub struct CompileResponse {
    pub diagnostics: Vec<Diagnostic>,
    pub success: bool,
}

/// A query about a line of a file.
#[derive(Debug, Clone)]
pub struct QueryRequest {
    pub file: String,
    pub line: u32,
    pub text: String,
}

/// The answer to a query.
#[derive(Debug, Clone)]
pub struct QueryResponse {
    pub response: String,
}

/// A request for the sessions there are.
#[derive(Debug, Clone)]
pub struct StatusRequest {}

/// A file, and how far it has been processed.
#[derive(Debug, Clone)]
pub struct SessionInfo {
    pub file: String,
    pub status: String,
}

/// The sessions there are.
#[derive(Debug, Clone)]
pub struct StatusResponse {
    pub sessions: Vec<SessionInfo>,
}

/// A request to stop.
#[derive(Debug, Clone)]
pub struct ShutdownRequest {}

/// The answer that the daemon stops.
#[derive(Debug, Clone)]
pub struct ShutdownResponse {}

/// A request to forget a file.
#[derive(Debug, Clone)]
pub struct InvalidateRequest {
    pub file: String,
}

/// The answer that a file is forgotten.
#[derive(Debug, Clone)]
pub struct InvalidateResponse {}

/// The model of a compile request.
pub struct CompileRequestView {
    pub file: Seq<char>,
    pub flags: Seq<Seq<char>>,
}

/// The model of a compile response.
pub struct CompileResponseView {
    pub diagnostics: Seq<DiagnosticView>,
    pub success: bool,
}

/// The model of a query.
pub struct QueryRequestView {
    pub file: Seq<char>,
    pub line: u32,
    pub text: Seq<char>,
}

/// The model of a session.
pub struct SessionInfoView {
    pub file: Seq<char>,
    pub status: Seq<char>,
}

/// The models of some texts.
pub open spec fn texts_view(s: Seq<String>) -> Seq<Seq<char>> {
    Seq::new(s.len(), |i: int| s[i]@)
}

/// The models of some sessions.
pub open spec fn sessions_view(s: Seq<SessionInfo>) -> Seq<SessionInfoView> {
    Seq::new(s.len(), |i: int| s[i]@)
}

impl View for CompileRequest {
    type V = CompileRequestView;

    open spec fn view(&self) -> CompileRequestView {
        CompileRequestView { file: self.file@, flags: texts_view(self.flags@) }
    }
}

impl View for CompileResponse {
    type V = CompileResponseView;

    open spec fn view(&self) -> CompileResponseView {
        CompileResponseView {
            diagnostics: diagnostics_view(self.diagnostics@),
            success: self.success,
        }
    }
}

impl View for QueryRequest {
    type V = QueryRequestView;

    open spec fn view(&self) -> QueryRequestView {
        QueryRequestView { file: self.file@, line: self.line, text: self.text@ }
    }
}

impl View for QueryResponse {
    type V = Seq<char>;

    open spec fn view(&self) -> Seq<char> {
        self.response@
    }
}

impl View for SessionInfo {
    type V = SessionInfoView;

    open spec fn view(&self) -> SessionInfoView {
        SessionInfoView { file: self.file@, status: self.status@ }
    }
}

impl View for StatusResponse {
    type V = Seq<SessionInfoView>;

    open spec fn view(&self) -> Seq<SessionInfoView> {
        sessions_view(self.sessions@)
    }
}

impl View for InvalidateRequest {
    type V = Seq<char>;

    open spec fn view(&self) -> Seq<char> {
        self.file@
    }
}

/// Some texts as JSON.
pub open spec fn texts_json(s: Seq<Seq<char>>) -> JsonView {
    JsonView::Array(Seq::new(s.len(), |i: int| JsonView::Text(s[i])))
}

/// The texts that a value gives: an array of strings.
pub open spec fn texts_from(v: JsonView) -> Option<Seq<Seq<char>>> {
    match v {
        JsonView::Array(items) => if forall|i: int|
            0 <= i < items.len() ==> (#[trigger] items[i]) is Text {
            Some(Seq::new(items.len(), |i: int| items[i]->Text_0))
        } else {
            None
        },
        _ => None,
    }
}

/// A compile request as JSON.
pub open spec fn compile_request_json(r: CompileRequestView) -> JsonView {
    JsonView::Object(map!["file"@ => JsonView::Text(r.file), "flags"@ => texts_json(r.flags)])
}

/// The compile request that a value gives. The flags can be left out.
pub open spec fn compile_request_from(v: JsonView) -> Option<CompileRequestView> {
    let flags = match v.field(1, "flags"@) {
        Some(list) => texts_from(list),
        None => Some(Seq::empty()),
    };
    match (v.text_field(0, "file"@), flags) {
        (Some(file), Some(flags)) => if v.is_record(2) {
            Some(CompileRequestView { file, flags })
        } else {
            None
        },
        _ => None,
    }
}

/// A compile response as JSON.
pub open spec fn compile_response_json(r: CompileResponseView) -> JsonView {
    JsonView::Object(
        map![
            "diagnostics"@ => diagnostics_json(r.diagnostics),
            "success"@ => JsonView::Bool(r.success),
        ],
    )
}

/// The compile response that a value gives.
pub open spec fn compile_response_from(v: JsonView) -> Option<CompileResponseView> {
    match (v.field(0, "diagnostics"@), v.field(1, "success"@)) {
        (Some(list), Some(JsonView::Bool(success))) => match diagnostics_from(list) {
            Some(diagnostics) => if v.is_record(2) {
                Some(CompileResponseView { diagnostics, success })
            } else {
                None
            },
            None => None,
        },
        _ => None,
    }
}

/// A query as JSON.
pub open spec fn query_request_json(r: QueryRequestView) -> JsonView {
    JsonView::Object(
        map![
            "file"@ => JsonView::Text(r.file),
            "line"@ => JsonView::Int(r.line as int),
            "text"@ => JsonView::Text(r.text),
        ],
    )
}

/// The query that a value gives.
pub open spec fn query_request_from(v: JsonView) -> Option<QueryRequestView> {
    match (v.text_field(0, "file"@), v.u32_field(1, "line"@), v.text_field(2, "text"@)) {
        (Some(file), Some(line), Some(text)) => if v.is_record(3) {
            Some(QueryRequestView { file, line, text })
        } else {
            None
        },
        _ => None,
    }
}

/// A record with one text as JSON.
pub open spec fn text_record_json(key: Seq<char>, text: Seq<char>) -> JsonView {
    JsonView::Object(map![key => JsonView::Text(text)])
}

/// The text of a record that has no other field.
pub open spec fn text_record_from(v: JsonView, key: Seq<char>) -> Option<Seq<char>> {
    if v.is_record(1) {
        v.text_field(0, key)
    } else {
        None
    }
}

/// The answer to a query as JSON.
pub open spec fn query_response_json(response: Seq<char>) -> JsonView {
    text_record_json("response"@, response)
}

/// The answer to a query that a value gives.
pub open spec fn query_response_from(v: JsonView) -> Option<Seq<char>> {
    text_record_from(v, "response"@)
}

/// A request to forget a file as JSON.
pub open spec fn invalidate_request_json(file: Seq<char>) -> JsonView {
    text_record_json("file"@, file)
}

/// The file that a value asks to forget.
pub open spec fn invalidate_request_from(v: JsonView) -> Option<Seq<char>> {
    text_record_from(v, "file"@)
}

/// A session as JSON.
pub open spec fn session_json(s: SessionInfoView) -> JsonView {
    JsonView::Object(map!["file"@ => JsonView::Text(s.file), "status"@ => JsonView::Text(s.status)])
}

/// The session that a value gives.
pub open spec fn session_from(v: JsonView) -> Option<SessionInfoView> {
    match (v.text_field(0, "file"@), v.text_field(1, "status"@)) {
        (Some(file), Some(status)) => if v.is_record(2) {
            Some(SessionInfoView { file, status })
        } else {
            None
        },
        _ => None,
    }
}

/// The sessions as JSON.
pub open spec fn status_response_json(s: Seq<SessionInfoView>) -> JsonView {
    JsonView::Object(
        map!["sessions"@ => JsonView::Array(Seq::new(s.len(), |i: int| session_json(s[i])))],
    )
}

/// The sessions that a value gives.
pub open spec fn status_response_from(v: JsonView) -> Option<Seq<SessionInfoView>> {
    match v.field(0, "sessions"@) {
        Some(JsonView::Array(items)) => if v.is_record(1) && forall|i: int|
            0 <= i < items.len() ==> session_from(#[trigger] items[i]) is Some {
            Some(Seq::new(items.len(), |i: int| session_from(items[i])->0))
        } else {
            None
        },
        _ => None,
    }
}

/// A record without fields as JSON.
pub open spec fn empty_json() -> JsonView {
    JsonView::Object(Map::empty())
}

proof fn lemma_keys()
    ensures
        "file"@ != "flags"@,
        "diagnostics"@ != "success"@,
        "file"@ != "line"@,
        "file"@ != "text"@,
        "line"@ != "text"@,
        "file"@ != "status"@,
{
    reveal_strlit("file");
    reveal_strlit("flags");
    reveal_strlit("diagnostics");
    reveal_strlit("success");
    reveal_strlit("line");
    reveal_strlit("text");
    reveal_strlit("status");
    assert("file"@.len() == 4 && "file"@[0] == 'f');
    assert("flags"@.len() == 5);
    assert("diagnostics"@.len() == 11);
    assert("success"@.len() == 7);
    assert("line"@.len() == 4 && "line"@[0] == 'l');
    assert("text"@.len() == 4 && "text"@[0] == 't');
    assert("status"@.len() == 6);
}

/// A compile request is read back from its JSON.
pub proof fn law_compile_request_reads_back(r: CompileRequestView)
    ensures
        compile_request_from(compile_request_json(r)) == Some(r),
{
    lemma_keys();
    assert(texts_from(texts_json(r.flags))->0 =~= r.flags);
}

/// A compile response is read back from its JSON, where its diagnostics are.
pub proof fn law_compile_response_reads_back(r: CompileResponseView)
    requires
        settled(r.diagnostics),
    ensures
        compile_response_from(compile_response_json(r)) == Some(r),
{
    lemma_keys();
}

/// A query is read back from its JSON.
pub proof fn law_query_request_reads_back(r: QueryRequestView)
    ensures
        query_request_from(query_request_json(r)) == Some(r),
{
    lemma_keys();
}

/// An answer is read back from its JSON, and so is a file to forget.
pub proof fn law_text_record_reads_back(text: Seq<char>)
    ensures
        query_response_from(query_response_json(text)) == Some(text),
        invalidate_request_from(invalidate_request_json(text)) == Some(text),
{
}

/// The sessions are read back from their JSON.
pub proof fn law_status_response_reads_back(s: Seq<SessionInfoView>)
    ensures
        status_response_from(status_response_json(s)) == Some(s),
{
    lemma_keys();
    let items = Seq::new(s.len(), |i: int| session_json(s[i]));
    assert forall|i: int| 0 <= i < items.len() implies session_from(#[trigger] items[i]) == Some(
        s[i],
    ) by {}
    assert(status_response_from(status_response_json(s))->0 =~= s);
}

/// Copies of some texts.
pub fn copy_texts(list: &Vec<String>) -> (r: Vec<String>)
    ensures
        texts_view(r@) == texts_view(list@),
{
    let mut out: Vec<String> = Vec::new();
    let mut i: usize = 0;
    while i < list.len()
        invariant
            i == out@.len(),
            i <= list@.len(),
            forall|k: int| 0 <= k < i ==> (#[trigger] out@[k])@ == list@[k]@,
        decreases list@.len() - i,
    {
        out.push(list[i].clone());
        i += 1;
    }
    assert(texts_view(out@) == texts_view(list@));
    out
}

/// Whether two lists hold the same texts.
pub fn same_texts(a: &Vec<String>, b: &Vec<String>) -> (r: bool)
    ensures
        r == (texts_view(a@) == texts_view(b@)),
{
    if a.len() != b.len() {
        assert(texts_view(a@).len() != texts_view(b@).len());
        return false;
    }
    let mut i: usize = 0;
    while i < a.len()
        invariant
            i <= a@.len(),
            a@.len() == b@.len(),
            forall|k: int| 0 <= k < i ==> (#[trigger] a@[k])@ == b@[k]@,
        decreases a@.len() - i,
    {
        if !same_text(a[i].as_str(), b[i].as_str()) {
            assert(texts_view(a@)[i as int] != texts_view(b@)[i as int]);
            return false;
        }
        i += 1;
    }
    assert(texts_view(a@) =~= texts_view(b@));
    true
}

fn read_texts(v: &Json) -> (r: Option<Vec<String>>)
    ensures
        match r {
            Some(list) => texts_from(v@) == Some(texts_view(list@)),
            None => texts_from(v@) is None,
        },
{
    let items: &Vec<Json> = match v {
        Json::Array(items) => items,
        _ => return None,
    };
    let ghost all = v@->Array_0;
    let mut out: Vec<String> = Vec::new();
    let mut i: usize = 0;
    while i < items.len()
        invariant
            i == out@.len(),
            i <= items@.len(),
            v@ == JsonView::Array(all),
            all.len() == items@.len(),
            forall|k: int| 0 <= k < all.len() ==> #[trigger] all[k] == items@[k]@,
            forall|k: int| 0 <= k < i ==> #[trigger] all[k] == JsonView::Text(out@[k]@),
        decreases items@.len() - i,
    {
        assert(all[i as int] == items@[i as int]@);
        match &items[i] {
            Json::Text(s) => out.push(s.clone()),
            _ => return None,
        }
        i += 1;
    }
    assert(texts_view(out@) =~= texts_from(v@)->0);
    Some(out)
}

fn write_texts(list: &Vec<String>) -> (r: Json)
    ensures
        r@ == texts_json(texts_view(list@)),
{
    let mut out: Vec<Json> = Vec::new();
    let mut i: usize = 0;
    while i < list.len()
        invariant
            i == out@.len(),
            i <= list@.len(),
            forall|k: int| 0 <= k < i ==> (#[trigger] out@[k])@ == JsonView::Text(list@[k]@),
        decreases list@.len() - i,
    {
        out.push(Json::Text(list[i].clone()));
        i += 1;
    }
    assert forall|k: int| 0 <= k < out@.len() implies items_view(out@)[k] == JsonView::Text(
        texts_view(list@)[k],
    ) by {
        assert(out@[k]@ == JsonView::Text(list@[k]@));
    }
    assert(items_view(out@) =~= texts_json(texts_view(list@))->Array_0);
    Json::Array(out)
}

fn write_text_record(key: &str, text: &str) -> (r: Json)
    ensures
        r@ == text_record_json(key@, text@),
{
    let mut members: Vec<(String, Json)> = Vec::new();
    add_member(&mut members, key, Json::Text(text.to_string()));
    Json::Object(members)
}

fn read_text_record(v: &Json, key: &str) -> (r: Option<String>)
    ensures
        match r {
            Some(s) => text_record_from(v@, key@) == Some(s@),
            None => text_record_from(v@, key@) is None,
        },
{
    if v.is_record(1) {
        v.text_field(0, key)
    } else {
        None
    }
}

impl CompileRequest {
    /// Reads a compile request.
    pub fn read(v: &Json) -> (r: Option<CompileRequest>)
        ensures
            match r {
                Some(m) => compile_request_from(v@) == Some(m@),
                None => compile_request_from(v@) is None,
            },
    {
        let flags: Option<Vec<String>> = match v.field(1, "flags") {
            Some(list) => read_texts(list),
            None => {
                let none: Vec<String> = Vec::new();
                assert(texts_view(none@) == Seq::<Seq<char>>::empty());
                Some(none)
            },
        };
        match (v.text_field(0, "file"), flags) {
            (Some(file), Some(flags)) => if v.is_record(2) {
                Some(CompileRequest { file, flags })
            } else {
                None
            },
            _ => None,
        }
    }

    /// The request as JSON.
    pub fn to_json(&self) -> (r: Json)
        ensures
            r@ == compile_request_json(self@),
    {
        let mut members: Vec<(String, Json)> = Vec::new();
        add_member(&mut members, "file", Json::Text(self.file.clone()));
        add_member(&mut members, "flags", write_texts(&self.flags));
        Json::Object(members)
    }
}

impl CompileResponse {
    /// Reads a compile response.
    pub fn read(v: &Json) -> (r: Option<CompileResponse>)
        ensures
            match r {
                Some(m) => compile_response_from(v@) == Some(m@),
                None => compile_response_from(v@) is None,
            },
    {
        match (v.field(0, "diagnostics"), v.field(1, "success")) {
            (Some(list), Some(Json::Bool(success))) => match read_diagnostics(list) {
                Some(diagnostics) => if v.is_record(2) {
                    Some(CompileResponse { diagnostics, success: *success })
                } else {
                    None
                },
                None => None,
            },
            _ => None,
        }
    }

    /// The response as JSON.
    pub fn to_json(&self) -> (r: Json)
        ensures
            r@ == compile_response_json(self@),
    {
        let mut members: Vec<(String, Json)> = Vec::new();
        add_member(&mut members, "diagnostics", write_diagnostics(&self.diagnostics));
        add_member(&mut members, "success", Json::Bool(self.success));
        Json::Object(members)
    }
}

impl QueryRequest {
    /// Reads a query.
    pub fn read(v: &Json) -> (r: Option<QueryRequest>)
        ensures
            match r {
                Some(m) => query_request_from(v@) == Some(m@),
                None => query_request_from(v@) is None,
            },
    {
        match (v.text_field(0, "file"), v.u32_field(1, "line"), v.text_field(2, "text")) {
            (Some(file), Some(line), Some(text)) => if v.is_record(3) {
                Some(QueryRequest { file, line, text })
            } else {
                None
            },
            _ => None,
        }
    }

    /// The query as JSON.
    pub fn to_json(&self) -> (r: Json)
        ensures
            r@ == query_request_json(self@),
    {
        let mut members: Vec<(String, Json)> = Vec::new();
        add_member(&mut members, "file", Json::Text(self.file.clone()));
        add_member(&mut members, "line", Json::Unsigned(self.line as u64));
        add_member(&mut members, "text", Json::Text(self.text.clone()));
        Json::Object(members)
    }
}

impl QueryResponse {
    /// Reads the answer to a query.
    pub fn read(v: &Json) -> (r: Option<QueryResponse>)
        ensures
            match r {
                Some(m) => query_response_from(v@) == Some(m@),
                None => query_response_from(v@) is None,
            },
    {
        match read_text_record(v, "response") {
            Some(response) => Some(QueryResponse { response }),
            None => None,
        }
    }

    /// The answer as JSON.
    pub fn to_json(&self) -> (r: Json)
        ensures
            r@ == query_response_json(self@),
    {
        write_text_record("response", self.response.as_str())
    }
}

impl InvalidateRequest {
    /// Reads a request to forget a file.
    pub fn read(v: &Json) -> (r: Option<InvalidateRequest>)
        ensures
            match r {
                Some(m) => invalidate_request_from(v@) == Some(m@),
                None => invalidate_request_from(v@) is None,
            },
    {
        match read_text_record(v, "file") {
            Some(file) => Some(InvalidateRequest { file }),
            None => None,
        }
    }

    /// The request as JSON.
    pub fn to_json(&self) -> (r: Json)
        ensures
            r@ == invalidate_request_json(self@),
    {
        write_text_record("file", self.file.as_str())
    }
}

impl SessionInfo {
    /// Reads a session.
    pub fn read(v: &Json) -> (r: Option<SessionInfo>)
        ensures
            match r {
                Some(m) => session_from(v@) == Some(m@),
                None => session_from(v@) is None,
            },
    {
        match (v.text_field(0, "file"), v.text_field(1, "status")) {
            (Some(file), Some(status)) => if v.is_record(2) {
                Some(SessionInfo { file, status })
            } else {
                None
            },
            _ => None,
        }
    }

    /// The session as JSON.
    pub fn to_json(&self) -> (r: Json)
        ensures
            r@ == session_json(self@),
    {
        let mut members: Vec<(String, Json)> = Vec::new();
        add_member(&mut members, "file", Json::Text(self.file.clone()));
        add_member(&mut members, "status", Json::Text(self.status.clone()));
        Json::Object(members)
    }
}

impl StatusResponse {
    /// Reads the sessions there are.
    pub fn read(v: &Json) -> (r: Option<StatusResponse>)
        ensures
            match r {
                Some(m) => status_response_from(v@) == Some(m@),
                None => status_response_from(v@) is None,
            },
    {
        let items: &Vec<Json> = match v.field(0, "sessions") {
            Some(Json::Array(items)) => items,
            _ => return None,
        };
        if !v.is_record(1) {
            return None;
        }
        let ghost all = v@.field(0, "sessions"@)->0->Array_0;
        let mut sessions: Vec<SessionInfo> = Vec::new();
        let mut i: usize = 0;
        while i < items.len()
            invariant
                i == sessions@.len(),
                i <= items@.len(),
                v@.is_record(1),
                v@.field(0, "sessions"@) == Some(JsonView::Array(all)),
                all.len() == items@.len(),
                forall|k: int| 0 <= k < all.len() ==> #[trigger] all[k] == items@[k]@,
                forall|k: int|
                    0 <= k < i ==> session_from(#[trigger] all[k]) == Some(sessions@[k]@),
            decreases items@.len() - i,
        {
            assert(all[i as int] == items@[i as int]@);
            match SessionInfo::read(&items[i]) {
                Some(session) => sessions.push(session),
                None => return None,
            }
            i += 1;
        }
        assert(sessions_view(sessions@) =~= status_response_from(v@)->0);
        Some(StatusResponse { sessions })
    }

    /// The sessions as JSON.
    pub fn to_json(&self) -> (r: Json)
        ensures
            r@ == status_response_json(self@),
    {
        let mut items: Vec<Json> = Vec::new();
        let mut i: usize = 0;
        while i < self.sessions.len()
            invariant
                i == items@.len(),
                i <= self.sessions@.len(),
                forall|k: int|
                    0 <= k < i ==> (#[trigger] items@[k])@ == session_json(self.sessions@[k]@),
            decreases self.sessions@.len() - i,
        {
            items.push(self.sessions[i].to_json());
            i += 1;
        }
        assert forall|k: int| 0 <= k < items@.len() implies items_view(items@)[k] == session_json(
            sessions_view(self.sessions@)[k],
        ) by {
            assert(items@[k]@ == session_json(self.sessions@[k]@));
        }
        assert(items_view(items@) =~= Seq::new(
            self@.len(),
            |i: int| session_json(self@[i]),
        ));
        let mut members: Vec<(String, Json)> = Vec::new();
        add_member(&mut members, "sessions", Json::Array(items));
        Json::Object(members)
    }
}

/// A record without fields as JSON.
pub fn write_empty() -> (r: Json)
    ensures
        r@ == empty_json(),
{
    Json::Object(Vec::new())
}

impl StatusRequest {
    /// Reads a request for the sessions there are.
    pub fn read(v: &Json) -> (r: Option<StatusRequest>)
        ensures
            r is Some == v@.is_record(0),
    {
        if v.is_record(0) {
            Some(StatusRequest {})
        } else {
            None
        }
    }

    /// The request as JSON.
    pub fn to_json(&self) -> (r: Json)
        ensures
            r@ == empty_json(),
    {
        write_empty()
    }
}

impl ShutdownRequest {
    /// Reads a request to stop.
    pub fn read(v: &Json) -> (r: Option<ShutdownRequest>)
        ensures
            r is Some == v@.is_record(0),
    {
        if v.is_record(0) {
            Some(ShutdownRequest {})
        } else {
            None
        }
    }

    /// The request as JSON.
    pub fn to_json(&self) -> (r: Json)
        ensures
            r@ == empty_json(),
    {
        write_empty()
    }
}

impl ShutdownResponse {
    /// Reads the answer that the daemon stops.
    pub fn read(v: &Json) -> (r: Option<ShutdownResponse>)
        ensures
            r is Some == v@.is_record(0),
    {
        if v.is_record(0) {
            Some(ShutdownResponse {})
        } else {
            None
        }
    }

    /// The answer as JSON.
    pub fn to_json(&self) -> (r: Json)
        ensures
            r@ == empty_json(),
    {
        write_empty()
    }
}

impl InvalidateResponse {
    /// Reads the answer that a file is forgotten.
    pub fn read(v: &Json) -> (r: Option<InvalidateResponse>)
        ensures
            r is Some == v@.is_record(0),
    {
        if v.is_record(0) {
            Some(InvalidateResponse {})
        } else {
            None
        }
    }

    /// The answer as JSON.
    pub fn to_json(&self) -> (r: Json)
        ensures
            r@ == empty_json(),
    {
        write_empty()
    }
}

} // verus!
