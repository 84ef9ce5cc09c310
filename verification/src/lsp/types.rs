//! Positions, ranges and diagnostics.
use vstd::prelude::*;
use vstd::utf8::*;
use crate::json::{add_member, items_view, json_of, members_view, Json, JsonView};
use crate::text::same_text;

verus! {

/// A place in a document: line and character, both from 0.
#[derive(Debug, Clone, Copy, PartialEq, Eq, Structural)]
pub struct Position {
    pub line: u32,
    pub character: u32,
}

/// A stretch of a document. The end is not part of it.
#[derive(Debug, Clone, Copy, PartialEq, Eq, Structural)]
pub struct Range {
    pub start: Position,
    pub end: Position,
}

/// The severities of a diagnostic.
pub const ERROR: i32 = 1;

pub const WARNING: i32 = 2;

pub const INFORMATION: i32 = 3;

pub const HINT: i32 = 4;

/// The position that a value gives: a record of two `u32` numbers.
pub open spec fn position_from(v: JsonView) -> Option<Position> {
    match (v.u32_field(0, "line"@), v.u32_field(1, "character"@)) {
        (Some(line), Some(character)) => if v.is_record(2) {
            Some(Position { line, character })
        } else {
            None
        },
        _ => None,
    }
}

/// The range that a value gives: a record of two positions.
pub open spec fn range_from(v: JsonView) -> Option<Range> {
    match (v.field(0, "start"@), v.field(1, "end"@)) {
        (Some(s), Some(e)) => match (position_from(s), position_from(e)) {
            (Some(start), Some(end)) => if v.is_record(2) {
                Some(Range { start, end })
            } else {
                None
            },
            _ => None,
        },
        _ => None,
    }
}

pub open spec fn position_json(p: Position) -> JsonView {
    JsonView::Object(
        map!["line"@ => JsonView::Int(p.line as int), "character"@ => JsonView::Int(p.character as int)],
    )
}

pub open spec fn range_json(r: Range) -> JsonView {
    JsonView::Object(map!["start"@ => position_json(r.start), "end"@ => position_json(r.end)])
}

impl Position {
    /// Reads a position.
    pub fn read(v: &Json) -> (r: Option<Position>)
        ensures
            r == position_from(v@),
    {
        match (v.u32_field(0, "line"), v.u32_field(1, "character")) {
            (Some(line), Some(character)) => if v.is_record(2) {
                Some(Position { line, character })
            } else {
                None
            },
            _ => None,
        }
    }

    /// The position as JSON.
    pub fn to_json(&self) -> (r: Json)
        ensures
            r@ == position_json(*self),
    {
        let mut members: Vec<(String, Json)> = Vec::new();
        add_member(&mut members, "line", Json::Unsigned(self.line as u64));
        add_member(&mut members, "character", Json::Unsigned(self.character as u64));
        Json::Object(members)
    }
}

impl Range {
    /// Reads a range.
    pub fn read(v: &Json) -> (r: Option<Range>)
        ensures
            r == range_from(v@),
    {
        match (v.field(0, "start"), v.field(1, "end")) {
            (Some(s), Some(e)) => match (Position::read(s), Position::read(e)) {
                (Some(start), Some(end)) => if v.is_record(2) {
                    Some(Range { start, end })
                } else {
                    None
                },
                _ => None,
            },
            _ => None,
        }
    }

    /// The range as JSON.
    pub fn to_json(&self) -> (r: Json)
        ensures
            r@ == range_json(*self),
    {
        let mut members: Vec<(String, Json)> = Vec::new();
        add_member(&mut members, "start", self.start.to_json());
        add_member(&mut members, "end", self.end.to_json());
        Json::Object(members)
    }
}

/// A range is read back from its JSON.
pub proof fn law_range_reads_back(r: Range)
    ensures
        range_from(range_json(r)) == Some(r),
{
    reveal_strlit("line");
    reveal_strlit("character");
    reveal_strlit("start");
    reveal_strlit("end");
    assert("line"@.len() != "character"@.len());
    assert("start"@.len() != "end"@.len());
}

/// A message about a stretch of a document.
#[derive(Debug, PartialEq, Eq)]
pub struct Diagnostic {
    pub range: Range,
    pub severity: Option<i32>,
    pub message: String,
    /// What else the diagnostic carries (`code`, `source` and so on).
    pub extra: Vec<(String, Json)>,
}

/// The model of a diagnostic.
pub struct DiagnosticView {
    pub range: Range,
    pub severity: Option<i32>,
    pub message: Seq<char>,
    pub extra: Map<Seq<char>, JsonView>,
}

impl View for Diagnostic {
    type V = DiagnosticView;

    open spec fn view(&self) -> DiagnosticView {
        DiagnosticView {
            range: self.range,
            severity: self.severity,
            message: self.message@,
            extra: members_view(self.extra@),
        }
    }
}

/// The models of some diagnostics.
pub open spec fn diagnostics_view(s: Seq<Diagnostic>) -> Seq<DiagnosticView> {
    Seq::new(s.len(), |i: int| s[i]@)
}

/// The members that are not `range`, `severity` or `message`.
pub open spec fn extra_members(m: Map<Seq<char>, JsonView>) -> Map<Seq<char>, JsonView> {
    m.remove("range"@).remove("severity"@).remove("message"@)
}

/// A diagnostic as JSON.
pub open spec fn diagnostic_json(d: DiagnosticView) -> JsonView {
    let base = extra_members(d.extra).insert("range"@, range_json(d.range)).insert(
        "message"@,
        JsonView::Text(d.message),
    );
    JsonView::Object(
        match d.severity {
            Some(n) => base.insert("severity"@, JsonView::Int(n as int)),
            None => base,
        },
    )
}

/// Some diagnostics as JSON.
pub open spec fn diagnostics_json(s: Seq<DiagnosticView>) -> JsonView {
    JsonView::Array(Seq::new(s.len(), |i: int| diagnostic_json(s[i])))
}

/// What `lsp_types` writes for the list of diagnostics that it reads from a
/// value: nothing, where it reads none.
pub uninterp spec fn lsp_diagnostics(v: JsonView) -> Option<Seq<JsonView>>;

/// A diagnostic in the form in which `lsp_types` writes it.
pub open spec fn is_diagnostic(v: JsonView) -> bool {
    match v {
        JsonView::Object(m) => {
            &&& m.dom().contains("range"@)
            &&& range_from(m["range"@]) matches Some(r) && m["range"@] == range_json(r)
            &&& m.dom().contains("message"@)
            &&& m["message"@] is Text
            &&& m.dom().contains("severity"@) ==> m["severity"@].int_between(
                i32::MIN as int,
                i32::MAX as int,
            ) is Some
        },
        _ => false,
    }
}

/// The diagnostic that a value in that form is.
pub open spec fn diagnostic_from(v: JsonView) -> DiagnosticView {
    DiagnosticView {
        range: range_from(v->Object_0["range"@])->0,
        severity: match v.get("severity"@) {
            Some(JsonView::Int(n)) => Some(n as i32),
            _ => None,
        },
        message: v->Object_0["message"@]->Text_0,
        extra: extra_members(v->Object_0),
    }
}

/// The field of a record, if there is a record.
pub open spec fn inner(v: Option<JsonView>, index: int, key: Seq<char>) -> Option<JsonView> {
    match v {
        Some(record) => record.field(index, key),
        None => None,
    }
}

/// Whether a value is not a text of more than `i32::MAX` bytes: `lsp_types`
/// reads no URI of such a length.
pub open spec fn uri_fits(v: Option<JsonView>) -> bool {
    v matches Some(JsonView::Text(s)) ==> encode_utf8(s).len() <= i32::MAX
}

/// Whether the URIs of the places that a diagnostic refers to fit.
pub open spec fn related_fit(v: Option<JsonView>) -> bool {
    match v {
        Some(JsonView::Array(items)) => forall|i: int|
            0 <= i < items.len() ==> uri_fits(
                inner((#[trigger] items[i]).field(0, "location"@), 0, "uri"@),
            ),
        _ => true,
    }
}

/// Whether the URIs of a diagnostic fit.
pub open spec fn diagnostic_fits(v: JsonView) -> bool {
    &&& uri_fits(inner(v.field(3, "codeDescription"@), 0, "href"@))
    &&& related_fit(v.field(6, "relatedInformation"@))
}

/// Whether the URIs of some diagnostics fit.
pub open spec fn uris_fit(v: JsonView) -> bool {
    match v {
        JsonView::Array(items) => forall|i: int|
            0 <= i < items.len() ==> diagnostic_fits(#[trigger] items[i]),
        _ => true,
    }
}

/// A diagnostic in the form in which `lsp_types` writes it, with no more than a
/// range, a severity and a message.
pub open spec fn is_plain(v: JsonView) -> bool {
    &&& is_diagnostic(v)
    &&& forall|k: Seq<char>| #[trigger]
        v->Object_0.dom().contains(k) ==> k == "range"@ || k == "severity"@ || k == "message"@
}

/// A list of such diagnostics.
pub open spec fn is_plain_list(v: JsonView) -> bool {
    v matches JsonView::Array(items) && forall|i: int|
        0 <= i < items.len() ==> is_plain(#[trigger] items[i])
}

/// The diagnostics that a value gives, as `lsp_types` reads it: none, where it
/// cannot read it or a URI is too long for it.
pub open spec fn diagnostics_from(v: JsonView) -> Option<Seq<DiagnosticView>> {
    match lsp_diagnostics(v) {
        Some(items) => if uris_fit(v) {
            Some(Seq::new(items.len(), |i: int| diagnostic_from(items[i])))
        } else {
            None
        },
        None => None,
    }
}

/// Reads a list of `lsp_types::Diagnostic` from a `serde_json::Value` with
/// `serde::Deserialize::deserialize`, and writes it with
/// `serde_json::to_value`. A URI of more than `i32::MAX` bytes makes the reading
/// panic, so none may be that long. Every diagnostic comes out as an object
/// with a range and a message, and with an `i32` severity if it has one; what
/// comes out is read and written unchanged, and holds no URI that did not go
/// in. A list of diagnostics in the written form that hold no more than a
/// range, a severity and a message is read, and comes out unchanged.
#[verifier::external_body]
fn diagnostic_values(value: &serde_json::Value) -> (r: Option<serde_json::Value>)
    requires
        uris_fit(json_of(*value)),
    ensures
        match r {
            Some(w) => lsp_diagnostics(json_of(*value)) matches Some(items) && json_of(w)
                == JsonView::Array(items) && lsp_diagnostics(json_of(w)) == Some(items) && uris_fit(
                json_of(w),
            ) && (forall|i: int| 0 <= i < items.len() ==> is_diagnostic(#[trigger] items[i])),
            None => lsp_diagnostics(json_of(*value)) is None,
        },
        is_plain_list(json_of(*value)) ==> r is Some && json_of(r->0) == json_of(*value),
{
    let read: Vec<lsp_types::Diagnostic> = serde::Deserialize::deserialize(value).ok()?;
    serde_json::to_value(read).ok()
}

fn inner_field<'a>(v: Option<&'a Json>, index: usize, key: &str) -> (r: Option<&'a Json>)
    ensures
        ref_view(r) == inner(ref_view(v), index as int, key@),
{
    match v {
        Some(record) => record.field(index, key),
        None => None,
    }
}

/// The view of a value that need not be there.
spec fn ref_view(v: Option<&Json>) -> Option<JsonView> {
    match v {
        Some(v) => Some(v@),
        None => None,
    }
}

fn is_short(v: Option<&Json>) -> (r: bool)
    ensures
        r == uri_fits(ref_view(v)),
{
    match v {
        Some(Json::Text(s)) => s.as_str().as_bytes().len() <= i32::MAX as usize,
        _ => true,
    }
}

fn are_related_short(v: Option<&Json>) -> (r: bool)
    ensures
        r == related_fit(ref_view(v)),
{
    let items: &Vec<Json> = match v {
        Some(Json::Array(items)) => items,
        _ => return true,
    };
    let ghost all = ref_view(v)->0->Array_0;
    let mut i: usize = 0;
    while i < items.len()
        invariant
            i <= items@.len(),
            ref_view(v) == Some(JsonView::Array(all)),
            all.len() == items@.len(),
            forall|k: int| 0 <= k < all.len() ==> #[trigger] all[k] == items@[k]@,
            forall|k: int|
                0 <= k < i ==> uri_fits(
                    inner((#[trigger] all[k]).field(0, "location"@), 0, "uri"@),
                ),
        decreases items@.len() - i,
    {
        assert(all[i as int] == items@[i as int]@);
        if !is_short(inner_field(items[i].field(0, "location"), 0, "uri")) {
            return false;
        }
        i += 1;
    }
    true
}

/// Whether the URIs of some diagnostics are short enough for `lsp_types`.
pub fn all_uris_fit(v: &Json) -> (r: bool)
    ensures
        r == uris_fit(v@),
{
    let items: &Vec<Json> = match v {
        Json::Array(items) => items,
        _ => return true,
    };
    let ghost all = v@->Array_0;
    let mut i: usize = 0;
    while i < items.len()
        invariant
            i <= items@.len(),
            v@ == JsonView::Array(all),
            all.len() == items@.len(),
            forall|k: int| 0 <= k < all.len() ==> #[trigger] all[k] == items@[k]@,
            forall|k: int| 0 <= k < i ==> diagnostic_fits(#[trigger] all[k]),
        decreases items@.len() - i,
    {
        assert(all[i as int] == items@[i as int]@);
        if !is_short(inner_field(items[i].field(3, "codeDescription"), 0, "href"))
            || !are_related_short(items[i].field(6, "relatedInformation")) {
            assert(v@->Array_0[i as int] == all[i as int]);
            assert(!diagnostic_fits(v@->Array_0[i as int]));
            return false;
        }
        i += 1;
    }
    true
}

proof fn lemma_plain_list_fits(v: JsonView)
    requires
        is_plain_list(v),
    ensures
        uris_fit(v),
{
    reveal_strlit("range");
    reveal_strlit("severity");
    reveal_strlit("message");
    reveal_strlit("codeDescription");
    reveal_strlit("relatedInformation");
    assert("range"@.len() == 5);
    assert("severity"@.len() == 8);
    assert("message"@.len() == 7);
    assert("codeDescription"@.len() == 15);
    assert("relatedInformation"@.len() == 18);
    let items = v->Array_0;
    assert forall|i: int| 0 <= i < items.len() implies diagnostic_fits(#[trigger] items[i]) by {
        assert(is_plain(items[i]));
        assert(!items[i]->Object_0.dom().contains("codeDescription"@));
        assert(!items[i]->Object_0.dom().contains("relatedInformation"@));
    }
}

/// A value in the form in which `lsp_types` writes a diagnostic is the JSON of
/// the diagnostic that it is.
proof fn lemma_diagnostic_json(v: JsonView)
    requires
        is_diagnostic(v),
    ensures
        diagnostic_json(diagnostic_from(v)) == v,
{
    let m = v->Object_0;
    reveal_strlit("range");
    reveal_strlit("severity");
    reveal_strlit("message");
    assert("range"@.len() != "message"@.len());
    assert("range"@.len() != "severity"@.len());
    assert("message"@.len() != "severity"@.len());
    assert(diagnostic_json(diagnostic_from(v))->Object_0 =~= m);
}

/// The members that are not `range`, `severity` or `message`.
fn keep_extra(members: &Vec<(String, Json)>) -> (r: Vec<(String, Json)>)
    ensures
        members_view(r@) == extra_members(members_view(members@)),
{
    let mut out: Vec<(String, Json)> = Vec::new();
    let mut i: usize = 0;
    assert(members_view(members@.take(0)) == Map::<Seq<char>, JsonView>::empty());
    assert(extra_members(Map::<Seq<char>, JsonView>::empty()) == Map::<
        Seq<char>,
        JsonView,
    >::empty());
    while i < members.len()
        invariant
            i <= members@.len(),
            members_view(out@) == extra_members(members_view(members@.take(i as int))),
        decreases members@.len() - i,
    {
        let key: &str = members[i].0.as_str();
        let ghost before = members_view(members@.take(i as int));
        proof {
            assert(members@.take(i + 1).drop_last() == members@.take(i as int));
            assert(members@.take(i + 1).last() == members@[i as int]);
        }
        let ghost value = members@[i as int].1@;
        if same_text(key, "range") || same_text(key, "severity") || same_text(key, "message") {
            assert(extra_members(before.insert(key@, value)) == extra_members(before));
        } else {
            add_member(&mut out, key, members[i].1.clone());
            assert(extra_members(before.insert(key@, value)) == extra_members(before).insert(
                key@,
                value,
            ));
        }
        i += 1;
    }
    assert(members@.take(i as int) == members@);
    out
}

impl Diagnostic {
    /// Reads a diagnostic in the form in which `lsp_types` writes it.
    fn read(v: &Json) -> (r: Diagnostic)
        requires
            is_diagnostic(v@),
        ensures
            r@ == diagnostic_from(v@),
    {
        let range: Range = match v.get("range") {
            Some(f) => match Range::read(f) {
                Some(range) => range,
                None => vstd::pervasive::unreached(),
            },
            None => vstd::pervasive::unreached(),
        };
        let severity: Option<i32> = match v.get("severity") {
            Some(f) => match f.int_between(i32::MIN as i64, i32::MAX as i64) {
                Some(n) => Some(n as i32),
                None => None,
            },
            None => None,
        };
        let message: String = match v.get("message") {
            Some(f) => match f.text() {
                Some(s) => s.clone(),
                None => vstd::pervasive::unreached(),
            },
            None => vstd::pervasive::unreached(),
        };
        let extra: Vec<(String, Json)> = match v {
            Json::Object(members) => keep_extra(members),
            _ => vstd::pervasive::unreached(),
        };
        Diagnostic { range, severity, message, extra }
    }

    /// The diagnostic as JSON.
    pub fn to_json(&self) -> (r: Json)
        ensures
            r@ == diagnostic_json(self@),
    {
        let mut members: Vec<(String, Json)> = keep_extra(&self.extra);
        add_member(&mut members, "range", self.range.to_json());
        add_member(&mut members, "message", Json::Text(self.message.clone()));
        match self.severity {
            Some(n) => {
                add_member(&mut members, "severity", Json::Signed(n as i64));
            },
            None => {},
        }
        Json::Object(members)
    }
}

impl Clone for Diagnostic {
    fn clone(&self) -> (r: Diagnostic)
        ensures
            r@ == self@,
    {
        Diagnostic {
            range: self.range,
            severity: self.severity,
            message: self.message.clone(),
            extra: Json::clone_members(&self.extra),
        }
    }
}

/// Copies of some diagnostics.
pub fn copy_diagnostics(list: &Vec<Diagnostic>) -> (r: Vec<Diagnostic>)
    ensures
        diagnostics_view(r@) == diagnostics_view(list@),
{
    let mut out: Vec<Diagnostic> = Vec::new();
    let mut i: usize = 0;
    while i < list.len()
        invariant
            i == out@.len(),
            i <= list@.len(),
            forall|k: int| 0 <= k < i ==> (#[trigger] out@[k])@ == list@[k]@,
        decreases list@.len() - i,
    {
        out.push(list[i].clone());
        i += 1;
    }
    assert(diagnostics_view(out@) == diagnostics_view(list@));
    out
}

/// Some diagnostics as JSON.
pub fn write_diagnostics(list: &Vec<Diagnostic>) -> (r: Json)
    ensures
        r@ == diagnostics_json(diagnostics_view(list@)),
{
    let mut out: Vec<Json> = Vec::new();
    let mut i: usize = 0;
    while i < list.len()
        invariant
            i == out@.len(),
            i <= list@.len(),
            forall|k: int| 0 <= k < i ==> (#[trigger] out@[k])@ == diagnostic_json(list@[k]@),
        decreases list@.len() - i,
    {
        out.push(list[i].to_json());
        i += 1;
    }
    assert forall|k: int| 0 <= k < out@.len() implies items_view(out@)[k] == diagnostic_json(
        diagnostics_view(list@)[k],
    ) by {
        assert(out@[k]@ == diagnostic_json(list@[k]@));
    }
    assert(items_view(out@) == diagnostics_json(diagnostics_view(list@))->Array_0);
    Json::Array(out)
}

/// Whether `lsp_types` reads these diagnostics from their JSON unchanged.
pub open spec fn settled(s: Seq<DiagnosticView>) -> bool {
    diagnostics_from(diagnostics_json(s)) == Some(s)
}

/// The diagnostics that a value gives, as `lsp_types` reads it. A list of
/// diagnostics in the written form that hold no more than a range, a severity
/// and a message is read unchanged.
pub fn read_diagnostics(v: &Json) -> (r: Option<Vec<Diagnostic>>)
    ensures
        match r {
            Some(list) => diagnostics_from(v@) == Some(diagnostics_view(list@)) && settled(
                diagnostics_view(list@),
            ),
            None => diagnostics_from(v@) is None,
        },
        is_plain_list(v@) ==> r is Some && diagnostics_json(diagnostics_view(r->0@)) == v@,
{
    proof {
        if is_plain_list(v@) {
            lemma_plain_list_fits(v@);
        }
    }
    if !all_uris_fit(v) {
        return None;
    }
    let value: serde_json::Value = match diagnostic_values(&v.to_value()) {
        Some(value) => value,
        None => return None,
    };
    let written: Json = Json::from_value(value);
    let items: &Vec<Json> = match &written {
        Json::Array(items) => items,
        _ => vstd::pervasive::unreached(),
    };
    let ghost all = lsp_diagnostics(v@)->0;
    let mut out: Vec<Diagnostic> = Vec::new();
    let mut i: usize = 0;
    while i < items.len()
        invariant
            i == out@.len(),
            i <= items@.len(),
            items_view(items@) == all,
            forall|k: int| 0 <= k < all.len() ==> is_diagnostic(#[trigger] all[k]),
            forall|k: int| 0 <= k < i ==> (#[trigger] out@[k])@ == diagnostic_from(all[k]),
        decreases items@.len() - i,
    {
        assert(items_view(items@)[i as int] == items@[i as int]@);
        out.push(Diagnostic::read(&items[i]));
        i += 1;
    }
    proof {
        let views = diagnostics_view(out@);
        assert forall|k: int| 0 <= k < all.len() implies diagnostic_json(#[trigger] views[k])
            == all[k] by {
            assert(out@[k]@ == diagnostic_from(all[k]));
            lemma_diagnostic_json(all[k]);
        }
        assert(views == Seq::new(all.len(), |k: int| diagnostic_from(all[k])));
        assert(diagnostics_json(views)->Array_0 =~= all);
    }
    Some(out)
}

/// An empty list of diagnostics.
pub fn no_diagnostics() -> (r: Vec<Diagnostic>)
    ensures
        r@.len() == 0,
        settled(diagnostics_view(r@)),
{
    let items: Vec<Json> = Vec::new();
    assert(items_view(items@) == Seq::<JsonView>::empty());
    match read_diagnostics(&Json::Array(items)) {
        Some(list) => list,
        None => vstd::pervasive::unreached(),
    }
}

} // verus!
