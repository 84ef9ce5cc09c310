//! JSON values, and their text by way of `serde_json`.
use vstd::prelude::*;
use crate::text::same_text;

verus! {

/// A JSON value as `serde_json` holds it.
#[verifier::external_type_specification]
#[verifier::external_body]
pub struct ExValue(serde_json::Value);

/// Why `serde_json` rejected a text.
#[verifier::external_type_specification]
#[verifier::external_body]
pub struct ExError(serde_json::Error);

/// The model of a JSON value. The members of an object have no order.
pub enum JsonView {
    Null,
    Bool(bool),
    /// A number that is held as an integer.
    Int(int),
    /// Any other number, by the text that `serde_json` writes for it.
    Float(Seq<char>),
    Text(Seq<char>),
    Array(Seq<JsonView>),
    Object(Map<Seq<char>, JsonView>),
}

impl JsonView {
    /// The member `key` of an object.
    pub open spec fn get(self, key: Seq<char>) -> Option<JsonView> {
        match self {
            JsonView::Object(m) => if m.dom().contains(key) {
                Some(m[key])
            } else {
                None
            },
            _ => None,
        }
    }

    /// Whether a record of `size` fields can be read from this value: an
    /// object, or an array that gives its fields in order.
    pub open spec fn is_record(self, size: nat) -> bool {
        match self {
            JsonView::Object(_) => true,
            JsonView::Array(items) => items.len() <= size,
            _ => false,
        }
    }

    /// The field `key` of a record, which an array gives at `index`.
    pub open spec fn field(self, index: int, key: Seq<char>) -> Option<JsonView> {
        match self {
            JsonView::Array(items) => if 0 <= index < items.len() {
                Some(items[index])
            } else {
                None
            },
            _ => self.get(key),
        }
    }

    /// The text of a string.
    pub open spec fn text(self) -> Option<Seq<char>> {
        match self {
            JsonView::Text(s) => Some(s),
            _ => None,
        }
    }

    /// An integer from `low` to `high`.
    pub open spec fn int_between(self, low: int, high: int) -> Option<int> {
        match self {
            JsonView::Int(n) => if low <= n <= high {
                Some(n)
            } else {
                None
            },
            _ => None,
        }
    }

    /// A record's field that holds a string.
    pub open spec fn text_field(self, index: int, key: Seq<char>) -> Option<Seq<char>> {
        match self.field(index, key) {
            Some(f) => f.text(),
            None => None,
        }
    }

    /// A record's field that holds a `u32`.
    pub open spec fn u32_field(self, index: int, key: Seq<char>) -> Option<u32> {
        match self.field(index, key) {
            Some(f) => match f.int_between(0, u32::MAX as int) {
                Some(n) => Some(n as u32),
                None => None,
            },
            None => None,
        }
    }

    /// Whether `serde_json` reads this value back from its own text: at most
    /// `depth` levels of arrays and objects, and no number but integers.
    pub open spec fn reads_back(self, depth: nat) -> bool
        decreases depth,
    {
        match self {
            JsonView::Float(_) => false,
            JsonView::Array(items) => depth > 0 && forall|i: int|
                0 <= i < items.len() ==> (#[trigger] items[i]).reads_back((depth - 1) as nat),
            JsonView::Object(m) => depth > 0 && forall|k: Seq<char>| #[trigger]
                m.dom().contains(k) ==> m[k].reads_back((depth - 1) as nat),
            _ => true,
        }
    }
}

/// A value that need not be there, where `null` stands for one that is not.
pub open spec fn present(v: Option<JsonView>) -> Option<JsonView> {
    match v {
        Some(JsonView::Null) => None,
        _ => v,
    }
}

/// How many levels of arrays and objects `serde_json` reads.
pub const MAX_DEPTH: u8 = 127;

/// The JSON value that a `serde_json::Value` is.
pub uninterp spec fn json_of(value: serde_json::Value) -> JsonView;

/// What `serde_json::from_str` reads from a text: nothing, where the text is
/// not JSON or is nested too deeply.
pub uninterp spec fn text_json(text: Seq<char>) -> Option<JsonView>;

/// The text that `serde_json` writes for an object with these members, in
/// this order.
pub uninterp spec fn object_text(members: Seq<(Seq<char>, JsonView)>) -> Seq<char>;

/// The text that `serde_json::to_string_pretty` writes for a value.
pub uninterp spec fn pretty_text(value: JsonView) -> Seq<char>;

/// A key of small letters, which stands in a text as it is.
pub open spec fn plain_key(key: Seq<char>) -> bool {
    forall|i: int| 0 <= i < key.len() ==> 'a' <= #[trigger] key[i] <= 'z'
}

/// The text of an object that has one more member at its end.
pub open spec fn with_member(object: Seq<char>, key: Seq<char>, value: Seq<char>) -> Seq<char> {
    object.drop_last() + seq![',', '"'] + key + seq!['"', ':'] + value + seq!['}']
}

/// Whether a text is read as an object that has `members`, which are some, and
/// ends with the brace that closes it.
pub open spec fn is_object_text(text: Seq<char>, members: Map<Seq<char>, JsonView>) -> bool {
    text.len() > 0 && text.last() == '}' && members != Map::<Seq<char>, JsonView>::empty()
        && text_json(text) == Some(JsonView::Object(members))
}

/// A number that is not an integer.
#[derive(Debug, PartialEq, Eq)]
pub struct Float {
    value: serde_json::Value,
}

impl Float {
    #[verifier::type_invariant]
    spec fn is_float(self) -> bool {
        json_of(self.value) is Float
    }

    /// The number's text.
    pub closed spec fn text(self) -> Seq<char> {
        json_of(self.value)->Float_0
    }
}

/// A JSON value. Of members with the same key the last counts.
#[derive(Debug, PartialEq, Eq)]
pub enum Json {
    Null,
    Bool(bool),
    Unsigned(u64),
    Signed(i64),
    Float(Float),
    Text(String),
    Array(Vec<Json>),
    Object(Vec<(String, Json)>),
}

impl View for Json {
    type V = JsonView;

    open spec fn view(&self) -> JsonView {
        json_view(*self)
    }
}

pub open spec fn json_view(j: Json) -> JsonView
    decreases j,
{
    match j {
        Json::Null => JsonView::Null,
        Json::Bool(b) => JsonView::Bool(b),
        Json::Unsigned(n) => JsonView::Int(n as int),
        Json::Signed(n) => JsonView::Int(n as int),
        Json::Float(f) => JsonView::Float(f.text()),
        Json::Text(s) => JsonView::Text(s@),
        Json::Array(items) => JsonView::Array(items_view(items@)),
        Json::Object(members) => JsonView::Object(members_view(members@)),
    }
}

pub open spec fn items_view(s: Seq<Json>) -> Seq<JsonView>
    decreases s,
{
    Seq::new(
        s.len(),
        |i: int|
            if 0 <= i < s.len() {
                json_view(s[i])
            } else {
                JsonView::Null
            },
    )
}

pub open spec fn members_view(s: Seq<(String, Json)>) -> Map<Seq<char>, JsonView>
    decreases s,
{
    if s.len() == 0 {
        Map::empty()
    } else {
        members_view(s.drop_last()).insert(s.last().0@, json_view(s.last().1))
    }
}

/// The members one by one, in their order.
pub open spec fn member_list(s: Seq<(String, Json)>) -> Seq<(Seq<char>, JsonView)> {
    Seq::new(s.len(), |i: int| (s[i].0@, json_view(s[i].1)))
}

/// The object that a list of members makes.
pub open spec fn list_map(list: Seq<(Seq<char>, JsonView)>) -> Map<Seq<char>, JsonView>
    decreases list.len(),
{
    if list.len() == 0 {
        Map::empty()
    } else {
        list_map(list.drop_last()).insert(list.last().0, list.last().1)
    }
}

/// Whether `serde_json` reads every member of an object back.
pub open spec fn members_read_back(list: Seq<(Seq<char>, JsonView)>) -> bool {
    forall|i: int| 0 <= i < list.len() ==> (#[trigger] list[i]).1.reads_back((MAX_DEPTH - 1) as nat)
}

/// The view of an object is what its list of members makes.
pub proof fn lemma_list_map(s: Seq<(String, Json)>)
    ensures
        members_view(s) == list_map(member_list(s)),
    decreases s.len(),
{
    if s.len() > 0 {
        lemma_list_map(s.drop_last());
        assert(member_list(s).drop_last() == member_list(s.drop_last()));
    }
}

/// The view of a value that need not be there.
pub open spec fn option_view(j: Option<Json>) -> Option<JsonView> {
    match j {
        Some(v) => Some(v@),
        None => None,
    }
}

/// One level of a `serde_json::Value`.
enum Node {
    Null,
    Bool(bool),
    Unsigned(u64),
    Signed(i64),
    Float(serde_json::Value),
    Text(String),
    Array(Vec<serde_json::Value>),
    Object(Vec<(String, serde_json::Value)>),
}

spec fn node_json(n: Node) -> JsonView {
    match n {
        Node::Null => JsonView::Null,
        Node::Bool(b) => JsonView::Bool(b),
        Node::Unsigned(n) => JsonView::Int(n as int),
        Node::Signed(n) => JsonView::Int(n as int),
        Node::Float(v) => json_of(v),
        Node::Text(s) => JsonView::Text(s@),
        Node::Array(items) => JsonView::Array(Seq::new(items@.len(), |i: int| json_of(items@[i]))),
        Node::Object(members) => JsonView::Object(values_map(members@)),
    }
}

spec fn values_map(s: Seq<(String, serde_json::Value)>) -> Map<Seq<char>, JsonView>
    decreases s.len(),
{
    if s.len() == 0 {
        Map::empty()
    } else {
        values_map(s.drop_last()).insert(s.last().0@, json_of(s.last().1))
    }
}

spec fn keys_differ(s: Seq<(String, serde_json::Value)>) -> bool {
    forall|i: int, j: int| 0 <= i < j < s.len() ==> s[i].0@ != s[j].0@
}

spec fn values_json(s: Seq<(String, serde_json::Value)>) -> Seq<(Seq<char>, JsonView)> {
    Seq::new(s.len(), |i: int| (s[i].0@, json_of(s[i].1)))
}

/// Takes a `serde_json::Value` apart by its variant, and a number by
/// `Number::as_u64` and `Number::as_i64`. What comes out is the same JSON
/// value; it is a `Float` only for a number that is neither a `u64` nor an
/// `i64`; and the members of an object come out with no key twice.
#[verifier::external_body]
fn open_value(value: serde_json::Value) -> (r: Node)
    ensures
        node_json(r) == json_of(value),
        r is Float ==> json_of(value) is Float,
        r matches Node::Object(m) ==> keys_differ(m@),
{
    match value {
        serde_json::Value::Null => Node::Null,
        serde_json::Value::Bool(b) => Node::Bool(b),
        serde_json::Value::Number(n) => match (n.as_u64(), n.as_i64()) {
            (Some(u), _) => Node::Unsigned(u),
            (None, Some(i)) => Node::Signed(i),
            (None, None) => Node::Float(serde_json::Value::Number(n)),
        },
        serde_json::Value::String(s) => Node::Text(s),
        serde_json::Value::Array(items) => Node::Array(items),
        serde_json::Value::Object(members) => Node::Object(members.into_iter().collect()),
    }
}

/// Builds a `serde_json::Value` of the variant that the node names. It is the
/// same JSON value. No two members may have the same key: of such members
/// `serde_json::Map` keeps one, and which one is not documented.
#[verifier::external_body]
fn close_value(node: Node) -> (r: serde_json::Value)
    requires
        node matches Node::Object(m) ==> keys_differ(m@),
    ensures
        json_of(r) == node_json(node),
{
    match node {
        Node::Null => serde_json::Value::Null,
        Node::Bool(b) => serde_json::Value::Bool(b),
        Node::Unsigned(n) => serde_json::Value::from(n),
        Node::Signed(n) => serde_json::Value::from(n),
        Node::Float(v) => v,
        Node::Text(s) => serde_json::Value::String(s),
        Node::Array(items) => serde_json::Value::Array(items),
        Node::Object(members) => serde_json::Value::Object(members.into_iter().collect()),
    }
}

/// Cloning a `serde_json::Value` keeps the JSON value.
pub assume_specification[ <serde_json::Value as Clone>::clone ](v: &serde_json::Value) -> (r:
    serde_json::Value)
    ensures
        json_of(r) == json_of(*v),
;

/// `serde_json::from_str` into a `serde_json::Value`. It succeeds on exactly
/// the texts of which `text_json` gives a value, and gives that value.
#[verifier::external_body]
fn read_value(text: &str) -> (r: Result<serde_json::Value, serde_json::Error>)
    ensures
        match r {
            Ok(v) => text_json(text@) == Some(json_of(v)),
            Err(_) => text_json(text@) is None,
        },
{
    serde_json::from_str(text)
}

/// `serde::Serializer::collect_map` on a compact `serde_json::Serializer`,
/// which writes the members one after the other. The text begins with `{`,
/// ends with `}` and, control characters being escaped, holds no line feed;
/// and `serde_json::from_str` reads the members back from it where none holds
/// a number with a fraction or an exponent, or is nested too deeply. So it does
/// where the text is the value of a further member at the end of an object.
#[verifier::external_body]
fn write_members(members: Vec<(String, serde_json::Value)>) -> (r: String)
    ensures
        r@ == object_text(values_json(members@)),
        r@.len() >= 2,
        r@[0] == '{',
        r@.last() == '}',
        !r@.contains('\n'),
        (forall|i: int|
            0 <= i < members@.len() ==> json_of(#[trigger] members@[i].1).reads_back(
                (MAX_DEPTH - 1) as nat,
            )) ==> text_json(r@) == Some(JsonView::Object(values_map(members@))),
        (forall|i: int|
            0 <= i < members@.len() ==> json_of(#[trigger] members@[i].1).reads_back(
                (MAX_DEPTH - 2) as nat,
            )) ==> forall|outer: Seq<char>, m: Map<Seq<char>, JsonView>, key: Seq<char>|
            #![trigger is_object_text(outer, m), with_member(outer, key, r@)]
            is_object_text(outer, m) && plain_key(key) ==> text_json(with_member(outer, key, r@))
                == Some(JsonView::Object(m.insert(key, JsonView::Object(values_map(members@))))),
{
    let mut out = Vec::new();
    serde::Serializer::collect_map(&mut serde_json::Serializer::new(&mut out), members).unwrap();
    String::from_utf8(out).unwrap()
}

/// `serde_json::to_string_pretty` of a `serde_json::Value`, which does not
/// fail.
#[verifier::external_body]
fn write_pretty(value: &serde_json::Value) -> (r: String)
    ensures
        r@ == pretty_text(json_of(*value)),
{
    serde_json::to_string_pretty(value).unwrap_or_default()
}

/// A text that `serde_json` does not read.
#[derive(Debug, Clone, Copy, PartialEq, Eq)]
pub struct NotJson;

/// The members as one level of `serde_json` values, given the values.
proof fn lemma_same_members(s: Seq<(String, Json)>, t: Seq<(String, serde_json::Value)>)
    requires
        s.len() == t.len(),
        forall|i: int|
            0 <= i < s.len() ==> #[trigger] t[i].0@ == s[i].0@ && json_of(t[i].1) == json_view(
                s[i].1,
            ),
    ensures
        members_view(s) == values_map(t),
    decreases s.len(),
{
    if s.len() > 0 {
        let n = s.len() - 1;
        assert forall|i: int| 0 <= i < n implies #[trigger] t.drop_last()[i].0@
            == s.drop_last()[i].0@ && json_of(t.drop_last()[i].1) == json_view(
            s.drop_last()[i].1,
        ) by {
            assert(t[i].0@ == s[i].0@);
        }
        lemma_same_members(s.drop_last(), t.drop_last());
        assert(t[n].0@ == s[n].0@);
    }
}

/// A member whose key does not come again is what the view has under the key.
pub proof fn lemma_member(s: Seq<(String, Json)>, i: int)
    requires
        0 <= i < s.len(),
        forall|j: int| i < j < s.len() ==> (#[trigger] s[j]).0@ != s[i].0@,
    ensures
        members_view(s).dom().contains(s[i].0@),
        members_view(s)[s[i].0@] == json_view(s[i].1),
    decreases s.len(),
{
    if i < s.len() - 1 {
        assert(s[s.len() - 1].0@ != s[i].0@);
        assert forall|j: int| i < j < s.drop_last().len() implies (#[trigger] s.drop_last()[j]).0@
            != s.drop_last()[i].0@ by {
            assert(s[j].0@ != s[i].0@);
        }
        lemma_member(s.drop_last(), i);
    }
}

/// A key that no member has is not in the view.
pub proof fn lemma_no_member(s: Seq<(String, Json)>, key: Seq<char>)
    requires
        forall|i: int| 0 <= i < s.len() ==> (#[trigger] s[i]).0@ != key,
    ensures
        !members_view(s).dom().contains(key),
    decreases s.len(),
{
    if s.len() > 0 {
        assert(s[s.len() - 1].0@ != key);
        assert forall|i: int| 0 <= i < s.drop_last().len() implies (#[trigger] s.drop_last()[i]).0@
            != key by {
            assert(s[i].0@ != key);
        }
        lemma_no_member(s.drop_last(), key);
    }
}

proof fn lemma_values_map_member(s: Seq<(String, serde_json::Value)>, i: int)
    requires
        0 <= i < s.len(),
        forall|j: int, k: int| 0 <= j < k < s.len() ==> s[j].0@ != s[k].0@,
    ensures
        values_map(s).dom().contains(s[i].0@),
        values_map(s)[s[i].0@] == json_of(s[i].1),
    decreases s.len(),
{
    if i < s.len() - 1 {
        lemma_values_map_member(s.drop_last(), i);
    }
}

proof fn lemma_values_map_finite(s: Seq<(String, serde_json::Value)>)
    ensures
        values_map(s).dom().finite(),
    decreases s.len(),
{
    if s.len() > 0 {
        lemma_values_map_finite(s.drop_last());
    }
}

proof fn lemma_no_value(s: Seq<(String, serde_json::Value)>, key: Seq<char>)
    requires
        forall|i: int| 0 <= i < s.len() ==> (#[trigger] s[i]).0@ != key,
    ensures
        !values_map(s).dom().contains(key),
    decreases s.len(),
{
    if s.len() > 0 {
        assert(s[s.len() - 1].0@ != key);
        assert forall|i: int| 0 <= i < s.drop_last().len() implies (#[trigger] s.drop_last()[i]).0@
            != key by {
            assert(s[i].0@ != key);
        }
        lemma_no_value(s.drop_last(), key);
    }
}

proof fn lemma_value_removed(s: Seq<(String, serde_json::Value)>, j: int)
    requires
        0 <= j < s.len(),
        keys_differ(s),
    ensures
        values_map(s.remove(j)) == values_map(s).remove(s[j].0@),
        forall|i: int| 0 <= i < s.len() - 1 ==> (#[trigger] s.remove(j)[i]).0@ != s[j].0@,
    decreases s.len(),
{
    let n = s.len() - 1;
    let front = s.drop_last();
    if j == n {
        assert(s.remove(j) == front);
        lemma_no_value(front, s[j].0@);
        assert(values_map(s).remove(s[j].0@) == values_map(front));
    } else {
        lemma_value_removed(front, j);
        assert(s.remove(j).drop_last() == front.remove(j));
        assert(s.remove(j).last() == s[n]);
        let (k, v) = (s[n].0@, json_of(s[n].1));
        assert(values_map(front).remove(s[j].0@).insert(k, v) == values_map(front).insert(
            k,
            v,
        ).remove(s[j].0@));
    }
}

/// Drops the member with a key, if there is one.
fn drop_key(values: &mut Vec<(String, serde_json::Value)>, key: &str)
    requires
        keys_differ(old(values)@),
    ensures
        keys_differ(final(values)@),
        values_map(final(values)@) == values_map(old(values)@).remove(key@),
        forall|i: int| 0 <= i < final(values)@.len() ==> (#[trigger] final(values)@[i]).0@ != key@,
{
    let mut i: usize = 0;
    while i < values.len()
        invariant
            i <= values@.len(),
            values@ == old(values)@,
            keys_differ(values@),
            forall|j: int| 0 <= j < i ==> (#[trigger] values@[j]).0@ != key@,
        decreases values@.len() - i,
    {
        if same_text(values[i].0.as_str(), key) {
            proof {
                lemma_value_removed(values@, i as int);
            }
            let _ = values.remove(i);
            return;
        }
        i += 1;
    }
    proof {
        lemma_no_value(values@, key@);
        assert(values_map(values@).remove(key@) == values_map(values@));
    }
}

impl Json {
    pub(crate) fn from_value(value: serde_json::Value) -> (r: Json)
        ensures
            r@ == json_of(value),
        decreases json_of(value),
    {
        match open_value(value) {
            Node::Null => Json::Null,
            Node::Bool(b) => Json::Bool(b),
            Node::Unsigned(n) => Json::Unsigned(n),
            Node::Signed(n) => Json::Signed(n),
            Node::Float(v) => Json::Float(Float { value: v }),
            Node::Text(s) => Json::Text(s),
            Node::Array(items) => {
                let mut out: Vec<Json> = Vec::new();
                let ghost all = items@;
                for item in it: items
                    invariant
                        it.seq() == all,
                        json_of(value) == JsonView::Array(
                            Seq::new(all.len(), |i: int| json_of(all[i])),
                        ),
                        out@.len() == it.index(),
                        forall|i: int| 0 <= i < out@.len() ==> #[trigger] out@[i]@ == json_of(
                            all[i],
                        ),
                {
                    assert(json_of(value)->Array_0[it.index()] == json_of(item));
                    out.push(Json::from_value(item));
                }
                assert forall|i: int| 0 <= i < out@.len() implies items_view(out@)[i] == json_of(
                    all[i],
                ) by {
                    assert(out@[i]@ == json_of(all[i]));
                }
                assert(items_view(out@) == json_of(value)->Array_0);
                Json::Array(out)
            },
            Node::Object(members) => {
                let mut out: Vec<(String, Json)> = Vec::new();
                let ghost all = members@;
                for member in it: members
                    invariant
                        it.seq() == all,
                        json_of(value) == JsonView::Object(values_map(all)),
                        forall|i: int, j: int| 0 <= i < j < all.len() ==> all[i].0@ != all[j].0@,
                        out@.len() == it.index(),
                        forall|i: int|
                            0 <= i < out@.len() ==> #[trigger] all[i].0@ == out@[i].0@ && json_of(
                                all[i].1,
                            ) == json_view(out@[i].1),
                {
                    proof {
                        lemma_values_map_member(all, it.index());
                        lemma_values_map_finite(all);
                        assert(json_of(value)->Object_0[member.0@] == json_of(member.1));
                    }
                    out.push((member.0, Json::from_value(member.1)));
                }
                proof {
                    lemma_same_members(out@, all);
                }
                Json::Object(out)
            },
        }
    }

    pub(crate) fn to_value(&self) -> (r: serde_json::Value)
        ensures
            json_of(r) == self@,
        decreases self,
    {
        let node: Node = match self {
            Json::Null => Node::Null,
            Json::Bool(b) => Node::Bool(*b),
            Json::Unsigned(n) => Node::Unsigned(*n),
            Json::Signed(n) => Node::Signed(*n),
            Json::Float(f) => {
                proof {
                    use_type_invariant(f);
                }
                Node::Float(f.value.clone())
            },
            Json::Text(s) => Node::Text(s.clone()),
            Json::Array(items) => Node::Array(Json::item_values(items)),
            Json::Object(members) => Node::Object(Json::last_values(members)),
        };
        close_value(node)
    }

    fn item_values(items: &Vec<Json>) -> (r: Vec<serde_json::Value>)
        ensures
            Seq::new(r@.len(), |i: int| json_of(r@[i])) == items_view(items@),
        decreases items,
    {
        let mut out: Vec<serde_json::Value> = Vec::new();
        let mut i: usize = 0;
        while i < items.len()
            invariant
                i == out@.len(),
                i <= items@.len(),
                forall|k: int| 0 <= k < i ==> json_of(#[trigger] out@[k]) == json_view(items@[k]),
            decreases items@.len() - i,
        {
            out.push(items[i].to_value());
            i += 1;
        }
        out
    }

    fn member_values(members: &Vec<(String, Json)>) -> (r: Vec<(String, serde_json::Value)>)
        ensures
            values_map(r@) == members_view(members@),
            values_json(r@) == member_list(members@),
        decreases members,
    {
        let mut out: Vec<(String, serde_json::Value)> = Vec::new();
        let mut i: usize = 0;
        while i < members.len()
            invariant
                i == out@.len(),
                i <= members@.len(),
                forall|k: int|
                    0 <= k < i ==> #[trigger] out@[k].0@ == members@[k].0@ && json_of(out@[k].1)
                        == json_view(members@[k].1),
            decreases members@.len() - i,
        {
            let value: serde_json::Value = members[i].1.to_value();
            out.push((members[i].0.clone(), value));
            i += 1;
        }
        proof {
            lemma_same_members(members@, out@);
            assert forall|k: int| 0 <= k < out@.len() implies values_json(out@)[k] == member_list(
                members@,
            )[k] by {
                assert(out@[k].0@ == members@[k].0@);
            }
            assert(values_json(out@) == member_list(members@));
        }
        out
    }

    /// The members that count: of those with the same key, the last.
    fn last_values(members: &Vec<(String, Json)>) -> (r: Vec<(String, serde_json::Value)>)
        ensures
            values_map(r@) == members_view(members@),
            keys_differ(r@),
        decreases members,
    {
        let mut out: Vec<(String, serde_json::Value)> = Vec::new();
        let mut i: usize = 0;
        assert(members@.take(0) == Seq::<(String, Json)>::empty());
        while i < members.len()
            invariant
                i <= members@.len(),
                values_map(out@) == members_view(members@.take(i as int)),
                keys_differ(out@),
            decreases members@.len() - i,
        {
            let value: serde_json::Value = members[i].1.to_value();
            let key: String = members[i].0.clone();
            drop_key(&mut out, key.as_str());
            let ghost before = out@;
            out.push((key, value));
            proof {
                assert(out@.drop_last() == before);
                assert(members@.take(i + 1).drop_last() == members@.take(i as int));
                let m = members_view(members@.take(i as int));
                assert(m.remove(key@).insert(key@, json_of(value)) == m.insert(
                    key@,
                    json_of(value),
                ));
            }
            i += 1;
        }
        assert(members@.take(i as int) == members@);
        out
    }

    fn clone_items(items: &Vec<Json>) -> (r: Vec<Json>)
        ensures
            items_view(r@) == items_view(items@),
        decreases items,
    {
        let mut out: Vec<Json> = Vec::new();
        let mut i: usize = 0;
        while i < items.len()
            invariant
                i == out@.len(),
                i <= items@.len(),
                forall|k: int| 0 <= k < i ==> (#[trigger] out@[k])@ == items@[k]@,
            decreases items@.len() - i,
        {
            out.push(items[i].clone());
            i += 1;
        }
        assert forall|k: int| 0 <= k < out@.len() implies items_view(out@)[k] == items_view(
            items@,
        )[k] by {
            assert(out@[k]@ == items@[k]@);
        }
        out
    }

    pub(crate) fn clone_members(members: &Vec<(String, Json)>) -> (r: Vec<(String, Json)>)
        ensures
            members_view(r@) == members_view(members@),
        decreases members,
    {
        let mut out: Vec<(String, Json)> = Vec::new();
        let mut i: usize = 0;
        while i < members.len()
            invariant
                i == out@.len(),
                i <= members@.len(),
                forall|k: int|
                    0 <= k < i ==> (#[trigger] out@[k]).0@ == members@[k].0@ && out@[k].1@
                        == members@[k].1@,
            decreases members@.len() - i,
        {
            let value: Json = members[i].1.clone();
            out.push((members[i].0.clone(), value));
            i += 1;
        }
        proof {
            lemma_equal_members(out@, members@);
        }
        out
    }

    /// Reads a JSON text.
    pub fn parse(text: &str) -> (r: Result<Json, NotJson>)
        ensures
            match r {
                Ok(j) => text_json(text@) == Some(j@),
                Err(_) => text_json(text@) is None,
            },
    {
        match read_value(text) {
            Ok(value) => Ok(Json::from_value(value)),
            Err(_) => Err(NotJson),
        }
    }

    /// The value's text over several lines, indented.
    pub fn pretty(&self) -> (r: String)
        ensures
            r@ == pretty_text(self@),
    {
        write_pretty(&self.to_value())
    }

    /// The member `key` of an object.
    pub fn get(&self, key: &str) -> (r: Option<&Json>)
        ensures
            match r {
                Some(v) => self@.get(key@) == Some(v@),
                None => self@.get(key@) is None,
            },
    {
        match self {
            Json::Object(members) => {
                let mut i: usize = members.len();
                while i > 0
                    invariant
                        *self == Json::Object(*members),
                        i <= members@.len(),
                        forall|j: int| i <= j < members@.len() ==> (#[trigger] members@[j]).0@
                            != key@,
                    decreases i,
                {
                    i -= 1;
                    if same_text(members[i].0.as_str(), key) {
                        proof {
                            lemma_member(members@, i as int);
                        }
                        return Some(&members[i].1);
                    }
                }
                proof {
                    lemma_no_member(members@, key@);
                }
                None
            },
            _ => None,
        }
    }

    /// Whether a record of `size` fields can be read from this value.
    pub fn is_record(&self, size: usize) -> (r: bool)
        ensures
            r == self@.is_record(size as nat),
    {
        match self {
            Json::Object(_) => true,
            Json::Array(items) => items.len() <= size,
            _ => false,
        }
    }

    /// The field `key` of a record, which an array gives at `index`.
    pub fn field(&self, index: usize, key: &str) -> (r: Option<&Json>)
        ensures
            match r {
                Some(v) => self@.field(index as int, key@) == Some(v@),
                None => self@.field(index as int, key@) is None,
            },
    {
        match self {
            Json::Array(items) => if index < items.len() {
                assert(self@->Array_0[index as int] == items@[index as int]@);
                Some(&items[index])
            } else {
                None
            },
            _ => self.get(key),
        }
    }

    /// The text of a string.
    pub fn text(&self) -> (r: Option<&String>)
        ensures
            match r {
                Some(s) => self@.text() == Some(s@),
                None => self@.text() is None,
            },
    {
        match self {
            Json::Text(s) => Some(s),
            _ => None,
        }
    }

    /// An integer from `low` to `high`.
    pub fn int_between(&self, low: i64, high: i64) -> (r: Option<i64>)
        ensures
            match r {
                Some(n) => self@.int_between(low as int, high as int) == Some(n as int),
                None => self@.int_between(low as int, high as int) is None,
            },
    {
        let n: i128 = match self {
            Json::Unsigned(n) => *n as i128,
            Json::Signed(n) => *n as i128,
            _ => return None,
        };
        if low as i128 <= n && n <= high as i128 {
            Some(n as i64)
        } else {
            None
        }
    }

    /// A record's field that holds a string.
    pub fn text_field(&self, index: usize, key: &str) -> (r: Option<String>)
        ensures
            match r {
                Some(s) => self@.text_field(index as int, key@) == Some(s@),
                None => self@.text_field(index as int, key@) is None,
            },
    {
        match self.field(index, key) {
            Some(f) => match f.text() {
                Some(s) => Some(s.clone()),
                None => None,
            },
            None => None,
        }
    }

    /// A record's field that holds a `u32`.
    pub fn u32_field(&self, index: usize, key: &str) -> (r: Option<u32>)
        ensures
            r == self@.u32_field(index as int, key@),
    {
        match self.field(index, key) {
            Some(f) => match f.int_between(0, u32::MAX as i64) {
                Some(n) => Some(n as u32),
                None => None,
            },
            None => None,
        }
    }
}

impl Clone for Json {
    fn clone(&self) -> (r: Json)
        ensures
            r@ == self@,
        decreases self,
    {
        match self {
            Json::Null => Json::Null,
            Json::Bool(b) => Json::Bool(*b),
            Json::Unsigned(n) => Json::Unsigned(*n),
            Json::Signed(n) => Json::Signed(*n),
            Json::Float(f) => {
                proof {
                    use_type_invariant(f);
                }
                Json::Float(Float { value: f.value.clone() })
            },
            Json::Text(s) => Json::Text(s.clone()),
            Json::Array(items) => Json::Array(Json::clone_items(items)),
            Json::Object(members) => Json::Object(Json::clone_members(members)),
        }
    }
}

proof fn lemma_equal_members(s: Seq<(String, Json)>, t: Seq<(String, Json)>)
    requires
        s.len() == t.len(),
        forall|k: int|
            0 <= k < s.len() ==> (#[trigger] s[k]).0@ == t[k].0@ && s[k].1@ == t[k].1@,
    ensures
        members_view(s) == members_view(t),
    decreases s.len(),
{
    if s.len() > 0 {
        let n = s.len() - 1;
        assert forall|k: int| 0 <= k < n implies (#[trigger] s.drop_last()[k]).0@
            == t.drop_last()[k].0@ && s.drop_last()[k].1@ == t.drop_last()[k].1@ by {
            assert(s[k].0@ == t[k].0@);
        }
        lemma_equal_members(s.drop_last(), t.drop_last());
        assert(s[n].0@ == t[n].0@);
    }
}

/// Adds a member to an object under construction.
pub fn add_member(members: &mut Vec<(String, Json)>, key: &str, value: Json)
    ensures
        members_view(final(members)@) == members_view(old(members)@).insert(key@, value@),
        member_list(final(members)@) == member_list(old(members)@).push((key@, value@)),
{
    let ghost before = members@;
    members.push((key.to_string(), value));
    assert(members@.drop_last() == before);
}

/// A copy of a value that need not be there, where `null` stands for one that
/// is not.
pub fn copy_present(value: Option<&Json>) -> (r: Option<Json>)
    ensures
        option_view(r) == present(
            match value {
                Some(v) => Some(v@),
                None => None,
            },
        ),
{
    match value {
        Some(Json::Null) => None,
        Some(v) => Some(v.clone()),
        None => None,
    }
}

/// The text of an object with these members, in this order. Where no member
/// holds a number with a fraction or an exponent, or is nested too deeply, the
/// members are read back from it, also where it is the value of a further
/// member at the end of an object.
pub fn write_object(members: &Vec<(String, Json)>) -> (r: String)
    ensures
        r@ == object_text(member_list(members@)),
        r@.len() >= 2,
        r@[0] == '{',
        r@.last() == '}',
        !r@.contains('\n'),
        members_read_back(member_list(members@)) ==> text_json(r@) == Some(
            JsonView::Object(list_map(member_list(members@))),
        ),
        (forall|i: int|
            0 <= i < members@.len() ==> (#[trigger] member_list(members@)[i]).1.reads_back(
                (MAX_DEPTH - 2) as nat,
            )) ==> forall|outer: Seq<char>, m: Map<Seq<char>, JsonView>, key: Seq<char>|
            #![trigger is_object_text(outer, m), with_member(outer, key, r@)]
            is_object_text(outer, m) && plain_key(key) ==> text_json(with_member(outer, key, r@))
                == Some(
                JsonView::Object(
                    m.insert(key, JsonView::Object(list_map(member_list(members@)))),
                ),
            ),
{
    let values: Vec<(String, serde_json::Value)> = Json::member_values(members);
    proof {
        lemma_list_map(members@);
        let list = member_list(members@);
        assert(values_json(values@).len() == list.len());
        assert forall|i: int| 0 <= i < values@.len() implies json_of(#[trigger] values@[i].1)
            == list[i].1 by {
            assert(values_json(values@)[i] == list[i]);
        }
        assert forall|i: int|
            members_read_back(list) && 0 <= i < values@.len() implies json_of(
            #[trigger] values@[i].1,
        ).reads_back((MAX_DEPTH - 1) as nat) by {
            assert(values_json(values@)[i] == list[i]);
        }
    }
    write_members(values)
}

} // verus!
