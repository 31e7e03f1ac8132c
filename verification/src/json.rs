//! JSON documents, and the calls into `serde_json` that read and write them.

use vstd::prelude::*;
use crate::text;

verus! {

/// A JSON document.
///
/// A number keeps its value when it is an integer; any other number is only
/// known to be one. A key that an object lists twice counts once, with the
/// value listed last.
#[derive(Debug, PartialEq)]
pub enum Json {
    Null,
    Bool(bool),
    Number(Option<i128>),
    Str(String),
    Array(Vec<Json>),
    Object(Vec<(String, Json)>),
}

/// What a [`Json`] document says.
pub enum JsonValue {
    Null,
    Bool(bool),
    Number(Option<i128>),
    Str(Seq<char>),
    Array(Seq<JsonValue>),
    Object(Map<Seq<char>, JsonValue>),
}

pub open spec fn json_value(j: Json) -> JsonValue
    decreases j,
{
    match j {
        Json::Null => JsonValue::Null,
        Json::Bool(b) => JsonValue::Bool(b),
        Json::Number(n) => JsonValue::Number(n),
        Json::Str(s) => JsonValue::Str(s@),
        Json::Array(v) => JsonValue::Array(json_values(v@)),
        Json::Object(v) => JsonValue::Object(json_members(v@)),
    }
}

pub open spec fn json_values(s: Seq<Json>) -> Seq<JsonValue>
    decreases s,
{
    if s.len() == 0 {
        Seq::empty()
    } else {
        json_values(s.drop_last()).push(json_value(s.last()))
    }
}

pub open spec fn json_members(s: Seq<(String, Json)>) -> Map<Seq<char>, JsonValue>
    decreases s,
{
    if s.len() == 0 {
        Map::empty()
    } else {
        json_members(s.drop_last()).insert(s.last().0@, json_value(s.last().1))
    }
}

impl View for Json {
    type V = JsonValue;

    open spec fn view(&self) -> JsonValue {
        json_value(*self)
    }
}

pub proof fn lemma_json_values(s: Seq<Json>)
    ensures
        json_values(s).len() == s.len(),
        forall|i: int| 0 <= i < s.len() ==> #[trigger] json_values(s)[i] == s[i]@,
    decreases s.len(),
{
    if s.len() > 0 {
        lemma_json_values(s.drop_last());
        assert forall|i: int| 0 <= i < s.len() implies #[trigger] json_values(s)[i] == s[i]@ by {
            if i < s.len() - 1 {
                assert(s.drop_last()[i] == s[i]);
                assert(json_values(s.drop_last())[i] == s.drop_last()[i]@);
            }
        }
    }
}

// ---------------------------------------------------------------------------
// Reading a document
// ---------------------------------------------------------------------------

/// The member of an object under a key; of anything else, nothing.
pub open spec fn member(v: JsonValue, key: Seq<char>) -> Option<JsonValue> {
    match v {
        JsonValue::Object(m) => if m.dom().contains(key) {
            Some(m[key])
        } else {
            None
        },
        _ => None,
    }
}

/// The text of a JSON string; of anything else, nothing.
pub open spec fn text_of(v: JsonValue) -> Option<Seq<char>> {
    match v {
        JsonValue::Str(s) => Some(s),
        _ => None,
    }
}

/// The items of a JSON array; of anything else, nothing.
pub open spec fn items_of(v: JsonValue) -> Option<Seq<JsonValue>> {
    match v {
        JsonValue::Array(s) => Some(s),
        _ => None,
    }
}

/// The text under a key, where there is a string.
pub open spec fn member_text(v: JsonValue, key: Seq<char>) -> Option<Seq<char>> {
    match member(v, key) {
        Some(x) => text_of(x),
        None => None,
    }
}

/// The items under a key, where there is an array.
pub open spec fn member_items(v: JsonValue, key: Seq<char>) -> Option<Seq<JsonValue>> {
    match member(v, key) {
        Some(x) => items_of(x),
        None => None,
    }
}

/// What an optional borrowed string says.
pub open spec fn opt_text(o: Option<&str>) -> Option<Seq<char>> {
    match o {
        Some(s) => Some(s@),
        None => None,
    }
}

/// What an optional owned string says.
pub open spec fn opt_string(o: Option<String>) -> Option<Seq<char>> {
    match o {
        Some(s) => Some(s@),
        None => None,
    }
}

/// What an optional borrowed document says.
pub open spec fn opt_json(o: Option<&Json>) -> Option<JsonValue> {
    match o {
        Some(j) => Some(j@),
        None => None,
    }
}

impl Json {
    /// The member of an object under `key`; of anything else, nothing.
    pub fn get(&self, key: &str) -> (res: Option<&Json>)
        ensures
            opt_json(res) == member(self@, key@),
    {
        match self {
            Json::Object(v) => {
                let mut i: usize = v.len();
                assert(v@.take(i as int) == v@);
                while i > 0
                    invariant
                        i <= v@.len(),
                        self@ == JsonValue::Object(json_members(v@)),
                        json_members(v@).dom().contains(key@) == json_members(
                            v@.take(i as int),
                        ).dom().contains(key@),
                        json_members(v@)[key@] == json_members(v@.take(i as int))[key@],
                    decreases i,
                {
                    assert(v@.take(i as int).drop_last() == v@.take(i - 1));
                    assert(v@.take(i as int).last() == v@[i - 1]);
                    if v[i - 1].0.as_str().eq(key) {
                        return Some(&v[i - 1].1);
                    }
                    i = i - 1;
                }
                assert(v@.take(0).len() == 0);
                None
            },
            _ => None,
        }
    }

    /// The text of a JSON string; of anything else, nothing.
    pub fn as_str(&self) -> (res: Option<&str>)
        ensures
            opt_text(res) == text_of(self@),
    {
        match self {
            Json::Str(s) => Some(s.as_str()),
            _ => None,
        }
    }

    /// The items of a JSON array; of anything else, nothing.
    pub fn as_array(&self) -> (res: Option<&Vec<Json>>)
        ensures
            match res {
                Some(v) => items_of(self@) == Some(json_values(v@)),
                None => items_of(self@) is None,
            },
    {
        match self {
            Json::Array(v) => Some(v),
            _ => None,
        }
    }

    /// The text under `key`, where there is a string.
    pub fn get_str(&self, key: &str) -> (res: Option<&str>)
        ensures
            opt_text(res) == member_text(self@, key@),
    {
        match self.get(key) {
            Some(x) => x.as_str(),
            None => None,
        }
    }

    /// The items under `key`, where there is an array.
    pub fn get_array(&self, key: &str) -> (res: Option<&Vec<Json>>)
        ensures
            match res {
                Some(v) => member_items(self@, key@) == Some(json_values(v@)),
                None => member_items(self@, key@) is None,
            },
    {
        match self.get(key) {
            Some(x) => x.as_array(),
            None => None,
        }
    }

    /// A document that says the same.
    pub fn duplicate(&self) -> (res: Json)
        ensures
            res@ == self@,
        decreases self,
    {
        match self {
            Json::Null => Json::Null,
            Json::Bool(b) => Json::Bool(*b),
            Json::Number(n) => Json::Number(*n),
            Json::Str(s) => Json::Str(s.clone()),
            Json::Array(v) => {
                let mut out: Vec<Json> = Vec::new();
                let mut i: usize = 0;
                while i < v.len()
                    invariant
                        i <= v@.len(),
                        *self == Json::Array(*v),
                        json_values(out@) == json_values(v@.take(i as int)),
                    decreases v@.len() - i,
                {
                    let ghost before = out@;
                    assert(decreases_to!(*self => self->Array_0));
                    assert(decreases_to!(v => v@));
                    assert(decreases_to!(v@ => v@[i as int]));
                    let x = v[i].duplicate();
                    out.push(x);
                    proof {
                        assert(out@.drop_last() == before);
                        assert(v@.take(i + 1).drop_last() == v@.take(i as int));
                    }
                    i = i + 1;
                }
                assert(v@.take(v@.len() as int) == v@);
                Json::Array(out)
            },
            Json::Object(v) => {
                let mut out: Vec<(String, Json)> = Vec::new();
                let mut i: usize = 0;
                while i < v.len()
                    invariant
                        i <= v@.len(),
                        *self == Json::Object(*v),
                        json_members(out@) == json_members(v@.take(i as int)),
                    decreases v@.len() - i,
                {
                    let ghost before = out@;
                    assert(decreases_to!(*self => self->Object_0));
                    assert(decreases_to!(v => v@));
                    assert(decreases_to!(v@ => v@[i as int]));
                    assert(decreases_to!(v@[i as int] => v@[i as int].1));
                    let x = v[i].1.duplicate();
                    out.push((v[i].0.clone(), x));
                    proof {
                        assert(out@.drop_last() == before);
                        assert(v@.take(i + 1).drop_last() == v@.take(i as int));
                    }
                    i = i + 1;
                }
                assert(v@.take(v@.len() as int) == v@);
                Json::Object(out)
            },
        }
    }
}

// ---------------------------------------------------------------------------
// Building an object
// ---------------------------------------------------------------------------

/// The members of an object that is being built.
pub struct Members {
    entries: Vec<(String, Json)>,
}

impl View for Members {
    type V = Map<Seq<char>, JsonValue>;

    closed spec fn view(&self) -> Map<Seq<char>, JsonValue> {
        json_members(self.entries@)
    }
}

impl Members {
    pub fn new() -> (res: Members)
        ensures
            res@ == Map::<Seq<char>, JsonValue>::empty(),
    {
        Members { entries: Vec::new() }
    }

    /// Adds a member, in place of one under the same key.
    pub fn with(self, key: &str, value: Json) -> (res: Members)
        ensures
            res@ == self@.insert(key@, value@),
    {
        let mut entries = self.entries;
        entries.push((key.to_owned(), value));
        assert(entries@.drop_last() == self.entries@);
        Members { entries }
    }

    /// Adds a member that is a string.
    pub fn with_text(self, key: &str, value: &str) -> (res: Members)
        ensures
            res@ == self@.insert(key@, JsonValue::Str(value@)),
    {
        self.with(key, Json::Str(value.to_owned()))
    }

    pub fn into_json(self) -> (res: Json)
        ensures
            res@ == JsonValue::Object(self@),
    {
        Json::Object(self.entries)
    }
}

/// An array of strings.
pub open spec fn texts_value(t: Seq<Seq<char>>) -> JsonValue {
    JsonValue::Array(Seq::new(t.len(), |i: int| JsonValue::Str(t[i])))
}

/// An array of strings.
pub fn json_of_texts(items: &Vec<String>) -> (res: Json)
    ensures
        res@ == texts_value(text::strings(items@)),
{
    let mut out: Vec<Json> = Vec::new();
    let mut i: usize = 0;
    while i < items.len()
        invariant
            i <= items@.len(),
            out@.len() == i,
            forall|k: int| 0 <= k < i ==> (#[trigger] out@[k])@ == JsonValue::Str(items@[k]@),
        decreases items@.len() - i,
    {
        out.push(Json::Str(items[i].clone()));
        i = i + 1;
    }
    proof {
        lemma_json_values(out@);
        assert(json_values(out@) =~= texts_value(text::strings(items@))->Array_0);
    }
    Json::Array(out)
}

/// Copies of some documents.
pub fn duplicate_all(items: &Vec<Json>) -> (res: Vec<Json>)
    ensures
        json_values(res@) == json_values(items@),
{
    let mut out: Vec<Json> = Vec::new();
    let mut i: usize = 0;
    while i < items.len()
        invariant
            i <= items@.len(),
            out@.len() == i,
            forall|k: int| 0 <= k < i ==> (#[trigger] out@[k])@ == items@[k]@,
        decreases items@.len() - i,
    {
        out.push(items[i].duplicate());
        i = i + 1;
    }
    proof {
        lemma_json_values(out@);
        lemma_json_values(items@);
        assert(json_values(out@) =~= json_values(items@));
    }
    out
}

// ---------------------------------------------------------------------------
// Text and bytes
// ---------------------------------------------------------------------------

/// `serde_json::Value`, a JSON document as `serde_json` holds it.
#[verifier::external_type_specification]
#[verifier::external_body]
pub struct ExValue(serde_json::Value);

/// What a `serde_json::Value` says.
pub uninterp spec fn value_content(v: serde_json::Value) -> JsonValue;

/// What `serde_json::from_str` reads in a text: a document, or the message of
/// its error.
pub uninterp spec fn json_of_text(text: Seq<char>) -> Result<JsonValue, Seq<char>>;

/// What `serde_json::from_slice` reads in some bytes, where it accepts them.
pub uninterp spec fn json_of_bytes(bytes: Seq<u8>) -> Option<JsonValue>;

/// The text in which a `serde_json::Value` displays a document.
pub uninterp spec fn json_text(v: JsonValue) -> Seq<char>;

/// Whether `serde_json` reads a text as this document.
pub open spec fn reads_as(text: Seq<char>, v: JsonValue) -> bool {
    json_of_text(text) == Ok::<JsonValue, Seq<char>>(v)
}

/// Whether `serde_json` refuses a text with this message.
pub open spec fn refuses_with(text: Seq<char>, message: Seq<char>) -> bool {
    json_of_text(text) == Err::<JsonValue, Seq<char>>(message)
}

/// The depth to which `serde_json` reads arrays and objects inside each other.
pub open spec fn max_depth() -> nat {
    127
}

/// Whether arrays and objects stand inside each other at most `n` deep.
pub open spec fn nested_within(v: JsonValue, n: nat) -> bool
    decreases n,
{
    match v {
        JsonValue::Array(s) => n > 0 && forall|i: int|
            0 <= i < s.len() ==> nested_within(#[trigger] s[i], (n - 1) as nat),
        JsonValue::Object(m) => n > 0 && forall|k: Seq<char>|
            m.dom().contains(k) ==> nested_within(#[trigger] m[k], (n - 1) as nat),
        _ => true,
    }
}

/// Whether `serde_json` can hold the document: its depth is at most `n`, and
/// each number is an integer of 64 bits, signed or not.
pub open spec fn storable(v: JsonValue, n: nat) -> bool
    decreases n,
{
    match v {
        JsonValue::Number(k) => k matches Some(i) && i64::MIN <= i <= u64::MAX,
        JsonValue::Array(s) => n > 0 && forall|i: int|
            0 <= i < s.len() ==> storable(#[trigger] s[i], (n - 1) as nat),
        JsonValue::Object(m) => n > 0 && forall|k: Seq<char>|
            m.dom().contains(k) ==> storable(#[trigger] m[k], (n - 1) as nat),
        _ => true,
    }
}

/// `serde_json::from_str`, read into a `serde_json::Value`. The document, or
/// the message of the error, is a function of the text. The reader gives up on
/// arrays and objects that stand more than [`max_depth`] deep in each other.
#[verifier::external_body]
pub(crate) fn value_from_str(text: &str) -> (res: Result<serde_json::Value, String>)
    ensures
        match res {
            Ok(v) => json_of_text(text@) == Ok::<JsonValue, Seq<char>>(value_content(v))
                && nested_within(value_content(v), max_depth()),
            Err(e) => json_of_text(text@) == Err::<JsonValue, Seq<char>>(e@),
        },
{
    serde_json::from_str::<serde_json::Value>(text).map_err(|e| e.to_string())
}

/// `serde_json::from_slice`, read into a `serde_json::Value`. The document, or
/// that there is none, is a function of the bytes, with the same limit on depth
/// as [`value_from_str`].
#[verifier::external_body]
pub(crate) fn value_from_slice(bytes: &[u8]) -> (res: Option<serde_json::Value>)
    ensures
        match res {
            Some(v) => json_of_bytes(bytes@) == Some(value_content(v)) && nested_within(
                value_content(v),
                max_depth(),
            ),
            None => json_of_bytes(bytes@) is None,
        },
{
    serde_json::from_slice::<serde_json::Value>(bytes).ok()
}

/// A `serde_json::Value` taken apart: each of its variants is the variant of
/// the same name here, an integer keeping its value (`Number::as_i128`).
#[verifier::external_body]
pub(crate) fn json_from_value(v: serde_json::Value) -> (res: Json)
    requires
        nested_within(value_content(v), max_depth()),
    ensures
        res@ == value_content(v),
{
    match v {
        serde_json::Value::Null => Json::Null,
        serde_json::Value::Bool(b) => Json::Bool(b),
        serde_json::Value::Number(n) => Json::Number(n.as_i128()),
        serde_json::Value::String(s) => Json::Str(s),
        serde_json::Value::Array(a) => Json::Array(a.into_iter().map(json_from_value).collect()),
        serde_json::Value::Object(o) => Json::Object(
            o.into_iter().map(|(k, x)| (k, json_from_value(x))).collect(),
        ),
    }
}

/// A `serde_json::Value` put together: each variant becomes the variant of the
/// same name, an integer through `Number::from_i128`.
#[verifier::external_body]
pub(crate) fn value_from_json(j: &Json) -> (res: serde_json::Value)
    requires
        storable(j@, max_depth()),
    ensures
        value_content(res) == j@,
{
    match j {
        Json::Null => serde_json::Value::Null,
        Json::Bool(b) => serde_json::Value::Bool(*b),
        Json::Number(n) => n.and_then(serde_json::Number::from_i128).into(),
        Json::Str(s) => serde_json::Value::String(s.clone()),
        Json::Array(v) => serde_json::Value::Array(v.iter().map(value_from_json).collect()),
        Json::Object(v) => serde_json::Value::Object(
            v.iter().map(|(k, x)| (k.clone(), value_from_json(x))).collect(),
        ),
    }
}

/// `serde_json::Value::to_string`, its compact JSON text, with the members of an
/// object in the order of their keys. Of a value whose numbers are integers, the
/// text is a function of what the value says, and [`value_from_str`] reads the
/// value back from it.
#[verifier::external_body]
pub(crate) fn value_text(v: &serde_json::Value) -> (res: String)
    requires
        storable(value_content(*v), max_depth()),
    ensures
        res@ == json_text(value_content(*v)),
        reads_as(res@, value_content(*v)),
{
    v.to_string()
}

/// The document in a JSON text, or the message of the error.
pub fn parse_json(text: &str) -> (res: Result<Json, String>)
    ensures
        match res {
            Ok(j) => reads_as(text@, j@),
            Err(e) => refuses_with(text@, e@),
        },
{
    match value_from_str(text) {
        Ok(v) => Ok(json_from_value(v)),
        Err(e) => Err(e),
    }
}

/// The document in the bytes of a JSON text, where there is one.
pub fn parse_json_bytes(bytes: &[u8]) -> (res: Option<Json>)
    ensures
        match res {
            Some(j) => json_of_bytes(bytes@) == Some(j@),
            None => json_of_bytes(bytes@) is None,
        },
{
    match value_from_slice(bytes) {
        Some(v) => Some(json_from_value(v)),
        None => None,
    }
}

/// The compact text of a document, from which [`parse_json`] reads it back.
pub fn write_json(j: &Json) -> (res: String)
    requires
        storable(j@, max_depth()),
    ensures
        res@ == json_text(j@),
        reads_as(res@, j@),
{
    let v = value_from_json(j);
    value_text(&v)
}

// ---------------------------------------------------------------------------
// Laws
// ---------------------------------------------------------------------------

/// Of the members that an object lists under a key, the last is the one that
/// counts; without one there is none.
pub proof fn law_last_member_counts(v: Seq<(String, Json)>, key: Seq<char>)
    ensures
        json_members(v).dom().contains(key) <==> exists|i: int|
            0 <= i < v.len() && (#[trigger] v[i]).0@ == key,
        forall|i: int|
            0 <= i < v.len() && (#[trigger] v[i]).0@ == key && (forall|k: int|
                i < k < v.len() ==> (#[trigger] v[k]).0@ != key) ==> json_members(v)[key]
                == v[i].1@,
    decreases v.len(),
{
    if v.len() > 0 {
        let w = v.drop_last();
        law_last_member_counts(w, key);
        assert forall|i: int| 0 <= i < w.len() implies #[trigger] w[i] == v[i] by {}
        if v.last().0@ == key {
            assert(v[v.len() - 1].0@ == key);
        } else {
            if exists|i: int| 0 <= i < v.len() && (#[trigger] v[i]).0@ == key {
                let i = choose|i: int| 0 <= i < v.len() && (#[trigger] v[i]).0@ == key;
                assert(w[i].0@ == key);
            }
        }
        assert forall|i: int|
            0 <= i < v.len() && (#[trigger] v[i]).0@ == key && (forall|k: int|
                i < k < v.len() ==> (#[trigger] v[k]).0@ != key) implies json_members(v)[key]
            == v[i].1@ by {
            if i < v.len() - 1 {
                assert(v[v.len() - 1].0@ != key);
                assert(w[i].0@ == key);
                assert forall|k: int| i < k < w.len() implies (#[trigger] w[k]).0@ != key by {
                    assert(v[k].0@ != key);
                }
            }
        }
    }
}

/// What stands under a key of an object is found under it, as a text where it is
/// a string and as items where it is an array; in nothing but an object is
/// anything found.
pub proof fn law_members_are_found(
    j: &Json,
    key: &str,
    found: Option<&Json>,
    text: Option<&str>,
    items: Option<&Vec<Json>>,
)
    requires
        call_ensures(Json::get, (j, key), found),
        call_ensures(Json::get_str, (j, key), text),
        call_ensures(Json::get_array, (j, key), items),
    ensures
        match j@ {
            JsonValue::Object(m) => {
                &&& found is Some <==> m.dom().contains(key@)
                &&& found matches Some(x) ==> x@ == m[key@]
                &&& text is Some <==> m.dom().contains(key@) && m[key@] is Str
                &&& text matches Some(t) ==> m[key@] == JsonValue::Str(t@)
                &&& items is Some <==> m.dom().contains(key@) && m[key@] is Array
                &&& items matches Some(v) ==> m[key@] == JsonValue::Array(json_values(v@))
            },
            _ => found is None && text is None && items is None,
        },
{
}

/// An array of strings has the strings as its items, in their order.
pub proof fn law_array_of_texts(items: &Vec<String>, res: Json)
    requires
        call_ensures(json_of_texts, (items,), res),
    ensures
        res@ matches JsonValue::Array(s) && s.len() == items@.len() && forall|i: int|
            0 <= i < s.len() ==> #[trigger] s[i] == JsonValue::Str(items@[i]@),
{
}

/// What is written is read back.
pub proof fn law_written_is_read_back(
    j: &Json,
    text: &str,
    written: String,
    read: Result<Json, String>,
)
    requires
        call_ensures(write_json, (j,), written),
        text@ == written@,
        call_ensures(parse_json, (text,), read),
    ensures
        read matches Ok(k) && k@ == j@,
{
}

/// Whether a document is an object that has a value under a key.
pub open spec fn has(v: JsonValue, key: Seq<char>, x: JsonValue) -> bool {
    v matches JsonValue::Object(m) && m.dom().contains(key) && m[key] == x
}

/// Whether a document is an object with nothing under a key.
pub open spec fn lacks(v: JsonValue, key: Seq<char>) -> bool {
    v matches JsonValue::Object(m) && !m.dom().contains(key)
}

/// A document that is built member by member has what was put in last under each key,
/// and a copy says what its original says.
pub proof fn law_building(
    before: Members,
    key: &str,
    other: &str,
    value: Json,
    text: &str,
    with: Members,
    with_text: Members,
    doc: Json,
    copy: Json,
)
    requires
        call_ensures(Members::with, (before, key, value), with),
        call_ensures(Members::with_text, (before, other, text), with_text),
        call_ensures(Members::into_json, (with,), doc),
        call_ensures(Json::duplicate, (&doc,), copy),
    ensures
        has(doc@, key@, value@),
        doc@ matches JsonValue::Object(m) && forall|k: Seq<char>|
            k != key@ ==> (#[trigger] m.dom().contains(k) <==> before@.dom().contains(k)) && (
            before@.dom().contains(k) ==> m[k] == before@[k]),
        with_text@.dom().contains(other@) && with_text@[other@] == JsonValue::Str(text@),
        copy@ == doc@,
{
}

} // verus!
