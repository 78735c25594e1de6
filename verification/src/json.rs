//! A JSON document model and the accessors the loaders are written against.
//!
//! Parsing is left to `serde_json`; everything that reads a parsed document
//! works on [`Json`], whose mathematical value is a [`JsonView`].

use vstd::prelude::*;
use crate::text::str_eq;

verus! {

/// A JSON number: its value as a signed 64-bit integer where it has one, and
/// its decimal text.
#[derive(Debug, PartialEq)]
pub struct JsonNumber {
    pub integer: Option<i64>,
    pub text: String,
}

/// A JSON value. An object keeps its members in document order.
#[derive(Debug, PartialEq)]
pub enum Json {
    Null,
    Bool(bool),
    Number(JsonNumber),
    Str(String),
    Array(Vec<Json>),
    Object(Vec<(String, Json)>),
}

/// The mathematical value of a [`Json`].
pub enum JsonView {
    Null,
    Bool(bool),
    Number(Option<i64>, Seq<char>),
    Str(Seq<char>),
    Array(Seq<JsonView>),
    Object(Seq<(Seq<char>, JsonView)>),
}

/// The mathematical value of a document.
pub open spec fn view_of(j: Json) -> JsonView
    decreases j,
{
    match j {
        Json::Null => JsonView::Null,
        Json::Bool(b) => JsonView::Bool(b),
        Json::Number(n) => JsonView::Number(n.integer, n.text@),
        Json::Str(s) => JsonView::Str(s@),
        Json::Array(items) => JsonView::Array(
            Seq::new(
                items@.len(),
                |i: int|
                    if 0 <= i < items@.len() {
                        view_of(items@[i])
                    } else {
                        JsonView::Null
                    },
            ),
        ),
        Json::Object(members) => JsonView::Object(
            Seq::new(
                members@.len(),
                |i: int|
                    if 0 <= i < members@.len() {
                        (members@[i].0@, view_of(members@[i].1))
                    } else {
                        (Seq::empty(), JsonView::Null)
                    },
            ),
        ),
    }
}

impl View for Json {
    type V = JsonView;

    open spec fn view(&self) -> JsonView {
        view_of(*self)
    }
}

impl DeepView for Json {
    type V = JsonView;

    open spec fn deep_view(&self) -> JsonView {
        self@
    }
}

/// The values of a sequence of documents.
pub open spec fn items_view(items: Seq<Json>) -> Seq<JsonView> {
    Seq::new(items.len(), |i: int| items[i]@)
}

/// The values of a sequence of object members.
pub open spec fn members_view(members: Seq<(String, Json)>) -> Seq<(Seq<char>, JsonView)> {
    Seq::new(members.len(), |i: int| (members[i].0@, members[i].1@))
}

/// The values of a sequence of borrowed documents.
pub open spec fn refs_view(items: Seq<&Json>) -> Seq<JsonView> {
    Seq::new(items.len(), |i: int| items[i]@)
}

pub proof fn lemma_array_view(items: Vec<Json>)
    ensures
        Json::Array(items)@ == JsonView::Array(items_view(items@)),
{
    assert(Json::Array(items)@->Array_0 =~= items_view(items@));
}

pub proof fn lemma_object_view(members: Vec<(String, Json)>)
    ensures
        Json::Object(members)@ == JsonView::Object(members_view(members@)),
{
    assert(Json::Object(members)@->Object_0 =~= members_view(members@));
}

/// The value of the first member named `key`.
pub open spec fn lookup(members: Seq<(Seq<char>, JsonView)>, key: Seq<char>) -> Option<JsonView>
    decreases members.len(),
{
    if members.len() == 0 {
        None
    } else if members[0].0 == key {
        Some(members[0].1)
    } else {
        lookup(members.drop_first(), key)
    }
}

/// What `lookup` finds lies inside the members.
pub proof fn lemma_lookup_decreases(members: Seq<(Seq<char>, JsonView)>, key: Seq<char>)
    ensures
        lookup(members, key) matches Some(c) ==> decreases_to!(members => c),
    decreases members.len(),
{
    if members.len() > 0 {
        if members[0].0 == key {
            assert(decreases_to!(members => members[0]));
            assert(decreases_to!(members[0] => members[0].1));
        } else {
            let rest = members.drop_first();
            lemma_lookup_decreases(rest, key);
            assert(rest == members.subrange(1, members.len() as int));
            assert(decreases_to!(members => rest));
        }
    }
}

/// A member of a value lies inside the value.
pub proof fn lemma_get_decreases(v: JsonView, key: Seq<char>)
    ensures
        v.get(key) matches Some(c) ==> decreases_to!(v => c),
{
    match v {
        JsonView::Object(members) => {
            lemma_lookup_decreases(members, key);
        },
        _ => {},
    }
}

impl JsonView {
    /// Member `key` of an object: the first member of that name. Anything
    /// but an object has no members.
    pub open spec fn get(self, key: Seq<char>) -> Option<JsonView> {
        match self {
            JsonView::Object(members) => lookup(members, key),
            _ => None,
        }
    }

    /// The characters of a string value.
    pub open spec fn as_str(self) -> Option<Seq<char>> {
        match self {
            JsonView::Str(s) => Some(s),
            _ => None,
        }
    }

    /// The characters of the string member `key`.
    pub open spec fn get_str(self, key: Seq<char>) -> Option<Seq<char>> {
        match self.get(key) {
            Some(v) => v.as_str(),
            None => None,
        }
    }

    /// The integer value of a number that has one.
    pub open spec fn as_i64(self) -> Option<i64> {
        match self {
            JsonView::Number(value, _) => value,
            _ => None,
        }
    }

    /// The value of a boolean.
    pub open spec fn as_bool(self) -> Option<bool> {
        match self {
            JsonView::Bool(b) => Some(b),
            _ => None,
        }
    }

    /// The items of an array.
    pub open spec fn as_array(self) -> Option<Seq<JsonView>> {
        match self {
            JsonView::Array(items) => Some(items),
            _ => None,
        }
    }

    /// The members of an object.
    pub open spec fn as_object(self) -> Option<Seq<(Seq<char>, JsonView)>> {
        match self {
            JsonView::Object(members) => Some(members),
            _ => None,
        }
    }

    /// The items of an array, or the value itself as the only item.
    pub open spec fn elements(self) -> Seq<JsonView> {
        match self {
            JsonView::Array(items) => items,
            other => seq![other],
        }
    }

    /// An object with the single member `key`.
    pub open spec fn singleton(key: Seq<char>, value: JsonView) -> JsonView {
        JsonView::Object(seq![(key, value)])
    }
}

/// Member `key` of `parent`, where there is a parent and it has the member.
pub open spec fn opt_get(parent: Option<JsonView>, key: Seq<char>) -> Option<JsonView> {
    match parent {
        Some(p) => p.get(key),
        None => None,
    }
}

/// The string member `key` of `parent`, where there is a parent and it has
/// such a member.
pub open spec fn opt_get_str(parent: Option<JsonView>, key: Seq<char>) -> Option<Seq<char>> {
    match parent {
        Some(p) => p.get_str(key),
        None => None,
    }
}

/// Member `key` of `parent`, where there is a parent and it has the member.
pub fn get_in<'a>(parent: Option<&'a Json>, key: &str) -> (r: Option<&'a Json>)
    ensures
        r.deep_view() == opt_get(parent.deep_view(), key@),
{
    match parent {
        Some(p) => p.get(key),
        None => None,
    }
}

/// The string member `key` of `parent`, where there is a parent and it has
/// such a member.
pub fn str_in<'a>(parent: Option<&'a Json>, key: &str) -> (r: Option<&'a str>)
    ensures
        r.deep_view() == opt_get_str(parent.deep_view(), key@),
{
    match parent {
        Some(p) => p.get_str(key),
        None => None,
    }
}

impl Json {
    /// Member `key` of an object, if `self` is an object that has one.
    pub fn get(&self, key: &str) -> (r: Option<&Json>)
        ensures
            r.deep_view() == self@.get(key@),
    {
        match self {
            Json::Object(members) => {
                let ghost ms = members_view(members@);
                proof {
                    lemma_object_view(*members);
                    assert(ms.skip(0) =~= ms);
                }
                let mut i: usize = 0;
                while i < members.len()
                    invariant
                        i <= members.len(),
                        ms == members_view(members@),
                        self@ == JsonView::Object(ms),
                        lookup(ms, key@) == lookup(ms.skip(i as int), key@),
                    decreases members.len() - i,
                {
                    proof {
                        assert(ms.skip(i as int).drop_first() =~= ms.skip(i + 1));
                        assert(ms.skip(i as int)[0] == ms[i as int]);
                    }
                    if str_eq(members[i].0.as_str(), key) {
                        let found = &members[i].1;
                        assert(ms[i as int] == (members@[i as int].0@, members@[i as int].1@));
                        assert(lookup(ms.skip(i as int), key@) == Some(found@));
                        return Some(found);
                    }
                    i += 1;
                }
                None
            },
            _ => None,
        }
    }

    /// The text of a string value.
    pub fn as_str(&self) -> (r: Option<&str>)
        ensures
            r.deep_view() == self@.as_str(),
    {
        match self {
            Json::Str(s) => Some(s.as_str()),
            _ => None,
        }
    }

    /// The text of the string member `key`.
    pub fn get_str(&self, key: &str) -> (r: Option<&str>)
        ensures
            r.deep_view() == self@.get_str(key@),
    {
        match self.get(key) {
            Some(v) => v.as_str(),
            None => None,
        }
    }

    /// The integer value of a number that has one.
    pub fn as_i64(&self) -> (r: Option<i64>)
        ensures
            r == self@.as_i64(),
    {
        match self {
            Json::Number(n) => n.integer,
            _ => None,
        }
    }

    /// The value of a boolean.
    pub fn as_bool(&self) -> (r: Option<bool>)
        ensures
            r == self@.as_bool(),
    {
        match self {
            Json::Bool(b) => Some(*b),
            _ => None,
        }
    }

    /// The items of an array.
    pub fn as_array(&self) -> (r: Option<&Vec<Json>>)
        ensures
            match r {
                Some(items) => self@.as_array() == Some(items_view(items@)),
                None => self@.as_array() is None,
            },
    {
        match self {
            Json::Array(items) => {
                proof {
                    lemma_array_view(*items);
                }
                Some(items)
            },
            _ => None,
        }
    }

    /// The members of an object.
    pub fn as_object(&self) -> (r: Option<&Vec<(String, Json)>>)
        ensures
            match r {
                Some(members) => self@.as_object() == Some(members_view(members@)),
                None => self@.as_object() is None,
            },
    {
        match self {
            Json::Object(members) => {
                proof {
                    lemma_object_view(*members);
                }
                Some(members)
            },
            _ => None,
        }
    }

    /// The items of an array, or the value itself as the only item.
    pub fn elements(&self) -> (r: Vec<&Json>)
        ensures
            refs_view(r@) == self@.elements(),
    {
        match self {
            Json::Array(items) => {
                proof {
                    lemma_array_view(*items);
                }
                let mut out: Vec<&Json> = Vec::new();
                let mut i: usize = 0;
                while i < items.len()
                    invariant
                        i <= items.len(),
                        out@.len() == i,
                        forall|k: int| 0 <= k < i ==> out@[k]@ == items@[k]@,
                    decreases items.len() - i,
                {
                    out.push(&items[i]);
                    i += 1;
                }
                assert(refs_view(out@) =~= items_view(items@));
                out
            },
            other => {
                let mut out: Vec<&Json> = Vec::new();
                out.push(other);
                assert(refs_view(out@) =~= seq![other@]);
                out
            },
        }
    }

    /// A copy of the document.
    pub fn duplicate(&self) -> (r: Json)
        ensures
            r@ == self@,
        decreases self,
    {
        match self {
            Json::Null => Json::Null,
            Json::Bool(b) => Json::Bool(*b),
            Json::Number(n) => Json::Number(JsonNumber { integer: n.integer, text: n.text.clone() }),
            Json::Str(s) => Json::Str(s.clone()),
            Json::Array(items) => {
                let mut out: Vec<Json> = Vec::new();
                let mut i: usize = 0;
                while i < items.len()
                    invariant
                        i <= items.len(),
                        out@.len() == i,
                        *self == Json::Array(*items),
                        forall|k: int| 0 <= k < i ==> out@[k]@ == items@[k]@,
                    decreases items.len() - i,
                {
                    assert(decreases_to!(*self => self->Array_0));
                    assert(decreases_to!(*items => items[i as int]));
                    out.push(items[i].duplicate());
                    i += 1;
                }
                proof {
                    lemma_array_view(*items);
                    lemma_array_view(out);
                    assert(items_view(out@) =~= items_view(items@));
                }
                Json::Array(out)
            },
            Json::Object(members) => {
                let mut out: Vec<(String, Json)> = Vec::new();
                let mut i: usize = 0;
                while i < members.len()
                    invariant
                        i <= members.len(),
                        out@.len() == i,
                        *self == Json::Object(*members),
                        forall|k: int|
                            0 <= k < i ==> out@[k].0@ == members@[k].0@ && out@[k].1@
                                == members@[k].1@,
                    decreases members.len() - i,
                {
                    assert(decreases_to!(*self => self->Object_0));
                    assert(decreases_to!(*members => members[i as int]));
                    assert(decreases_to!(members[i as int] => members[i as int].1));
                    out.push((members[i].0.clone(), members[i].1.duplicate()));
                    i += 1;
                }
                proof {
                    lemma_object_view(*members);
                    lemma_object_view(out);
                    assert(members_view(out@) =~= members_view(members@));
                }
                Json::Object(out)
            },
        }
    }

    /// An object without members.
    pub fn empty_object() -> (r: Json)
        ensures
            r@ == JsonView::Object(Seq::empty()),
    {
        let members: Vec<(String, Json)> = Vec::new();
        proof {
            lemma_object_view(members);
            assert(members_view(members@) =~= Seq::<(Seq<char>, JsonView)>::empty());
        }
        Json::Object(members)
    }

    /// An object with the single member `key`.
    pub fn singleton(key: &str, value: Json) -> (r: Json)
        ensures
            r@ == JsonView::singleton(key@, value@),
    {
        let mut members: Vec<(String, Json)> = Vec::new();
        members.push((key.to_owned(), value));
        proof {
            lemma_object_view(members);
            assert(members_view(members@) =~= seq![(key@, value@)]);
        }
        Json::Object(members)
    }
}

impl Json {
    /// The document that a JSON text spells, where it is one.
    pub fn parse(text: &str) -> (r: Option<Json>)
        ensures
            r.deep_view() == json_of_text(text@),
    {
        parse_text(text)
    }
}

/// What `serde_json` makes of a text: the parsed document, or nothing where
/// the text is not valid JSON.
pub uninterp spec fn json_of_text(text: Seq<char>) -> Option<JsonView>;

/// What `serde_json` makes of a byte string: the parsed document, or nothing
/// where the bytes are not valid JSON.
pub uninterp spec fn json_of_bytes(bytes: Seq<u8>) -> Option<JsonView>;

/// `serde_json::Value`, the parser's own document type. It is only carried
/// from the parser to the conversion below.
#[verifier::external_type_specification]
#[verifier::external_body]
pub struct ExValue(serde_json::Value);

/// Converts a `serde_json::Value` into a [`Json`], variant by variant: a
/// number by `Number::as_i64` and its `Display` text, an object by its
/// members in the order `serde_json::Map::iter` yields them. Nothing is
/// claimed of the result.
#[verifier::external_body]
fn json_from_value(value: &serde_json::Value) -> Json {
    match value {
        serde_json::Value::Null => Json::Null,
        serde_json::Value::Bool(b) => Json::Bool(*b),
        serde_json::Value::Number(n) => Json::Number(
            JsonNumber { integer: n.as_i64(), text: n.to_string() },
        ),
        serde_json::Value::String(s) => Json::Str(s.clone()),
        serde_json::Value::Array(a) => Json::Array(a.iter().map(json_from_value).collect()),
        serde_json::Value::Object(m) => Json::Object(
            m.iter().map(|(k, v)| (k.clone(), json_from_value(v))).collect(),
        ),
    }
}

/// Parses a JSON text with `serde_json::from_str`. The contract only names
/// the outcome: the same text always parses to the same document.
#[verifier::external_body]
pub(crate) fn parse_text(text: &str) -> (r: Option<Json>)
    ensures
        r.deep_view() == json_of_text(text@),
{
    match serde_json::from_str::<serde_json::Value>(text) {
        Ok(value) => Some(json_from_value(&value)),
        Err(_) => None,
    }
}

/// Parses JSON bytes with `serde_json::from_slice`. The contract only names
/// the outcome: the same bytes always parse to the same document.
#[verifier::external_body]
pub(crate) fn parse_bytes(bytes: &[u8]) -> (r: Option<Json>)
    ensures
        r.deep_view() == json_of_bytes(bytes@),
{
    match serde_json::from_slice::<serde_json::Value>(bytes) {
        Ok(value) => Some(json_from_value(&value)),
        Err(_) => None,
    }
}

} // verus!
