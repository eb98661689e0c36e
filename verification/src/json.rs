//! JSON documents as held by the library.
//!
//! Arrays and objects are linked lists so that a clone of a document is the
//! same value to the verifier, and so that a document can be carried from one
//! record into another without losing what is known of it.

use vstd::prelude::*;

verus! {

/// One parsed JSON document.
#[derive(Debug, PartialEq)]
pub enum JsonValue {
    Null,
    Bool(bool),
    /// The number's text, as JSON writes it.
    Number(String),
    String(String),
    Array(JsonList),
    Object(JsonMembers),
}

/// The items of a JSON array, in order.
#[derive(Debug, PartialEq)]
pub enum JsonList {
    Nil,
    Cons(Box<JsonValue>, Box<JsonList>),
}

/// The members of a JSON object, in order. Parsed objects hold their keys
/// once each, in sorted order.
#[derive(Debug, PartialEq)]
pub enum JsonMembers {
    Nil,
    Cons(String, Box<JsonValue>, Box<JsonMembers>),
}

/// Two documents hold the same text, key for key and item for item.
pub open spec fn same_json(a: JsonValue, b: JsonValue) -> bool
    decreases a,
{
    match (a, b) {
        (JsonValue::Null, JsonValue::Null) => true,
        (JsonValue::Bool(x), JsonValue::Bool(y)) => x == y,
        (JsonValue::Number(x), JsonValue::Number(y)) => x@ == y@,
        (JsonValue::String(x), JsonValue::String(y)) => x@ == y@,
        (JsonValue::Array(x), JsonValue::Array(y)) => same_json_list(x, y),
        (JsonValue::Object(x), JsonValue::Object(y)) => same_json_members(x, y),
        _ => false,
    }
}

pub open spec fn same_json_list(a: JsonList, b: JsonList) -> bool
    decreases a,
{
    match (a, b) {
        (JsonList::Nil, JsonList::Nil) => true,
        (JsonList::Cons(x, xs), JsonList::Cons(y, ys)) => same_json(*x, *y) && same_json_list(
            *xs,
            *ys,
        ),
        _ => false,
    }
}

pub open spec fn same_json_members(a: JsonMembers, b: JsonMembers) -> bool
    decreases a,
{
    match (a, b) {
        (JsonMembers::Nil, JsonMembers::Nil) => true,
        (JsonMembers::Cons(k, x, xs), JsonMembers::Cons(l, y, ys)) => k@ == l@ && same_json(*x, *y)
            && same_json_members(*xs, *ys),
        _ => false,
    }
}

/// Two documents that hold the same values, object members in any order:
/// both objects name each key once and the same number of keys, and each
/// member of the first is found under its key in the second with the same
/// document.
pub open spec fn same_document(a: JsonValue, b: JsonValue) -> bool
    decreases a,
{
    match (a, b) {
        (JsonValue::Null, JsonValue::Null) => true,
        (JsonValue::Bool(x), JsonValue::Bool(y)) => x == y,
        (JsonValue::Number(x), JsonValue::Number(y)) => x@ == y@,
        (JsonValue::String(x), JsonValue::String(y)) => x@ == y@,
        (JsonValue::Array(x), JsonValue::Array(y)) => same_document_items(x, y),
        (JsonValue::Object(x), JsonValue::Object(y)) => {
            &&& keys_once(x)
            &&& keys_once(y)
            &&& x.entries().len() == y.entries().len()
            &&& members_found_in(x, y)
        },
        _ => false,
    }
}

pub open spec fn same_document_items(a: JsonList, b: JsonList) -> bool
    decreases a,
{
    match (a, b) {
        (JsonList::Nil, JsonList::Nil) => true,
        (JsonList::Cons(x, xs), JsonList::Cons(y, ys)) => same_document(*x, *y)
            && same_document_items(*xs, *ys),
        _ => false,
    }
}

/// Each member of `a` is found under its key in `b` with the same document.
pub open spec fn members_found_in(a: JsonMembers, b: JsonMembers) -> bool
    decreases a,
{
    match a {
        JsonMembers::Nil => true,
        JsonMembers::Cons(k, v, rest) => match b.lookup(k@) {
            Some(w) => same_document(*v, w) && members_found_in(*rest, b),
            None => false,
        },
    }
}

/// No key is named twice.
pub open spec fn keys_once(m: JsonMembers) -> bool {
    forall|i: int, j: int|
        0 <= i < j < m.entries().len() ==> #[trigger] m.entries()[i].0@ != #[trigger] m.entries()[j].0@
}

/// A key is missing exactly when no member names it.
proof fn lemma_lookup_none(m: JsonMembers, key: Seq<char>)
    ensures
        m.lookup(key) is None <==> (forall|i: int|
            0 <= i < m.entries().len() ==> #[trigger] m.entries()[i].0@ != key),
    decreases m,
{
    match m {
        JsonMembers::Nil => {
            assert(m.entries() =~= Seq::<(String, JsonValue)>::empty());
        },
        JsonMembers::Cons(k, v, rest) => {
            lemma_lookup_none(*rest, key);
            let e = m.entries();
            let t = rest.entries();
            assert(e == seq![(k, *v)] + t);
            assert(e[0] == (k, *v));
            assert forall|i: int| 1 <= i < e.len() implies e[i] == t[i - 1] by {}
            if m.lookup(key) is None {
                assert(k@ != key);
                assert(rest.lookup(key) is None);
                assert forall|i: int| 0 <= i < e.len() implies #[trigger] e[i].0@ != key by {
                    if i > 0 {
                        assert(e[i] == t[i - 1]);
                    }
                }
            } else {
                if k@ == key {
                    assert(e[0].0@ == key);
                } else {
                    assert(rest.lookup(key) is Some);
                    let i = choose|i: int| 0 <= i < t.len() && #[trigger] t[i].0@ == key;
                    assert(e[i + 1] == t[i]);
                    assert(e[i + 1].0@ == key);
                }
            }
        },
    }
}

/// A list names each key once exactly when its first key is not named
/// again and the rest names each key once.
proof fn lemma_keys_once_cons(m: JsonMembers)
    requires
        m is Cons,
    ensures
        match m {
            JsonMembers::Cons(k, _, rest) => keys_once(m) <==> (rest.lookup(k@) is None && keys_once(
                *rest,
            )),
            JsonMembers::Nil => true,
        },
{
    match m {
        JsonMembers::Cons(k, v, rest) => {
            lemma_lookup_none(*rest, k@);
            let e = m.entries();
            let t = rest.entries();
            assert(e == seq![(k, *v)] + t);
            assert(e.len() == t.len() + 1);
            assert forall|i: int| 1 <= i < e.len() implies e[i] == t[i - 1] by {}
            if keys_once(m) {
                assert forall|i: int| 0 <= i < t.len() implies #[trigger] t[i].0@ != k@ by {
                    assert(e[0].0@ != e[i + 1].0@);
                }
                assert forall|i: int, j: int| 0 <= i < j < t.len() implies #[trigger] t[i].0@
                    != #[trigger] t[j].0@ by {
                    assert(e[i + 1].0@ != e[j + 1].0@);
                }
            }
            if rest.lookup(k@) is None && keys_once(*rest) {
                assert forall|i: int, j: int| 0 <= i < j < e.len() implies #[trigger] e[i].0@
                    != #[trigger] e[j].0@ by {
                    assert(e[j] == t[j - 1]);
                    if i > 0 {
                        assert(e[i] == t[i - 1]);
                    }
                }
            }
        },
        JsonMembers::Nil => {},
    }
}

/// Every document holds the same text as itself.
pub proof fn lemma_same_json_reflexive(a: JsonValue)
    ensures
        same_json(a, a),
    decreases a,
{
    match a {
        JsonValue::Array(x) => lemma_same_json_list_reflexive(x),
        JsonValue::Object(m) => lemma_same_json_members_reflexive(m),
        _ => {},
    }
}

proof fn lemma_same_json_list_reflexive(a: JsonList)
    ensures
        same_json_list(a, a),
    decreases a,
{
    match a {
        JsonList::Nil => {},
        JsonList::Cons(x, xs) => {
            lemma_same_json_reflexive(*x);
            lemma_same_json_list_reflexive(*xs);
        },
    }
}

proof fn lemma_same_json_members_reflexive(a: JsonMembers)
    ensures
        same_json_members(a, a),
    decreases a,
{
    match a {
        JsonMembers::Nil => {},
        JsonMembers::Cons(_, x, xs) => {
            lemma_same_json_reflexive(*x);
            lemma_same_json_members_reflexive(*xs);
        },
    }
}

/// Holding the same text goes both ways.
pub proof fn lemma_same_json_symmetric(a: JsonValue, b: JsonValue)
    requires
        same_json(a, b),
    ensures
        same_json(b, a),
    decreases a,
{
    match (a, b) {
        (JsonValue::Array(x), JsonValue::Array(y)) => lemma_same_json_list_symmetric(x, y),
        (JsonValue::Object(x), JsonValue::Object(y)) => lemma_same_json_members_symmetric(x, y),
        _ => {},
    }
}

proof fn lemma_same_json_list_symmetric(a: JsonList, b: JsonList)
    requires
        same_json_list(a, b),
    ensures
        same_json_list(b, a),
    decreases a,
{
    match (a, b) {
        (JsonList::Cons(x, xs), JsonList::Cons(y, ys)) => {
            lemma_same_json_symmetric(*x, *y);
            lemma_same_json_list_symmetric(*xs, *ys);
        },
        _ => {},
    }
}

proof fn lemma_same_json_members_symmetric(a: JsonMembers, b: JsonMembers)
    requires
        same_json_members(a, b),
    ensures
        same_json_members(b, a),
    decreases a,
{
    match (a, b) {
        (JsonMembers::Cons(_, x, xs), JsonMembers::Cons(_, y, ys)) => {
            lemma_same_json_symmetric(*x, *y);
            lemma_same_json_members_symmetric(*xs, *ys);
        },
        _ => {},
    }
}

/// Holding the same text carries over from one document to the next.
pub proof fn lemma_same_json_transitive(a: JsonValue, b: JsonValue, c: JsonValue)
    requires
        same_json(a, b),
        same_json(b, c),
    ensures
        same_json(a, c),
    decreases a,
{
    match (a, b, c) {
        (JsonValue::Array(x), JsonValue::Array(y), JsonValue::Array(z)) => {
            lemma_same_json_list_transitive(x, y, z)
        },
        (JsonValue::Object(x), JsonValue::Object(y), JsonValue::Object(z)) => {
            lemma_same_json_members_transitive(x, y, z)
        },
        _ => {},
    }
}

proof fn lemma_same_json_list_transitive(a: JsonList, b: JsonList, c: JsonList)
    requires
        same_json_list(a, b),
        same_json_list(b, c),
    ensures
        same_json_list(a, c),
    decreases a,
{
    match (a, b, c) {
        (JsonList::Cons(x, xs), JsonList::Cons(y, ys), JsonList::Cons(z, zs)) => {
            lemma_same_json_transitive(*x, *y, *z);
            lemma_same_json_list_transitive(*xs, *ys, *zs);
        },
        _ => {},
    }
}

proof fn lemma_same_json_members_transitive(a: JsonMembers, b: JsonMembers, c: JsonMembers)
    requires
        same_json_members(a, b),
        same_json_members(b, c),
    ensures
        same_json_members(a, c),
    decreases a,
{
    match (a, b, c) {
        (JsonMembers::Cons(_, x, xs), JsonMembers::Cons(_, y, ys), JsonMembers::Cons(_, z, zs)) => {
            lemma_same_json_transitive(*x, *y, *z);
            lemma_same_json_members_transitive(*xs, *ys, *zs);
        },
        _ => {},
    }
}

impl JsonList {
    /// The items, in order.
    pub open spec fn items(self) -> Seq<JsonValue>
        decreases self,
    {
        match self {
            JsonList::Nil => Seq::empty(),
            JsonList::Cons(x, xs) => seq![*x] + xs.items(),
        }
    }
}

impl JsonMembers {
    /// The value of the first member named `key`.
    pub open spec fn lookup(self, key: Seq<char>) -> Option<JsonValue>
        decreases self,
    {
        match self {
            JsonMembers::Nil => None,
            JsonMembers::Cons(k, v, rest) => if k@ == key {
                Some(*v)
            } else {
                rest.lookup(key)
            },
        }
    }

    /// The keys and values, in order.
    pub open spec fn entries(self) -> Seq<(String, JsonValue)>
        decreases self,
    {
        match self {
            JsonMembers::Nil => Seq::empty(),
            JsonMembers::Cons(k, v, rest) => seq![(k, *v)] + rest.entries(),
        }
    }
}

impl JsonValue {
    /// The value of member `key` when this is an object.
    pub open spec fn spec_member(self, key: Seq<char>) -> Option<JsonValue> {
        match self {
            JsonValue::Object(members) => members.lookup(key),
            _ => None,
        }
    }

    /// An object of the given members, in the given order.
    pub fn object(members: Vec<(String, JsonValue)>) -> (r: JsonValue)
        ensures
            r matches JsonValue::Object(m) && m.entries() == members@,
    {
        let mut members = members;
        let ghost given = members@;
        let mut list = JsonMembers::Nil;
        while members.len() > 0
            invariant
                given == members@ + list.entries(),
            decreases members.len(),
        {
            let (k, v) = members.pop().unwrap();
            let ghost before = list;
            list = JsonMembers::Cons(k, Box::new(v), Box::new(list));
            proof {
                assert(list.entries() == seq![(k, v)] + before.entries());
                assert(given == members@ + list.entries());
            }
        }
        JsonValue::Object(list)
    }

    /// An array of the given items, in order.
    pub fn array(items: Vec<JsonValue>) -> (r: JsonValue)
        ensures
            r matches JsonValue::Array(l) && l.items() == items@,
    {
        let mut items = items;
        let ghost given = items@;
        let mut list = JsonList::Nil;
        while items.len() > 0
            invariant
                given == items@ + list.items(),
            decreases items.len(),
        {
            let v = items.pop().unwrap();
            let ghost before = list;
            list = JsonList::Cons(Box::new(v), Box::new(list));
            proof {
                assert(list.items() == seq![v] + before.items());
                assert(given == items@ + list.items());
            }
        }
        JsonValue::Array(list)
    }

    /// A string value.
    pub fn string(text: &str) -> (r: JsonValue)
        ensures
            r matches JsonValue::String(s) && s@ == text@,
    {
        JsonValue::String(text.to_string())
    }

    /// The value of member `key` when this is an object.
    pub fn member(&self, key: &str) -> (r: Option<&JsonValue>)
        ensures
            r matches Some(v) ==> self.spec_member(key@) == Some(*v),
            r is None ==> self.spec_member(key@) is None,
    {
        match self {
            JsonValue::Object(members) => members.get(key),
            _ => None,
        }
    }

    /// The text of a string value.
    pub fn as_text(&self) -> (r: Option<&String>)
        ensures
            r matches Some(s) ==> *self == JsonValue::String(*s),
            r is None ==> !(self is String),
    {
        match self {
            JsonValue::String(s) => Some(s),
            _ => None,
        }
    }

    /// Whether two documents hold the same text.
    pub fn same_as(&self, other: &JsonValue) -> (r: bool)
        ensures
            r == same_json(*self, *other),
        decreases self,
    {
        match (self, other) {
            (JsonValue::Null, JsonValue::Null) => true,
            (JsonValue::Bool(x), JsonValue::Bool(y)) => *x == *y,
            (JsonValue::Number(x), JsonValue::Number(y)) => *x == *y,
            (JsonValue::String(x), JsonValue::String(y)) => *x == *y,
            (JsonValue::Array(x), JsonValue::Array(y)) => x.same_as(y),
            (JsonValue::Object(x), JsonValue::Object(y)) => x.same_as(y),
            _ => false,
        }
    }
}

impl JsonValue {
    /// Whether two documents hold the same values, object members in any
    /// order.
    pub fn same_document_as(&self, other: &JsonValue) -> (r: bool)
        ensures
            r == same_document(*self, *other),
        decreases self,
    {
        match (self, other) {
            (JsonValue::Null, JsonValue::Null) => true,
            (JsonValue::Bool(x), JsonValue::Bool(y)) => *x == *y,
            (JsonValue::Number(x), JsonValue::Number(y)) => *x == *y,
            (JsonValue::String(x), JsonValue::String(y)) => *x == *y,
            (JsonValue::Array(x), JsonValue::Array(y)) => x.same_items_as(y),
            (JsonValue::Object(x), JsonValue::Object(y)) => {
                if !x.keys_once_exec() {
                    false
                } else if !y.keys_once_exec() {
                    false
                } else if !x.same_count(y) {
                    false
                } else {
                    x.found_in(y)
                }
            },
            _ => false,
        }
    }
}

impl JsonList {
    pub fn same_items_as(&self, other: &JsonList) -> (r: bool)
        ensures
            r == same_document_items(*self, *other),
        decreases self,
    {
        match (self, other) {
            (JsonList::Nil, JsonList::Nil) => true,
            (JsonList::Cons(x, xs), JsonList::Cons(y, ys)) => {
                if !(**x).same_document_as(&**y) {
                    false
                } else {
                    (**xs).same_items_as(&**ys)
                }
            },
            _ => false,
        }
    }
}

impl JsonMembers {
    /// Whether no key is named twice.
    pub fn keys_once_exec(&self) -> (r: bool)
        ensures
            r == keys_once(*self),
        decreases self,
    {
        match self {
            JsonMembers::Nil => true,
            JsonMembers::Cons(k, _, rest) => {
                proof {
                    lemma_keys_once_cons(*self);
                }
                if (**rest).get(k.as_str()).is_some() {
                    false
                } else {
                    (**rest).keys_once_exec()
                }
            },
        }
    }

    /// Whether both lists hold as many members.
    pub fn same_count(&self, other: &JsonMembers) -> (r: bool)
        ensures
            r == (self.entries().len() == other.entries().len()),
        decreases self,
    {
        match (self, other) {
            (JsonMembers::Nil, JsonMembers::Nil) => true,
            (JsonMembers::Cons(_, _, xs), JsonMembers::Cons(_, _, ys)) => (**xs).same_count(&**ys),
            (JsonMembers::Nil, JsonMembers::Cons(_, _, _)) => false,
            (JsonMembers::Cons(_, _, _), JsonMembers::Nil) => false,
        }
    }

    /// Whether each member is found under its key in `other` with the same
    /// document.
    pub fn found_in(&self, other: &JsonMembers) -> (r: bool)
        ensures
            r == members_found_in(*self, *other),
        decreases self,
    {
        match self {
            JsonMembers::Nil => true,
            JsonMembers::Cons(k, v, rest) => match other.get(k.as_str()) {
                Some(w) => {
                    if !(**v).same_document_as(w) {
                        false
                    } else {
                        (**rest).found_in(other)
                    }
                },
                None => false,
            },
        }
    }
}

impl JsonList {
    pub fn same_as(&self, other: &JsonList) -> (r: bool)
        ensures
            r == same_json_list(*self, *other),
        decreases self,
    {
        match (self, other) {
            (JsonList::Nil, JsonList::Nil) => true,
            (JsonList::Cons(x, xs), JsonList::Cons(y, ys)) => {
                if !(**x).same_as(&**y) {
                    false
                } else {
                    (**xs).same_as(&**ys)
                }
            },
            _ => false,
        }
    }
}

impl JsonMembers {
    pub fn same_as(&self, other: &JsonMembers) -> (r: bool)
        ensures
            r == same_json_members(*self, *other),
        decreases self,
    {
        match (self, other) {
            (JsonMembers::Nil, JsonMembers::Nil) => true,
            (JsonMembers::Cons(k, x, xs), JsonMembers::Cons(l, y, ys)) => {
                if !(*k == *l) {
                    false
                } else if !(**x).same_as(&**y) {
                    false
                } else {
                    (**xs).same_as(&**ys)
                }
            },
            _ => false,
        }
    }

    /// The value of the first member named `key`.
    pub fn get(&self, key: &str) -> (r: Option<&JsonValue>)
        ensures
            r matches Some(v) ==> self.lookup(key@) == Some(*v),
            r is None ==> self.lookup(key@) is None,
        decreases self,
    {
        match self {
            JsonMembers::Nil => None,
            JsonMembers::Cons(k, v, rest) => {
                if crate::text::str_equal(k.as_str(), key) {
                    Some(&**v)
                } else {
                    (**rest).get(key)
                }
            },
        }
    }
}

impl Clone for JsonValue {
    fn clone(&self) -> (r: Self)
        ensures
            r == *self,
        decreases self,
    {
        match self {
            JsonValue::Null => JsonValue::Null,
            JsonValue::Bool(b) => JsonValue::Bool(*b),
            JsonValue::Number(n) => JsonValue::Number(n.clone()),
            JsonValue::String(s) => JsonValue::String(s.clone()),
            JsonValue::Array(l) => JsonValue::Array(l.clone()),
            JsonValue::Object(m) => JsonValue::Object(m.clone()),
        }
    }
}

impl Clone for JsonList {
    fn clone(&self) -> (r: Self)
        ensures
            r == *self,
        decreases self,
    {
        match self {
            JsonList::Nil => JsonList::Nil,
            JsonList::Cons(x, xs) => {
                let head = (**x).clone();
                let tail = (**xs).clone();
                JsonList::Cons(Box::new(head), Box::new(tail))
            },
        }
    }
}

impl Clone for JsonMembers {
    fn clone(&self) -> (r: Self)
        ensures
            r == *self,
        decreases self,
    {
        match self {
            JsonMembers::Nil => JsonMembers::Nil,
            JsonMembers::Cons(k, x, xs) => {
                let value = (**x).clone();
                let tail = (**xs).clone();
                JsonMembers::Cons(k.clone(), Box::new(value), Box::new(tail))
            },
        }
    }
}

/// The document type of `serde_json`, carried only through the conversions below.
#[verifier::external_type_specification]
#[verifier::external_body]
pub struct ExSerdeJsonValue(serde_json::Value);

/// What `serde_json` parses the text into, or the message of its error when
/// the text is not one JSON document.
pub uninterp spec fn spec_parse_json(text: Seq<char>) -> Result<JsonValue, Seq<char>>;

/// What `serde_json::to_vec` writes for the document: keys in sorted order,
/// no insignificant whitespace.
pub uninterp spec fn spec_json_bytes(value: JsonValue) -> Seq<u8>;

/// A parse outcome with its message taken by view.
pub open spec fn parse_outcome(r: Result<JsonValue, String>) -> Result<JsonValue, Seq<char>> {
    match r {
        Ok(v) => Ok(v),
        Err(m) => Err(m@),
    }
}

/// Calls `serde_json::from_str::<serde_json::Value>` and converts the result
/// one for one (numbers keep the text `serde_json` writes for them), or the
/// error into its message. The contract claims only that the outcome is a
/// function of the text.
#[verifier::external_body]
fn parse_json_text(text: &str) -> (r: Result<JsonValue, String>)
    ensures
        parse_outcome(r) == spec_parse_json(text@),
{
    match serde_json::from_str::<serde_json::Value>(text) {
        Ok(value) => Ok(from_serde(&value)),
        Err(error) => Err(error.to_string()),
    }
}

/// Calls `serde_json::to_vec` on the document converted one for one. A
/// number's text is read as a JSON document and written as it reads (text
/// that is no JSON document becomes `null`). The contract
/// names the bytes, and states what `serde_json`'s source shows: an object
/// converts to a map ordered by key, so documents that differ only in the
/// order of object members are written alike.
#[verifier::external_body]
pub(crate) fn json_bytes(value: &JsonValue) -> (r: Vec<u8>)
    ensures
        r@ == spec_json_bytes(*value),
        forall|other: JsonValue| #[trigger] same_document(*value, other) ==> spec_json_bytes(other) == r@,
{
    serde_json::to_vec(&to_serde(value)).unwrap_or_default()
}

/// Converts a `serde_json::Value` into a document, variant for variant.
#[verifier::external_body]
pub(crate) fn from_serde(value: &serde_json::Value) -> JsonValue {
    match value {
        serde_json::Value::Null => JsonValue::Null,
        serde_json::Value::Bool(b) => JsonValue::Bool(*b),
        serde_json::Value::Number(n) => JsonValue::Number(n.to_string()),
        serde_json::Value::String(s) => JsonValue::String(s.clone()),
        serde_json::Value::Array(items) => JsonValue::array(items.iter().map(from_serde).collect()),
        serde_json::Value::Object(map) => JsonValue::object(
            map.iter().map(|(k, v)| (k.clone(), from_serde(v))).collect(),
        ),
    }
}

/// Converts a document into a `serde_json::Value`, variant for variant.
#[verifier::external_body]
pub(crate) fn to_serde(value: &JsonValue) -> serde_json::Value {
    match value {
        JsonValue::Null => serde_json::Value::Null,
        JsonValue::Bool(b) => serde_json::Value::Bool(*b),
        JsonValue::Number(n) => serde_json::from_str(n).unwrap_or(serde_json::Value::Null),
        JsonValue::String(s) => serde_json::Value::String(s.clone()),
        JsonValue::Array(items) => serde_json::Value::Array(items.to_vec().iter().map(to_serde).collect()),
        JsonValue::Object(members) => serde_json::Value::Object(
            members.to_vec().iter().map(|(k, v)| (k.clone(), to_serde(v))).collect(),
        ),
    }
}

impl JsonValue {
    /// Parses one JSON document; `None` when the text is not one.
    pub fn parse(text: &str) -> (r: Option<JsonValue>)
        ensures
            r matches Some(v) ==> spec_parse_json(text@) == Ok::<JsonValue, Seq<char>>(v),
            r is None ==> spec_parse_json(text@) is Err,
    {
        match parse_json_text(text) {
            Ok(v) => Some(v),
            Err(_) => None,
        }
    }

    /// Parses one JSON document, or gives the parser's message.
    pub fn parse_with_message(text: &str) -> (r: Result<JsonValue, String>)
        ensures
            parse_outcome(r) == spec_parse_json(text@),
    {
        parse_json_text(text)
    }

    /// The document's bytes with object keys in sorted order: documents that
    /// differ only in the order of object members have the same bytes.
    pub fn to_bytes(&self) -> (r: Vec<u8>)
        ensures
            r@ == spec_json_bytes(*self),
            forall|other: JsonValue| #[trigger] same_document(*self, other) ==> spec_json_bytes(other)
                == r@,
    {
        json_bytes(self)
    }
}

impl JsonList {
    /// The items as a vector, in order.
    pub fn to_vec(&self) -> (r: Vec<JsonValue>)
        ensures
            r@ == self.items(),
        decreases self,
    {
        match self {
            JsonList::Nil => Vec::new(),
            JsonList::Cons(x, xs) => {
                let mut rest = (**xs).to_vec();
                rest.insert(0, (**x).clone());
                proof {
                    assert(rest@ =~= seq![**x] + xs.items());
                }
                rest
            },
        }
    }
}

impl JsonMembers {
    /// The members as a vector, in order.
    pub fn to_vec(&self) -> (r: Vec<(String, JsonValue)>)
        ensures
            r@ == self.entries(),
        decreases self,
    {
        match self {
            JsonMembers::Nil => Vec::new(),
            JsonMembers::Cons(k, x, xs) => {
                let mut rest = (**xs).to_vec();
                rest.insert(0, (k.clone(), (**x).clone()));
                proof {
                    assert(rest@ =~= seq![(*k, **x)] + xs.entries());
                }
                rest
            },
        }
    }
}

} // verus!
