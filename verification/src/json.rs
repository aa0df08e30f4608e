//! JSON documents as plain values.

use crate::text::same_str;
use vstd::prelude::*;

verus! {

/// A JSON document.
#[derive(Debug, PartialEq, Eq)]
pub enum Json {
    Null,
    Bool(bool),
    /// A number, as it is written.
    Number(String),
    Text(String),
    Array(Vec<Json>),
    /// The members of an object, in order of their keys.
    Object(Vec<(String, Json)>),
}

/// The contents of a JSON document.
#[verifier::ext_equal]
pub enum JsonView {
    Null,
    Bool(bool),
    Number(Seq<char>),
    Text(Seq<char>),
    Array(Seq<JsonView>),
    Object(Seq<(Seq<char>, JsonView)>),
}

impl View for Json {
    type V = JsonView;

    open spec fn view(&self) -> JsonView {
        json_view(*self)
    }
}

/// The contents of a JSON document.
pub open spec fn json_view(j: Json) -> JsonView
    decreases j, 0int,
{
    match j {
        Json::Null => JsonView::Null,
        Json::Bool(b) => JsonView::Bool(b),
        Json::Number(n) => JsonView::Number(n@),
        Json::Text(t) => JsonView::Text(t@),
        Json::Array(v) => JsonView::Array(array_view(v@, v@.len())),
        Json::Object(m) => JsonView::Object(object_view(m@, m@.len())),
    }
}

/// The contents of the first `n` items.
pub open spec fn array_view(v: Seq<Json>, n: nat) -> Seq<JsonView>
    decreases v, n,
{
    if n == 0 || n > v.len() {
        Seq::empty()
    } else {
        array_view(v, (n - 1) as nat).push(json_view(v[n - 1]))
    }
}

/// The contents of the first `n` members.
pub open spec fn object_view(m: Seq<(String, Json)>, n: nat) -> Seq<(Seq<char>, JsonView)>
    decreases m, n,
{
    if n == 0 || n > m.len() {
        Seq::empty()
    } else {
        object_view(m, (n - 1) as nat).push((m[n - 1].0@, json_view(m[n - 1].1)))
    }
}

proof fn lemma_array_view(v: Seq<Json>, n: nat)
    requires
        n <= v.len(),
    ensures
        array_view(v, n).len() == n,
        forall|i: int| 0 <= i < n ==> #[trigger] array_view(v, n)[i] == v[i]@,
    decreases n,
{
    if n > 0 {
        lemma_array_view(v, (n - 1) as nat);
    }
}

proof fn lemma_object_view(m: Seq<(String, Json)>, n: nat)
    requires
        n <= m.len(),
    ensures
        object_view(m, n).len() == n,
        forall|i: int| 0 <= i < n ==> #[trigger] object_view(m, n)[i] == (m[i].0@, m[i].1@),
    decreases n,
{
    if n > 0 {
        lemma_object_view(m, (n - 1) as nat);
    }
}

/// The items of an array, seen from outside.
pub proof fn lemma_array_items(v: Vec<Json>)
    ensures
        (Json::Array(v))@->Array_0.len() == v@.len(),
        forall|i: int| 0 <= i < v@.len() ==> #[trigger] (Json::Array(v))@->Array_0[i] == v@[i]@,
{
    lemma_array_view(v@, v@.len());
}

/// The members of an object, seen from outside.
pub proof fn lemma_object_members(m: Vec<(String, Json)>)
    ensures
        (Json::Object(m))@->Object_0.len() == m@.len(),
        forall|i: int|
            0 <= i < m@.len() ==> #[trigger] (Json::Object(m))@->Object_0[i] == (m@[i].0@, m@[i].1@),
{
    lemma_object_view(m@, m@.len());
}

// ---------------------------------------------------------------------
// Reading
// ---------------------------------------------------------------------

/// `serde_json::Value`, a parsed document.
#[verifier::external_type_specification]
#[verifier::external_body]
pub struct ExValue(serde_json::Value);

/// The contents of a parsed document.
pub uninterp spec fn value_contents(v: serde_json::Value) -> JsonView;

/// The document that `serde_json::from_str` reads from a text; `None` where
/// the text is not one JSON document, or is nested too deeply for the parser.
pub uninterp spec fn json_document(text: Seq<char>) -> Option<JsonView>;

/// `serde_json::from_str` into a `Value`. Whether it succeeds, and what
/// document it gives, depends on the text alone. A document whose nesting
/// reaches the parser's recursion limit gives `None`, as one that is not
/// well-formed does.
#[verifier::external_body]
fn parse_value(text: &str) -> (r: Option<serde_json::Value>)
    ensures
        match r {
            Some(v) => json_document(text@) == Some(value_contents(v)),
            None => json_document(text@) is None,
        },
{
    serde_json::from_str::<serde_json::Value>(text).ok()
}

/// One level of a parsed document.
enum JsonLevel<'a> {
    Null,
    Bool(bool),
    Number(String),
    Text(&'a String),
    Array(Vec<&'a serde_json::Value>),
    Object(Vec<(&'a String, &'a serde_json::Value)>),
}

/// The variants of `serde_json::Value`: what a document holds at its top
/// level, the items of an array in order, the members of an object in the
/// order in which the map walks them.
#[verifier::external_body]
fn top_level<'a>(v: &'a serde_json::Value) -> (r: JsonLevel<'a>)
    ensures
        match r {
            JsonLevel::Null => value_contents(*v) == JsonView::Null,
            JsonLevel::Bool(b) => value_contents(*v) == JsonView::Bool(b),
            JsonLevel::Number(n) => value_contents(*v) == JsonView::Number(n@),
            JsonLevel::Text(t) => value_contents(*v) == JsonView::Text(t@),
            JsonLevel::Array(a) => value_contents(*v) == JsonView::Array(
                a@.map_values(|x: &serde_json::Value| value_contents(*x)),
            ),
            JsonLevel::Object(m) => value_contents(*v) == JsonView::Object(
                m@.map_values(
                    |x: (&String, &serde_json::Value)| (x.0@, value_contents(*x.1)),
                ),
            ),
        },
{
    match v {
        serde_json::Value::Null => JsonLevel::Null,
        serde_json::Value::Bool(b) => JsonLevel::Bool(*b),
        serde_json::Value::Number(n) => JsonLevel::Number(n.to_string()),
        serde_json::Value::String(s) => JsonLevel::Text(s),
        serde_json::Value::Array(a) => JsonLevel::Array(a.iter().collect()),
        serde_json::Value::Object(m) => JsonLevel::Object(m.iter().collect()),
    }
}

fn json_of(v: &serde_json::Value) -> (r: Json)
    ensures
        r@ == value_contents(*v),
    decreases value_contents(*v),
{
    match top_level(v) {
        JsonLevel::Null => Json::Null,
        JsonLevel::Bool(b) => Json::Bool(b),
        JsonLevel::Number(n) => Json::Number(n),
        JsonLevel::Text(t) => Json::Text(t.clone()),
        JsonLevel::Array(items) => {
            let ghost want = value_contents(*v)->Array_0;
            let mut out: Vec<Json> = Vec::new();
            let mut i: usize = 0;
            while i < items.len()
                invariant
                    i <= items@.len(),
                    value_contents(*v) == JsonView::Array(want),
                    want == items@.map_values(|x: &serde_json::Value| value_contents(*x)),
                    out@.len() == i,
                    forall|k: int| 0 <= k < i ==> (#[trigger] out@[k])@ == want[k],
                decreases items@.len() - i,
            {
                assert(want[i as int] == value_contents(*items@[i as int]));
                assert(decreases_to!(value_contents(*v) => value_contents(*v)->Array_0));
                assert(decreases_to!(want => want[i as int]));
                out.push(json_of(items[i]));
                i += 1;
            }
            proof {
                lemma_array_items(out);
                assert((Json::Array(out))@->Array_0 =~= want);
            }
            Json::Array(out)
        },
        JsonLevel::Object(members) => {
            let ghost want = value_contents(*v)->Object_0;
            let mut out: Vec<(String, Json)> = Vec::new();
            let mut i: usize = 0;
            while i < members.len()
                invariant
                    i <= members@.len(),
                    value_contents(*v) == JsonView::Object(want),
                    want == members@.map_values(
                        |x: (&String, &serde_json::Value)| (x.0@, value_contents(*x.1)),
                    ),
                    out@.len() == i,
                    forall|k: int|
                        0 <= k < i ==> (#[trigger] out@[k]).0@ == want[k].0 && out@[k].1@ == want[k].1,
                decreases members@.len() - i,
            {
                let (k, x) = members[i];
                assert(want[i as int] == (k@, value_contents(*x)));
                assert(decreases_to!(value_contents(*v) => value_contents(*v)->Object_0));
                assert(decreases_to!(want => want[i as int]));
                assert(decreases_to!(want[i as int] => want[i as int].1));
                out.push((k.clone(), json_of(x)));
                i += 1;
            }
            proof {
                lemma_object_members(out);
                assert((Json::Object(out))@->Object_0 =~= want);
            }
            Json::Object(out)
        },
    }
}

/// Reads a JSON document.
pub fn parse_json(text: &str) -> (r: Option<Json>)
    ensures
        match r {
            Some(j) => json_document(text@) == Some(j@),
            None => json_document(text@) is None,
        },
{
    match parse_value(text) {
        Some(v) => Some(json_of(&v)),
        None => None,
    }
}

// ---------------------------------------------------------------------
// Access
// ---------------------------------------------------------------------

/// The member `key` among the members from the `i`-th on, if there is one.
pub open spec fn member_from(m: Seq<(Seq<char>, JsonView)>, key: Seq<char>, i: int) -> Option<JsonView>
    decreases m.len() - i,
{
    if i < 0 || i >= m.len() {
        None
    } else if m[i].0 == key {
        Some(m[i].1)
    } else {
        member_from(m, key, i + 1)
    }
}

impl JsonView {
    /// The member `key` of an object.
    pub open spec fn get(self, key: Seq<char>) -> Option<JsonView> {
        match self {
            JsonView::Object(m) => member_from(m, key, 0),
            _ => None,
        }
    }

    /// The text of the member `key`, where it is a string.
    pub open spec fn text_of(self, key: Seq<char>) -> Option<Seq<char>> {
        match self.get(key) {
            Some(JsonView::Text(t)) => Some(t),
            _ => None,
        }
    }

    /// The items of the member `key`, where it is an array.
    pub open spec fn items_of(self, key: Seq<char>) -> Option<Seq<JsonView>> {
        match self.get(key) {
            Some(JsonView::Array(a)) => Some(a),
            _ => None,
        }
    }
}

impl Json {
    /// The member `key` of an object.
    pub fn get(&self, key: &str) -> (r: Option<&Json>)
        ensures
            match r {
                Some(j) => self@.get(key@) == Some(j@),
                None => self@.get(key@) is None,
            },
    {
        match self {
            Json::Object(m) => {
                proof {
                    lemma_object_members(*m);
                }
                let ghost want = self@->Object_0;
                let mut i: usize = 0;
                while i < m.len()
                    invariant
                        i <= m@.len(),
                        want == self@->Object_0,
                        self@ == JsonView::Object(want),
                        want.len() == m@.len(),
                        forall|k: int|
                            0 <= k < m@.len() ==> #[trigger] want[k] == (m@[k].0@, m@[k].1@),
                        member_from(want, key@, 0) == member_from(want, key@, i as int),
                    decreases m@.len() - i,
                {
                    assert(want[i as int] == (m@[i as int].0@, m@[i as int].1@));
                    if same_str(m[i].0.as_str(), key) {
                        return Some(&m[i].1);
                    }
                    i += 1;
                }
                None
            },
            _ => None,
        }
    }

    /// The text of the member `key`, where it is a string.
    pub fn text_of(&self, key: &str) -> (r: Option<&String>)
        ensures
            match r {
                Some(t) => self@.text_of(key@) == Some(t@),
                None => self@.text_of(key@) is None,
            },
    {
        match self.get(key) {
            Some(Json::Text(t)) => Some(t),
            _ => None,
        }
    }

    /// The items of the member `key`, where it is an array.
    pub fn items_of(&self, key: &str) -> (r: Option<&Vec<Json>>)
        ensures
            match r {
                Some(v) => {
                    &&& self@.items_of(key@) is Some
                    &&& self@.items_of(key@)->0.len() == v@.len()
                    &&& forall|i: int|
                        0 <= i < v@.len() ==> #[trigger] self@.items_of(key@)->0[i] == v@[i]@
                },
                None => self@.items_of(key@) is None,
            },
    {
        match self.get(key) {
            Some(Json::Array(v)) => {
                proof {
                    lemma_array_items(*v);
                }
                Some(v)
            },
            _ => None,
        }
    }
}

} // verus!
