//! JSON values as the library holds them, with the object operations the
//! engine needs: member lookup and member replacement.
//!
//! An object keeps its members as (key, value) pairs; lookup finds the first
//! member with the key, and setting a member replaces that member or appends
//! one. Objects built by these operations never hold a key twice.

use vstd::prelude::*;
use crate::text::str_eq;

verus! {

/// A JSON number as the JSON reader classifies it: a non-negative integer, a
/// negative integer, or any other number, kept as the text it is written as.
#[derive(Debug)]
pub enum JsonNumber {
    PosInt(u64),
    NegInt(i64),
    Float(String),
}

/// A JSON value.
#[derive(Debug)]
pub enum Json {
    Null,
    Bool(bool),
    Number(JsonNumber),
    Str(String),
    Array(Vec<Json>),
    Object(Vec<(String, Json)>),
}

/// A JSON number as plain values.
pub enum NumberView {
    PosInt(u64),
    NegInt(i64),
    Float(Seq<char>),
}

/// A JSON value as plain values.
pub enum JsonView {
    Null,
    Bool(bool),
    Number(NumberView),
    Str(Seq<char>),
    Array(Seq<JsonView>),
    Object(Seq<(Seq<char>, JsonView)>),
}

pub open spec fn number_view(n: JsonNumber) -> NumberView {
    match n {
        JsonNumber::PosInt(u) => NumberView::PosInt(u),
        JsonNumber::NegInt(i) => NumberView::NegInt(i),
        JsonNumber::Float(t) => NumberView::Float(t@),
    }
}

/// The members of an object as plain values.
pub open spec fn members_view(m: Seq<(String, Json)>) -> Seq<(Seq<char>, JsonView)>
    decreases m,
{
    Seq::new(
        m.len(),
        |i: int|
            if 0 <= i < m.len() {
                (m[i].0@, json_view(m[i].1))
            } else {
                (Seq::empty(), JsonView::Null)
            },
    )
}

/// A JSON value as plain values.
pub open spec fn json_view(j: Json) -> JsonView
    decreases j,
{
    match j {
        Json::Null => JsonView::Null,
        Json::Bool(b) => JsonView::Bool(b),
        Json::Number(n) => JsonView::Number(number_view(n)),
        Json::Str(s) => JsonView::Str(s@),
        Json::Array(v) => JsonView::Array(
            Seq::new(v@.len(), |i: int| if 0 <= i < v@.len() { json_view(v@[i]) } else { JsonView::Null }),
        ),
        Json::Object(m) => JsonView::Object(
            Seq::new(
                m@.len(),
                |i: int|
                    if 0 <= i < m@.len() {
                        (m@[i].0@, json_view(m@[i].1))
                    } else {
                        (Seq::empty(), JsonView::Null)
                    },
            ),
        ),
    }
}

/// The position of the first member at or after `i` with key `k`.
pub open spec fn index_from(m: Seq<(Seq<char>, JsonView)>, k: Seq<char>, i: int) -> Option<int>
    decreases m.len() - i,
{
    if i < 0 || i >= m.len() {
        None
    } else if m[i].0 == k {
        Some(i)
    } else {
        index_from(m, k, i + 1)
    }
}

/// The position of the first member with key `k`.
pub open spec fn key_index(m: Seq<(Seq<char>, JsonView)>, k: Seq<char>) -> Option<int> {
    index_from(m, k, 0)
}

/// The value of member `k` of an object; nothing for other values.
pub open spec fn jget(v: JsonView, k: Seq<char>) -> Option<JsonView> {
    match v {
        JsonView::Object(m) => match key_index(m, k) {
            Some(i) => Some(m[i].1),
            None => None,
        },
        _ => None,
    }
}

/// `v` with member `k` set to `x`: null becomes an object of that one member,
/// an existing member is replaced in place, a new one is appended.
pub open spec fn jset(v: JsonView, k: Seq<char>, x: JsonView) -> JsonView {
    match v {
        JsonView::Null => JsonView::Object(seq![(k, x)]),
        JsonView::Object(m) => match key_index(m, k) {
            Some(i) => JsonView::Object(m.update(i, (k, x))),
            None => JsonView::Object(m.push((k, x))),
        },
        _ => v,
    }
}

/// The text of a string value.
pub open spec fn jstr(v: Option<JsonView>) -> Option<Seq<char>> {
    match v {
        Some(JsonView::Str(s)) => Some(s),
        _ => None,
    }
}

/// A value that member assignment accepts: an object, or null which becomes one.
pub open spec fn settable(v: JsonView) -> bool {
    v is Object || v is Null
}

proof fn lemma_index_from_found(m: Seq<(Seq<char>, JsonView)>, k: Seq<char>, i: int)
    requires
        0 <= i,
    ensures
        index_from(m, k, i) matches Some(j) ==> i <= j < m.len() && m[j].0 == k && forall|l: int|
            i <= l < j ==> m[l].0 != k,
        index_from(m, k, i) is None ==> forall|l: int| i <= l < m.len() ==> m[l].0 != k,
    decreases m.len() - i,
{
    if i < m.len() && m[i].0 != k {
        lemma_index_from_found(m, k, i + 1);
    }
}

/// The first member with key `k` is at `j` when no earlier member has it.
pub proof fn lemma_index_from_is(m: Seq<(Seq<char>, JsonView)>, k: Seq<char>, i: int, j: int)
    requires
        0 <= i <= j < m.len(),
        m[j].0 == k,
        forall|l: int| i <= l < j ==> m[l].0 != k,
    ensures
        index_from(m, k, i) == Some(j),
    decreases j - i,
{
    if i < j {
        lemma_index_from_is(m, k, i + 1, j);
    }
}

/// No member at or after `i` has key `k`.
proof fn lemma_index_from_none(m: Seq<(Seq<char>, JsonView)>, k: Seq<char>, i: int)
    requires
        0 <= i,
        forall|l: int| i <= l < m.len() ==> m[l].0 != k,
    ensures
        index_from(m, k, i) is None,
    decreases m.len() - i,
{
    if i < m.len() {
        lemma_index_from_none(m, k, i + 1);
    }
}

/// Reading member `k2` after setting member `k` gives the new value when the
/// keys are the same and the old member otherwise.
pub proof fn law_get_after_set(v: JsonView, k: Seq<char>, x: JsonView, k2: Seq<char>)
    requires
        settable(v),
    ensures
        jget(jset(v, k, x), k2) == (if k2 == k { Some(x) } else { jget(v, k2) }),
        jset(v, k, x) is Object,
{
    match v {
        JsonView::Null => {
            let m = seq![(k, x)];
            if k2 == k {
                lemma_index_from_is(m, k2, 0, 0);
            } else {
                lemma_index_from_none(m, k2, 0);
            }
        },
        JsonView::Object(m) => {
            lemma_index_from_found(m, k, 0);
            match key_index(m, k) {
                Some(i) => {
                    let m2 = m.update(i, (k, x));
                    lemma_index_from_found(m, k2, 0);
                    if k2 == k {
                        lemma_index_from_is(m2, k2, 0, i);
                    } else {
                        match key_index(m, k2) {
                            Some(j) => {
                                lemma_index_from_is(m2, k2, 0, j);
                            },
                            None => {
                                lemma_index_from_none(m2, k2, 0);
                            },
                        }
                    }
                },
                None => {
                    let m2 = m.push((k, x));
                    lemma_index_from_found(m, k2, 0);
                    if k2 == k {
                        lemma_index_from_is(m2, k2, 0, m.len() as int);
                    } else {
                        match key_index(m, k2) {
                            Some(j) => {
                                lemma_index_from_is(m2, k2, 0, j);
                            },
                            None => {
                                lemma_index_from_none(m2, k2, 0);
                            },
                        }
                    }
                },
            }
        },
        _ => {},
    }
}

/// Setting a member twice keeps only the second value.
pub proof fn lemma_set_set(v: JsonView, k: Seq<char>, x: JsonView, y: JsonView)
    requires
        settable(v),
    ensures
        jset(jset(v, k, x), k, y) == jset(v, k, y),
{
    match v {
        JsonView::Null => {
            lemma_index_from_is(seq![(k, x)], k, 0, 0);
            assert(seq![(k, x)].update(0, (k, y)) =~= seq![(k, y)]);
        },
        JsonView::Object(m) => {
            lemma_index_from_found(m, k, 0);
            match key_index(m, k) {
                Some(i) => {
                    lemma_index_from_is(m.update(i, (k, x)), k, 0, i);
                    assert(m.update(i, (k, x)).update(i, (k, y)) =~= m.update(i, (k, y)));
                },
                None => {
                    lemma_index_from_is(m.push((k, x)), k, 0, m.len() as int);
                    assert(m.push((k, x)).update(m.len() as int, (k, y)) =~= m.push((k, y)));
                },
            }
        },
        _ => {},
    }
}

/// Where the first member with key `key` is.
fn find_member(m: &Vec<(String, Json)>, key: &str) -> (r: Option<usize>)
    ensures
        r matches Some(i) ==> i < m@.len() && key_index(members_view(m@), key@) == Some(i as int),
        r is None ==> key_index(members_view(m@), key@) is None,
{
    let ghost mv = members_view(m@);
    let mut i: usize = 0;
    while i < m.len()
        invariant
            mv == members_view(m@),
            i <= m@.len(),
            forall|l: int| 0 <= l < i ==> mv[l].0 != key@,
        decreases m@.len() - i,
    {
        assert(mv[i as int].0 == m@[i as int].0@);
        if str_eq(m[i].0.as_str(), key) {
            proof {
                lemma_index_from_is(mv, key@, 0, i as int);
            }
            return Some(i);
        }
        i = i + 1;
    }
    proof {
        lemma_index_from_none(mv, key@, 0);
    }
    None
}

impl Json {
    /// A copy of the value.
    pub fn duplicate(&self) -> (r: Json)
        ensures
            json_view(r) == json_view(*self),
        decreases self,
    {
        match self {
            Json::Null => Json::Null,
            Json::Bool(b) => Json::Bool(*b),
            Json::Number(JsonNumber::PosInt(u)) => Json::Number(JsonNumber::PosInt(*u)),
            Json::Number(JsonNumber::NegInt(i)) => Json::Number(JsonNumber::NegInt(*i)),
            Json::Number(JsonNumber::Float(t)) => Json::Number(JsonNumber::Float(t.clone())),
            Json::Str(s) => Json::Str(s.clone()),
            Json::Array(v) => {
                let mut out: Vec<Json> = Vec::new();
                let mut i: usize = 0;
                while i < v.len()
                    invariant
                        *self == Json::Array(*v),
                        i <= v@.len(),
                        out@.len() == i,
                        forall|l: int| 0 <= l < i ==> json_view(#[trigger] out@[l]) == json_view(v@[l]),
                    decreases v@.len() - i,
                {
                    proof {
                        vstd::std_specs::vec::axiom_vec_index_decreases(*v, i as int);
                        assert(decreases_to!(*self => (*self)->Array_0));
                        assert(decreases_to!(*self => v[i as int]));
                    }
                    out.push(v[i].duplicate());
                    i = i + 1;
                }
                let r = Json::Array(out);
                assert(json_view(r) == json_view(*self)) by {
                    if let JsonView::Array(a) = json_view(r) {
                        if let JsonView::Array(b) = json_view(*self) {
                            assert(a =~= b);
                        }
                    }
                }
                r
            },
            Json::Object(m) => {
                let mut out: Vec<(String, Json)> = Vec::new();
                let mut i: usize = 0;
                while i < m.len()
                    invariant
                        *self == Json::Object(*m),
                        i <= m@.len(),
                        out@.len() == i,
                        forall|l: int| 0 <= l < i ==> (#[trigger] out@[l]).0@ == m@[l].0@,
                        forall|l: int| 0 <= l < i ==> json_view(#[trigger] out@[l].1) == json_view(m@[l].1),
                    decreases m@.len() - i,
                {
                    proof {
                        vstd::std_specs::vec::axiom_vec_index_decreases(*m, i as int);
                        assert(decreases_to!(*self => (*self)->Object_0));
                        assert(decreases_to!(m[i as int] => m[i as int].1));
                        assert(decreases_to!(*self => m[i as int].1));
                    }
                    let k = m[i].0.clone();
                    let v = m[i].1.duplicate();
                    out.push((k, v));
                    i = i + 1;
                }
                let r = Json::Object(out);
                assert(json_view(r) == json_view(*self)) by {
                    if let JsonView::Object(a) = json_view(r) {
                        if let JsonView::Object(b) = json_view(*self) {
                            assert(a =~= b);
                        }
                    }
                }
                r
            },
        }
    }

    /// Member `key` of an object; nothing when the value is not an object or
    /// has no such member.
    pub fn get<'a>(&'a self, key: &str) -> (r: Option<&'a Json>)
        ensures
            match r {
                Some(x) => jget(json_view(*self), key@) == Some(json_view(*x)),
                None => jget(json_view(*self), key@) is None,
            },
    {
        match self {
            Json::Object(m) => {
                assert(members_view(m@) =~= json_view(*self)->Object_0);
                match find_member(m, key) {
                    Some(i) => Some(&m[i].1),
                    None => None,
                }
            },
            _ => None,
        }
    }

    /// The text of a string value.
    pub fn as_str(&self) -> (r: Option<&str>)
        ensures
            match r {
                Some(s) => json_view(*self) == JsonView::Str(s@),
                None => !(json_view(*self) is Str),
            },
    {
        match self {
            Json::Str(s) => Some(s.as_str()),
            _ => None,
        }
    }

    /// Takes the value of member `key` out of an object, leaving null in its
    /// place; other values, and objects without the member, are returned as they are.
    pub fn take_member(self, key: &str) -> (r: (Json, Option<Json>))
        ensures
            match jget(json_view(self), key@) {
                Some(x) => json_view(r.0) == jset(json_view(self), key@, JsonView::Null) && (r.1 matches Some(y)
                    && json_view(y) == x),
                None => json_view(r.0) == json_view(self) && r.1 is None,
            },
    {
        let ghost v = json_view(self);
        match self {
            Json::Object(mut m) => {
                let ghost mv = members_view(m@);
                assert(mv =~= v->Object_0);
                match find_member(&m, key) {
                    Some(i) => {
                        let (k, val) = m.remove(i);
                        m.insert(i, (k, Json::Null));
                        proof {
                            lemma_index_from_found(mv, key@, 0);
                            assert(members_view(m@) =~= mv.update(i as int, (key@, JsonView::Null)));
                        }
                        let r = Json::Object(m);
                        assert(json_view(r)->Object_0 =~= members_view(m@));
                        (r, Some(val))
                    },
                    None => {
                        let r = Json::Object(m);
                        assert(json_view(r)->Object_0 =~= mv);
                        (r, None)
                    },
                }
            },
            other => (other, None),
        }
    }

    /// The value with member `key` set to `x`; a null value becomes an object.
    pub fn with_member(self, key: &str, x: Json) -> (r: Json)
        requires
            settable(json_view(self)),
        ensures
            json_view(r) == jset(json_view(self), key@, json_view(x)),
            json_view(r) is Object,
    {
        match self {
            Json::Object(mut m) => {
                let ghost mv = members_view(m@);
                assert(mv =~= json_view(Json::Object(m))->Object_0);
                match find_member(&m, key) {
                    Some(i) => {
                        m.set(i, (key.to_string(), x));
                        proof {
                            assert(members_view(m@) =~= mv.update(i as int, (key@, json_view(x))));
                        }
                    },
                    None => {
                        m.push((key.to_string(), x));
                        proof {
                            assert(members_view(m@) =~= mv.push((key@, json_view(x))));
                        }
                    },
                }
                let r = Json::Object(m);
                assert(json_view(r)->Object_0 =~= members_view(m@));
                r
            },
            _ => {
                let mut m: Vec<(String, Json)> = Vec::new();
                m.push((key.to_string(), x));
                let r = Json::Object(m);
                assert(json_view(r)->Object_0 =~= seq![(key@, json_view(x))]);
                r
            },
        }
    }
}

} // verus!
