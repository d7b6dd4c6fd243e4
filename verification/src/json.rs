//! JSON values, as the validators read them.

use vstd::prelude::*;
use crate::quantity::Real;
use crate::text::str_eq;

verus! {

/// A JSON number: non-negative integer, negative integer, or other.
#[derive(Debug, Clone, Copy)]
pub enum JsonNumber {
    PosInt(u64),
    NegInt(i64),
    Float(Real),
}

/// A JSON value. An object holds its members in order, each key once.
#[derive(Debug)]
pub enum JsonValue {
    Null,
    Bool(bool),
    Number(JsonNumber),
    String(String),
    Array(Vec<JsonValue>),
    Object(Vec<(String, JsonValue)>),
}

/// A JSON value as a mathematical value.
pub enum JsonView {
    Null,
    Bool(bool),
    Number(JsonNumber),
    Str(Seq<char>),
    Array(Seq<JsonView>),
    Object(Seq<(Seq<char>, JsonView)>),
}

/// The mathematical value of a JSON value.
pub open spec fn json_view(v: JsonValue) -> JsonView
    decreases v,
{
    match v {
        JsonValue::Null => JsonView::Null,
        JsonValue::Bool(b) => JsonView::Bool(b),
        JsonValue::Number(n) => JsonView::Number(n),
        JsonValue::String(s) => JsonView::Str(s@),
        JsonValue::Array(items) => JsonView::Array(
            Seq::new(
                items@.len(),
                |i: int|
                    if 0 <= i < items@.len() {
                        proof {
                            broadcast use vstd::std_specs::vec::axiom_vec_index_decreases;
                            assert(decreases_to!(items => items[i]));
                        }
                        json_view(items@[i])
                    } else {
                        JsonView::Null
                    },
            ),
        ),
        JsonValue::Object(members) => JsonView::Object(
            Seq::new(
                members@.len(),
                |i: int|
                    if 0 <= i < members@.len() {
                        proof {
                            broadcast use vstd::std_specs::vec::axiom_vec_index_decreases;
                            assert(decreases_to!(members => members[i]));
                            assert(decreases_to!(members[i] => members[i].1));
                        }
                        (members@[i].0@, json_view(members@[i].1))
                    } else {
                        (Seq::empty(), JsonView::Null)
                    },
            ),
        ),
    }
}

/// Index of the first member of `m` at or after `i` whose key is `key`.
pub open spec fn member_index_from(m: Seq<(String, JsonValue)>, key: Seq<char>, i: int) -> Option<
    int,
>
    decreases m.len() - i,
{
    if i < 0 || i >= m.len() {
        None
    } else if m[i].0@ == key {
        Some(i)
    } else {
        member_index_from(m, key, i + 1)
    }
}

/// `value.get(key)`: the member of an object with that key.
pub open spec fn get(v: JsonValue, key: Seq<char>) -> Option<JsonValue> {
    match v {
        JsonValue::Object(m) => match member_index_from(m@, key, 0) {
            Some(i) => Some(m@[i].1),
            None => None,
        },
        _ => None,
    }
}

/// `value.as_str()`.
pub open spec fn as_str(v: JsonValue) -> Option<Seq<char>> {
    match v {
        JsonValue::String(s) => Some(s@),
        _ => None,
    }
}

/// `value.get(key).and_then(|v| v.as_str())`.
pub open spec fn get_str(v: JsonValue, key: Seq<char>) -> Option<Seq<char>> {
    match get(v, key) {
        Some(x) => as_str(x),
        None => None,
    }
}

/// `value.get(key).and_then(|v| v.as_array())`.
pub open spec fn get_array(v: JsonValue, key: Seq<char>) -> Option<Seq<JsonValue>> {
    match get(v, key) {
        Some(JsonValue::Array(a)) => Some(a@),
        _ => None,
    }
}

/// `value.as_i64()`.
pub open spec fn as_i64(v: JsonValue) -> Option<i64> {
    match v {
        JsonValue::Number(JsonNumber::PosInt(u)) => if u <= i64::MAX {
            Some(u as i64)
        } else {
            None
        },
        JsonValue::Number(JsonNumber::NegInt(i)) => Some(i),
        _ => None,
    }
}

pub open spec fn is_object(v: JsonValue) -> bool {
    v is Object
}

pub open spec fn is_null(v: JsonValue) -> bool {
    v is Null
}

fn member_index(m: &Vec<(String, JsonValue)>, key: &str) -> (r: Option<usize>)
    ensures
        r matches Some(i) ==> member_index_from(m@, key@, 0) == Some(i as int) && i < m.len(),
        r is None ==> member_index_from(m@, key@, 0) is None,
{
    let mut i: usize = 0;
    while i < m.len()
        invariant
            i <= m.len(),
            member_index_from(m@, key@, 0) == member_index_from(m@, key@, i as int),
        decreases m.len() - i,
    {
        if str_eq(m[i].0.as_str(), key) {
            return Some(i);
        }
        i += 1;
    }
    None
}

/// `value.get(key)`.
pub fn json_get<'a>(v: &'a JsonValue, key: &str) -> (r: Option<&'a JsonValue>)
    ensures
        r matches Some(x) ==> get(*v, key@) == Some(*x),
        r is None ==> get(*v, key@) is None,
{
    match v {
        JsonValue::Object(m) => match member_index(m, key) {
            Some(i) => Some(&m[i].1),
            None => None,
        },
        _ => None,
    }
}

/// `value.as_str()`.
pub fn json_as_str(v: &JsonValue) -> (r: Option<&String>)
    ensures
        r matches Some(s) ==> as_str(*v) == Some(s@),
        r is None ==> as_str(*v) is None,
{
    match v {
        JsonValue::String(s) => Some(s),
        _ => None,
    }
}

/// `value.get(key).and_then(|v| v.as_str())`.
pub fn json_get_str<'a>(v: &'a JsonValue, key: &str) -> (r: Option<&'a String>)
    ensures
        r matches Some(s) ==> get_str(*v, key@) == Some(s@),
        r is None ==> get_str(*v, key@) is None,
{
    match json_get(v, key) {
        Some(x) => json_as_str(x),
        None => None,
    }
}

/// `value.get(key).and_then(|v| v.as_array())`.
pub fn json_get_array<'a>(v: &'a JsonValue, key: &str) -> (r: Option<&'a Vec<JsonValue>>)
    ensures
        r matches Some(a) ==> get_array(*v, key@) == Some(a@),
        r is None ==> get_array(*v, key@) is None,
{
    match json_get(v, key) {
        Some(JsonValue::Array(a)) => Some(a),
        _ => None,
    }
}

/// `value.as_i64()`.
pub fn json_as_i64(v: &JsonValue) -> (r: Option<i64>)
    ensures
        r == as_i64(*v),
{
    match v {
        JsonValue::Number(JsonNumber::PosInt(u)) => {
            if *u <= 9223372036854775807u64 {
                Some(*u as i64)
            } else {
                None
            }
        },
        JsonValue::Number(JsonNumber::NegInt(i)) => Some(*i),
        _ => None,
    }
}

/// `value.is_object()`.
pub fn json_is_object(v: &JsonValue) -> (r: bool)
    ensures
        r == is_object(*v),
{
    match v {
        JsonValue::Object(_) => true,
        _ => false,
    }
}

/// `value.is_null()`.
pub fn json_is_null(v: &JsonValue) -> (r: bool)
    ensures
        r == is_null(*v),
{
    match v {
        JsonValue::Null => true,
        _ => false,
    }
}

impl JsonValue {
    /// A copy of the value.
    pub fn deep_clone(&self) -> (r: JsonValue)
        ensures
            json_view(r) == json_view(*self),
        decreases self,
    {
        match self {
            JsonValue::Null => JsonValue::Null,
            JsonValue::Bool(b) => JsonValue::Bool(*b),
            JsonValue::Number(n) => JsonValue::Number(*n),
            JsonValue::String(s) => JsonValue::String(s.clone()),
            JsonValue::Array(items) => {
                let mut out: Vec<JsonValue> = Vec::new();
                let mut i: usize = 0;
                while i < items.len()
                    invariant
                        i <= items.len(),
                        out@.len() == i,
                        forall|k: int| 0 <= k < i ==> json_view(#[trigger] out@[k]) == json_view(items@[k]),
                        *self is Array,
                        self->Array_0 == *items,
                    decreases items.len() - i,
                {
                    proof {
                        broadcast use vstd::std_specs::vec::axiom_vec_index_decreases;
                        assert(decreases_to!(*items => items[i as int]));
                        assert(decreases_to!(*self => self->Array_0));
                        assert(decreases_to!(self => items[i as int]));
                    }
                    let c = items[i].deep_clone();
                    out.push(c);
                    i += 1;
                }
                let r = JsonValue::Array(out);
                assert(json_view(r)->Array_0 =~= json_view(*self)->Array_0);
                r
            },
            JsonValue::Object(members) => {
                let mut out: Vec<(String, JsonValue)> = Vec::new();
                let mut i: usize = 0;
                while i < members.len()
                    invariant
                        i <= members.len(),
                        out@.len() == i,
                        forall|k: int|
                            0 <= k < i ==> (#[trigger] out@[k]).0@ == members@[k].0@ && json_view(
                                out@[k].1,
                            ) == json_view(members@[k].1),
                        *self is Object,
                        self->Object_0 == *members,
                    decreases members.len() - i,
                {
                    proof {
                        broadcast use vstd::std_specs::vec::axiom_vec_index_decreases;
                        assert(decreases_to!(*members => members[i as int]));
                        assert(decreases_to!(members[i as int] => members[i as int].1));
                        assert(decreases_to!(*self => self->Object_0));
                        assert(decreases_to!(self => members[i as int].1));
                    }
                    let k = members[i].0.clone();
                    let v = members[i].1.deep_clone();
                    out.push((k, v));
                    i += 1;
                }
                let r = JsonValue::Object(out);
                assert(json_view(r)->Object_0 =~= json_view(*self)->Object_0);
                r
            },
        }
    }
}

fn number_same(a: JsonNumber, b: JsonNumber) -> (r: bool)
    ensures
        r == (a == b),
{
    match (a, b) {
        (JsonNumber::PosInt(x), JsonNumber::PosInt(y)) => x == y,
        (JsonNumber::NegInt(x), JsonNumber::NegInt(y)) => x == y,
        (JsonNumber::Float(x), JsonNumber::Float(y)) => match (x, y) {
            (Real::Finite(p), Real::Finite(q)) => p == q,
            (Real::PosInf, Real::PosInf) => true,
            (Real::NegInf, Real::NegInf) => true,
            (Real::NaN, Real::NaN) => true,
            _ => false,
        },
        _ => false,
    }
}

/// `a == b` on JSON values.
pub fn json_eq(a: &JsonValue, b: &JsonValue) -> (r: bool)
    ensures
        r == (json_view(*a) == json_view(*b)),
    decreases a,
{
    match (a, b) {
        (JsonValue::Null, JsonValue::Null) => true,
        (JsonValue::Bool(x), JsonValue::Bool(y)) => *x == *y,
        (JsonValue::Number(x), JsonValue::Number(y)) => number_same(*x, *y),
        (JsonValue::String(x), JsonValue::String(y)) => str_eq(x.as_str(), y.as_str()),
        (JsonValue::Array(xs), JsonValue::Array(ys)) => {
            if xs.len() != ys.len() {
                assert(json_view(*a)->Array_0.len() != json_view(*b)->Array_0.len());
                return false;
            }
            let mut i: usize = 0;
            while i < xs.len()
                invariant
                    i <= xs.len(),
                    xs.len() == ys.len(),
                    *a is Array,
                    a->Array_0 == *xs,
                    *b is Array,
                    b->Array_0 == *ys,
                    forall|k: int| 0 <= k < i ==> json_view(#[trigger] xs@[k]) == json_view(ys@[k]),
                decreases xs.len() - i,
            {
                proof {
                    broadcast use vstd::std_specs::vec::axiom_vec_index_decreases;
                    assert(decreases_to!(*xs => xs[i as int]));
                    assert(decreases_to!(*a => a->Array_0));
                    assert(decreases_to!(a => xs[i as int]));
                }
                if !json_eq(&xs[i], &ys[i]) {
                    assert(json_view(*a)->Array_0[i as int] != json_view(*b)->Array_0[i as int]);
                    return false;
                }
                i += 1;
            }
            assert(json_view(*a)->Array_0 =~= json_view(*b)->Array_0);
            true
        },
        (JsonValue::Object(xs), JsonValue::Object(ys)) => {
            if xs.len() != ys.len() {
                assert(json_view(*a)->Object_0.len() != json_view(*b)->Object_0.len());
                return false;
            }
            let mut i: usize = 0;
            while i < xs.len()
                invariant
                    i <= xs.len(),
                    xs.len() == ys.len(),
                    *a is Object,
                    a->Object_0 == *xs,
                    *b is Object,
                    b->Object_0 == *ys,
                    forall|k: int|
                        0 <= k < i ==> (#[trigger] xs@[k]).0@ == ys@[k].0@ && json_view(xs@[k].1)
                            == json_view(ys@[k].1),
                decreases xs.len() - i,
            {
                proof {
                    broadcast use vstd::std_specs::vec::axiom_vec_index_decreases;
                    assert(decreases_to!(*xs => xs[i as int]));
                    assert(decreases_to!(xs[i as int] => xs[i as int].1));
                    assert(decreases_to!(*a => a->Object_0));
                    assert(decreases_to!(a => xs[i as int].1));
                }
                if !str_eq(xs[i].0.as_str(), ys[i].0.as_str()) || !json_eq(&xs[i].1, &ys[i].1) {
                    assert(json_view(*a)->Object_0[i as int] != json_view(*b)->Object_0[i as int]);
                    return false;
                }
                i += 1;
            }
            assert(json_view(*a)->Object_0 =~= json_view(*b)->Object_0);
            true
        },
        _ => false,
    }
}

// ---------------------------------------------------------------------------
// Reading JSON by its mathematical value
// ---------------------------------------------------------------------------

pub open spec fn views(s: Seq<JsonValue>) -> Seq<JsonView> {
    s.map_values(|x: JsonValue| json_view(x))
}

pub open spec fn vmember_index_from(m: Seq<(Seq<char>, JsonView)>, key: Seq<char>, i: int) -> Option<int>
    decreases m.len() - i,
{
    if i < 0 || i >= m.len() {
        None
    } else if m[i].0 == key {
        Some(i)
    } else {
        vmember_index_from(m, key, i + 1)
    }
}

/// `value.get(key)`.
pub open spec fn vget(v: JsonView, key: Seq<char>) -> Option<JsonView> {
    match v {
        JsonView::Object(m) => match vmember_index_from(m, key, 0) {
            Some(i) => Some(m[i].1),
            None => None,
        },
        _ => None,
    }
}

/// `value.as_str()`.
pub open spec fn vas_str(v: JsonView) -> Option<Seq<char>> {
    match v {
        JsonView::Str(s) => Some(s),
        _ => None,
    }
}

/// `value.get(key).and_then(|v| v.as_str())`.
pub open spec fn vget_str(v: JsonView, key: Seq<char>) -> Option<Seq<char>> {
    match vget(v, key) {
        Some(x) => vas_str(x),
        None => None,
    }
}

/// `value.get(key).and_then(|v| v.as_array())`.
pub open spec fn vget_array(v: JsonView, key: Seq<char>) -> Option<Seq<JsonView>> {
    match vget(v, key) {
        Some(JsonView::Array(a)) => Some(a),
        _ => None,
    }
}

/// `value.as_i64()`.
pub open spec fn vas_i64(v: JsonView) -> Option<i64> {
    match v {
        JsonView::Number(JsonNumber::PosInt(u)) => if u <= i64::MAX {
            Some(u as i64)
        } else {
            None
        },
        JsonView::Number(JsonNumber::NegInt(i)) => Some(i),
        _ => None,
    }
}

/// `value.get(key).and_then(|v| v.as_i64())`.
pub open spec fn vget_i64(v: JsonView, key: Seq<char>) -> Option<i64> {
    match vget(v, key) {
        Some(x) => vas_i64(x),
        None => None,
    }
}

proof fn lemma_member_index_view(m: Seq<(String, JsonValue)>, vm: Seq<(Seq<char>, JsonView)>, key: Seq<char>, i: int)
    requires
        vm.len() == m.len(),
        forall|j: int| 0 <= j < m.len() ==> (#[trigger] vm[j]).0 == m[j].0@,
    ensures
        member_index_from(m, key, i) == vmember_index_from(vm, key, i),
    decreases m.len() - i,
{
    if 0 <= i < m.len() {
        assert(vm[i].0 == m[i].0@);
        lemma_member_index_view(m, vm, key, i + 1);
    }
}

/// Reading a member gives the value of the member read.
pub proof fn lemma_get_view(v: JsonValue, key: Seq<char>)
    ensures
        match get(v, key) {
            Some(x) => vget(json_view(v), key) == Some(json_view(x)),
            None => vget(json_view(v), key) is None,
        },
{
    match v {
        JsonValue::Object(m) => {
            let vm = json_view(v)->Object_0;
            assert forall|j: int| 0 <= j < m@.len() implies (#[trigger] vm[j]).0 == m@[j].0@ by {}
            lemma_member_index_view(m@, vm, key, 0);
            match member_index_from(m@, key, 0) {
                Some(i) => {
                    lemma_member_index_in_range(m@, key, 0);
                },
                None => {},
            }
        },
        _ => {},
    }
}

proof fn lemma_member_index_in_range(m: Seq<(String, JsonValue)>, key: Seq<char>, i: int)
    requires
        0 <= i,
    ensures
        member_index_from(m, key, i) matches Some(j) ==> i <= j < m.len(),
    decreases m.len() - i,
{
    if i < m.len() {
        lemma_member_index_in_range(m, key, i + 1);
    }
}

/// `value.get(key)`, by value.
pub fn vjson_get<'a>(v: &'a JsonValue, key: &str) -> (r: Option<&'a JsonValue>)
    ensures
        match r {
            Some(x) => vget(json_view(*v), key@) == Some(json_view(*x)),
            None => vget(json_view(*v), key@) is None,
        },
{
    proof {
        lemma_get_view(*v, key@);
    }
    json_get(v, key)
}

/// `value.as_str()`, by value.
pub fn vjson_as_str(v: &JsonValue) -> (r: Option<&String>)
    ensures
        match r {
            Some(s) => vas_str(json_view(*v)) == Some(s@),
            None => vas_str(json_view(*v)) is None,
        },
{
    json_as_str(v)
}

/// `value.get(key).and_then(|v| v.as_str())`, by value.
pub fn vjson_get_str<'a>(v: &'a JsonValue, key: &str) -> (r: Option<&'a String>)
    ensures
        match r {
            Some(s) => vget_str(json_view(*v), key@) == Some(s@),
            None => vget_str(json_view(*v), key@) is None,
        },
{
    match vjson_get(v, key) {
        Some(x) => vjson_as_str(x),
        None => None,
    }
}

/// `value.get(key).and_then(|v| v.as_array())`, by value.
pub fn vjson_get_array<'a>(v: &'a JsonValue, key: &str) -> (r: Option<&'a Vec<JsonValue>>)
    ensures
        match r {
            Some(a) => vget_array(json_view(*v), key@) == Some(views(a@)),
            None => vget_array(json_view(*v), key@) is None,
        },
{
    match vjson_get(v, key) {
        Some(x) => match x {
            JsonValue::Array(a) => {
                assert(json_view(*x)->Array_0 =~= views(a@));
                Some(a)
            },
            _ => None,
        },
        None => None,
    }
}

/// `value.get(key).and_then(|v| v.as_i64())`, by value.
pub fn vjson_get_i64(v: &JsonValue, key: &str) -> (r: Option<i64>)
    ensures
        r == vget_i64(json_view(*v), key@),
{
    match vjson_get(v, key) {
        Some(x) => json_as_i64(x),
        None => None,
    }
}

} // verus!
