//! A JSON document as plain values: the payloads the diagnostics, sync and
//! agent paths build and inspect. Numbers keep their literal text.

use vstd::prelude::*;
use crate::text::str_eq;

verus! {

/// A JSON value. Object members keep their order.
#[derive(Debug, PartialEq, Eq)]
pub enum Json {
    Null,
    Bool(bool),
    /// A number, as its literal text (e.g. `3600`, `-1.5e3`).
    Number(String),
    Str(String),
    Array(Vec<Json>),
    Object(Vec<(String, Json)>),
}

/// Two JSON values are the same document: same shape, same texts.
pub open spec fn same_json(a: Json, b: Json) -> bool
    decreases a,
{
    match (a, b) {
        (Json::Null, Json::Null) => true,
        (Json::Bool(x), Json::Bool(y)) => x == y,
        (Json::Number(x), Json::Number(y)) => x@ == y@,
        (Json::Str(x), Json::Str(y)) => x@ == y@,
        (Json::Array(xs), Json::Array(ys)) => xs@.len() == ys@.len() && forall|i: int|
            0 <= i < xs@.len() ==> same_json(#[trigger] xs@[i], ys@[i]),
        (Json::Object(xs), Json::Object(ys)) => xs@.len() == ys@.len() && forall|i: int|
            0 <= i < xs@.len() ==> (#[trigger] xs@[i]).0@ == ys@[i].0@ && same_json(
                xs@[i].1,
                ys@[i].1,
            ),
        _ => false,
    }
}

/// A copy of a JSON value.
pub fn json_clone(v: &Json) -> (r: Json)
    ensures
        same_json(*v, r),
    decreases v,
{
    match v {
        Json::Null => Json::Null,
        Json::Bool(b) => Json::Bool(*b),
        Json::Number(n) => Json::Number(n.clone()),
        Json::Str(s) => Json::Str(s.clone()),
        Json::Array(items) => {
            let mut out: Vec<Json> = Vec::new();
            let mut i: usize = 0;
            while i < items.len()
                invariant
                    *v == Json::Array(*items),
                    i <= items@.len(),
                    out@.len() == i,
                    forall|j: int| 0 <= j < i ==> same_json(#[trigger] items@[j], out@[j]),
                decreases items@.len() - i,
            {
                proof {
                    broadcast use vstd::std_specs::vec::axiom_vec_index_decreases;
                    assert(decreases_to!(v->Array_0 => v->Array_0[i as int]));
                    assert(decreases_to!(*v => v->Array_0));
                }
                out.push(json_clone(&items[i]));
                i = i + 1;
            }
            Json::Array(out)
        },
        Json::Object(members) => {
            let mut out: Vec<(String, Json)> = Vec::new();
            let mut i: usize = 0;
            while i < members.len()
                invariant
                    *v == Json::Object(*members),
                    i <= members@.len(),
                    out@.len() == i,
                    forall|j: int|
                        0 <= j < i ==> (#[trigger] members@[j]).0@ == out@[j].0@ && same_json(
                            members@[j].1,
                            out@[j].1,
                        ),
                decreases members@.len() - i,
            {
                let (k, x) = &members[i];
                proof {
                    broadcast use vstd::std_specs::vec::axiom_vec_index_decreases;
                    assert(decreases_to!(v->Object_0 => v->Object_0[i as int]));
                    assert(decreases_to!(*v => v->Object_0));
                    assert(decreases_to!(v->Object_0[i as int] => v->Object_0[i as int].1));
                }
                out.push((k.clone(), json_clone(x)));
                i = i + 1;
            }
            Json::Object(out)
        },
    }
}

/// The value of the first member named `key`, when `v` is an object.
pub open spec fn member_of(members: Seq<(String, Json)>, key: Seq<char>) -> Option<Json>
    decreases members.len(),
{
    if members.len() == 0 {
        None
    } else if members[0].0@ == key {
        Some(members[0].1)
    } else {
        member_of(members.drop_first(), key)
    }
}

/// The text of `v[key]` when `v` is an object whose first `key` member is a
/// string.
pub open spec fn str_member(v: Json, key: Seq<char>) -> Option<Seq<char>> {
    match v {
        Json::Object(members) => match member_of(members@, key) {
            Some(Json::Str(s)) => Some(s@),
            _ => None,
        },
        _ => None,
    }
}

/// Look up `v[key]` as a string.
pub fn get_str<'a>(v: &'a Json, key: &str) -> (r: Option<&'a String>)
    ensures
        match str_member(*v, key@) {
            Some(t) => r matches Some(s) && s@ == t,
            None => r is None,
        },
{
    match v {
        Json::Object(members) => {
            let mut i: usize = 0;
            assert(members@.subrange(0, members@.len() as int) =~= members@);
            while i < members.len()
                invariant
                    *v == Json::Object(*members),
                    i <= members@.len(),
                    member_of(members@, key@) == member_of(
                        members@.subrange(i as int, members@.len() as int),
                        key@,
                    ),
                decreases members@.len() - i,
            {
                let ghost rest = members@.subrange(i as int, members@.len() as int);
                assert(rest[0] == members@[i as int]);
                if str_eq(members[i].0.as_str(), key) {
                    return match &members[i].1 {
                        Json::Str(s) => Some(s),
                        _ => None,
                    };
                }
                assert(rest.drop_first() =~= members@.subrange(i + 1, members@.len() as int));
                i = i + 1;
            }
            None
        },
        _ => None,
    }
}

/// A string value.
pub fn jstr(s: &str) -> (r: Json)
    ensures
        r matches Json::Str(t) && t@ == s@,
{
    Json::Str(String::from_str(s))
}

/// An object member.
pub fn member(key: &str, value: Json) -> (r: (String, Json))
    ensures
        r.0@ == key@,
        r.1 == value,
{
    (String::from_str(key), value)
}

/// The decimal digits of `n`.
pub open spec fn decimal_text(n: nat) -> Seq<char>
    decreases n,
{
    if n < 10 {
        seq![digit_char(n)]
    } else {
        decimal_text(n / 10).push(digit_char(n % 10))
    }
}

/// The digit character for `d < 10`.
pub open spec fn digit_char(d: nat) -> char {
    if d == 0 {
        '0'
    } else if d == 1 {
        '1'
    } else if d == 2 {
        '2'
    } else if d == 3 {
        '3'
    } else if d == 4 {
        '4'
    } else if d == 5 {
        '5'
    } else if d == 6 {
        '6'
    } else if d == 7 {
        '7'
    } else if d == 8 {
        '8'
    } else {
        '9'
    }
}

fn digit_str(d: u64) -> (r: &'static str)
    requires
        d < 10,
    ensures
        r@ == seq![digit_char(d as nat)],
{
    proof {
        reveal_strlit("0");
        reveal_strlit("1");
        reveal_strlit("2");
        reveal_strlit("3");
        reveal_strlit("4");
        reveal_strlit("5");
        reveal_strlit("6");
        reveal_strlit("7");
        reveal_strlit("8");
        reveal_strlit("9");
    }
    let r = if d == 0 {
        "0"
    } else if d == 1 {
        "1"
    } else if d == 2 {
        "2"
    } else if d == 3 {
        "3"
    } else if d == 4 {
        "4"
    } else if d == 5 {
        "5"
    } else if d == 6 {
        "6"
    } else if d == 7 {
        "7"
    } else if d == 8 {
        "8"
    } else {
        "9"
    };
    assert(r@ =~= seq![digit_char(d as nat)]);
    r
}

/// The decimal text of an unsigned integer.
pub fn u64_text(n: u64) -> (r: String)
    ensures
        r@ == decimal_text(n as nat),
    decreases n,
{
    if n < 10 {
        String::from_str(digit_str(n))
    } else {
        let mut s = u64_text(n / 10);
        s.append(digit_str(n % 10));
        s
    }
}

/// A number value holding an unsigned integer.
pub fn jnum_u64(n: u64) -> (r: Json)
    ensures
        r matches Json::Number(t) && t@ == decimal_text(n as nat),
{
    Json::Number(u64_text(n))
}

/// `j` is the string `t`.
pub open spec fn is_str(j: Json, t: Seq<char>) -> bool {
    j matches Json::Str(s) && s@ == t
}

/// `j` is the number written `t`.
pub open spec fn is_num(j: Json, t: Seq<char>) -> bool {
    j matches Json::Number(s) && s@ == t
}

/// `j` is an object whose members are named `keys`, in order, and whose
/// member values satisfy `vals`, in order.
pub open spec fn is_obj(j: Json, keys: Seq<Seq<char>>, vals: Seq<spec_fn(Json) -> bool>) -> bool {
    j matches Json::Object(m) && m@.len() == keys.len() && vals.len() == keys.len() && forall|
        i: int,
    |
        0 <= i < keys.len() ==> (#[trigger] m@[i]).0@ == keys[i] && vals[i](m@[i].1)
}

/// `j` is an array whose items satisfy `vals`, in order.
pub open spec fn is_arr(j: Json, vals: Seq<spec_fn(Json) -> bool>) -> bool {
    j matches Json::Array(a) && a@.len() == vals.len() && forall|i: int|
        0 <= i < vals.len() ==> vals[i](#[trigger] a@[i])
}

/// An object with the given members, in order.
pub fn obj(members: Vec<(String, Json)>) -> (r: Json)
    ensures
        r == Json::Object(members),
{
    Json::Object(members)
}

/// An empty object.
pub fn empty_obj() -> (r: Json)
    ensures
        is_obj(r, seq![], seq![]),
{
    let r = Json::Object(Vec::new());
    assert(r matches Json::Object(m) && m@.len() == 0);
    r
}

/// The value of `v[key]`: the first member named `key` when `v` is an object.
pub open spec fn get_spec(v: Json, key: Seq<char>) -> Option<Json> {
    match v {
        Json::Object(members) => member_of(members@, key),
        _ => None,
    }
}

/// Look up `v[key]`.
pub fn get<'a>(v: &'a Json, key: &str) -> (r: Option<&'a Json>)
    ensures
        match get_spec(*v, key@) {
            Some(x) => r matches Some(y) && *y == x,
            None => r is None,
        },
{
    match v {
        Json::Object(members) => {
            let mut i: usize = 0;
            assert(members@.subrange(0, members@.len() as int) =~= members@);
            while i < members.len()
                invariant
                    *v == Json::Object(*members),
                    i <= members@.len(),
                    member_of(members@, key@) == member_of(
                        members@.subrange(i as int, members@.len() as int),
                        key@,
                    ),
                decreases members@.len() - i,
            {
                let ghost rest = members@.subrange(i as int, members@.len() as int);
                assert(rest[0] == members@[i as int]);
                if str_eq(members[i].0.as_str(), key) {
                    return Some(&members[i].1);
                }
                assert(rest.drop_first() =~= members@.subrange(i + 1, members@.len() as int));
                i = i + 1;
            }
            None
        },
        _ => None,
    }
}

/// Being the same document is transitive.
pub proof fn lemma_same_json_transitive(a: Json, b: Json, c: Json)
    requires
        same_json(a, b),
        same_json(b, c),
    ensures
        same_json(a, c),
    decreases a,
{
    match (a, b, c) {
        (Json::Array(xs), Json::Array(ys), Json::Array(zs)) => {
            assert forall|i: int| 0 <= i < xs@.len() implies same_json(#[trigger] xs@[i], zs@[i]) by {
                broadcast use vstd::std_specs::vec::axiom_vec_index_decreases;
                assert(decreases_to!(a->Array_0 => a->Array_0[i]));
                assert(decreases_to!(a => a->Array_0));
                lemma_same_json_transitive(xs@[i], ys@[i], zs@[i]);
            }
        },
        (Json::Object(xs), Json::Object(ys), Json::Object(zs)) => {
            assert forall|i: int| 0 <= i < xs@.len() implies (#[trigger] xs@[i]).0@ == zs@[i].0@
                && same_json(xs@[i].1, zs@[i].1) by {
                broadcast use vstd::std_specs::vec::axiom_vec_index_decreases;
                assert(decreases_to!(a->Object_0 => a->Object_0[i]));
                assert(decreases_to!(a => a->Object_0));
                assert(decreases_to!(a->Object_0[i] => a->Object_0[i].1));
                lemma_same_json_transitive(xs@[i].1, ys@[i].1, zs@[i].1);
            }
        },
        _ => {},
    }
}

} // verus!
