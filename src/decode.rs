use vstd::prelude::*;

use crate::error::{AnkiConnectError, ErrorKind, Fault, outcome_view};
use crate::json::{Json, distinct_keys, keys_unique};
use crate::params::names_unique;

verus! {

/// The decode mismatch reported when a result is not `shape`.
pub open spec fn mismatch(shape: Seq<char>) -> Fault {
    Fault { kind: ErrorKind::Decode, msg: "result is not "@ + shape }
}

pub open spec fn as_int(j: Json) -> Result<i64, Fault> {
    match j {
        Json::Int(n) => Ok(n),
        _ => Err(mismatch("an integer"@)),
    }
}

pub open spec fn as_bool(j: Json) -> Result<bool, Fault> {
    match j {
        Json::Bool(b) => Ok(b),
        _ => Err(mismatch("a boolean"@)),
    }
}

/// Actions that return nothing must return exactly `null`.
pub open spec fn as_unit(j: Json) -> Result<(), Fault> {
    match j {
        Json::Null => Ok(()),
        _ => Err(mismatch("null"@)),
    }
}

/// `null` is the third outcome: the call did not fail, and said neither yes
/// nor no.
pub open spec fn as_maybe_bool(j: Json) -> Result<Option<bool>, Fault> {
    match j {
        Json::Null => Ok(None),
        Json::Bool(b) => Ok(Some(b)),
        _ => Err(mismatch("a boolean or null"@)),
    }
}

pub open spec fn all_texts(s: Seq<Json>) -> bool {
    forall|i: int| 0 <= i < s.len() ==> #[trigger] s[i] is Str
}

pub open spec fn as_texts(j: Json) -> Result<Seq<Seq<char>>, Fault> {
    match j {
        Json::Array(v) => if all_texts(v@) {
            Ok(v@.map_values(|x: Json| x->Str_0@))
        } else {
            Err(mismatch("a list of strings"@))
        },
        _ => Err(mismatch("a list of strings"@)),
    }
}

pub open spec fn all_ints(s: Seq<Json>) -> bool {
    forall|i: int| 0 <= i < s.len() ==> #[trigger] s[i] is Int
}

pub open spec fn as_ints(j: Json) -> Result<Seq<i64>, Fault> {
    match j {
        Json::Array(v) => if all_ints(v@) {
            Ok(v@.map_values(|x: Json| x->Int_0))
        } else {
            Err(mismatch("a list of integers"@))
        },
        _ => Err(mismatch("a list of integers"@)),
    }
}

pub open spec fn all_int_members(s: Seq<(String, Json)>) -> bool {
    forall|i: int| 0 <= i < s.len() ==> #[trigger] s[i].1 is Int
}

/// An object with distinct keys whose values are integers, as (name, integer)
/// pairs in order.
pub open spec fn as_ids_by_name(j: Json) -> Result<Seq<(Seq<char>, i64)>, Fault> {
    match j {
        Json::Object(m) => if keys_unique(m@) && all_int_members(m@) {
            Ok(m@.map_values(|p: (String, Json)| (p.0@, p.1->Int_0)))
        } else {
            Err(mismatch("an object of integers"@))
        },
        _ => Err(mismatch("an object of integers"@)),
    }
}

pub open spec fn all_int_list_members(s: Seq<(String, Json)>) -> bool {
    forall|i: int| 0 <= i < s.len() ==> #[trigger] as_ints(s[i].1) is Ok
}

/// An object with distinct keys whose values are lists of integers, as pairs
/// in order.
pub open spec fn as_id_lists_by_name(j: Json) -> Result<Seq<(Seq<char>, Seq<i64>)>, Fault> {
    match j {
        Json::Object(m) => if keys_unique(m@) && all_int_list_members(m@) {
            Ok(m@.map_values(|p: (String, Json)| (p.0@, as_ints(p.1)->Ok_0)))
        } else {
            Err(mismatch("an object of integer lists"@))
        },
        _ => Err(mismatch("an object of integer lists"@)),
    }
}

pub open spec fn all_text_lists(s: Seq<Json>) -> bool {
    forall|i: int| 0 <= i < s.len() ==> #[trigger] as_texts(s[i]) is Ok
}

/// An array whose elements are lists of strings.
pub open spec fn as_text_lists(j: Json) -> Result<Seq<Seq<Seq<char>>>, Fault> {
    match j {
        Json::Array(v) => if all_text_lists(v@) {
            Ok(v@.map_values(|x: Json| as_texts(x)->Ok_0))
        } else {
            Err(mismatch("a list of string lists"@))
        },
        _ => Err(mismatch("a list of string lists"@)),
    }
}

pub open spec fn all_text_list_members(s: Seq<(String, Json)>) -> bool {
    forall|i: int| 0 <= i < s.len() ==> #[trigger] as_text_lists(s[i].1) is Ok
}

/// An object with distinct keys whose values are lists of string lists, as
/// pairs in order.
pub open spec fn as_text_lists_by_name(j: Json) -> Result<Seq<(Seq<char>, Seq<Seq<Seq<char>>>)>, Fault> {
    match j {
        Json::Object(m) => if keys_unique(m@) && all_text_list_members(m@) {
            Ok(m@.map_values(|p: (String, Json)| (p.0@, as_text_lists(p.1)->Ok_0)))
        } else {
            Err(mismatch("an object of string list lists"@))
        },
        _ => Err(mismatch("an object of string list lists"@)),
    }
}

fn mismatch_error(shape: &str) -> (r: AnkiConnectError)
    ensures
        r@ == mismatch(shape@),
{
    let mut m = String::from_str("result is not ");
    m.append(shape);
    AnkiConnectError::new(ErrorKind::Decode, m)
}

pub fn decode_i64(j: &Json) -> (r: Result<i64, AnkiConnectError>)
    ensures
        outcome_view(&r) == as_int(*j),
{
    match j {
        Json::Int(n) => Ok(*n),
        _ => Err(mismatch_error("an integer")),
    }
}

pub fn decode_bool(j: &Json) -> (r: Result<bool, AnkiConnectError>)
    ensures
        outcome_view(&r) == as_bool(*j),
{
    match j {
        Json::Bool(b) => Ok(*b),
        _ => Err(mismatch_error("a boolean")),
    }
}

pub fn decode_unit(j: &Json) -> (r: Result<(), AnkiConnectError>)
    ensures
        outcome_view(&r) == as_unit(*j),
{
    match j {
        Json::Null => Ok(()),
        _ => Err(mismatch_error("null")),
    }
}

pub fn decode_maybe_bool(j: &Json) -> (r: Result<Option<bool>, AnkiConnectError>)
    ensures
        outcome_view(&r) == as_maybe_bool(*j),
{
    match j {
        Json::Null => Ok(None),
        Json::Bool(b) => Ok(Some(*b)),
        _ => Err(mismatch_error("a boolean or null")),
    }
}

pub fn decode_texts(j: &Json) -> (r: Result<Vec<String>, AnkiConnectError>)
    ensures
        outcome_view(&r) == as_texts(*j),
{
    match j {
        Json::Array(v) => {
            let mut out: Vec<String> = Vec::new();
            let mut i: usize = 0;
            while i < v.len()
                invariant
                    i <= v@.len(),
                    out@.len() == i,
                    *j == Json::Array(*v),
                    all_texts(v@.subrange(0, i as int)),
                    forall|k: int| 0 <= k < i ==> #[trigger] out@[k]@ == v@[k]->Str_0@,
                decreases v@.len() - i,
            {
                match &v[i] {
                    Json::Str(s) => {
                        out.push(s.clone());
                    },
                    _ => {
                        assert(!(v@[i as int] is Str));
                        return Err(mismatch_error("a list of strings"));
                    },
                }
                assert(v@.subrange(0, i + 1)[i as int] == v@[i as int]);
                assert forall|k: int| 0 <= k < i + 1 implies #[trigger] v@.subrange(0, i + 1)[k] is Str by {
                    assert(v@.subrange(0, i + 1)[k] == v@[k]);
                    if k < i {
                        assert(v@.subrange(0, i as int)[k] == v@[k]);
                    }
                }
                i = i + 1;
            }
            assert(v@.subrange(0, v@.len() as int) =~= v@);
            assert(out.deep_view() =~= v@.map_values(|x: Json| x->Str_0@));
            Ok(out)
        },
        _ => Err(mismatch_error("a list of strings")),
    }
}

pub fn decode_ints(j: &Json) -> (r: Result<Vec<i64>, AnkiConnectError>)
    ensures
        outcome_view(&r) == as_ints(*j),
{
    match j {
        Json::Array(v) => {
            let mut out: Vec<i64> = Vec::new();
            let mut i: usize = 0;
            while i < v.len()
                invariant
                    i <= v@.len(),
                    out@.len() == i,
                    *j == Json::Array(*v),
                    all_ints(v@.subrange(0, i as int)),
                    forall|k: int| 0 <= k < i ==> #[trigger] out@[k] == v@[k]->Int_0,
                decreases v@.len() - i,
            {
                match &v[i] {
                    Json::Int(n) => {
                        out.push(*n);
                    },
                    _ => {
                        assert(!(v@[i as int] is Int));
                        return Err(mismatch_error("a list of integers"));
                    },
                }
                assert forall|k: int| 0 <= k < i + 1 implies #[trigger] v@.subrange(0, i + 1)[k] is Int by {
                    assert(v@.subrange(0, i + 1)[k] == v@[k]);
                    if k < i {
                        assert(v@.subrange(0, i as int)[k] == v@[k]);
                    }
                }
                i = i + 1;
            }
            assert(v@.subrange(0, v@.len() as int) =~= v@);
            assert(out.deep_view() =~= v@.map_values(|x: Json| x->Int_0));
            Ok(out)
        },
        _ => Err(mismatch_error("a list of integers")),
    }
}

pub fn decode_ids_by_name(j: &Json) -> (r: Result<Vec<(String, i64)>, AnkiConnectError>)
    ensures
        outcome_view(&r) == as_ids_by_name(*j),
        r is Ok ==> names_unique(outcome_view(&r)->Ok_0),
{
    match j {
        Json::Object(m) => {
            let mut out: Vec<(String, i64)> = Vec::new();
            let mut i: usize = 0;
            while i < m.len()
                invariant
                    i <= m@.len(),
                    out@.len() == i,
                    *j == Json::Object(*m),
                    all_int_members(m@.subrange(0, i as int)),
                    forall|k: int|
                        0 <= k < i ==> #[trigger] out@[k].0@ == m@[k].0@ && out@[k].1 == m@[k].1->Int_0,
                decreases m@.len() - i,
            {
                let ghost prev = out@;
                match &m[i].1 {
                    Json::Int(n) => {
                        out.push((m[i].0.clone(), *n));
                    },
                    _ => {
                        assert(!(m@[i as int].1 is Int));
                        return Err(mismatch_error("an object of integers"));
                    },
                }
                assert forall|k: int| 0 <= k < i + 1 implies #[trigger] out@[k].0@ == m@[k].0@ && out@[k].1 == m@[k].1->Int_0 by {
                    if k < i {
                        assert(out@[k] == prev[k]);
                    }
                }
                assert forall|k: int| 0 <= k < i + 1 implies #[trigger] m@.subrange(0, i + 1)[k].1 is Int by {
                    assert(m@.subrange(0, i + 1)[k] == m@[k]);
                    if k < i {
                        assert(m@.subrange(0, i as int)[k] == m@[k]);
                    }
                }
                i = i + 1;
            }
            if !distinct_keys(m) {
                return Err(mismatch_error("an object of integers"));
            }
            assert(m@.subrange(0, m@.len() as int) =~= m@);
            assert(out.deep_view() =~= m@.map_values(|p: (String, Json)| (p.0@, p.1->Int_0)));
            assert forall|x: int, y: int| 0 <= x < y < out@.len() implies #[trigger] out.deep_view()[x].0
                != #[trigger] out.deep_view()[y].0 by {
                assert(m@[x].0@ != m@[y].0@);
            }
            Ok(out)
        },
        _ => Err(mismatch_error("an object of integers")),
    }
}

pub fn decode_id_lists_by_name(j: &Json) -> (r: Result<Vec<(String, Vec<i64>)>, AnkiConnectError>)
    ensures
        outcome_view(&r) == as_id_lists_by_name(*j),
        r is Ok ==> names_unique(outcome_view(&r)->Ok_0),
{
    match j {
        Json::Object(m) => {
            let mut out: Vec<(String, Vec<i64>)> = Vec::new();
            let mut i: usize = 0;
            while i < m.len()
                invariant
                    i <= m@.len(),
                    out@.len() == i,
                    *j == Json::Object(*m),
                    all_int_list_members(m@.subrange(0, i as int)),
                    forall|k: int|
                        0 <= k < i ==> #[trigger] out@[k].0@ == m@[k].0@ && out@[k].1.deep_view()
                            == as_ints(m@[k].1)->Ok_0,
                decreases m@.len() - i,
            {
                let ghost prev = out@;
                match decode_ints(&m[i].1) {
                    Ok(ids) => {
                        out.push((m[i].0.clone(), ids));
                    },
                    Err(_) => {
                        assert(!(as_ints(m@[i as int].1) is Ok));
                        return Err(mismatch_error("an object of integer lists"));
                    },
                }
                assert forall|k: int| 0 <= k < i + 1 implies #[trigger] out@[k].0@ == m@[k].0@ && out@[k].1.deep_view() == as_ints(m@[k].1)->Ok_0 by {
                    if k < i {
                        assert(out@[k] == prev[k]);
                    }
                }
                assert forall|k: int| 0 <= k < i + 1 implies #[trigger] as_ints(m@.subrange(0, i + 1)[k].1) is Ok by {
                    assert(m@.subrange(0, i + 1)[k] == m@[k]);
                    if k < i {
                        assert(m@.subrange(0, i as int)[k] == m@[k]);
                    }
                }
                i = i + 1;
            }
            if !distinct_keys(m) {
                return Err(mismatch_error("an object of integer lists"));
            }
            assert(m@.subrange(0, m@.len() as int) =~= m@);
            assert(out.deep_view() =~= m@.map_values(
                |p: (String, Json)| (p.0@, as_ints(p.1)->Ok_0),
            ));
            assert forall|x: int, y: int| 0 <= x < y < out@.len() implies #[trigger] out.deep_view()[x].0
                != #[trigger] out.deep_view()[y].0 by {
                assert(m@[x].0@ != m@[y].0@);
            }
            Ok(out)
        },
        _ => Err(mismatch_error("an object of integer lists")),
    }
}

pub fn decode_text_lists(j: &Json) -> (r: Result<Vec<Vec<String>>, AnkiConnectError>)
    ensures
        outcome_view(&r) == as_text_lists(*j),
{
    match j {
        Json::Array(v) => {
            let mut out: Vec<Vec<String>> = Vec::new();
            let mut i: usize = 0;
            while i < v.len()
                invariant
                    i <= v@.len(),
                    out@.len() == i,
                    *j == Json::Array(*v),
                    all_text_lists(v@.subrange(0, i as int)),
                    forall|k: int|
                        0 <= k < i ==> #[trigger] out@[k].deep_view() == as_texts(v@[k])->Ok_0,
                decreases v@.len() - i,
            {
                match decode_texts(&v[i]) {
                    Ok(texts) => {
                        out.push(texts);
                    },
                    Err(_) => {
                        assert(!(as_texts(v@[i as int]) is Ok));
                        return Err(mismatch_error("a list of string lists"));
                    },
                }
                assert forall|k: int| 0 <= k < i + 1 implies #[trigger] as_texts(v@.subrange(0, i + 1)[k]) is Ok by {
                    assert(v@.subrange(0, i + 1)[k] == v@[k]);
                    if k < i {
                        assert(v@.subrange(0, i as int)[k] == v@[k]);
                    }
                }
                i = i + 1;
            }
            assert(v@.subrange(0, v@.len() as int) =~= v@);
            assert(out.deep_view() =~= v@.map_values(|x: Json| as_texts(x)->Ok_0));
            Ok(out)
        },
        _ => Err(mismatch_error("a list of string lists")),
    }
}

pub fn decode_text_lists_by_name(j: &Json) -> (r: Result<Vec<(String, Vec<Vec<String>>)>, AnkiConnectError>)
    ensures
        outcome_view(&r) == as_text_lists_by_name(*j),
        r is Ok ==> names_unique(outcome_view(&r)->Ok_0),
{
    match j {
        Json::Object(m) => {
            let mut out: Vec<(String, Vec<Vec<String>>)> = Vec::new();
            let mut i: usize = 0;
            while i < m.len()
                invariant
                    i <= m@.len(),
                    out@.len() == i,
                    *j == Json::Object(*m),
                    all_text_list_members(m@.subrange(0, i as int)),
                    forall|k: int|
                        0 <= k < i ==> #[trigger] out@[k].0@ == m@[k].0@ && out@[k].1.deep_view()
                            == as_text_lists(m@[k].1)->Ok_0,
                decreases m@.len() - i,
            {
                let ghost prev = out@;
                match decode_text_lists(&m[i].1) {
                    Ok(lists) => {
                        out.push((m[i].0.clone(), lists));
                    },
                    Err(_) => {
                        assert(!(as_text_lists(m@[i as int].1) is Ok));
                        return Err(mismatch_error("an object of string list lists"));
                    },
                }
                assert forall|k: int| 0 <= k < i + 1 implies #[trigger] out@[k].0@ == m@[k].0@ && out@[k].1.deep_view() == as_text_lists(m@[k].1)->Ok_0 by {
                    if k < i {
                        assert(out@[k] == prev[k]);
                    }
                }
                assert forall|k: int| 0 <= k < i + 1 implies #[trigger] as_text_lists(m@.subrange(0, i + 1)[k].1) is Ok by {
                    assert(m@.subrange(0, i + 1)[k] == m@[k]);
                    if k < i {
                        assert(m@.subrange(0, i as int)[k] == m@[k]);
                    }
                }
                i = i + 1;
            }
            if !distinct_keys(m) {
                return Err(mismatch_error("an object of string list lists"));
            }
            assert(m@.subrange(0, m@.len() as int) =~= m@);
            assert(out.deep_view() =~= m@.map_values(
                |p: (String, Json)| (p.0@, as_text_lists(p.1)->Ok_0),
            ));
            assert forall|x: int, y: int| 0 <= x < y < out@.len() implies #[trigger] out.deep_view()[x].0
                != #[trigger] out.deep_view()[y].0 by {
                assert(m@[x].0@ != m@[y].0@);
            }
            Ok(out)
        },
        _ => Err(mismatch_error("an object of string list lists")),
    }
}

} // verus!
