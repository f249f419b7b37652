use vstd::prelude::*;

use crate::json::{Json, keys_unique, lemma_wf_items, lemma_wf_members, wf};

verus! {

/// `p` is an object with exactly `n` members.
pub open spec fn object_of(p: Json, n: nat) -> bool {
    p is Object && p->Object_0@.len() == n
}

/// The `i`-th member of an object.
pub open spec fn member_at(p: Json, i: int) -> (String, Json) {
    p->Object_0@[i]
}

/// `m` is the member `key` holding the string `value`.
pub open spec fn text_member(m: (String, Json), key: Seq<char>, value: Seq<char>) -> bool {
    m.0@ == key && m.1 is Str && m.1->Str_0@ == value
}

/// `m` is the member `key` holding the integer `n`.
pub open spec fn int_member(m: (String, Json), key: Seq<char>, n: i64) -> bool {
    m.0@ == key && m.1 == Json::Int(n)
}

/// `m` is the member `key` holding the boolean `b`.
pub open spec fn bool_member(m: (String, Json), key: Seq<char>, b: bool) -> bool {
    m.0@ == key && m.1 == Json::Bool(b)
}

/// `m` is the member `key` holding `v` itself.
pub open spec fn value_member(m: (String, Json), key: Seq<char>, v: Json) -> bool {
    m.0@ == key && m.1 == v
}

/// `m` is the member `key` holding an array of the integers `ids`, in order.
pub open spec fn ints_member(m: (String, Json), key: Seq<char>, ids: Seq<i64>) -> bool {
    &&& m.0@ == key
    &&& m.1 is Array
    &&& m.1->Array_0@.len() == ids.len()
    &&& forall|i: int| 0 <= i < ids.len() ==> #[trigger] m.1->Array_0@[i] == Json::Int(ids[i])
}

/// `m` is the member `key` holding an array of the strings `texts`, in order.
pub open spec fn texts_member(m: (String, Json), key: Seq<char>, texts: Seq<Seq<char>>) -> bool {
    &&& m.0@ == key
    &&& m.1 is Array
    &&& m.1->Array_0@.len() == texts.len()
    &&& forall|i: int|
        0 <= i < texts.len() ==> (#[trigger] m.1->Array_0@[i]) is Str && m.1->Array_0@[i]->Str_0@
            == texts[i]
}

/// No two pairs share a name.
pub open spec fn names_unique<T>(s: Seq<(Seq<char>, T)>) -> bool {
    forall|a: int, b: int| 0 <= a < b < s.len() ==> #[trigger] s[a].0 != #[trigger] s[b].0
}

/// `m` is the member `key` holding an object whose members are the given
/// (name, string) pairs, in order.
pub open spec fn text_object_member(
    m: (String, Json),
    key: Seq<char>,
    pairs: Seq<(Seq<char>, Seq<char>)>,
) -> bool {
    &&& m.0@ == key
    &&& m.1 is Object
    &&& m.1->Object_0@.len() == pairs.len()
    &&& forall|i: int|
        0 <= i < pairs.len() ==> text_member(#[trigger] m.1->Object_0@[i], pairs[i].0, pairs[i].1)
}

pub fn text_pair(key: &str, value: &str) -> (r: (String, Json))
    ensures
        text_member(r, key@, value@),
        wf(r.1),
{
    (String::from_str(key), Json::Str(String::from_str(value)))
}

pub fn int_pair(key: &str, n: i64) -> (r: (String, Json))
    ensures
        int_member(r, key@, n),
        wf(r.1),
{
    (String::from_str(key), Json::Int(n))
}

pub fn bool_pair(key: &str, b: bool) -> (r: (String, Json))
    ensures
        bool_member(r, key@, b),
        wf(r.1),
{
    (String::from_str(key), Json::Bool(b))
}

pub fn value_pair(key: &str, v: Json) -> (r: (String, Json))
    requires
        wf(v),
    ensures
        value_member(r, key@, v),
        wf(r.1),
{
    (String::from_str(key), v)
}

pub fn ints_pair(key: &str, ids: &Vec<i64>) -> (r: (String, Json))
    ensures
        ints_member(r, key@, ids@),
        wf(r.1),
{
    let mut items: Vec<Json> = Vec::new();
    let mut i: usize = 0;
    while i < ids.len()
        invariant
            i <= ids@.len(),
            items@.len() == i,
            forall|k: int| 0 <= k < i ==> #[trigger] items@[k] == Json::Int(ids@[k]),
        decreases ids@.len() - i,
    {
        items.push(Json::Int(ids[i]));
        i = i + 1;
    }
    proof {
        lemma_wf_items(items@);
    }
    (String::from_str(key), Json::Array(items))
}

pub fn texts_pair(key: &str, texts: &Vec<String>) -> (r: (String, Json))
    ensures
        texts_member(r, key@, texts@.map_values(|t: String| t@)),
        wf(r.1),
{
    let mut items: Vec<Json> = Vec::new();
    let mut i: usize = 0;
    while i < texts.len()
        invariant
            i <= texts@.len(),
            items@.len() == i,
            forall|k: int|
                0 <= k < i ==> (#[trigger] items@[k]) is Str && items@[k]->Str_0@ == texts@[k]@,
        decreases texts@.len() - i,
    {
        items.push(Json::Str(texts[i].clone()));
        i = i + 1;
    }
    proof {
        lemma_wf_items(items@);
    }
    (String::from_str(key), Json::Array(items))
}

/// The member `key` holding an object of the given (name, string) pairs; the
/// names must differ, as an object's keys do.
pub fn text_object_pair(key: &str, pairs: &Vec<(String, String)>) -> (r: (String, Json))
    requires
        names_unique(pairs@.map_values(|p: (String, String)| (p.0@, p.1@))),
    ensures
        text_object_member(r, key@, pairs@.map_values(|p: (String, String)| (p.0@, p.1@))),
        wf(r.1),
{
    let mut members: Vec<(String, Json)> = Vec::new();
    let mut i: usize = 0;
    while i < pairs.len()
        invariant
            i <= pairs@.len(),
            members@.len() == i,
            forall|k: int|
                0 <= k < i ==> text_member(#[trigger] members@[k], pairs@[k].0@, pairs@[k].1@),
        decreases pairs@.len() - i,
    {
        members.push((pairs[i].0.clone(), Json::Str(pairs[i].1.clone())));
        i = i + 1;
    }
    proof {
        let named = pairs@.map_values(|p: (String, String)| (p.0@, p.1@));
        assert forall|a: int, b: int| 0 <= a < b < members@.len() implies #[trigger] members@[a].0@
            != #[trigger] members@[b].0@ by {
            assert(named[a].0 != named[b].0);
        }
        assert(keys_unique(members@));
        lemma_wf_members(members@);
    }
    (String::from_str(key), Json::Object(members))
}

} // verus!
