use vstd::prelude::*;

verus! {

/// A structured JSON value, as it travels in request parameters and results.
///
/// Integers that fit in an `i64` are held as `Int`; any other number keeps
/// its JSON text in `Num`.
#[derive(Debug)]
pub enum Json {
    Null,
    Bool(bool),
    Int(i64),
    Num(String),
    Str(String),
    Array(Vec<Json>),
    Object(Vec<(String, Json)>),
}

impl DeepView for Json {
    type V = Json;

    open spec fn deep_view(&self) -> Json {
        *self
    }
}

/// The JSON string literal (quotes and escapes included) that serde_json
/// writes for the text `s`.
pub uninterp spec fn quoted(s: Seq<char>) -> Seq<char>;

/// The decimal digit for `d < 10`.
pub open spec fn digit(d: nat) -> char {
    seq!['0', '1', '2', '3', '4', '5', '6', '7', '8', '9'][d as int]
}

/// Decimal digits of a natural number, most significant first, no leading zero.
pub open spec fn digits(n: nat) -> Seq<char>
    decreases n,
{
    if n < 10 {
        seq![digit(n)]
    } else {
        digits(n / 10).push(digit(n % 10))
    }
}

/// The decimal text of an integer, with a leading `-` when it is negative.
pub open spec fn decimal(n: int) -> Seq<char> {
    if n < 0 {
        seq!['-'] + digits((-n) as nat)
    } else {
        digits(n as nat)
    }
}

/// The compact JSON text of a value: no whitespace, members in order.
pub open spec fn encode(j: Json) -> Seq<char>
    decreases j,
{
    match j {
        Json::Null => "null"@,
        Json::Bool(b) => if b { "true"@ } else { "false"@ },
        Json::Int(n) => decimal(n as int),
        Json::Num(t) => t@,
        Json::Str(s) => quoted(s@),
        Json::Array(items) => seq!['['] + encode_items(items@) + seq![']'],
        Json::Object(members) => seq!['{'] + encode_members(members@) + seq!['}'],
    }
}

/// The elements of an array, separated by commas.
pub open spec fn encode_items(s: Seq<Json>) -> Seq<char>
    decreases s,
{
    if s.len() == 0 {
        Seq::empty()
    } else if s.len() == 1 {
        encode(s[0])
    } else {
        encode_items(s.subrange(0, s.len() - 1)) + seq![','] + encode(s[s.len() - 1])
    }
}

/// The members of an object, separated by commas.
pub open spec fn encode_members(s: Seq<(String, Json)>) -> Seq<char>
    decreases s,
{
    if s.len() == 0 {
        Seq::empty()
    } else if s.len() == 1 {
        quoted(s[0].0@) + seq![':'] + encode(s[0].1)
    } else {
        encode_members(s.subrange(0, s.len() - 1)) + seq![','] + quoted(s[s.len() - 1].0@)
            + seq![':'] + encode(s[s.len() - 1].1)
    }
}

/// Relies on `serde_json::to_string` for a `str`: the JSON string literal of
/// the text. Serialising a `str` cannot fail, so the error arm is never taken.
#[verifier::external_body]
pub(crate) fn quote(s: &str) -> (r: String)
    ensures
        r@ == quoted(s@),
{
    match serde_json::to_string(s) {
        Ok(t) => t,
        Err(_) => String::new(),
    }
}

/// Relies on `serde_json::to_string` for an `i64`: its decimal text, with a
/// leading `-` when negative. Serialising an integer cannot fail.
#[verifier::external_body]
pub(crate) fn integer_text(n: i64) -> (r: String)
    ensures
        r@ == decimal(n as int),
{
    match serde_json::to_string(&n) {
        Ok(t) => t,
        Err(_) => String::new(),
    }
}

/// Whether serde_json reads the text `t` as one JSON number.
pub uninterp spec fn is_number_text(t: Seq<char>) -> bool;

/// Relies on `serde_json::from_str::<serde_json::Number>`: it succeeds exactly
/// when the text is one JSON number.
#[verifier::external_body]
fn number_text_ok(t: &str) -> (r: bool)
    ensures
        r == is_number_text(t@),
{
    serde_json::from_str::<serde_json::Number>(t).is_ok()
}

/// No two members of an object share a key.
pub open spec fn keys_unique(s: Seq<(String, Json)>) -> bool {
    forall|a: int, b: int| 0 <= a < b < s.len() ==> #[trigger] s[a].0@ != #[trigger] s[b].0@
}

/// A value that is written out as valid JSON meaning what it holds: every
/// `Num` holds a number's text and no object repeats a key.
pub open spec fn wf(j: Json) -> bool
    decreases j,
{
    match j {
        Json::Num(t) => is_number_text(t@),
        Json::Array(items) => wf_items(items@),
        Json::Object(members) => keys_unique(members@) && wf_members(members@),
        _ => true,
    }
}

pub open spec fn wf_items(s: Seq<Json>) -> bool
    decreases s,
{
    if s.len() == 0 {
        true
    } else {
        wf_items(s.subrange(0, s.len() - 1)) && wf(s[s.len() - 1])
    }
}

pub open spec fn wf_members(s: Seq<(String, Json)>) -> bool
    decreases s,
{
    if s.len() == 0 {
        true
    } else {
        wf_members(s.subrange(0, s.len() - 1)) && wf(s[s.len() - 1].1)
    }
}

/// An array's elements are well formed exactly when each one is.
pub proof fn lemma_wf_items(s: Seq<Json>)
    ensures
        wf_items(s) == (forall|k: int| 0 <= k < s.len() ==> #[trigger] wf(s[k])),
    decreases s.len(),
{
    if s.len() > 0 {
        let init = s.subrange(0, s.len() - 1);
        lemma_wf_items(init);
        assert(wf_items(s) == (wf_items(init) && wf(s[s.len() - 1])));
        if forall|k: int| 0 <= k < s.len() ==> #[trigger] wf(s[k]) {
            assert forall|k: int| 0 <= k < init.len() implies #[trigger] wf(init[k]) by {
                assert(init[k] == s[k]);
            }
        }
        if wf_items(s) {
            assert forall|k: int| 0 <= k < s.len() implies #[trigger] wf(s[k]) by {
                if k < init.len() {
                    assert(init[k] == s[k]);
                }
            }
        }
    }
}

/// An object's values are well formed exactly when each one is.
pub proof fn lemma_wf_members(s: Seq<(String, Json)>)
    ensures
        wf_members(s) == (forall|k: int| 0 <= k < s.len() ==> #[trigger] wf(s[k].1)),
    decreases s.len(),
{
    if s.len() > 0 {
        let init = s.subrange(0, s.len() - 1);
        lemma_wf_members(init);
        assert(wf_members(s) == (wf_members(init) && wf(s[s.len() - 1].1)));
        if forall|k: int| 0 <= k < s.len() ==> #[trigger] wf(s[k].1) {
            assert forall|k: int| 0 <= k < init.len() implies #[trigger] wf(init[k].1) by {
                assert(init[k] == s[k]);
            }
        }
        if wf_members(s) {
            assert forall|k: int| 0 <= k < s.len() implies #[trigger] wf(s[k].1) by {
                if k < init.len() {
                    assert(init[k] == s[k]);
                }
            }
        }
    }
}

/// Whether no two members of an object share a key.
pub fn distinct_keys(members: &Vec<(String, Json)>) -> (r: bool)
    ensures
        r == keys_unique(members@),
{
    let mut b: usize = 0;
    while b < members.len()
        invariant
            b <= members@.len(),
            forall|x: int, y: int|
                0 <= x < y < b ==> #[trigger] members@[x].0@ != #[trigger] members@[y].0@,
        decreases members@.len() - b,
    {
        let mut a: usize = 0;
        while a < b
            invariant
                a <= b < members@.len(),
                forall|x: int, y: int|
                    0 <= x < y < b ==> #[trigger] members@[x].0@ != #[trigger] members@[y].0@,
                forall|x: int| 0 <= x < a ==> #[trigger] members@[x].0@ != members@[b as int].0@,
            decreases b - a,
        {
            if members[a].0 == members[b].0 {
                return false;
            }
            a = a + 1;
        }
        b = b + 1;
    }
    true
}

/// Whether `j` is well formed.
pub fn is_wellformed(j: &Json) -> (r: bool)
    ensures
        r == wf(*j),
    decreases j,
{
    match j {
        Json::Num(t) => number_text_ok(t.as_str()),
        Json::Array(items) => {
            let mut i: usize = 0;
            while i < items.len()
                invariant
                    i <= items@.len(),
                    *j == Json::Array(*items),
                    forall|k: int| 0 <= k < i ==> #[trigger] wf(items@[k]),
                decreases items@.len() - i,
            {
                proof {
                    assert(decreases_to!(*j => j->Array_0));
                    assert(decreases_to!(*items => items@));
                    assert(decreases_to!(items@ => items@[i as int]));
                }
                if !is_wellformed(&items[i]) {
                    proof {
                        lemma_wf_items(items@);
                    }
                    return false;
                }
                i = i + 1;
            }
            proof {
                lemma_wf_items(items@);
            }
            true
        },
        Json::Object(members) => {
            if !distinct_keys(members) {
                return false;
            }
            let mut i: usize = 0;
            while i < members.len()
                invariant
                    i <= members@.len(),
                    *j == Json::Object(*members),
                    keys_unique(members@),
                    forall|k: int| 0 <= k < i ==> #[trigger] wf(members@[k].1),
                decreases members@.len() - i,
            {
                proof {
                    assert(decreases_to!(*j => j->Object_0));
                    assert(decreases_to!(*members => members@));
                    assert(decreases_to!(members@ => members@[i as int]));
                    assert(decreases_to!(members@[i as int] => members@[i as int].1));
                }
                if !is_wellformed(&members[i].1) {
                    proof {
                        lemma_wf_members(members@);
                    }
                    return false;
                }
                i = i + 1;
            }
            proof {
                lemma_wf_members(members@);
            }
            true
        },
        _ => true,
    }
}

/// Appends the compact JSON text of `j` to `out`.
pub fn write_json(j: &Json, out: &mut String)
    ensures
        final(out)@ == old(out)@ + encode(*j),
    decreases j,
{
    match j {
        Json::Null => out.append("null"),
        Json::Bool(b) => {
            if *b {
                out.append("true")
            } else {
                out.append("false")
            }
        },
        Json::Int(n) => {
            let t = integer_text(*n);
            out.append(t.as_str());
        },
        Json::Num(t) => out.append(t.as_str()),
        Json::Str(s) => {
            let t = quote(s.as_str());
            out.append(t.as_str());
        },
        Json::Array(items) => {
            let ghost start = out@;
            out.append("[");
            proof {
                reveal_strlit("[");
            }
            let mut i: usize = 0;
            while i < items.len()
                invariant
                    i <= items@.len(),
                    *j == Json::Array(*items),
                    out@ == start + seq!['['] + encode_items(items@.subrange(0, i as int)),
                decreases items@.len() - i,
            {
                if i > 0 {
                    out.append(",");
                    proof {
                        reveal_strlit(",");
                    }
                }
                proof {
                    assert(decreases_to!(*j => j->Array_0));
                    assert(decreases_to!(*items => items@));
                    assert(decreases_to!(items@ => items@[i as int]));
                }
                write_json(&items[i], out);
                proof {
                    let next = items@.subrange(0, i + 1);
                    assert(next.subrange(0, i as int) =~= items@.subrange(0, i as int));
                    assert(next[i as int] == items@[i as int]);
                }
                i = i + 1;
            }
            assert(items@.subrange(0, items@.len() as int) =~= items@);
            out.append("]");
            proof {
                reveal_strlit("]");
            }
        },
        Json::Object(members) => {
            let ghost start = out@;
            out.append("{");
            proof {
                reveal_strlit("{");
            }
            let mut i: usize = 0;
            while i < members.len()
                invariant
                    i <= members@.len(),
                    *j == Json::Object(*members),
                    out@ == start + seq!['{'] + encode_members(members@.subrange(0, i as int)),
                decreases members@.len() - i,
            {
                if i > 0 {
                    out.append(",");
                    proof {
                        reveal_strlit(",");
                    }
                }
                let key = quote(members[i].0.as_str());
                out.append(key.as_str());
                out.append(":");
                proof {
                    reveal_strlit(":");
                }
                proof {
                    assert(decreases_to!(*j => j->Object_0));
                    assert(decreases_to!(*members => members@));
                    assert(decreases_to!(members@ => members@[i as int]));
                    assert(decreases_to!(members@[i as int] => members@[i as int].1));
                }
                write_json(&members[i].1, out);
                proof {
                    let next = members@.subrange(0, i + 1);
                    assert(next.subrange(0, i as int) =~= members@.subrange(0, i as int));
                    assert(next[i as int] == members@[i as int]);
                }
                i = i + 1;
            }
            assert(members@.subrange(0, members@.len() as int) =~= members@);
            out.append("}");
            proof {
                reveal_strlit("}");
            }
        },
    }
}

/// The compact JSON text of `j`.
pub fn to_text(j: &Json) -> (r: String)
    ensures
        r@ == encode(*j),
{
    let mut out = String::new();
    write_json(j, &mut out);
    proof {
        assert(out@ =~= Seq::<char>::empty() + encode(*j));
    }
    out
}

} // verus!
