use vstd::prelude::*;

use crate::error::{AnkiConnectError, ErrorKind, Fault, outcome_view};
use crate::json::{Json, decimal, encode, integer_text, quote, quoted, write_json};

verus! {

/// The message of a transport fault raised when a reply is not a response
/// envelope.
pub open spec fn bad_envelope_msg() -> Seq<char> {
    "response is not an AnkiConnect envelope"@
}

/// Whether a request carries a `params` member: exactly when parameters were
/// given, `null` included.
pub open spec fn sends_params(params: Option<Json>) -> bool {
    params is Some
}

/// The `params` member of a request, with its leading comma, or nothing.
pub open spec fn params_text(params: Option<Json>) -> Seq<char> {
    if sends_params(params) {
        ",\"params\":"@ + encode(params->0)
    } else {
        Seq::empty()
    }
}

/// The two members that every request starts with, after the opening brace.
pub open spec fn head_text(action: Seq<char>, version: i64) -> Seq<char> {
    "{\"action\":"@ + quoted(action) + ",\"version\":"@ + decimal(version as int)
}

/// The JSON text of a request envelope.
pub open spec fn request_text(action: Seq<char>, version: i64, params: Option<Json>) -> Seq<char> {
    head_text(action, version) + params_text(params) + "}"@
}

/// The value of the first member named `key`, if there is one.
pub open spec fn member(members: Seq<(String, Json)>, key: Seq<char>) -> Option<Json>
    decreases members.len(),
{
    if members.len() == 0 {
        None
    } else if members[0].0@ == key {
        Some(members[0].1)
    } else {
        member(members.drop_first(), key)
    }
}

/// What a response envelope says: its result, or the remote error when
/// `error` holds a non-empty string. A reply that is not an object, has no
/// `result`, or whose `error` is neither absent, `null` nor a string is a
/// transport fault.
pub open spec fn reply_outcome(body: Json) -> Result<Json, Fault> {
    match body {
        Json::Object(m) => match member(m@, "result"@) {
            None => Err(Fault { kind: ErrorKind::Transport, msg: bad_envelope_msg() }),
            Some(r) => match member(m@, "error"@) {
                None => Ok(r),
                Some(Json::Null) => Ok(r),
                Some(Json::Str(s)) => if s@.len() == 0 {
                    Ok(r)
                } else {
                    Err(Fault { kind: ErrorKind::Remote, msg: s@ })
                },
                Some(_) => Err(Fault { kind: ErrorKind::Transport, msg: bad_envelope_msg() }),
            },
        },
        _ => Err(Fault { kind: ErrorKind::Transport, msg: bad_envelope_msg() }),
    }
}

/// What one exchange yields: a transport fault carrying the transport's
/// message, or what the reply says.
pub open spec fn exchange_outcome(exchange: Result<Json, String>) -> Result<Json, Fault> {
    match exchange {
        Ok(body) => reply_outcome(body),
        Err(m) => Err(Fault { kind: ErrorKind::Transport, msg: m@ }),
    }
}

/// The outcome of an exchange whose result is then decoded by `decode`.
pub open spec fn and_then<V>(
    o: Result<Json, Fault>,
    decode: spec_fn(Json) -> Result<V, Fault>,
) -> Result<V, Fault> {
    match o {
        Ok(j) => decode(j),
        Err(f) => Err(f),
    }
}

/// The JSON text of the request envelope for `action`, announcing `version`;
/// the `params` member is there exactly when parameters are given.
pub fn request_body(action: &str, version: i64, params: &Option<Json>) -> (r: String)
    ensures
        r@ == request_text(action@, version, *params),
{
    let mut out = String::from_str("{\"action\":");
    let a = quote(action);
    out.append(a.as_str());
    out.append(",\"version\":");
    let v = integer_text(version);
    out.append(v.as_str());
    proof {
        assert(out@ =~= head_text(action@, version));
    }
    match params {
        Some(p) => {
            out.append(",\"params\":");
            write_json(p, &mut out);
        },
        None => {},
    }
    out.append("}");
    proof {
        assert(out@ =~= request_text(action@, version, *params));
    }
    out
}

/// The index of the first member named `key`.
fn position(members: &Vec<(String, Json)>, key: &str) -> (r: Option<usize>)
    ensures
        match r {
            Some(i) => i < members@.len() && member(members@, key@) == Some(members@[i as int].1),
            None => member(members@, key@) is None,
        },
{
    let k = String::from_str(key);
    let mut i: usize = 0;
    assert(members@.subrange(0, members@.len() as int) =~= members@);
    while i < members.len()
        invariant
            i <= members@.len(),
            k@ == key@,
            member(members@, key@) == member(members@.subrange(i as int, members@.len() as int), key@),
        decreases members@.len() - i,
    {
        let ghost rest = members@.subrange(i as int, members@.len() as int);
        assert(rest[0] == members@[i as int]);
        if members[i].0 == k {
            return Some(i);
        }
        assert(rest.drop_first() =~= members@.subrange(i + 1, members@.len() as int));
        i = i + 1;
    }
    None
}

/// Takes the member at `i` out of an envelope.
fn take_member(members: Vec<(String, Json)>, i: usize) -> (r: Json)
    requires
        i < members@.len(),
    ensures
        r == members@[i as int].1,
{
    let mut m = members;
    let (_, v) = m.remove(i);
    v
}

fn bad_envelope() -> (r: AnkiConnectError)
    ensures
        r@ == (Fault { kind: ErrorKind::Transport, msg: bad_envelope_msg() }),
{
    AnkiConnectError::new(ErrorKind::Transport, String::from_str("response is not an AnkiConnect envelope"))
}

/// Reads a response envelope: its result, or the error that it reports.
pub fn read_reply(body: Json) -> (r: Result<Json, AnkiConnectError>)
    ensures
        outcome_view(&r) == reply_outcome(body),
{
    match body {
        Json::Object(members) => {
            let ri = match position(&members, "result") {
                Some(ri) => ri,
                None => {
                    return Err(bad_envelope());
                },
            };
            let remote: Option<String> = match position(&members, "error") {
                None => None,
                Some(i) => match &members[i].1 {
                    Json::Null => None,
                    Json::Str(s) => {
                        if s.as_str().is_empty() {
                            None
                        } else {
                            Some(s.clone())
                        }
                    },
                    _ => {
                        return Err(bad_envelope());
                    },
                },
            };
            match remote {
                Some(s) => Err(AnkiConnectError::new(ErrorKind::Remote, s)),
                None => Ok(take_member(members, ri)),
            }
        },
        _ => Err(bad_envelope()),
    }
}

/// Settles one exchange: a transport failure becomes a transport fault with
/// the transport's message; a reply is read as an envelope.
pub fn finish(exchange: Result<Json, String>) -> (r: Result<Json, AnkiConnectError>)
    ensures
        outcome_view(&r) == exchange_outcome(exchange),
{
    match exchange {
        Ok(body) => read_reply(body),
        Err(m) => Err(AnkiConnectError::new(ErrorKind::Transport, m)),
    }
}

/// A request without parameters has exactly the members `action` and
/// `version`: the `params` key is left out, not sent as `null`.
pub proof fn lemma_no_params_key(action: Seq<char>, version: i64)
    ensures
        request_text(action, version, None) == head_text(action, version) + "}"@,
        head_text(action, version) == "{\"action\":"@ + quoted(action) + ",\"version\":"@ + decimal(
            version as int,
        ),
{
    assert(request_text(action, version, None) =~= head_text(action, version) + "}"@);
}

/// A request with parameters `p`, `null` included, ends with the member
/// `params` holding exactly the text of `p`.
pub proof fn lemma_params_verbatim(action: Seq<char>, version: i64, p: Json)
    ensures
        request_text(action, version, Some(p)) == head_text(action, version) + ",\"params\":"@
            + encode(p) + "}"@,
{
}

/// An envelope whose `result` is `r` and whose `error` is `null` yields `r`,
/// and then its decoding into any shape; one whose `error` is a non-empty
/// string `x` yields the remote error `x`, whatever its result holds.
pub proof fn lemma_reply_round_trip<V>(
    body: Json,
    r: Json,
    decode: spec_fn(Json) -> Result<V, Fault>,
)
    requires
        body is Object,
        member(body->Object_0@, "result"@) == Some(r),
    ensures
        member(body->Object_0@, "error"@) == Some(Json::Null) ==> reply_outcome(body) == Ok::<
            Json,
            Fault,
        >(r) && and_then(exchange_outcome(Ok(body)), decode) == decode(r),
        member(body->Object_0@, "error"@) is None ==> reply_outcome(body) == Ok::<Json, Fault>(r),
        forall|x: String|
            member(body->Object_0@, "error"@) == Some(Json::Str(x)) && x@.len() > 0
                ==> reply_outcome(body) == Err::<Json, Fault>(
                Fault { kind: ErrorKind::Remote, msg: x@ },
            ),
{
}

/// A failed exchange always yields a transport fault with the transport's
/// message; a remote error only comes from a reply object whose `error` is
/// that non-empty string.
pub proof fn lemma_fault_kinds(exchange: Result<Json, String>)
    ensures
        exchange is Err ==> exchange_outcome(exchange) == Err::<Json, Fault>(
            Fault { kind: ErrorKind::Transport, msg: exchange->Err_0@ },
        ),
        exchange_outcome(exchange) is Err && exchange_outcome(exchange)->Err_0.kind
            == ErrorKind::Remote ==> {
            &&& exchange is Ok
            &&& exchange->Ok_0 is Object
            &&& member(exchange->Ok_0->Object_0@, "error"@) is Some
            &&& member(exchange->Ok_0->Object_0@, "error"@)->Some_0 is Str
            &&& member(exchange->Ok_0->Object_0@, "error"@)->Some_0->Str_0@ == exchange_outcome(
                exchange,
            )->Err_0.msg
            &&& exchange_outcome(exchange)->Err_0.msg.len() > 0
        },
{
}

} // verus!
