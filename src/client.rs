use vstd::prelude::*;

use crate::api_version::{ApiVersion, DEFAULT_API_VERSION};
use crate::decode::{
    as_bool, as_id_lists_by_name, as_ids_by_name, as_int, as_maybe_bool, as_texts,
    as_text_lists_by_name, as_unit, decode_bool, decode_i64, decode_id_lists_by_name,
    decode_ids_by_name, decode_maybe_bool, decode_text_lists_by_name, decode_texts, decode_unit,
};
use crate::envelope::{and_then, exchange_outcome, finish, request_body, request_text};
use crate::error::{AnkiConnectError, Fault, outcome_view};
use crate::json::{Json, decimal, integer_text, keys_unique, lemma_wf_members, wf};
use crate::params::{
    bool_member, bool_pair, names_unique, int_member, int_pair, ints_member, ints_pair, member_at, object_of,
    text_member, text_object_member, text_object_pair, text_pair, texts_member, texts_pair,
    value_member, value_pair,
};

verus! {

/// The address of the remote application and the protocol revision that is
/// announced to it. It never changes after construction, and no state is kept
/// between calls.
#[derive(Debug, Clone)]
pub struct AnkiConnectClient {
    hostname: String,
    port: i64,
    version: ApiVersion,
}

/// Whether `send` was handed the address `url` and the request `body`, and
/// answered `reply`.
pub open spec fn exchanged<F: FnOnce(String, String) -> Result<Json, String>>(
    send: F,
    url: Seq<char>,
    body: Seq<char>,
    reply: Result<Json, String>,
) -> bool {
    exists|u: String, b: String| u@ == url && b@ == body && send.ensures((u, b), reply)
}

/// One dispatch: `send` got exactly `url` and `body`, and `out` is what its
/// reply says, decoded by `decode`.
pub open spec fn dispatched<F: FnOnce(String, String) -> Result<Json, String>, V>(
    send: F,
    url: Seq<char>,
    body: Seq<char>,
    decode: spec_fn(Json) -> Result<V, Fault>,
    out: Result<V, Fault>,
) -> bool {
    exists|reply: Result<Json, String>|
        exchanged(send, url, body, reply) && out == and_then(exchange_outcome(reply), decode)
}

/// `send` accepts every address and body.
pub open spec fn accepts_all<F: FnOnce(String, String) -> Result<Json, String>>(send: F) -> bool {
    forall|u: String, b: String| send.requires((u, b))
}

/// Two clients built with the same address and protocol revision send the
/// same bytes to the same address for the same action and parameters.
pub proof fn lemma_same_config_same_request(
    c1: AnkiConnectClient,
    c2: AnkiConnectClient,
    action: Seq<char>,
    params: Option<Json>,
)
    requires
        c1.host() == c2.host(),
        c1.port_number() == c2.port_number(),
        c1.api_version() == c2.api_version(),
    ensures
        c1.url_text() == c2.url_text(),
        c1.body_text(action, params) == c2.body_text(action, params),
{
}

/// Decoding the result of a dispatch is a dispatch with the decoder.
proof fn lemma_decoded<F: FnOnce(String, String) -> Result<Json, String>, V>(
    send: F,
    url: Seq<char>,
    body: Seq<char>,
    raw: Result<Json, Fault>,
    decode: spec_fn(Json) -> Result<V, Fault>,
    out: Result<V, Fault>,
)
    requires
        dispatched(send, url, body, |j: Json| Ok(j), raw),
        out == and_then(raw, decode),
    ensures
        dispatched(send, url, body, decode, out),
{
    let reply = choose|reply: Result<Json, String>|
        exchanged(send, url, body, reply) && raw == and_then(exchange_outcome(reply), |j: Json| Ok(j));
    assert(and_then(exchange_outcome(reply), |j: Json| Ok(j)) == exchange_outcome(reply));
    assert(exchanged(send, url, body, reply) && out == and_then(exchange_outcome(reply), decode));
}

impl AnkiConnectClient {
    pub closed spec fn host(self) -> Seq<char> {
        self.hostname@
    }

    pub closed spec fn port_number(self) -> i64 {
        self.port
    }

    pub closed spec fn api_version(self) -> ApiVersion {
        self.version
    }

    /// The address that every request is sent to.
    pub open spec fn url_text(self) -> Seq<char> {
        "http://"@ + self.host() + ":"@ + decimal(self.port_number() as int) + "/"@
    }

    /// The request body for `action` with `params`.
    pub open spec fn body_text(self, action: Seq<char>, params: Option<Json>) -> Seq<char> {
        request_text(action, self.api_version().value(), params)
    }

    /// A client of the application at `hostname:port` that announces the
    /// default protocol revision.
    pub fn new(hostname: &str, port: i64) -> (r: AnkiConnectClient)
        ensures
            r.host() == hostname@,
            r.port_number() == port,
            r.api_version() == ApiVersion::V(DEFAULT_API_VERSION),
    {
        AnkiConnectClient {
            hostname: String::from_str(hostname),
            port,
            version: ApiVersion::V(DEFAULT_API_VERSION),
        }
    }

    /// A client that announces `version`.
    pub fn with_version(hostname: &str, port: i64, version: ApiVersion) -> (r: AnkiConnectClient)
        ensures
            r.host() == hostname@,
            r.port_number() == port,
            r.api_version() == version,
    {
        AnkiConnectClient { hostname: String::from_str(hostname), port, version }
    }

    /// The address that every request is sent to.
    pub fn url(&self) -> (r: String)
        ensures
            r@ == self.url_text(),
    {
        let mut u = String::from_str("http://");
        u.append(self.hostname.as_str());
        u.append(":");
        let p = integer_text(self.port);
        u.append(p.as_str());
        u.append("/");
        proof {
            assert(u@ =~= self.url_text());
        }
        u
    }

    /// The request body for `action` with `params`.
    pub fn request(&self, action: &str, params: &Option<Json>) -> (r: String)
        ensures
            r@ == self.body_text(action@, *params),
    {
        request_body(action, self.version.to_i64(), params)
    }

    /// Dispatches one action: frames its request, hands the address and the
    /// body to `send` once, and reads the envelope that comes back. A failure
    /// of `send` is a transport fault carrying its message.
    pub fn call<F>(&self, action: &str, params: Option<Json>, send: F) -> (r: Result<Json, AnkiConnectError>)
        where
            F: FnOnce(String, String) -> Result<Json, String>,
        requires
            accepts_all(send),
            params is Some ==> wf(params->Some_0),
        ensures
            dispatched(send, self.url_text(), self.body_text(action@, params), |j: Json| Ok(j), outcome_view(&r)),
    {
        let url = self.url();
        let body = self.request(action, &params);
        let reply = send(url, body);
        let r = finish(reply);
        proof {
            assert(exchanged(send, self.url_text(), self.body_text(action@, params), reply));
            assert(outcome_view(&r) == and_then(exchange_outcome(reply), |j: Json| Ok(j)));
        }
        r
    }
}

impl AnkiConnectClient {
    /// The protocol revision that the remote application speaks.
    pub fn version<F>(&self, send: F) -> (r: Result<i64, AnkiConnectError>)
        where
            F: FnOnce(String, String) -> Result<Json, String>,
        requires
            accepts_all(send),
        ensures
            dispatched(send, self.url_text(), self.body_text("version"@, None), |j: Json| as_int(j), outcome_view(&r)),
    {
        let ghost s = send;
        let raw = self.call("version", None, send);
        let ghost rv = outcome_view(&raw);
        let r = match raw {
            Ok(j) => decode_i64(&j),
            Err(e) => Err(e),
        };
        proof {
            lemma_decoded(
                s,
                self.url_text(),
                self.body_text("version"@, None),
                rv,
                |j: Json| as_int(j),
                outcome_view(&r),
            );
        }
        r
    }

    /// Whether the add-on upgraded itself.
    pub fn upgrade<F>(&self, send: F) -> (r: Result<bool, AnkiConnectError>)
        where
            F: FnOnce(String, String) -> Result<Json, String>,
        requires
            accepts_all(send),
        ensures
            dispatched(send, self.url_text(), self.body_text("upgrade"@, None), |j: Json| as_bool(j), outcome_view(&r)),
    {
        let ghost s = send;
        let raw = self.call("upgrade", None, send);
        let ghost rv = outcome_view(&raw);
        let r = match raw {
            Ok(j) => decode_bool(&j),
            Err(e) => Err(e),
        };
        proof {
            lemma_decoded(
                s,
                self.url_text(),
                self.body_text("upgrade"@, None),
                rv,
                |j: Json| as_bool(j),
                outcome_view(&r),
            );
        }
        r
    }

    /// Synchronises the collection with the remote service; a result other
    /// than `null` is a decode mismatch.
    pub fn sync<F>(&self, send: F) -> (r: Result<(), AnkiConnectError>)
        where
            F: FnOnce(String, String) -> Result<Json, String>,
        requires
            accepts_all(send),
        ensures
            dispatched(send, self.url_text(), self.body_text("sync"@, None), |j: Json| as_unit(j), outcome_view(&r)),
    {
        let ghost s = send;
        let raw = self.call("sync", None, send);
        let ghost rv = outcome_view(&raw);
        let r = match raw {
            Ok(j) => decode_unit(&j),
            Err(e) => Err(e),
        };
        proof {
            lemma_decoded(
                s,
                self.url_text(),
                self.body_text("sync"@, None),
                rv,
                |j: Json| as_unit(j),
                outcome_view(&r),
            );
        }
        r
    }

    /// The names of all decks, in the order received.
    pub fn deck_names<F>(&self, send: F) -> (r: Result<Vec<String>, AnkiConnectError>)
        where
            F: FnOnce(String, String) -> Result<Json, String>,
        requires
            accepts_all(send),
        ensures
            dispatched(send, self.url_text(), self.body_text("deckNames"@, None), |j: Json| as_texts(j), outcome_view(&r)),
    {
        let ghost s = send;
        let raw = self.call("deckNames", None, send);
        let ghost rv = outcome_view(&raw);
        let r = match raw {
            Ok(j) => decode_texts(&j),
            Err(e) => Err(e),
        };
        proof {
            lemma_decoded(
                s,
                self.url_text(),
                self.body_text("deckNames"@, None),
                rv,
                |j: Json| as_texts(j),
                outcome_view(&r),
            );
        }
        r
    }

    /// Each deck's name with its id, in the order received.
    pub fn deck_names_and_ids<F>(&self, send: F) -> (r: Result<Vec<(String, i64)>, AnkiConnectError>)
        where
            F: FnOnce(String, String) -> Result<Json, String>,
        requires
            accepts_all(send),
        ensures
            dispatched(send, self.url_text(), self.body_text("deckNamesAndIds"@, None), |j: Json| as_ids_by_name(j), outcome_view(&r)),
    {
        let ghost s = send;
        let raw = self.call("deckNamesAndIds", None, send);
        let ghost rv = outcome_view(&raw);
        let r = match raw {
            Ok(j) => decode_ids_by_name(&j),
            Err(e) => Err(e),
        };
        proof {
            lemma_decoded(
                s,
                self.url_text(),
                self.body_text("deckNamesAndIds"@, None),
                rv,
                |j: Json| as_ids_by_name(j),
                outcome_view(&r),
            );
        }
        r
    }

    /// The names of all note types, in the order received.
    pub fn model_names<F>(&self, send: F) -> (r: Result<Vec<String>, AnkiConnectError>)
        where
            F: FnOnce(String, String) -> Result<Json, String>,
        requires
            accepts_all(send),
        ensures
            dispatched(send, self.url_text(), self.body_text("modelNames"@, None), |j: Json| as_texts(j), outcome_view(&r)),
    {
        let ghost s = send;
        let raw = self.call("modelNames", None, send);
        let ghost rv = outcome_view(&raw);
        let r = match raw {
            Ok(j) => decode_texts(&j),
            Err(e) => Err(e),
        };
        proof {
            lemma_decoded(
                s,
                self.url_text(),
                self.body_text("modelNames"@, None),
                rv,
                |j: Json| as_texts(j),
                outcome_view(&r),
            );
        }
        r
    }

    /// Each note type's name with its id, in the order received.
    pub fn model_names_and_ids<F>(&self, send: F) -> (r: Result<Vec<(String, i64)>, AnkiConnectError>)
        where
            F: FnOnce(String, String) -> Result<Json, String>,
        requires
            accepts_all(send),
        ensures
            dispatched(send, self.url_text(), self.body_text("modelNamesAndIds"@, None), |j: Json| as_ids_by_name(j), outcome_view(&r)),
    {
        let ghost s = send;
        let raw = self.call("modelNamesAndIds", None, send);
        let ghost rv = outcome_view(&raw);
        let r = match raw {
            Ok(j) => decode_ids_by_name(&j),
            Err(e) => Err(e),
        };
        proof {
            lemma_decoded(
                s,
                self.url_text(),
                self.body_text("modelNamesAndIds"@, None),
                rv,
                |j: Json| as_ids_by_name(j),
                outcome_view(&r),
            );
        }
        r
    }

    /// Switches to the profile `username`.
    pub fn load_profile<F>(&self, username: &str, send: F) -> (r: Result<bool, AnkiConnectError>)
        where
            F: FnOnce(String, String) -> Result<Json, String>,
        requires
            accepts_all(send),
        ensures
            exists|p: Json|
                object_of(p, 1) && text_member(member_at(p, 0), "name"@, username@) && dispatched(
                    send,
                    self.url_text(),
                    self.body_text("loadProfile"@, Some(p)),
                    |j: Json| as_bool(j),
                    outcome_view(&r),
                ),
    {
        let ghost s = send;
        let mut members: Vec<(String, Json)> = Vec::new();
        members.push(text_pair("name", username));
        let params = Json::Object(members);
        let ghost gp = params;
        proof {
            reveal_strlit("name");
            lemma_wf_members(gp->Object_0@);
            assert(keys_unique(gp->Object_0@));
        }
        let raw = self.call("loadProfile", Some(params), send);
        let ghost rv = outcome_view(&raw);
        let r = match raw {
            Ok(j) => decode_bool(&j),
            Err(e) => Err(e),
        };
        proof {
            lemma_decoded(
                s,
                self.url_text(),
                self.body_text("loadProfile"@, Some(gp)),
                rv,
                |j: Json| as_bool(j),
                outcome_view(&r),
            );
            assert(object_of(gp, 1));
            assert(text_member(member_at(gp, 0), "name"@, username@));
            assert(dispatched(s, self.url_text(), self.body_text("loadProfile"@, Some(gp)), |j: Json| as_bool(j), outcome_view(&r)));
        }
        r
    }

    /// The decks that hold the given cards: each deck's name with the ids of those of its cards, in the order received.
    pub fn get_decks<F>(&self, cards: &Vec<i64>, send: F) -> (r: Result<Vec<(String, Vec<i64>)>, AnkiConnectError>)
        where
            F: FnOnce(String, String) -> Result<Json, String>,
        requires
            accepts_all(send),
        ensures
            exists|p: Json|
                object_of(p, 1) && ints_member(member_at(p, 0), "cards"@, cards@) && dispatched(
                    send,
                    self.url_text(),
                    self.body_text("getDecks"@, Some(p)),
                    |j: Json| as_id_lists_by_name(j),
                    outcome_view(&r),
                ),
    {
        let ghost s = send;
        let mut members: Vec<(String, Json)> = Vec::new();
        members.push(ints_pair("cards", cards));
        let params = Json::Object(members);
        let ghost gp = params;
        proof {
            reveal_strlit("cards");
            lemma_wf_members(gp->Object_0@);
            assert(keys_unique(gp->Object_0@));
        }
        let raw = self.call("getDecks", Some(params), send);
        let ghost rv = outcome_view(&raw);
        let r = match raw {
            Ok(j) => decode_id_lists_by_name(&j),
            Err(e) => Err(e),
        };
        proof {
            lemma_decoded(
                s,
                self.url_text(),
                self.body_text("getDecks"@, Some(gp)),
                rv,
                |j: Json| as_id_lists_by_name(j),
                outcome_view(&r),
            );
            assert(object_of(gp, 1));
            assert(ints_member(member_at(gp, 0), "cards"@, cards@));
            assert(dispatched(s, self.url_text(), self.body_text("getDecks"@, Some(gp)), |j: Json| as_id_lists_by_name(j), outcome_view(&r)));
        }
        r
    }

    /// Creates the deck `deck` and returns its id.
    pub fn create_deck<F>(&self, deck: &str, send: F) -> (r: Result<i64, AnkiConnectError>)
        where
            F: FnOnce(String, String) -> Result<Json, String>,
        requires
            accepts_all(send),
        ensures
            exists|p: Json|
                object_of(p, 1) && text_member(member_at(p, 0), "deck"@, deck@) && dispatched(
                    send,
                    self.url_text(),
                    self.body_text("createDeck"@, Some(p)),
                    |j: Json| as_int(j),
                    outcome_view(&r),
                ),
    {
        let ghost s = send;
        let mut members: Vec<(String, Json)> = Vec::new();
        members.push(text_pair("deck", deck));
        let params = Json::Object(members);
        let ghost gp = params;
        proof {
            reveal_strlit("deck");
            lemma_wf_members(gp->Object_0@);
            assert(keys_unique(gp->Object_0@));
        }
        let raw = self.call("createDeck", Some(params), send);
        let ghost rv = outcome_view(&raw);
        let r = match raw {
            Ok(j) => decode_i64(&j),
            Err(e) => Err(e),
        };
        proof {
            lemma_decoded(
                s,
                self.url_text(),
                self.body_text("createDeck"@, Some(gp)),
                rv,
                |j: Json| as_int(j),
                outcome_view(&r),
            );
            assert(object_of(gp, 1));
            assert(text_member(member_at(gp, 0), "deck"@, deck@));
            assert(dispatched(s, self.url_text(), self.body_text("createDeck"@, Some(gp)), |j: Json| as_int(j), outcome_view(&r)));
        }
        r
    }

    /// Moves the given cards to the deck `deck`.
    pub fn change_deck<F>(&self, cards: &Vec<i64>, deck: &str, send: F) -> (r: Result<(), AnkiConnectError>)
        where
            F: FnOnce(String, String) -> Result<Json, String>,
        requires
            accepts_all(send),
        ensures
            exists|p: Json|
                object_of(p, 2) && ints_member(member_at(p, 0), "cards"@, cards@) && text_member(member_at(p, 1), "deck"@, deck@) && dispatched(
                    send,
                    self.url_text(),
                    self.body_text("changeDeck"@, Some(p)),
                    |j: Json| as_unit(j),
                    outcome_view(&r),
                ),
    {
        let ghost s = send;
        let mut members: Vec<(String, Json)> = Vec::new();
        members.push(ints_pair("cards", cards));
        members.push(text_pair("deck", deck));
        let params = Json::Object(members);
        let ghost gp = params;
        proof {
            reveal_strlit("cards");
            reveal_strlit("deck");
            assert("cards"@[0] != "deck"@[0]);
            assert("cards"@ != "deck"@);
            lemma_wf_members(gp->Object_0@);
            assert(keys_unique(gp->Object_0@));
        }
        let raw = self.call("changeDeck", Some(params), send);
        let ghost rv = outcome_view(&raw);
        let r = match raw {
            Ok(j) => decode_unit(&j),
            Err(e) => Err(e),
        };
        proof {
            lemma_decoded(
                s,
                self.url_text(),
                self.body_text("changeDeck"@, Some(gp)),
                rv,
                |j: Json| as_unit(j),
                outcome_view(&r),
            );
            assert(object_of(gp, 2));
            assert(ints_member(member_at(gp, 0), "cards"@, cards@));
            assert(text_member(member_at(gp, 1), "deck"@, deck@));
            assert(dispatched(s, self.url_text(), self.body_text("changeDeck"@, Some(gp)), |j: Json| as_unit(j), outcome_view(&r)));
        }
        r
    }

    /// Deletes the given decks, and their cards when `cards_too` holds.
    pub fn delete_decks<F>(&self, decks: &Vec<String>, cards_too: bool, send: F) -> (r: Result<(), AnkiConnectError>)
        where
            F: FnOnce(String, String) -> Result<Json, String>,
        requires
            accepts_all(send),
        ensures
            exists|p: Json|
                object_of(p, 2) && texts_member(member_at(p, 0), "decks"@, decks@.map_values(|t: String| t@)) && bool_member(member_at(p, 1), "cardsToo"@, cards_too) && dispatched(
                    send,
                    self.url_text(),
                    self.body_text("deleteDecks"@, Some(p)),
                    |j: Json| as_unit(j),
                    outcome_view(&r),
                ),
    {
        let ghost s = send;
        let mut members: Vec<(String, Json)> = Vec::new();
        members.push(texts_pair("decks", decks));
        members.push(bool_pair("cardsToo", cards_too));
        let params = Json::Object(members);
        let ghost gp = params;
        proof {
            reveal_strlit("decks");
            reveal_strlit("cardsToo");
            assert("decks"@[0] != "cardsToo"@[0]);
            assert("decks"@ != "cardsToo"@);
            lemma_wf_members(gp->Object_0@);
            assert(keys_unique(gp->Object_0@));
        }
        let raw = self.call("deleteDecks", Some(params), send);
        let ghost rv = outcome_view(&raw);
        let r = match raw {
            Ok(j) => decode_unit(&j),
            Err(e) => Err(e),
        };
        proof {
            lemma_decoded(
                s,
                self.url_text(),
                self.body_text("deleteDecks"@, Some(gp)),
                rv,
                |j: Json| as_unit(j),
                outcome_view(&r),
            );
            assert(object_of(gp, 2));
            assert(texts_member(member_at(gp, 0), "decks"@, decks@.map_values(|t: String| t@)));
            assert(bool_member(member_at(gp, 1), "cardsToo"@, cards_too));
            assert(dispatched(s, self.url_text(), self.body_text("deleteDecks"@, Some(gp)), |j: Json| as_unit(j), outcome_view(&r)));
        }
        r
    }

    /// The options group of the deck `deck`, as received.
    pub fn get_deck_config<F>(&self, deck: &str, send: F) -> (r: Result<Json, AnkiConnectError>)
        where
            F: FnOnce(String, String) -> Result<Json, String>,
        requires
            accepts_all(send),
        ensures
            exists|p: Json|
                object_of(p, 1) && text_member(member_at(p, 0), "deck"@, deck@) && dispatched(
                    send,
                    self.url_text(),
                    self.body_text("getDeckConfig"@, Some(p)),
                    |j: Json| Ok(j),
                    outcome_view(&r),
                ),
    {
        let ghost s = send;
        let mut members: Vec<(String, Json)> = Vec::new();
        members.push(text_pair("deck", deck));
        let params = Json::Object(members);
        let ghost gp = params;
        proof {
            reveal_strlit("deck");
            lemma_wf_members(gp->Object_0@);
            assert(keys_unique(gp->Object_0@));
        }
        let raw = self.call("getDeckConfig", Some(params), send);
        proof {
            assert(object_of(gp, 1) && text_member(member_at(gp, 0), "deck"@, deck@));
        }
        raw
    }

    /// Saves an options group.
    pub fn save_deck_config<F>(&self, config: Json, send: F) -> (r: Result<bool, AnkiConnectError>)
        where
            F: FnOnce(String, String) -> Result<Json, String>,
        requires
            accepts_all(send),
            wf(config),
        ensures
            exists|p: Json|
                object_of(p, 1) && value_member(member_at(p, 0), "config"@, config) && dispatched(
                    send,
                    self.url_text(),
                    self.body_text("saveDeckConfig"@, Some(p)),
                    |j: Json| as_bool(j),
                    outcome_view(&r),
                ),
    {
        let ghost s = send;
        let mut members: Vec<(String, Json)> = Vec::new();
        members.push(value_pair("config", config));
        let params = Json::Object(members);
        let ghost gp = params;
        proof {
            reveal_strlit("config");
            lemma_wf_members(gp->Object_0@);
            assert(keys_unique(gp->Object_0@));
        }
        let raw = self.call("saveDeckConfig", Some(params), send);
        let ghost rv = outcome_view(&raw);
        let r = match raw {
            Ok(j) => decode_bool(&j),
            Err(e) => Err(e),
        };
        proof {
            lemma_decoded(
                s,
                self.url_text(),
                self.body_text("saveDeckConfig"@, Some(gp)),
                rv,
                |j: Json| as_bool(j),
                outcome_view(&r),
            );
            assert(object_of(gp, 1));
            assert(value_member(member_at(gp, 0), "config"@, config));
            assert(dispatched(s, self.url_text(), self.body_text("saveDeckConfig"@, Some(gp)), |j: Json| as_bool(j), outcome_view(&r)));
        }
        r
    }

    /// Gives the given decks the options group `config_id`.
    pub fn set_deck_config_id<F>(&self, decks: &Vec<String>, config_id: i64, send: F) -> (r: Result<bool, AnkiConnectError>)
        where
            F: FnOnce(String, String) -> Result<Json, String>,
        requires
            accepts_all(send),
        ensures
            exists|p: Json|
                object_of(p, 2) && texts_member(member_at(p, 0), "decks"@, decks@.map_values(|t: String| t@)) && int_member(member_at(p, 1), "configId"@, config_id) && dispatched(
                    send,
                    self.url_text(),
                    self.body_text("setDeckConfigId"@, Some(p)),
                    |j: Json| as_bool(j),
                    outcome_view(&r),
                ),
    {
        let ghost s = send;
        let mut members: Vec<(String, Json)> = Vec::new();
        members.push(texts_pair("decks", decks));
        members.push(int_pair("configId", config_id));
        let params = Json::Object(members);
        let ghost gp = params;
        proof {
            reveal_strlit("decks");
            reveal_strlit("configId");
            assert("decks"@[0] != "configId"@[0]);
            assert("decks"@ != "configId"@);
            lemma_wf_members(gp->Object_0@);
            assert(keys_unique(gp->Object_0@));
        }
        let raw = self.call("setDeckConfigId", Some(params), send);
        let ghost rv = outcome_view(&raw);
        let r = match raw {
            Ok(j) => decode_bool(&j),
            Err(e) => Err(e),
        };
        proof {
            lemma_decoded(
                s,
                self.url_text(),
                self.body_text("setDeckConfigId"@, Some(gp)),
                rv,
                |j: Json| as_bool(j),
                outcome_view(&r),
            );
            assert(object_of(gp, 2));
            assert(texts_member(member_at(gp, 0), "decks"@, decks@.map_values(|t: String| t@)));
            assert(int_member(member_at(gp, 1), "configId"@, config_id));
            assert(dispatched(s, self.url_text(), self.body_text("setDeckConfigId"@, Some(gp)), |j: Json| as_bool(j), outcome_view(&r)));
        }
        r
    }

    /// Removes the options group `config_id`.
    pub fn remove_deck_config_id<F>(&self, config_id: i64, send: F) -> (r: Result<bool, AnkiConnectError>)
        where
            F: FnOnce(String, String) -> Result<Json, String>,
        requires
            accepts_all(send),
        ensures
            exists|p: Json|
                object_of(p, 1) && int_member(member_at(p, 0), "configId"@, config_id) && dispatched(
                    send,
                    self.url_text(),
                    self.body_text("removeDeckConfigId"@, Some(p)),
                    |j: Json| as_bool(j),
                    outcome_view(&r),
                ),
    {
        let ghost s = send;
        let mut members: Vec<(String, Json)> = Vec::new();
        members.push(int_pair("configId", config_id));
        let params = Json::Object(members);
        let ghost gp = params;
        proof {
            reveal_strlit("configId");
            lemma_wf_members(gp->Object_0@);
            assert(keys_unique(gp->Object_0@));
        }
        let raw = self.call("removeDeckConfigId", Some(params), send);
        let ghost rv = outcome_view(&raw);
        let r = match raw {
            Ok(j) => decode_bool(&j),
            Err(e) => Err(e),
        };
        proof {
            lemma_decoded(
                s,
                self.url_text(),
                self.body_text("removeDeckConfigId"@, Some(gp)),
                rv,
                |j: Json| as_bool(j),
                outcome_view(&r),
            );
            assert(object_of(gp, 1));
            assert(int_member(member_at(gp, 0), "configId"@, config_id));
            assert(dispatched(s, self.url_text(), self.body_text("removeDeckConfigId"@, Some(gp)), |j: Json| as_bool(j), outcome_view(&r)));
        }
        r
    }

    /// The field names of the note type `model_name`, in order.
    pub fn model_field_names<F>(&self, model_name: &str, send: F) -> (r: Result<Vec<String>, AnkiConnectError>)
        where
            F: FnOnce(String, String) -> Result<Json, String>,
        requires
            accepts_all(send),
        ensures
            exists|p: Json|
                object_of(p, 1) && text_member(member_at(p, 0), "modelName"@, model_name@) && dispatched(
                    send,
                    self.url_text(),
                    self.body_text("modelFieldNames"@, Some(p)),
                    |j: Json| as_texts(j),
                    outcome_view(&r),
                ),
    {
        let ghost s = send;
        let mut members: Vec<(String, Json)> = Vec::new();
        members.push(text_pair("modelName", model_name));
        let params = Json::Object(members);
        let ghost gp = params;
        proof {
            reveal_strlit("modelName");
            lemma_wf_members(gp->Object_0@);
            assert(keys_unique(gp->Object_0@));
        }
        let raw = self.call("modelFieldNames", Some(params), send);
        let ghost rv = outcome_view(&raw);
        let r = match raw {
            Ok(j) => decode_texts(&j),
            Err(e) => Err(e),
        };
        proof {
            lemma_decoded(
                s,
                self.url_text(),
                self.body_text("modelFieldNames"@, Some(gp)),
                rv,
                |j: Json| as_texts(j),
                outcome_view(&r),
            );
            assert(object_of(gp, 1));
            assert(text_member(member_at(gp, 0), "modelName"@, model_name@));
            assert(dispatched(s, self.url_text(), self.body_text("modelFieldNames"@, Some(gp)), |j: Json| as_texts(j), outcome_view(&r)));
        }
        r
    }

    /// For each card template of the note type `model_name`, the names of the
    /// fields on its front and on its back, in the order received.
    pub fn model_fields_on_templates<F>(&self, model_name: &str, send: F) -> (r: Result<
        Vec<(String, Vec<Vec<String>>)>,
        AnkiConnectError,
    >)
        where
            F: FnOnce(String, String) -> Result<Json, String>,
        requires
            accepts_all(send),
        ensures
            exists|p: Json|
                object_of(p, 1) && text_member(member_at(p, 0), "modelName"@, model_name@) && dispatched(
                    send,
                    self.url_text(),
                    self.body_text("modelFieldsOnTemplates"@, Some(p)),
                    |j: Json| as_text_lists_by_name(j),
                    outcome_view(&r),
                ),
    {
        let ghost s = send;
        let mut members: Vec<(String, Json)> = Vec::new();
        members.push(text_pair("modelName", model_name));
        let params = Json::Object(members);
        let ghost gp = params;
        proof {
            reveal_strlit("modelName");
            lemma_wf_members(gp->Object_0@);
            assert(keys_unique(gp->Object_0@));
        }
        let raw = self.call("modelFieldsOnTemplates", Some(params), send);
        let ghost rv = outcome_view(&raw);
        let r = match raw {
            Ok(j) => decode_text_lists_by_name(&j),
            Err(e) => Err(e),
        };
        proof {
            lemma_decoded(
                s,
                self.url_text(),
                self.body_text("modelFieldsOnTemplates"@, Some(gp)),
                rv,
                |j: Json| as_text_lists_by_name(j),
                outcome_view(&r),
            );
            assert(object_of(gp, 1));
            assert(text_member(member_at(gp, 0), "modelName"@, model_name@));
            assert(dispatched(s, self.url_text(), self.body_text("modelFieldsOnTemplates"@, Some(gp)), |j: Json| as_text_lists_by_name(j), outcome_view(&r)));
        }
        r
    }

    /// Creates a note type with the given fields, style sheet and card
    /// templates (each a template name with its content; no two share a
    /// name), and returns the note type as received.
    pub fn create_model<F>(
        &self,
        model_name: &str,
        in_order_fields: &Vec<String>,
        css: &str,
        card_templates: &Vec<(String, String)>,
        send: F,
    ) -> (r: Result<Json, AnkiConnectError>)
        where
            F: FnOnce(String, String) -> Result<Json, String>,
        requires
            accepts_all(send),
            names_unique(card_templates@.map_values(|q: (String, String)| (q.0@, q.1@))),
        ensures
            exists|p: Json|
                {
                    &&& object_of(p, 4)
                    &&& text_member(member_at(p, 0), "modelName"@, model_name@)
                    &&& texts_member(
                        member_at(p, 1),
                        "inOrderFields"@,
                        in_order_fields@.map_values(|t: String| t@),
                    )
                    &&& text_member(member_at(p, 2), "css"@, css@)
                    &&& text_object_member(
                        member_at(p, 3),
                        "cardTemplates"@,
                        card_templates@.map_values(|q: (String, String)| (q.0@, q.1@)),
                    )
                    &&& dispatched(
                        send,
                        self.url_text(),
                        self.body_text("createModel"@, Some(p)),
                        |j: Json| Ok(j),
                        outcome_view(&r),
                    )
                },
    {
        let ghost s = send;
        let mut members: Vec<(String, Json)> = Vec::new();
        members.push(text_pair("modelName", model_name));
        members.push(texts_pair("inOrderFields", in_order_fields));
        members.push(text_pair("css", css));
        members.push(text_object_pair("cardTemplates", card_templates));
        let params = Json::Object(members);
        let ghost gp = params;
        proof {
            reveal_strlit("modelName");
            reveal_strlit("inOrderFields");
            reveal_strlit("css");
            reveal_strlit("cardTemplates");
            assert("modelName"@[0] != "inOrderFields"@[0]);
            assert("modelName"@ != "inOrderFields"@);
            assert("modelName"@[0] != "css"@[0]);
            assert("modelName"@ != "css"@);
            assert("modelName"@[0] != "cardTemplates"@[0]);
            assert("modelName"@ != "cardTemplates"@);
            assert("inOrderFields"@[0] != "css"@[0]);
            assert("inOrderFields"@ != "css"@);
            assert("inOrderFields"@[0] != "cardTemplates"@[0]);
            assert("inOrderFields"@ != "cardTemplates"@);
            assert("css"@[1] != "cardTemplates"@[1]);
            assert("css"@ != "cardTemplates"@);
            lemma_wf_members(gp->Object_0@);
            assert(keys_unique(gp->Object_0@));
        }
        let raw = self.call("createModel", Some(params), send);
        proof {
            assert(object_of(gp, 4));
            assert(text_member(member_at(gp, 0), "modelName"@, model_name@));
            assert(texts_member(member_at(gp, 1), "inOrderFields"@, in_order_fields@.map_values(|t: String| t@)));
            assert(text_member(member_at(gp, 2), "css"@, css@));
            assert(text_object_member(member_at(gp, 3), "cardTemplates"@, card_templates@.map_values(|q: (String, String)| (q.0@, q.1@))));
            assert(dispatched(s, self.url_text(), self.body_text("createModel"@, Some(gp)), |j: Json| Ok(j), outcome_view(&raw)));
        }
        raw
    }

    /// Suspends the given cards. `Ok(None)` is the reply that neither failed nor answered: the remote side sometimes sends `null` for both result and error.
    pub fn suspend<F>(&self, cards: &Vec<i64>, send: F) -> (r: Result<Option<bool>, AnkiConnectError>)
        where
            F: FnOnce(String, String) -> Result<Json, String>,
        requires
            accepts_all(send),
        ensures
            exists|p: Json|
                object_of(p, 1) && ints_member(member_at(p, 0), "cards"@, cards@) && dispatched(
                    send,
                    self.url_text(),
                    self.body_text("suspend"@, Some(p)),
                    |j: Json| as_maybe_bool(j),
                    outcome_view(&r),
                ),
    {
        let ghost s = send;
        let mut members: Vec<(String, Json)> = Vec::new();
        members.push(ints_pair("cards", cards));
        let params = Json::Object(members);
        let ghost gp = params;
        proof {
            reveal_strlit("cards");
            lemma_wf_members(gp->Object_0@);
            assert(keys_unique(gp->Object_0@));
        }
        let raw = self.call("suspend", Some(params), send);
        let ghost rv = outcome_view(&raw);
        let r = match raw {
            Ok(j) => decode_maybe_bool(&j),
            Err(e) => Err(e),
        };
        proof {
            lemma_decoded(
                s,
                self.url_text(),
                self.body_text("suspend"@, Some(gp)),
                rv,
                |j: Json| as_maybe_bool(j),
                outcome_view(&r),
            );
            assert(object_of(gp, 1));
            assert(ints_member(member_at(gp, 0), "cards"@, cards@));
            assert(dispatched(s, self.url_text(), self.body_text("suspend"@, Some(gp)), |j: Json| as_maybe_bool(j), outcome_view(&r)));
        }
        r
    }

    /// Unsuspends the given cards; `Ok(None)` as for `suspend`.
    pub fn unsuspend<F>(&self, cards: &Vec<i64>, send: F) -> (r: Result<Option<bool>, AnkiConnectError>)
        where
            F: FnOnce(String, String) -> Result<Json, String>,
        requires
            accepts_all(send),
        ensures
            exists|p: Json|
                object_of(p, 1) && ints_member(member_at(p, 0), "cards"@, cards@) && dispatched(
                    send,
                    self.url_text(),
                    self.body_text("unsuspend"@, Some(p)),
                    |j: Json| as_maybe_bool(j),
                    outcome_view(&r),
                ),
    {
        let ghost s = send;
        let mut members: Vec<(String, Json)> = Vec::new();
        members.push(ints_pair("cards", cards));
        let params = Json::Object(members);
        let ghost gp = params;
        proof {
            reveal_strlit("cards");
            lemma_wf_members(gp->Object_0@);
            assert(keys_unique(gp->Object_0@));
        }
        let raw = self.call("unsuspend", Some(params), send);
        let ghost rv = outcome_view(&raw);
        let r = match raw {
            Ok(j) => decode_maybe_bool(&j),
            Err(e) => Err(e),
        };
        proof {
            lemma_decoded(
                s,
                self.url_text(),
                self.body_text("unsuspend"@, Some(gp)),
                rv,
                |j: Json| as_maybe_bool(j),
                outcome_view(&r),
            );
            assert(object_of(gp, 1));
            assert(ints_member(member_at(gp, 0), "cards"@, cards@));
            assert(dispatched(s, self.url_text(), self.body_text("unsuspend"@, Some(gp)), |j: Json| as_maybe_bool(j), outcome_view(&r)));
        }
        r
    }

    /// Deletes a media file; a result other than `null` is a decode mismatch.
    pub fn delete_media_file<F>(&self, filename: &str, send: F) -> (r: Result<(), AnkiConnectError>)
        where
            F: FnOnce(String, String) -> Result<Json, String>,
        requires
            accepts_all(send),
        ensures
            exists|p: Json|
                object_of(p, 1) && text_member(member_at(p, 0), "filename"@, filename@) && dispatched(
                    send,
                    self.url_text(),
                    self.body_text("deleteMediaFile"@, Some(p)),
                    |j: Json| as_unit(j),
                    outcome_view(&r),
                ),
    {
        let ghost s = send;
        let mut members: Vec<(String, Json)> = Vec::new();
        members.push(text_pair("filename", filename));
        let params = Json::Object(members);
        let ghost gp = params;
        proof {
            reveal_strlit("filename");
            lemma_wf_members(gp->Object_0@);
            assert(keys_unique(gp->Object_0@));
        }
        let raw = self.call("deleteMediaFile", Some(params), send);
        let ghost rv = outcome_view(&raw);
        let r = match raw {
            Ok(j) => decode_unit(&j),
            Err(e) => Err(e),
        };
        proof {
            lemma_decoded(
                s,
                self.url_text(),
                self.body_text("deleteMediaFile"@, Some(gp)),
                rv,
                |j: Json| as_unit(j),
                outcome_view(&r),
            );
            assert(object_of(gp, 1));
            assert(text_member(member_at(gp, 0), "filename"@, filename@));
            assert(dispatched(s, self.url_text(), self.body_text("deleteMediaFile"@, Some(gp)), |j: Json| as_unit(j), outcome_view(&r)));
        }
        r
    }
}

} // verus!
