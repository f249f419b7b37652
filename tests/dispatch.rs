use anki_connect::decode::{decode_i64, decode_id_lists_by_name, decode_ids_by_name, decode_texts};
use anki_connect::envelope::{finish, read_reply, request_body};
use anki_connect::json::{distinct_keys, is_wellformed, to_text};
use anki_connect::{AnkiConnectClient, ApiVersion, ErrorKind, Json};

fn text(s: &str) -> Json {
    Json::Str(s.to_string())
}

fn envelope(result: Json, error: Json) -> Json {
    Json::Object(vec![("result".to_string(), result), ("error".to_string(), error)])
}

fn client() -> AnkiConnectClient {
    AnkiConnectClient::new("localhost", 8765)
}

#[test]
fn version_returns_six() {
    let mut seen: Option<(String, String)> = None;
    let r = client().version(|u, b| {
        seen = Some((u, b));
        Ok(envelope(Json::Int(6), Json::Null))
    });
    assert_eq!(r.unwrap(), 6);
    let (u, b) = seen.unwrap();
    assert_eq!(u, "http://localhost:8765/");
    assert_eq!(b, r#"{"action":"version","version":6}"#);
}

#[test]
fn parameterless_request_omits_params() {
    let body = request_body("deckNames", 6, &None);
    assert_eq!(body, r#"{"action":"deckNames","version":6}"#);
    assert!(!body.contains("params"));
    let null_params = request_body("deckNames", 6, &Some(Json::Null));
    assert_eq!(null_params, r#"{"action":"deckNames","version":6,"params":null}"#);
}

#[test]
fn params_are_sent_verbatim() {
    let p = Json::Object(vec![
        ("cards".to_string(), Json::Array(vec![Json::Int(1), Json::Int(-2)])),
        ("deck".to_string(), text("a\"b")),
        ("flag".to_string(), Json::Bool(false)),
        ("none".to_string(), Json::Null),
    ]);
    let body = request_body("changeDeck", 6, &Some(p));
    assert_eq!(
        body,
        r#"{"action":"changeDeck","version":6,"params":{"cards":[1,-2],"deck":"a\"b","flag":false,"none":null}}"#
    );
}

#[test]
fn json_text_escapes_and_numbers() {
    let j = Json::Array(vec![text("line\nbreak"), Json::Int(-42), Json::Num("2.5".to_string()), Json::Array(vec![])]);
    assert_eq!(to_text(&j), r#"["line\nbreak",-42,2.5,[]]"#);
    assert_eq!(to_text(&Json::Object(vec![])), "{}");
    assert_eq!(to_text(&Json::Int(i64::MIN)), "-9223372036854775808");
}

#[test]
fn same_configuration_same_request() {
    let a = AnkiConnectClient::with_version("host", 1, ApiVersion::V(6));
    let b = AnkiConnectClient::new("host", 1);
    let p = Some(Json::Object(vec![("name".to_string(), text("Default"))]));
    assert_eq!(a.request("loadProfile", &p), b.request("loadProfile", &p));
    assert_eq!(a.url(), b.url());
}

#[test]
fn version_override_is_announced() {
    let c = AnkiConnectClient::with_version("127.0.0.1", 9000, ApiVersion::V(5));
    assert_eq!(c.request("sync", &None), r#"{"action":"sync","version":5}"#);
    assert_eq!(c.url(), "http://127.0.0.1:9000/");
}

#[test]
fn sync_accepts_only_null() {
    assert!(client().sync(|_, _| Ok(envelope(Json::Null, Json::Null))).is_ok());
    let e = client().sync(|_, _| Ok(envelope(Json::Int(42), Json::Null))).unwrap_err();
    assert_eq!(e.kind, ErrorKind::Decode);
}

#[test]
fn load_profile_returns_true() {
    let mut sent = String::new();
    let r = client().load_profile("Default", |_, b| {
        sent = b;
        Ok(envelope(Json::Bool(true), Json::Null))
    });
    assert_eq!(r.unwrap(), true);
    assert_eq!(sent, r#"{"action":"loadProfile","version":6,"params":{"name":"Default"}}"#);
}

#[test]
fn deck_names_keep_order() {
    let r = client().deck_names(|_, _| Ok(envelope(Json::Array(vec![text("Default"), text("Spanish")]), Json::Null)));
    assert_eq!(r.unwrap(), vec!["Default".to_string(), "Spanish".to_string()]);
}

#[test]
fn suspend_null_null_is_unknown() {
    let mut sent = String::new();
    let r = client().suspend(&vec![999999], |_, b| {
        sent = b;
        Ok(envelope(Json::Null, Json::Null))
    });
    assert_eq!(r.unwrap(), None);
    assert_eq!(sent, r#"{"action":"suspend","version":6,"params":{"cards":[999999]}}"#);
    let r = client().unsuspend(&vec![1], |_, _| Ok(envelope(Json::Bool(false), Json::Null)));
    assert_eq!(r.unwrap(), Some(false));
}

#[test]
fn unreachable_host_is_a_transport_fault() {
    let c = AnkiConnectClient::new("127.0.0.1", 1);
    let e = c
        .version(|u, b| {
            let http = reqwest::blocking::Client::new();
            match http.post(u.as_str()).body(b).send() {
                Ok(_) => Err("unexpected answer".to_string()),
                Err(e) => Err(e.to_string()),
            }
        })
        .unwrap_err();
    assert_eq!(e.kind, ErrorKind::Transport);
    assert_ne!(e.kind, ErrorKind::Remote);
}

#[test]
fn transport_message_is_kept() {
    let e = finish(Err("connection refused".to_string())).unwrap_err();
    assert_eq!(e.kind, ErrorKind::Transport);
    assert_eq!(e.error_msg, "connection refused");
}

#[test]
fn remote_error_wins_over_result() {
    let e = read_reply(envelope(Json::Int(6), text("X"))).unwrap_err();
    assert_eq!(e.kind, ErrorKind::Remote);
    assert_eq!(e.error_msg, "X");
    assert_eq!(e.message(), "AnkiConnect error message: X");
    let e = client().deck_names(|_, _| Ok(envelope(Json::Array(vec![]), text("deck missing")))).unwrap_err();
    assert_eq!(e.error_msg, "deck missing");
}

#[test]
fn round_trip_of_result() {
    let r = read_reply(envelope(Json::Array(vec![Json::Int(1)]), Json::Null)).unwrap();
    assert_eq!(to_text(&r), "[1]");
    let missing_error = Json::Object(vec![("result".to_string(), Json::Int(3))]);
    assert_eq!(decode_i64(&read_reply(missing_error).unwrap()).unwrap(), 3);
}

#[test]
fn empty_error_string_is_success() {
    let r = client().version(|_, _| Ok(envelope(Json::Int(7), text(""))));
    assert_eq!(r.unwrap(), 7);
}

#[test]
fn malformed_envelopes_are_transport_faults() {
    assert_eq!(read_reply(Json::Int(1)).unwrap_err().kind, ErrorKind::Transport);
    let bad_error = envelope(Json::Null, Json::Int(3));
    assert_eq!(read_reply(bad_error).unwrap_err().kind, ErrorKind::Transport);
    let missing_result = Json::Object(vec![("error".to_string(), Json::Null)]);
    let e = client().sync(|_, _| Ok(missing_result)).unwrap_err();
    assert_eq!(e.kind, ErrorKind::Transport);
    assert_eq!(read_reply(Json::Object(vec![])).unwrap_err().kind, ErrorKind::Transport);
}

#[test]
fn decode_mismatch_names_shape() {
    let e = client().version(|_, _| Ok(envelope(text("six"), Json::Null))).unwrap_err();
    assert_eq!(e.kind, ErrorKind::Decode);
    assert_eq!(e.error_msg, "result is not an integer");
    assert!(decode_texts(&Json::Array(vec![text("a"), Json::Int(1)])).is_err());
}

#[test]
fn names_and_ids_keep_pairs() {
    let obj = Json::Object(vec![("Default".to_string(), Json::Int(1)), ("Spanish".to_string(), Json::Int(1500))]);
    let r = decode_ids_by_name(&obj).unwrap();
    assert_eq!(r, vec![("Default".to_string(), 1), ("Spanish".to_string(), 1500)]);
    let r = client().model_names_and_ids(|_, _| Ok(envelope(obj, Json::Null))).unwrap();
    assert_eq!(r.len(), 2);
    assert!(decode_ids_by_name(&Json::Array(vec![])).is_err());
}

#[test]
fn get_decks_groups_cards() {
    let obj = Json::Object(vec![("Default".to_string(), Json::Array(vec![Json::Int(1), Json::Int(2)]))]);
    assert_eq!(decode_id_lists_by_name(&obj).unwrap(), vec![("Default".to_string(), vec![1, 2])]);
    let mut sent = String::new();
    let r = client().get_decks(&vec![1, 2], |_, b| {
        sent = b;
        Ok(envelope(obj, Json::Null))
    });
    assert_eq!(r.unwrap()[0].1, vec![1, 2]);
    assert_eq!(sent, r#"{"action":"getDecks","version":6,"params":{"cards":[1,2]}}"#);
}

#[test]
fn delete_decks_sends_names_and_flag() {
    let mut sent = String::new();
    let r = client().delete_decks(&vec!["A".to_string(), "B".to_string()], true, |_, b| {
        sent = b;
        Ok(envelope(Json::Null, Json::Null))
    });
    assert!(r.is_ok());
    assert_eq!(sent, r#"{"action":"deleteDecks","version":6,"params":{"decks":["A","B"],"cardsToo":true}}"#);
}

#[test]
fn deck_config_passes_through() {
    let cfg = Json::Object(vec![("id".to_string(), Json::Int(1)), ("name".to_string(), text("Default"))]);
    let r = client().get_deck_config("Default", |_, _| Ok(envelope(cfg, Json::Null))).unwrap();
    assert_eq!(to_text(&r), r#"{"id":1,"name":"Default"}"#);
    let mut sent = String::new();
    let saved = client().save_deck_config(r, |_, b| {
        sent = b;
        Ok(envelope(Json::Bool(true), Json::Null))
    });
    assert!(saved.unwrap());
    assert_eq!(sent, r#"{"action":"saveDeckConfig","version":6,"params":{"config":{"id":1,"name":"Default"}}}"#);
}

#[test]
fn deck_config_ids() {
    let mut sent = String::new();
    let r = client().set_deck_config_id(&vec!["Default".to_string()], 1, |_, b| {
        sent = b;
        Ok(envelope(Json::Bool(true), Json::Null))
    });
    assert!(r.unwrap());
    assert_eq!(sent, r#"{"action":"setDeckConfigId","version":6,"params":{"decks":["Default"],"configId":1}}"#);
    let r = client().remove_deck_config_id(7, |_, _| Ok(envelope(Json::Bool(false), Json::Null)));
    assert!(!r.unwrap());
}

#[test]
fn decks_and_media() {
    let id = client().create_deck("Japanese", |_, _| Ok(envelope(Json::Int(1519323742721), Json::Null)));
    assert_eq!(id.unwrap(), 1519323742721);
    let moved = client().change_deck(&vec![3], "Japanese", |_, _| Ok(envelope(Json::Null, Json::Null)));
    assert!(moved.is_ok());
    let gone = client().delete_media_file("a.jpg", |_, _| Ok(envelope(text("no"), Json::Null)));
    assert_eq!(gone.unwrap_err().kind, ErrorKind::Decode);
}

#[test]
fn models_and_misc() {
    let names = client().model_names(|_, _| Ok(envelope(Json::Array(vec![text("Basic")]), Json::Null)));
    assert_eq!(names.unwrap(), vec!["Basic".to_string()]);
    let fields = client().model_field_names("Basic", |_, _| Ok(envelope(Json::Array(vec![text("Front"), text("Back")]), Json::Null)));
    assert_eq!(fields.unwrap(), vec!["Front".to_string(), "Back".to_string()]);
    let ids = client().deck_names_and_ids(|_, _| Ok(envelope(Json::Object(vec![]), Json::Null)));
    assert!(ids.unwrap().is_empty());
    assert!(client().upgrade(|_, _| Ok(envelope(Json::Bool(true), Json::Null))).unwrap());
}

#[test]
fn api_version_defaults_to_six() {
    assert_eq!(ApiVersion::default().to_i64(), 6);
    assert_eq!(ApiVersion::V(4).to_i64(), 4);
    let e = anki_connect::AnkiConnectError::new(ErrorKind::Remote, "m".to_string());
    assert_eq!(e.description(), "error returned by AnkiConnect");
}

#[test]
fn create_model_sends_all_parts() {
    let mut sent = String::new();
    let fields = vec!["Front".to_string(), "Back".to_string()];
    let templates = vec![("Card 1".to_string(), "{{Front}}".to_string())];
    let r = client().create_model("Mine", &fields, ".card {}", &templates, |_, b| {
        sent = b;
        Ok(envelope(Json::Object(vec![("id".to_string(), Json::Int(9))]), Json::Null))
    });
    assert_eq!(to_text(&r.unwrap()), r#"{"id":9}"#);
    assert_eq!(
        sent,
        r#"{"action":"createModel","version":6,"params":{"modelName":"Mine","inOrderFields":["Front","Back"],"css":".card {}","cardTemplates":{"Card 1":"{{Front}}"}}}"#
    );
}

#[test]
fn fields_on_templates_keep_structure() {
    let sides = Json::Array(vec![Json::Array(vec![text("Front")]), Json::Array(vec![text("Back")])]);
    let obj = Json::Object(vec![("Card 1".to_string(), sides)]);
    let r = client().model_fields_on_templates("Basic", |_, _| Ok(envelope(obj, Json::Null))).unwrap();
    assert_eq!(r, vec![("Card 1".to_string(), vec![vec!["Front".to_string()], vec!["Back".to_string()]])]);
    let bad = Json::Object(vec![("Card 1".to_string(), Json::Array(vec![text("Front")]))]);
    let e = client().model_fields_on_templates("Basic", |_, _| Ok(envelope(bad, Json::Null))).unwrap_err();
    assert_eq!(e.kind, ErrorKind::Decode);
}

#[test]
fn wellformed_values() {
    assert!(is_wellformed(&Json::Num("2.5".to_string())));
    assert!(is_wellformed(&Json::Num("-1e3".to_string())));
    assert!(!is_wellformed(&Json::Num("1,\"x\":2".to_string())));
    assert!(!is_wellformed(&Json::Num("two".to_string())));
    let nested = Json::Array(vec![Json::Object(vec![("a".to_string(), Json::Num("0.5".to_string()))])]);
    assert!(is_wellformed(&nested));
    let repeated = vec![("a".to_string(), Json::Null), ("b".to_string(), Json::Null), ("a".to_string(), Json::Int(1))];
    assert!(!distinct_keys(&repeated));
    assert!(!is_wellformed(&Json::Array(vec![Json::Null, Json::Object(repeated)])));
    assert!(is_wellformed(&Json::Object(vec![("a".to_string(), Json::Null), ("b".to_string(), text("x"))])));
}

#[test]
fn repeated_names_are_a_decode_mismatch() {
    let obj = Json::Object(vec![("Default".to_string(), Json::Int(1)), ("Default".to_string(), Json::Int(2))]);
    let e = decode_ids_by_name(&obj).unwrap_err();
    assert_eq!(e.kind, ErrorKind::Decode);
    assert_eq!(e.error_msg, "result is not an object of integers");
    let lists = Json::Object(vec![("A".to_string(), Json::Array(vec![])), ("A".to_string(), Json::Array(vec![]))]);
    assert!(decode_id_lists_by_name(&lists).is_err());
}

#[test]
fn explicit_null_params_are_sent() {
    let c = client();
    let mut sent = String::new();
    let r = c.call("sync", Some(Json::Null), |_, b| {
        sent = b;
        Ok(envelope(Json::Null, Json::Null))
    });
    assert!(r.is_ok());
    assert_eq!(sent, r#"{"action":"sync","version":6,"params":null}"#);
}
