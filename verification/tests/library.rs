use murm::config::Config;
use murm::display::{key_label, short_key};
use murm::encoding::HexError;
use murm::event::event::{Event, Payload, MAX_EVENT_SIZE};
use murm::event::filters::EventFilter;
use murm::event::kinds;
use murm::event::profile::Profile;
use murm::event::tags;
use murm::identity::{Identity, IdentityError};
use murm::relay::{check_status, is_success, RelayClient, RelayError};
use sha2::{Digest, Sha256};

fn fixed_identity() -> Identity {
    Identity::from_secret_bytes(&[7u8; 32])
}

fn sample_event() -> Event {
    Event {
        pubkey: "ab".repeat(32),
        created_at: 1700000000,
        kind: kinds::COMMENT,
        tags: vec![tags::root("r1"), tags::parent("p1")],
        content: "say \"hi\"\n\u{1}\\ é".to_string(),
    }
}

#[test]
fn canonical_payload_escapes_strings() {
    let event = sample_event();
    let expected = format!(
        "[\"{}\",1700000000,2,[[\"root\",\"r1\"],[\"parent\",\"p1\"]],\"say \\\"hi\\\"\\n\\u0001\\\\ é\"]",
        "ab".repeat(32)
    );
    assert_eq!(event.canonical_payload(), expected);
}

#[test]
fn canonical_payload_of_zero_time_and_no_tags() {
    let event = Event {
        pubkey: "k".to_string(),
        created_at: 0,
        kind: 0,
        tags: vec![],
        content: String::new(),
    };
    assert_eq!(event.canonical_payload(), "[\"k\",0,0,[],\"\"]");
}

#[test]
fn id_is_sha256_hex_of_canonical_payload() {
    let event = sample_event();
    let expected = hex::encode(Sha256::digest(event.canonical_payload().as_bytes()));
    assert_eq!(event.id(), expected);
    assert_eq!(event.id().len(), 64);
}

#[test]
fn signed_payload_keeps_the_event() {
    let identity = fixed_identity();
    let mut event = sample_event();
    event.pubkey = identity.pubkey_hex();
    let payload = event.sign(&identity);
    assert_eq!(payload.id, event.id());
    assert_eq!(payload.pubkey, event.pubkey);
    assert_eq!(payload.created_at, event.created_at);
    assert_eq!(payload.kind, event.kind);
    assert_eq!(payload.tags, event.tags);
    assert_eq!(payload.content, event.content);
    assert_eq!(payload.sig.len(), 128);
    assert!(payload.id_valid());
    assert!(payload.verify());
    assert_eq!(payload.canonical_payload(), event.canonical_payload());
    let unsigned = payload.unsigned();
    assert_eq!(unsigned.id(), event.id());
}

#[test]
fn signature_is_over_raw_id_bytes() {
    let identity = fixed_identity();
    let event = Event::new(identity.pubkey_hex(), kinds::POST, vec![], "x".into()).expect("clock reads after the Unix epoch");
    let payload = event.sign(&identity);
    let id_bytes = hex::decode(&payload.id).unwrap();
    let sig: [u8; 64] = hex::decode(&payload.sig).unwrap().try_into().unwrap();
    assert_eq!(identity.verify(&id_bytes, &sig), Ok(()));
    assert_eq!(
        identity.verify(payload.id.as_bytes(), &sig),
        Err(IdentityError::InvalidSignature)
    );
}

#[test]
fn payload_signed_by_other_key_is_rejected() {
    let author = fixed_identity();
    let other = Identity::from_secret_bytes(&[9u8; 32]);
    let event = Event::new(author.pubkey_hex(), kinds::POST, vec![], "x".into()).expect("clock reads after the Unix epoch");
    let signed_by_other = event.sign(&other);
    assert!(signed_by_other.id_valid());
    assert!(!signed_by_other.verify());
    let signed = event.sign(&author);
    assert!(signed.verify_with(&author));
    assert!(!signed.verify_with(&other));
}

#[test]
fn malformed_hex_fields_are_rejected() {
    let identity = fixed_identity();
    let event = Event::new(identity.pubkey_hex(), kinds::POST, vec![], "x".into()).expect("clock reads after the Unix epoch");
    let payload = event.sign(&identity);
    let mut bad_sig = payload.clone();
    bad_sig.sig = "zz".repeat(64);
    assert!(!bad_sig.verify());
    let mut short_sig = payload.clone();
    short_sig.sig.truncate(126);
    assert!(!short_sig.verify());
    let mut bad_key = payload.clone();
    bad_key.pubkey = "00".repeat(31);
    assert!(!bad_key.verify());
}

#[test]
fn size_of_payload_json() {
    let payload = Payload {
        id: "i".to_string(),
        pubkey: "p".to_string(),
        created_at: 12,
        kind: 3,
        tags: vec![vec!["a".to_string(), "é".to_string()]],
        content: "c".to_string(),
        sig: "s".to_string(),
    };
    let json = "{\"id\":\"i\",\"pubkey\":\"p\",\"created_at\":12,\"kind\":3,\"tags\":[[\"a\",\"é\"]],\"content\":\"c\",\"sig\":\"s\"}";
    assert_eq!(payload.size_bytes(), json.len());
    assert!(payload.size_ok());
    let mut big = payload.clone();
    big.content = "x".repeat(MAX_EVENT_SIZE);
    assert!(!big.size_ok());
}

#[test]
fn identity_hex_roundtrip_and_errors() {
    let identity = fixed_identity();
    assert_eq!(identity.secret_hex(), "07".repeat(32));
    let again = Identity::from_secret_hex(&format!("  {}\n", identity.secret_hex())).unwrap();
    assert_eq!(again.pubkey_hex(), identity.pubkey_hex());
    assert_eq!(
        Identity::from_secret_hex(&"07".repeat(32).to_uppercase()).unwrap().pubkey_hex(),
        identity.pubkey_hex()
    );
    assert_eq!(
        Identity::from_secret_hex("zz").err(),
        Some(IdentityError::InvalidHex(HexError::InvalidHexCharacter { c: 'z', index: 0 }))
    );
    assert_eq!(
        Identity::from_secret_hex(" 0g1x ").err(),
        Some(IdentityError::InvalidHex(HexError::InvalidHexCharacter { c: 'g', index: 1 }))
    );
    assert_eq!(
        Identity::from_secret_hex("\u{e9}\u{e9}").err(),
        Some(IdentityError::InvalidHex(HexError::InvalidHexCharacter { c: '\u{c3}', index: 0 }))
    );
    assert_eq!(
        Identity::from_secret_hex("abc").err(),
        Some(IdentityError::InvalidHex(HexError::OddLength))
    );
    assert_eq!(
        Identity::from_secret_hex("\u{e9}0").err(),
        Some(IdentityError::InvalidHex(HexError::OddLength))
    );
    assert_eq!(Identity::from_secret_hex("abcd").err(), Some(IdentityError::WrongLength(2)));
    let key = identity.pubkey_hex();
    assert_eq!(key.len(), 64);
    assert!(key.chars().all(|c| c.is_ascii_hexdigit() && !c.is_ascii_uppercase()));
}

#[test]
fn identity_sign_and_verify() {
    let identity = fixed_identity();
    let sig = identity.sign(b"message");
    assert_eq!(identity.verify(b"message", &sig), Ok(()));
    assert_eq!(identity.verify(b"other", &sig), Err(IdentityError::InvalidSignature));
    let other = Identity::generate();
    assert_eq!(other.verify(b"message", &sig), Err(IdentityError::InvalidSignature));
}

#[test]
fn kind_names() {
    assert_eq!(kinds::name(kinds::PROFILE), Some("profile"));
    assert_eq!(kinds::name(kinds::POST), Some("post"));
    assert_eq!(kinds::name(kinds::COMMENT), Some("comment"));
    assert_eq!(kinds::name(kinds::REACTION), Some("reaction"));
    assert_eq!(kinds::name(4), None);
}

#[test]
fn tag_builders_and_find() {
    assert_eq!(tags::tag("a", "b"), vec!["a".to_string(), "b".to_string()]);
    assert_eq!(tags::root("x"), vec!["root".to_string(), "x".to_string()]);
    assert_eq!(tags::parent("x"), vec!["parent".to_string(), "x".to_string()]);
    assert_eq!(tags::target("x"), vec!["target".to_string(), "x".to_string()]);
    assert_eq!(tags::topic("x"), vec!["topic".to_string(), "x".to_string()]);
    assert_eq!(tags::lang("pt"), vec!["lang".to_string(), "pt".to_string()]);
    let list = vec![
        vec![],
        tags::topic("murm"),
        vec!["lang".to_string()],
        tags::lang("pt"),
        tags::topic("other"),
    ];
    assert_eq!(tags::find(&list, "topic"), Some("murm"));
    assert_eq!(tags::find(&list, "lang"), None);
    assert_eq!(tags::find(&list, "root"), None);
}

#[test]
fn filter_builders() {
    let f = EventFilter::new();
    assert!(f.ids.is_none() && f.authors.is_none() && f.kinds.is_none());
    assert!(f.tags.is_none() && f.since.is_none() && f.until.is_none());
    let f = f
        .ids(vec!["i".to_string()])
        .authors(vec!["a".to_string()])
        .kinds(vec![1, 2])
        .tags(vec![tags::topic("t")])
        .since(5)
        .until(9);
    assert_eq!(f.ids, Some(vec!["i".to_string()]));
    assert_eq!(f.authors, Some(vec!["a".to_string()]));
    assert_eq!(f.kinds, Some(vec![1, 2]));
    assert_eq!(f.tags, Some(vec![tags::topic("t")]));
    assert_eq!(f.since, Some(5));
    assert_eq!(f.until, Some(9));
}

#[test]
fn config_defaults() {
    let c = Config::default();
    assert_eq!(c.relay_url, "http://localhost:8080");
    assert_eq!(c.default_limit, 20);
    let c = Config::new("http://relay.example");
    assert_eq!(c.relay_url, "http://relay.example");
    assert_eq!(c.default_limit, 20);
}

#[test]
fn relay_urls_and_statuses() {
    let client = RelayClient::new("http://relay.example//");
    assert_eq!(client.url("/submit"), "http://relay.example/submit");
    assert_eq!(RelayClient::new("http://r").url("/scan"), "http://r/scan");
    assert!(is_success(200) && is_success(299));
    assert!(!is_success(199) && !is_success(300));
    assert!(check_status(204, String::new()).is_ok());
    let e = check_status(400, "bad".to_string()).unwrap_err();
    assert_eq!(e.message("Bad Request"), "relay 400 bad request: bad");
    let e = check_status(413, "big".to_string()).unwrap_err();
    assert_eq!(e.message(""), "relay 413 payload too large: big");
    let e = check_status(429, "slow".to_string()).unwrap_err();
    assert_eq!(e.message(""), "relay 429 rate limited: slow");
    let e = check_status(503, "down".to_string()).unwrap_err();
    assert!(matches!(e, RelayError::Status(503, _)));
    assert_eq!(e.message("Service Unavailable"), "relay returned 503 Service Unavailable: down");
}

#[test]
fn profile_json_and_form() {
    let p = Profile::new().name("X").about("Y \"q\"");
    assert_eq!(p.to_json(), "{\"name\":\"X\",\"about\":\"Y \\\"q\\\"\",\"picture\":null,\"nip05\":null}");
    assert_eq!(Profile::new().to_json(), "{\"name\":null,\"about\":null,\"picture\":null,\"nip05\":null}");
    let f = Profile::from_form("  Ana \n", "   ", "\u{3000}http://p\t");
    assert_eq!(f, Profile::new().name("Ana").picture("http://p"));
}

#[test]
fn profile_from_payload_returns_parse_only_when_valid() {
    let identity = fixed_identity();
    let profile = Profile::new().name("N");
    let payload = profile.sign(&identity).expect("clock reads after the Unix epoch");
    assert_eq!(Profile::from_payload(&payload, Some(profile.clone())), Some(profile.clone()));
    assert_eq!(Profile::from_payload(&payload, None), None);
    let mut wrong = payload.clone();
    wrong.kind = kinds::POST;
    assert_eq!(Profile::from_payload(&wrong, Some(profile)), None);
}

#[test]
fn short_keys() {
    let key = "0123456789abcdef0123456789abcdef";
    assert_eq!(short_key(key), "01234567...89abcdef");
    assert_eq!(key_label(key), "01234567...8");
    assert_eq!(short_key("short"), "short");
    assert_eq!(key_label("short"), "short");
    assert_eq!(short_key("0123456789abcdef"), "0123456789abcdef");
}

#[test]
fn events_at_a_given_time() {
    let event = Event::new_at("k".to_string(), 42, kinds::POST, vec![], "c".to_string());
    assert_eq!(event.created_at, 42);
    assert_eq!(event.canonical_payload(), "[\"k\",42,1,[],\"c\"]");
    let identity = fixed_identity();
    let profile = Profile::new().name("N");
    let at = profile.event_at(&identity, 7);
    assert_eq!(at.created_at, 7);
    assert_eq!(at.pubkey, identity.pubkey_hex());
    assert_eq!(at.kind, kinds::PROFILE);
    assert!(at.tags.is_empty());
    assert_eq!(at.content, profile.to_json());
    assert!(murm::clock::now().is_some());
    let now = Event::new("k".to_string(), 1, vec![], String::new()).expect("clock reads after the Unix epoch");
    assert!(now.created_at > 1_600_000_000);
}

#[test]
fn clones_keep_contents() {
    let event = sample_event();
    let copy = event.clone();
    assert_eq!(copy.canonical_payload(), event.canonical_payload());
    let filter = EventFilter::new().kinds(vec![1]).tags(vec![tags::topic("t")]).since(3);
    let filter_copy = filter.clone();
    assert_eq!(filter_copy.kinds, Some(vec![1]));
    assert_eq!(filter_copy.tags, Some(vec![tags::topic("t")]));
    assert_eq!(filter_copy.since, Some(3));
    let profile = Profile::new().name("A").nip05("a@b");
    assert_eq!(profile.clone(), profile);
    let e = check_status(429, "x".to_string()).unwrap_err();
    assert_eq!(e.clone().message(""), e.message(""));
}

#[test]
fn canonical_payload_spaces_only_inside_fields() {
    let event = Event::new_at("a b".to_string(), 1, kinds::POST, vec![tags::topic("x y")], "line\nbreak\ttab".to_string());
    let json = event.canonical_payload();
    assert!(!json.contains('\n'));
    assert!(!json.contains('\t'));
    assert_eq!(json.matches(' ').count(), 2);
}

#[test]
fn secret_hex_reads_back_with_whitespace() {
    let identity = Identity::generate();
    let text = format!(" \t{}\n", identity.secret_hex());
    let again = Identity::from_secret_hex(&text).unwrap();
    assert_eq!(again.secret_hex(), identity.secret_hex());
    assert!(again == identity);
}
