use murm::event::event::Event;
use murm::event::{kinds, tags};
use murm::identity::Identity;

#[test]
fn canonical_payload_is_compact() {
    let identity = Identity::generate();
    let event = Event::new(
        identity.pubkey_hex(),
        1,
        vec![tags::topic("murm")],
        "hello".into(),
    ).expect("clock reads after the Unix epoch");

    let json = event.canonical_payload();
    assert!(!json.contains(' '));
    assert!(!json.contains('\n'));
    assert_eq!(
        json,
        format!(
            "[\"{}\",{},1,[[\"topic\",\"murm\"]],\"hello\"]",
            event.pubkey, event.created_at
        )
    );
}

#[test]
fn sign_and_verify_roundtrip() {
    let identity = Identity::generate();
    let event = Event::new(identity.pubkey_hex(), kinds::POST, vec![], "hi".into()).expect("clock reads after the Unix epoch");

    let payload = event.sign(&identity);
    assert!(payload.verify());
    assert!(payload.verify_with(&identity));
    assert!(payload.size_ok());
}

#[test]
fn tampered_event_is_rejected() {
    let identity = Identity::generate();
    let event = Event::new(
        identity.pubkey_hex(),
        kinds::POST,
        vec![],
        "original".into(),
    ).expect("clock reads after the Unix epoch");

    let mut payload = event.sign(&identity);
    assert!(payload.verify());

    payload.content = "modified".into();
    assert!(!payload.verify());
    assert!(!payload.id_valid());
}

#[test]
fn id_changes_with_content() {
    let identity = Identity::generate();
    let a = Event::new(identity.pubkey_hex(), 1, vec![], "a".into()).expect("clock reads after the Unix epoch");
    let b = Event::new(identity.pubkey_hex(), 1, vec![], "b".into()).expect("clock reads after the Unix epoch");

    assert_ne!(a.id(), b.id());
}
