use murm::event::event::Event;
use murm::event::kinds;
use murm::event::profile::Profile;
use murm::identity::Identity;

/// Reads a profile from its JSON text, field by field.
fn parse_profile(content: &str) -> Option<Profile> {
    let value: serde_json::Value = serde_json::from_str(content).ok()?;
    let object = value.as_object()?;
    let field = |key: &str| -> Option<Option<String>> {
        match object.get(key) {
            None | Some(serde_json::Value::Null) => Some(None),
            Some(serde_json::Value::String(s)) => Some(Some(s.clone())),
            Some(_) => None,
        }
    };
    Some(Profile {
        name: field("name")?,
        about: field("about")?,
        picture: field("picture")?,
        nip05: field("nip05")?,
    })
}

fn read(payload: &murm::event::event::Payload) -> Option<Profile> {
    Profile::from_payload(payload, parse_profile(&payload.content))
}

#[test]
fn sign_profile_roundtrip() {
    let identity = Identity::generate();

    let profile = Profile::new()
        .name("Fulano")
        .about("Engenheiro de software")
        .picture("https://example.com/avatar.png")
        .nip05("fulano@murm.example");

    let payload = profile.sign(&identity).expect("clock reads after the Unix epoch");

    assert_eq!(payload.kind, kinds::PROFILE);
    assert!(payload.verify(), "perfil assinado deve ser válido");
    assert!(payload.verify_with(&identity));
    assert!(payload.size_ok());
}

#[test]
fn read_profile_from_payload() {
    let identity = Identity::generate();

    let profile = Profile::new()
        .name("Cicrana")
        .about("Designer")
        .picture("https://example.com/avatar2.png");

    let payload = profile.sign(&identity).expect("clock reads after the Unix epoch");

    let read = read(&payload).expect("payload válido deve virar um perfil");
    assert_eq!(read, profile);
}

#[test]
fn content_is_profile_json() {
    let identity = Identity::generate();
    let profile = Profile::new().name("X").about("Y");

    let event = profile.event(&identity).expect("clock reads after the Unix epoch");

    assert_eq!(event.content, profile.to_json());
    assert_eq!(event.kind, kinds::PROFILE);
}

#[test]
fn rejects_non_profile_kind() {
    let identity = Identity::generate();
    let post = Event::new(
        identity.pubkey_hex(),
        kinds::POST,
        vec![murm::event::tags::topic("murm")],
        "oi".to_string(),
    ).expect("clock reads after the Unix epoch")
    .sign(&identity);

    assert!(read(&post).is_none());
}

#[test]
fn rejects_tampered_profile() {
    let identity = Identity::generate();
    let profile = Profile::new().name("Original");

    let mut payload = profile.sign(&identity).expect("clock reads after the Unix epoch");
    payload.content = Profile::new().name("Hacker").to_json();

    assert!(read(&payload).is_none());
}

#[test]
fn empty_profile_roundtrip() {
    let identity = Identity::generate();
    let profile = Profile::new();

    let payload = profile.sign(&identity).expect("clock reads after the Unix epoch");
    let read = read(&payload).expect("vazio ainda é válido");

    assert_eq!(read, Profile::new());
}
