//! Events (MIP-01), their canonical payload, id and signature (MIP-02).
use crate::clock::now;
use crate::crypto::{
    ed25519_accepts, ed25519_key_decodes, ed25519_signature, ed25519_verify, sha256, sha256_digest,
};
use crate::encoding::{
    bytes32, bytes64, decimal, hex_decode, hex_decode_bytes, hex_encode, hex_lower,
    json_nested_array, json_string, lemma_contains_concat, lemma_decimal_chars,
    lemma_decimal_then_comma, lemma_json_nested_array_chars, lemma_json_nested_array_prefix,
    lemma_json_string_chars, lemma_json_string_prefix, nested_strings_view, push_decimal,
    push_json_nested_array, push_json_string, some_text_has,
};
use crate::identity::Identity;
use crate::text::clone_nested_strings;
use vstd::prelude::*;
use vstd::string::*;
use vstd::utf8::*;

verus! {

/// MIP-01: the serialized event JSON must not exceed 2 MiB.
pub const MAX_EVENT_SIZE: usize = 2 * 1024 * 1024;

/// Unsigned event data, from which the canonical payload is computed.
#[derive(Debug)]
pub struct Event {
    pub pubkey: String,
    pub created_at: u64,
    pub kind: u32,
    pub tags: Vec<Vec<String>>,
    pub content: String,
}

/// A signed event ready to be published, in the MIP-01 event shape.
#[derive(Debug)]
pub struct Payload {
    pub id: String,
    pub pubkey: String,
    pub created_at: u64,
    pub kind: u32,
    pub tags: Vec<Vec<String>>,
    pub content: String,
    pub sig: String,
}

/// The contents of an event.
pub struct EventModel {
    pub pubkey: Seq<char>,
    pub created_at: u64,
    pub kind: u32,
    pub tags: Seq<Seq<Seq<char>>>,
    pub content: Seq<char>,
}

/// The contents of a signed event.
pub struct PayloadModel {
    pub id: Seq<char>,
    pub pubkey: Seq<char>,
    pub created_at: u64,
    pub kind: u32,
    pub tags: Seq<Seq<Seq<char>>>,
    pub content: Seq<char>,
    pub sig: Seq<char>,
}

impl View for Event {
    type V = EventModel;

    open spec fn view(&self) -> EventModel {
        EventModel {
            pubkey: self.pubkey@,
            created_at: self.created_at,
            kind: self.kind,
            tags: nested_strings_view(self.tags@),
            content: self.content@,
        }
    }
}

impl Clone for Event {
    /// A copy of the event.
    fn clone(&self) -> (res: Self)
        ensures
            res@ == self@,
    {
        Event {
            pubkey: self.pubkey.clone(),
            created_at: self.created_at,
            kind: self.kind,
            tags: clone_nested_strings(&self.tags),
            content: self.content.clone(),
        }
    }
}

impl View for Payload {
    type V = PayloadModel;

    open spec fn view(&self) -> PayloadModel {
        PayloadModel {
            id: self.id@,
            pubkey: self.pubkey@,
            created_at: self.created_at,
            kind: self.kind,
            tags: nested_strings_view(self.tags@),
            content: self.content@,
            sig: self.sig@,
        }
    }
}

impl Clone for Payload {
    /// A copy of the signed event.
    fn clone(&self) -> (res: Self)
        ensures
            res@ == self@,
    {
        Payload {
            id: self.id.clone(),
            pubkey: self.pubkey.clone(),
            created_at: self.created_at,
            kind: self.kind,
            tags: clone_nested_strings(&self.tags),
            content: self.content.clone(),
            sig: self.sig.clone(),
        }
    }
}

/// The contents of a vector of signed events.
pub open spec fn payloads_view(v: Seq<Payload>) -> Seq<PayloadModel> {
    v.map_values(|p: Payload| p@)
}

/// A copy of a vector of signed events.
pub fn clone_payloads(v: &Vec<Payload>) -> (res: Vec<Payload>)
    ensures
        payloads_view(res@) == payloads_view(v@),
{
    let mut res: Vec<Payload> = Vec::new();
    let n = v.len();
    for i in 0..n
        invariant
            n == v.len(),
            res@.len() == i,
            forall|k: int| 0 <= k < i ==> (#[trigger] res@[k])@ == v@[k]@,
    {
        res.push(v[i].clone());
    }
    assert(payloads_view(res@) =~= payloads_view(v@));
    res
}

/// MIP-02 canonical payload: the compact JSON array
/// `[pubkey, created_at, kind, tags, content]`.
pub open spec fn canonical_payload_of(e: EventModel) -> Seq<char> {
    seq!['['] + json_string(e.pubkey) + seq![','] + decimal(e.created_at as nat) + seq![','] + decimal(
        e.kind as nat,
    ) + seq![','] + json_nested_array(e.tags) + seq![','] + json_string(e.content) + seq![']']
}

/// The SHA-256 digest of the canonical payload's UTF-8 bytes.
pub open spec fn event_digest(e: EventModel) -> Seq<u8> {
    sha256_digest(encode_utf8(canonical_payload_of(e)))
}

/// MIP-02 event id: lowercase hex of the digest.
pub open spec fn event_id_of(e: EventModel) -> Seq<char> {
    hex_lower(event_digest(e))
}

/// The event inside a signed event.
pub open spec fn unsigned_of(p: PayloadModel) -> EventModel {
    EventModel {
        pubkey: p.pubkey,
        created_at: p.created_at,
        kind: p.kind,
        tags: p.tags,
        content: p.content,
    }
}

/// The signed event made from an event with a secret key: the id, and the
/// hex signature over the 32 raw digest bytes (not their hex form).
pub open spec fn signed_payload_of(e: EventModel, secret: Seq<u8>) -> PayloadModel {
    PayloadModel {
        id: event_id_of(e),
        pubkey: e.pubkey,
        created_at: e.created_at,
        kind: e.kind,
        tags: e.tags,
        content: e.content,
        sig: hex_lower(ed25519_signature(secret, event_digest(e))),
    }
}

/// MIP-02 validation: the id is the recomputed id, and the hex id (32 bytes),
/// public key (32 bytes) and signature (64 bytes) decode, the key is a valid
/// Ed25519 key and the signature over the id bytes is accepted.
pub open spec fn payload_verifies(p: PayloadModel) -> bool {
    &&& event_id_of(unsigned_of(p)) == p.id
    &&& match (
        hex_decode_bytes(encode_utf8(p.id)),
        hex_decode_bytes(encode_utf8(p.pubkey)),
        hex_decode_bytes(encode_utf8(p.sig)),
    ) {
        (Some(id), Some(pk), Some(sig)) => {
            &&& id.len() == 32
            &&& pk.len() == 32
            &&& sig.len() == 64
            &&& ed25519_key_decodes(pk)
            &&& ed25519_accepts(pk, id, sig)
        },
        _ => false,
    }
}

/// The JSON object of a signed event, fields in declaration order, as
/// serde_json writes it.
pub open spec fn payload_json_of(p: PayloadModel) -> Seq<char> {
    "{\"id\":"@ + json_string(p.id) + ",\"pubkey\":"@ + json_string(p.pubkey) + ",\"created_at\":"@
        + decimal(p.created_at as nat) + ",\"kind\":"@ + decimal(p.kind as nat) + ",\"tags\":"@
        + json_nested_array(p.tags) + ",\"content\":"@ + json_string(p.content) + ",\"sig\":"@
        + json_string(p.sig) + "}"@
}

/// The canonical payload after the tags: `,content]`.
spec fn canonical_after_tags(e: EventModel) -> Seq<char> {
    seq![','] + json_string(e.content) + seq![']']
}

/// The canonical payload after the kind's comma.
spec fn canonical_after_kind(e: EventModel) -> Seq<char> {
    json_nested_array(e.tags) + canonical_after_tags(e)
}

/// The canonical payload after the time's comma.
spec fn canonical_after_time(e: EventModel) -> Seq<char> {
    decimal(e.kind as nat) + seq![','] + canonical_after_kind(e)
}

/// The canonical payload after the public key.
spec fn canonical_after_pubkey(e: EventModel) -> Seq<char> {
    seq![','] + decimal(e.created_at as nat) + seq![','] + canonical_after_time(e)
}

proof fn lemma_canonical_parts(e: EventModel)
    ensures
        canonical_payload_of(e).drop_first() == json_string(e.pubkey) + canonical_after_pubkey(e),
        canonical_after_pubkey(e).drop_first() == decimal(e.created_at as nat) + seq![',']
            + canonical_after_time(e),
        canonical_after_tags(e).drop_first() == json_string(e.content) + seq![']'],
{
    let p = json_string(e.pubkey);
    let t = decimal(e.created_at as nat);
    let k = decimal(e.kind as nat);
    let g = json_nested_array(e.tags);
    let c = json_string(e.content);
    assert(canonical_payload_of(e) == seq!['['] + p + seq![','] + t + seq![','] + k + seq![','] + g
        + seq![','] + c + seq![']']);
    assert(canonical_payload_of(e).drop_first() =~= json_string(e.pubkey) + canonical_after_pubkey(e));
    assert(canonical_after_pubkey(e).drop_first() =~= t + seq![','] + canonical_after_time(e));
    assert(canonical_after_tags(e).drop_first() =~= c + seq![']']);
}

/// The canonical payload determines the event: events that differ in any
/// field have different canonical payloads, so their ids differ unless
/// SHA-256 collides.
pub proof fn lemma_canonical_payload_injective(a: EventModel, b: EventModel)
    requires
        canonical_payload_of(a) == canonical_payload_of(b),
    ensures
        a == b,
{
    lemma_canonical_parts(a);
    lemma_canonical_parts(b);
    lemma_json_string_prefix(a.pubkey, b.pubkey, canonical_after_pubkey(a), canonical_after_pubkey(b));
    lemma_decimal_then_comma(
        a.created_at as nat,
        b.created_at as nat,
        canonical_after_time(a),
        canonical_after_time(b),
    );
    lemma_decimal_then_comma(a.kind as nat, b.kind as nat, canonical_after_kind(a), canonical_after_kind(b));
    lemma_json_nested_array_prefix(a.tags, b.tags, canonical_after_tags(a), canonical_after_tags(b));
    lemma_json_string_prefix(a.content, b.content, seq![']'], seq![']']);
}

/// The canonical payload is compact: it holds no control char (so no raw
/// newline or tab), and a space only where the pubkey, a tag or the content
/// holds one.
pub proof fn lemma_canonical_payload_compact(e: EventModel, c: char)
    requires
        canonical_payload_of(e).contains(c),
    ensures
        c as u32 >= 0x20,
        c == ' ' ==> e.pubkey.contains(' ') || e.content.contains(' ') || exists|i: int|
            0 <= i < e.tags.len() && some_text_has(#[trigger] e.tags[i], ' '),
{
    let p = json_string(e.pubkey);
    let t = decimal(e.created_at as nat);
    let k = decimal(e.kind as nat);
    let g = json_nested_array(e.tags);
    let q = json_string(e.content);
    let comma = seq![','];
    let s1 = seq!['['] + p;
    let s2 = s1 + comma + t;
    let s3 = s2 + comma + k;
    let s4 = s3 + comma + g;
    let s5 = s4 + comma + q;
    assert(canonical_payload_of(e) == s5 + seq![']']);
    lemma_contains_concat(s5, seq![']'], c);
    if s5.contains(c) {
        lemma_contains_concat(s4 + comma, q, c);
        if q.contains(c) {
            lemma_json_string_chars(e.content, c);
        } else {
            lemma_contains_concat(s4, comma, c);
        }
    }
    if s4.contains(c) {
        lemma_contains_concat(s3 + comma, g, c);
        if g.contains(c) {
            lemma_json_nested_array_chars(e.tags, c);
        } else {
            lemma_contains_concat(s3, comma, c);
        }
    }
    if s3.contains(c) {
        lemma_contains_concat(s2 + comma, k, c);
        if k.contains(c) {
            lemma_decimal_chars(e.kind as nat, c);
        } else {
            lemma_contains_concat(s2, comma, c);
        }
    }
    if s2.contains(c) {
        lemma_contains_concat(s1 + comma, t, c);
        if t.contains(c) {
            lemma_decimal_chars(e.created_at as nat, c);
        } else {
            lemma_contains_concat(s1, comma, c);
        }
    }
    if s1.contains(c) {
        lemma_contains_concat(seq!['['], p, c);
        if p.contains(c) {
            lemma_json_string_chars(e.pubkey, c);
        }
    }
}

/// A payload passes validation only if, whatever its kind, its hex id,
/// public key and signature decode, the id is the digest of its canonical
/// payload, and Ed25519 accepts the signature over the raw id bytes under
/// that public key.
pub proof fn lemma_verified_signature_accepted(p: PayloadModel)
    requires
        payload_verifies(p),
    ensures
        exists|pk: Seq<u8>, id: Seq<u8>, sig: Seq<u8>|
            {
                &&& hex_decode_bytes(encode_utf8(p.pubkey)) == Some(pk)
                &&& hex_decode_bytes(encode_utf8(p.id)) == Some(id)
                &&& hex_decode_bytes(encode_utf8(p.sig)) == Some(sig)
                &&& id == sha256_digest(encode_utf8(canonical_payload_of(unsigned_of(p))))
                &&& #[trigger] ed25519_accepts(pk, id, sig)
            },
{
    let pk = hex_decode_bytes(encode_utf8(p.pubkey))->0;
    let id = hex_decode_bytes(encode_utf8(p.id))->0;
    let sig = hex_decode_bytes(encode_utf8(p.sig))->0;
    let d = event_digest(unsigned_of(p));
    crate::encoding::lemma_hex_roundtrip(d);
    assert(ed25519_accepts(pk, id, sig));
}

/// A signed payload with its event fields replaced (its id and signature
/// kept): what a relay could serve after tampering with an event.
pub open spec fn with_event(p: PayloadModel, e: EventModel) -> PayloadModel {
    PayloadModel {
        id: p.id,
        pubkey: e.pubkey,
        created_at: e.created_at,
        kind: e.kind,
        tags: e.tags,
        content: e.content,
        sig: p.sig,
    }
}

/// A signed event whose fields were changed passes validation only if
/// SHA-256 maps the two different canonical payloads to the same digest.
pub proof fn lemma_tampering_needs_collision(e: EventModel, changed: EventModel, secret: Seq<u8>)
    requires
        e != changed,
        payload_verifies(with_event(signed_payload_of(e, secret), changed)),
    ensures
        encode_utf8(canonical_payload_of(e)) != encode_utf8(canonical_payload_of(changed)),
        sha256_digest(encode_utf8(canonical_payload_of(e))) == sha256_digest(
            encode_utf8(canonical_payload_of(changed)),
        ),
{
    let d1 = event_digest(e);
    let d2 = event_digest(changed);
    assert(unsigned_of(with_event(signed_payload_of(e, secret), changed)) == changed);
    assert(hex_lower(d1) == hex_lower(d2));
    crate::encoding::lemma_hex_roundtrip(d1);
    crate::encoding::lemma_hex_roundtrip(d2);
    if canonical_payload_of(e) == canonical_payload_of(changed) {
        lemma_canonical_payload_injective(e, changed);
    }
    vstd::utf8::encode_utf8_decode_utf8(canonical_payload_of(e));
    vstd::utf8::encode_utf8_decode_utf8(canonical_payload_of(changed));
}

/// The canonical payload text of the event's fields.
fn canonical_text(pubkey: &String, created_at: u64, kind: u32, tags: &Vec<Vec<String>>, content: &String) -> (res: String)
    ensures
        res@ == canonical_payload_of(
            EventModel {
                pubkey: pubkey@,
                created_at,
                kind,
                tags: nested_strings_view(tags@),
                content: content@,
            },
        ),
{
    let mut out = String::new();
    out.push('[');
    push_json_string(&mut out, pubkey.as_str());
    out.push(',');
    push_decimal(&mut out, created_at);
    out.push(',');
    push_decimal(&mut out, kind as u64);
    out.push(',');
    push_json_nested_array(&mut out, tags);
    out.push(',');
    push_json_string(&mut out, content.as_str());
    out.push(']');
    out
}

/// The id text of a canonical payload: hex of its SHA-256 digest.
fn id_of_text(canonical: &String) -> (res: String)
    ensures
        res@ == hex_lower(sha256_digest(encode_utf8(canonical@))),
        sha256_digest(encode_utf8(canonical@)).len() == 32,
{
    let digest = sha256(canonical.as_str().as_bytes());
    hex_encode(digest.as_slice())
}

impl Event {
    /// An unsigned event stamped with the current Unix time; `None` when the
    /// system clock reads before the Unix epoch.
    pub fn new(pubkey: String, kind: u32, tags: Vec<Vec<String>>, content: String) -> (res: Option<Self>)
        ensures
            match res {
                Some(e) => {
                    &&& e.pubkey == pubkey
                    &&& e.kind == kind
                    &&& e.tags == tags
                    &&& e.content == content
                },
                None => true,
            },
    {
        match now() {
            Some(created_at) => Some(Event::new_at(pubkey, created_at, kind, tags, content)),
            None => None,
        }
    }

    /// An unsigned event with the given creation time.
    pub fn new_at(pubkey: String, created_at: u64, kind: u32, tags: Vec<Vec<String>>, content: String) -> (res: Self)
        ensures
            res.pubkey == pubkey,
            res.created_at == created_at,
            res.kind == kind,
            res.tags == tags,
            res.content == content,
    {
        Event { pubkey, created_at, kind, tags, content }
    }

    /// The canonical payload (MIP-02): `[pubkey, created_at, kind, tags, content]`
    /// as compact JSON with no whitespace.
    pub fn canonical_payload(&self) -> (res: String)
        ensures
            res@ == canonical_payload_of(self@),
    {
        canonical_text(&self.pubkey, self.created_at, self.kind, &self.tags, &self.content)
    }

    /// The event id: lowercase hex of the SHA-256 of the canonical payload.
    pub fn id(&self) -> (res: String)
        ensures
            res@ == event_id_of(self@),
            event_digest(self@).len() == 32,
    {
        id_of_text(&self.canonical_payload())
    }

    /// Signs the event with the identity; the signature is over the 32 raw
    /// bytes of the id. When the event names the identity's public key, the
    /// result passes validation.
    pub fn sign(&self, identity: &Identity) -> (res: Payload)
        ensures
            res@ == signed_payload_of(self@, identity.secret_key()),
            unsigned_of(res@) == self@,
            event_id_of(unsigned_of(res@)) == res@.id,
            self@.pubkey == hex_lower(identity.public_key()) ==> payload_verifies(res@),
    {
        let id = self.id();
        proof {
            crate::encoding::lemma_hex_roundtrip(event_digest(self@));
        }
        let digest = match hex_decode(id.as_str()) {
            Ok(bytes) => bytes,
            Err(_) => {
                assert(false);
                Vec::new()
            },
        };
        assert(digest@ == event_digest(self@));
        let signature = identity.sign(digest.as_slice());
        let sig = hex_encode(signature.as_slice());
        let res = Payload {
            id,
            pubkey: self.pubkey.clone(),
            created_at: self.created_at,
            kind: self.kind,
            tags: clone_nested_strings(&self.tags),
            content: self.content.clone(),
            sig,
        };
        proof {
            let p = res@;
            let pk = identity.public_key();
            if self@.pubkey == hex_lower(pk) {
                assert(unsigned_of(p) == self@);
                crate::encoding::lemma_hex_roundtrip(pk);
                crate::encoding::lemma_hex_roundtrip(signature@);
            }
        }
        res
    }
}

impl Payload {
    /// The unsigned event of this signed payload.
    pub fn unsigned(&self) -> (res: Event)
        ensures
            res@ == unsigned_of(self@),
    {
        Event {
            pubkey: self.pubkey.clone(),
            created_at: self.created_at,
            kind: self.kind,
            tags: clone_nested_strings(&self.tags),
            content: self.content.clone(),
        }
    }

    /// The canonical payload of the unsigned event.
    pub fn canonical_payload(&self) -> (res: String)
        ensures
            res@ == canonical_payload_of(unsigned_of(self@)),
    {
        self.unsigned().canonical_payload()
    }

    /// The length in bytes of the serialized event JSON (MIP-01 size limit).
    pub fn size_bytes(&self) -> (res: usize)
        ensures
            res == encode_utf8(payload_json_of(self@)).len() as usize,
    {
        let mut out = String::new();
        out.append("{\"id\":");
        push_json_string(&mut out, self.id.as_str());
        out.append(",\"pubkey\":");
        push_json_string(&mut out, self.pubkey.as_str());
        out.append(",\"created_at\":");
        push_decimal(&mut out, self.created_at);
        out.append(",\"kind\":");
        push_decimal(&mut out, self.kind as u64);
        out.append(",\"tags\":");
        push_json_nested_array(&mut out, &self.tags);
        out.append(",\"content\":");
        push_json_string(&mut out, self.content.as_str());
        out.append(",\"sig\":");
        push_json_string(&mut out, self.sig.as_str());
        out.append("}");
        out.as_str().len()
    }

    /// Whether the serialized event fits the MIP-01 limit of 2 MiB.
    pub fn size_ok(&self) -> (res: bool)
        ensures
            res == (encode_utf8(payload_json_of(self@)).len() as usize <= MAX_EVENT_SIZE),
    {
        self.size_bytes() <= MAX_EVENT_SIZE
    }

    /// Whether the id matches the recomputed canonical hash.
    pub fn id_valid(&self) -> (res: bool)
        ensures
            res == (event_id_of(unsigned_of(self@)) == self@.id),
    {
        self.unsigned().id() == self.id
    }

    /// Full MIP-02 validation: id hash and Ed25519 signature.
    pub fn verify(&self) -> (res: bool)
        ensures
            res == payload_verifies(self@),
    {
        if !self.id_valid() {
            return false;
        }
        let id_bytes = match hex_decode(self.id.as_str()) {
            Ok(bytes) => bytes,
            Err(_) => return false,
        };
        if id_bytes.len() != 32 {
            return false;
        }
        let pubkey_bytes = match hex_decode(self.pubkey.as_str()) {
            Ok(bytes) => bytes,
            Err(_) => return false,
        };
        if pubkey_bytes.len() != 32 {
            return false;
        }
        let sig_bytes = match hex_decode(self.sig.as_str()) {
            Ok(bytes) => bytes,
            Err(_) => return false,
        };
        if sig_bytes.len() != 64 {
            return false;
        }
        let pubkey_array = bytes32(pubkey_bytes.as_slice());
        let sig_array = bytes64(sig_bytes.as_slice());
        match ed25519_verify(&pubkey_array, id_bytes.as_slice(), &sig_array) {
            Some(accepted) => accepted,
            None => false,
        }
    }

    /// Validation, and that the event names the identity's public key.
    pub fn verify_with(&self, identity: &Identity) -> (res: bool)
        ensures
            res == (self@.pubkey == hex_lower(identity.public_key()) && payload_verifies(self@)),
    {
        identity.pubkey_hex() == self.pubkey && self.verify()
    }
}

} // verus!
