//! Author profiles (kind 0). A profile is one more signed event: its content
//! is the profile as compact JSON. Relays only store it; clients verify it
//! before trusting it.
use crate::clock::now;
use crate::encoding::{
    hex_lower, json_option, lemma_drop_common_prefix, lemma_json_option_prefix, nested_strings_view,
    opt_view, push_json_option,
};
use crate::event::event::{payload_verifies, signed_payload_of, Event, EventModel, Payload};
use crate::event::kinds::PROFILE;
use crate::identity::Identity;
use crate::text::{clone_opt_string, owned, trim, trimmed};
use vstd::prelude::*;
use vstd::string::*;

verus! {

/// An author's profile; every field may be absent.
#[derive(Debug, PartialEq, Eq)]
pub struct Profile {
    /// Display name.
    pub name: Option<String>,
    /// Short biography.
    pub about: Option<String>,
    /// URL of the avatar image.
    pub picture: Option<String>,
    /// Verification identifier such as `name@domain`.
    pub nip05: Option<String>,
}

/// The texts of a profile's fields.
pub struct ProfileModel {
    pub name: Option<Seq<char>>,
    pub about: Option<Seq<char>>,
    pub picture: Option<Seq<char>>,
    pub nip05: Option<Seq<char>>,
}

impl View for Profile {
    type V = ProfileModel;

    open spec fn view(&self) -> ProfileModel {
        ProfileModel {
            name: opt_view(self.name),
            about: opt_view(self.about),
            picture: opt_view(self.picture),
            nip05: opt_view(self.nip05),
        }
    }
}

/// The profile as compact JSON, fields in declaration order, absent ones as
/// `null`: what serde_json writes for it and what goes into `content`.
pub open spec fn profile_json_of(p: ProfileModel) -> Seq<char> {
    "{\"name\":"@ + json_option(p.name) + ",\"about\":"@ + json_option(p.about) + ",\"picture\":"@
        + json_option(p.picture) + ",\"nip05\":"@ + json_option(p.nip05) + "}"@
}

/// The profile JSON after the name.
spec fn json_after_name(p: ProfileModel) -> Seq<char> {
    ",\"about\":"@ + json_after_about_key(p)
}

/// The profile JSON from the about value on.
spec fn json_after_about_key(p: ProfileModel) -> Seq<char> {
    json_option(p.about) + json_after_about(p)
}

/// The profile JSON after the about value.
spec fn json_after_about(p: ProfileModel) -> Seq<char> {
    ",\"picture\":"@ + json_after_picture_key(p)
}

/// The profile JSON from the picture value on.
spec fn json_after_picture_key(p: ProfileModel) -> Seq<char> {
    json_option(p.picture) + json_after_picture(p)
}

/// The profile JSON after the picture value.
spec fn json_after_picture(p: ProfileModel) -> Seq<char> {
    ",\"nip05\":"@ + json_after_nip05_key(p)
}

/// The profile JSON from the nip05 value on.
spec fn json_after_nip05_key(p: ProfileModel) -> Seq<char> {
    json_option(p.nip05) + "}"@
}

proof fn lemma_concat_assoc(x: Seq<char>, y: Seq<char>, z: Seq<char>)
    ensures
        x + y + z == x + (y + z),
{
    assert(x + y + z =~= x + (y + z));
}

proof fn lemma_profile_json_parts(p: ProfileModel)
    ensures
        profile_json_of(p) == "{\"name\":"@ + (json_option(p.name) + json_after_name(p)),
{
    let a = "{\"name\":"@;
    let b = ",\"about\":"@;
    let c = ",\"picture\":"@;
    let d = ",\"nip05\":"@;
    let e = "}"@;
    let n = json_option(p.name);
    let o = json_option(p.about);
    let r = json_option(p.picture);
    let t = json_option(p.nip05);
    lemma_concat_assoc(a + n + b + o + c + r + d, t, e);
    lemma_concat_assoc(a + n + b + o + c + r, d, t + e);
    lemma_concat_assoc(a + n + b + o + c, r, d + (t + e));
    lemma_concat_assoc(a + n + b + o, c, r + (d + (t + e)));
    lemma_concat_assoc(a + n + b, o, c + (r + (d + (t + e))));
    lemma_concat_assoc(a + n, b, o + (c + (r + (d + (t + e)))));
    lemma_concat_assoc(a, n, b + (o + (c + (r + (d + (t + e))))));
}

/// The profile JSON determines the profile: reading it back gives every
/// field, name, about, picture and nip05, so profiles that differ in any
/// field are published differently.
pub proof fn lemma_profile_json_injective(p: ProfileModel, q: ProfileModel)
    requires
        profile_json_of(p) == profile_json_of(q),
    ensures
        p == q,
{
    let k = "{\"name\":"@;
    lemma_profile_json_parts(p);
    lemma_profile_json_parts(q);
    lemma_drop_common_prefix(k, json_option(p.name) + json_after_name(p), json_option(q.name) + json_after_name(q));
    lemma_json_option_prefix(p.name, q.name, json_after_name(p), json_after_name(q));
    lemma_drop_common_prefix(",\"about\":"@, json_after_about_key(p), json_after_about_key(q));
    lemma_json_option_prefix(p.about, q.about, json_after_about(p), json_after_about(q));
    lemma_drop_common_prefix(",\"picture\":"@, json_after_picture_key(p), json_after_picture_key(q));
    lemma_json_option_prefix(p.picture, q.picture, json_after_picture(p), json_after_picture(q));
    lemma_drop_common_prefix(",\"nip05\":"@, json_after_nip05_key(p), json_after_nip05_key(q));
    lemma_json_option_prefix(p.nip05, q.nip05, "}"@, "}"@);
}

/// The JSON text of an object member: the key as a string, a colon, the value.
pub open spec fn json_member(key: Seq<char>, value: Seq<char>) -> Seq<char> {
    "\""@ + key + "\":"@ + value
}

/// The JSON text holds `"key":value` as a whole member of an object: opened
/// by `{` or `,` and closed by `,` or `}`.
pub open spec fn has_json_member(json: Seq<char>, key: Seq<char>, value: Seq<char>) -> bool {
    exists|i: int|
        {
            &&& 0 < i
            &&& i + json_member(key, value).len() < json.len()
            &&& #[trigger] json.subrange(i, i + json_member(key, value).len()) == json_member(key, value)
            &&& (json[i - 1] == '{' || json[i - 1] == ',')
            &&& (json[i + json_member(key, value).len()] == ',' || json[i
                + json_member(key, value).len()] == '}')
        }
}

proof fn lemma_member_between(pre: Seq<char>, key: Seq<char>, value: Seq<char>, post: Seq<char>)
    requires
        pre.len() > 0,
        post.len() > 0,
        pre.last() == '{' || pre.last() == ',',
        post[0] == ',' || post[0] == '}',
    ensures
        has_json_member(pre + json_member(key, value) + post, key, value),
{
    let m = json_member(key, value);
    let json = pre + m + post;
    let i = pre.len() as int;
    assert(json.subrange(i, i + m.len()) =~= m);
    assert(json[i - 1] == pre.last());
    assert(json[i + m.len()] == post[0]);
}

proof fn lemma_profile_json_as_members(p: ProfileModel)
    ensures
        profile_json_of(p) == "{"@ + json_member("name"@, json_option(p.name)) + ","@ + json_member(
            "about"@,
            json_option(p.about),
        ) + ","@ + json_member("picture"@, json_option(p.picture)) + ","@ + json_member(
            "nip05"@,
            json_option(p.nip05),
        ) + "}"@,
{
    reveal_strlit("{\"name\":");
    reveal_strlit(",\"about\":");
    reveal_strlit(",\"picture\":");
    reveal_strlit(",\"nip05\":");
    reveal_strlit("{");
    reveal_strlit(",");
    reveal_strlit("\"");
    reveal_strlit("\":");
    reveal_strlit("name");
    reveal_strlit("about");
    reveal_strlit("picture");
    reveal_strlit("nip05");
    let a = "{\"name\":"@;
    let a2 = "{"@ + "\""@ + "name"@ + "\":"@;
    assert(a =~= a2);
    let b = ",\"about\":"@;
    let b2 = ","@ + "\""@ + "about"@ + "\":"@;
    assert(b =~= b2);
    let c = ",\"picture\":"@;
    let c2 = ","@ + "\""@ + "picture"@ + "\":"@;
    assert(c =~= c2);
    let d = ",\"nip05\":"@;
    let d2 = ","@ + "\""@ + "nip05"@ + "\":"@;
    assert(d =~= d2);
    let n = json_option(p.name);
    let o = json_option(p.about);
    let r = json_option(p.picture);
    let t = json_option(p.nip05);
    let e = "}"@;
    assert(a + n + b + o + c + r + d + t + e =~= a2 + n + b2 + o + c2 + r + d2 + t + e);
    assert(a2 + n + b2 + o + c2 + r + d2 + t + e =~= "{"@ + json_member("name"@, n) + ","@ + json_member(
        "about"@,
        o,
    ) + ","@ + json_member("picture"@, r) + ","@ + json_member("nip05"@, t) + e);
}

proof fn lemma_regroup_members(
    o: Seq<char>,
    m1: Seq<char>,
    c: Seq<char>,
    m2: Seq<char>,
    m3: Seq<char>,
    m4: Seq<char>,
    e: Seq<char>,
)
    requires
        o.len() > 0,
        e.len() > 0,
    ensures
        o + m1 + c + m2 + c + m3 + c + m4 + e == o + m1 + (c + m2 + c + m3 + c + m4 + e),
        o + m1 + c + m2 + c + m3 + c + m4 + e == (o + m1 + c) + m2 + (c + m3 + c + m4 + e),
        o + m1 + c + m2 + c + m3 + c + m4 + e == (o + m1 + c + m2 + c) + m3 + (c + m4 + e),
        o + m1 + c + m2 + c + m3 + c + m4 + e == (o + m1 + c + m2 + c + m3 + c) + m4 + e,
        (o + m1 + c + m2 + c + m3 + c + m4 + e)[0] == o[0],
        (o + m1 + c + m2 + c + m3 + c + m4 + e).last() == e.last(),
{
    let s = o + m1 + c + m2 + c + m3 + c + m4 + e;
    assert(s =~= o + m1 + (c + m2 + c + m3 + c + m4 + e));
    assert(s =~= (o + m1 + c) + m2 + (c + m3 + c + m4 + e));
    assert(s =~= (o + m1 + c + m2 + c) + m3 + (c + m4 + e));
    assert(s =~= (o + m1 + c + m2 + c + m3 + c) + m4 + e);
    assert(s[0] == o[0]);
    assert(s.last() == e.last());
}

/// The object text with the four profile members holding the given values.
spec fn profile_object(vn: Seq<char>, va: Seq<char>, vp: Seq<char>, v5: Seq<char>) -> Seq<char> {
    "{"@ + json_member("name"@, vn) + ","@ + json_member("about"@, va) + ","@ + json_member("picture"@, vp)
        + ","@ + json_member("nip05"@, v5) + "}"@
}

proof fn lemma_profile_object_members(vn: Seq<char>, va: Seq<char>, vp: Seq<char>, v5: Seq<char>)
    ensures
        profile_object(vn, va, vp, v5)[0] == '{',
        profile_object(vn, va, vp, v5).last() == '}',
        has_json_member(profile_object(vn, va, vp, v5), "name"@, vn),
        has_json_member(profile_object(vn, va, vp, v5), "about"@, va),
        has_json_member(profile_object(vn, va, vp, v5), "picture"@, vp),
        has_json_member(profile_object(vn, va, vp, v5), "nip05"@, v5),
{
    reveal_strlit("{");
    reveal_strlit(",");
    reveal_strlit("}");
    let mn = json_member("name"@, vn);
    let ma = json_member("about"@, va);
    let mp = json_member("picture"@, vp);
    let m5 = json_member("nip05"@, v5);
    let o = "{"@;
    let c = ","@;
    let e = "}"@;
    lemma_regroup_members(o, mn, c, ma, mp, m5, e);
    assert(c + ma + c + mp + c + m5 + e == c + (ma + c + mp + c + m5 + e)) by {
        assert(c + ma + c + mp + c + m5 + e =~= c + (ma + c + mp + c + m5 + e));
    }
    lemma_member_between(o, "name"@, vn, c + ma + c + mp + c + m5 + e);
    assert(c + mp + c + m5 + e == c + (mp + c + m5 + e)) by {
        assert(c + mp + c + m5 + e =~= c + (mp + c + m5 + e));
    }
    lemma_member_between(o + mn + c, "about"@, va, c + mp + c + m5 + e);
    assert(c + m5 + e == c + (m5 + e)) by {
        assert(c + m5 + e =~= c + (m5 + e));
    }
    lemma_member_between(o + mn + c + ma + c, "picture"@, vp, c + m5 + e);
    lemma_member_between(o + mn + c + ma + c + mp + c, "nip05"@, v5, e);
}

/// Reading back the profile JSON gives every field: it is an object whose
/// members `"name"`, `"about"`, `"picture"` and `"nip05"` hold each field's
/// value, a JSON string where the field is present and `null` where it is
/// absent.
pub proof fn lemma_profile_json_members(p: ProfileModel)
    ensures
        profile_json_of(p)[0] == '{',
        profile_json_of(p).last() == '}',
        has_json_member(profile_json_of(p), "name"@, json_option(p.name)),
        has_json_member(profile_json_of(p), "about"@, json_option(p.about)),
        has_json_member(profile_json_of(p), "picture"@, json_option(p.picture)),
        has_json_member(profile_json_of(p), "nip05"@, json_option(p.nip05)),
{
    lemma_profile_json_as_members(p);
    lemma_profile_object_members(json_option(p.name), json_option(p.about), json_option(p.picture), json_option(p.nip05));
}

/// A form field: absent when it is empty after trimming whitespace.
pub open spec fn form_field(s: Seq<char>) -> Option<Seq<char>> {
    if trimmed(s).len() == 0 {
        None
    } else {
        Some(trimmed(s))
    }
}

impl Clone for Profile {
    /// A copy of the profile.
    fn clone(&self) -> (res: Self)
        ensures
            res@ == self@,
    {
        Profile {
            name: clone_opt_string(&self.name),
            about: clone_opt_string(&self.about),
            picture: clone_opt_string(&self.picture),
            nip05: clone_opt_string(&self.nip05),
        }
    }
}

impl Default for Profile {
    fn default() -> (res: Self)
        ensures
            res.name is None,
            res.about is None,
            res.picture is None,
            res.nip05 is None,
    {
        Profile { name: None, about: None, picture: None, nip05: None }
    }
}

impl Profile {
    /// An empty profile.
    pub fn new() -> (res: Self)
        ensures
            res.name is None,
            res.about is None,
            res.picture is None,
            res.nip05 is None,
    {
        Self::default()
    }

    /// Sets the display name.
    pub fn name(self, name: &str) -> (res: Self)
        ensures
            res@.name == Some(name@),
            res.about == self.about,
            res.picture == self.picture,
            res.nip05 == self.nip05,
    {
        let mut p = self;
        p.name = Some(owned(name));
        p
    }

    /// Sets the biography.
    pub fn about(self, about: &str) -> (res: Self)
        ensures
            res.name == self.name,
            res@.about == Some(about@),
            res.picture == self.picture,
            res.nip05 == self.nip05,
    {
        let mut p = self;
        p.about = Some(owned(about));
        p
    }

    /// Sets the avatar URL.
    pub fn picture(self, picture: &str) -> (res: Self)
        ensures
            res.name == self.name,
            res.about == self.about,
            res@.picture == Some(picture@),
            res.nip05 == self.nip05,
    {
        let mut p = self;
        p.picture = Some(owned(picture));
        p
    }

    /// Sets the verification identifier.
    pub fn nip05(self, nip05: &str) -> (res: Self)
        ensures
            res.name == self.name,
            res.about == self.about,
            res.picture == self.picture,
            res@.nip05 == Some(nip05@),
    {
        let mut p = self;
        p.nip05 = Some(owned(nip05));
        p
    }

    /// The profile as compact JSON, the `content` of a kind-0 event.
    pub fn to_json(&self) -> (res: String)
        ensures
            res@ == profile_json_of(self@),
    {
        let mut out = String::new();
        out.append("{\"name\":");
        push_json_option(&mut out, &self.name);
        out.append(",\"about\":");
        push_json_option(&mut out, &self.about);
        out.append(",\"picture\":");
        push_json_option(&mut out, &self.picture);
        out.append(",\"nip05\":");
        push_json_option(&mut out, &self.nip05);
        out.append("}");
        out
    }

    /// The unsigned kind-0 event of this profile, authored by the identity,
    /// stamped with the current Unix time; `None` when the system clock reads
    /// before the Unix epoch.
    pub fn event(&self, identity: &Identity) -> (res: Option<Event>)
        ensures
            match res {
                Some(e) => e@ == self.event_model(*identity, e.created_at),
                None => true,
            },
    {
        match now() {
            Some(created_at) => Some(self.event_at(identity, created_at)),
            None => None,
        }
    }

    /// The unsigned kind-0 event of this profile, authored by the identity,
    /// with no tags, the profile JSON as content and the given creation time.
    pub fn event_at(&self, identity: &Identity, created_at: u64) -> (res: Event)
        ensures
            res@ == self.event_model(*identity, created_at),
    {
        let res = Event::new_at(identity.pubkey_hex(), created_at, PROFILE, Vec::new(), self.to_json());
        assert(nested_strings_view(res.tags@) =~= Seq::<Seq<Seq<char>>>::empty());
        res
    }

    /// The kind-0 event of this profile by the identity at a given time.
    pub open spec fn event_model(self, identity: Identity, created_at: u64) -> EventModel {
        EventModel {
            pubkey: hex_lower(identity.public_key()),
            created_at,
            kind: PROFILE,
            tags: Seq::empty(),
            content: profile_json_of(self@),
        }
    }

    /// The profile event signed by the identity, ready for a relay; `None`
    /// when the system clock reads before the Unix epoch. It passes
    /// validation.
    pub fn sign(&self, identity: &Identity) -> (res: Option<Payload>)
        ensures
            match res {
                Some(p) => {
                    &&& p@ == signed_payload_of(
                        self.event_model(*identity, p.created_at),
                        identity.secret_key(),
                    )
                    &&& payload_verifies(p@)
                },
                None => true,
            },
    {
        match self.event(identity) {
            Some(e) => Some(e.sign(identity)),
            None => None,
        }
    }

    /// The profile of a payload from a relay: `parsed`, the profile that the
    /// payload's content parses to, is returned only when the payload is of
    /// kind 0 and passes validation; otherwise `None`.
    pub fn from_payload(payload: &Payload, parsed: Option<Profile>) -> (res: Option<Profile>)
        ensures
            res == if payload.kind == PROFILE && payload_verifies(payload@) {
                parsed
            } else {
                None
            },
    {
        if payload.kind != PROFILE {
            return None;
        }
        if !payload.verify() {
            return None;
        }
        parsed
    }

    /// The profile entered in the edit form: each field trimmed, and set
    /// only when something is left.
    pub fn from_form(name: &str, about: &str, picture: &str) -> (res: Profile)
        ensures
            res@.name == form_field(name@),
            res@.about == form_field(about@),
            res@.picture == form_field(picture@),
            res.nip05 is None,
    {
        let mut p = Profile::new();
        let name = trim(name);
        if name.unicode_len() > 0 {
            p = p.name(name);
        }
        let about = trim(about);
        if about.unicode_len() > 0 {
            p = p.about(about);
        }
        let picture = trim(picture);
        if picture.unicode_len() > 0 {
            p = p.picture(picture);
        }
        p
    }
}

} // verus!
