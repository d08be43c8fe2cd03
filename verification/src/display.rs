//! How a public key is shown in the user interface.
use crate::text::owned;
use vstd::prelude::*;
use vstd::string::*;
use vstd::utf8::*;

verus! {

/// The UTF-8 encoding of a concatenation is the concatenation of encodings.
pub proof fn lemma_encode_utf8_concat(a: Seq<char>, b: Seq<char>)
    ensures
        encode_utf8(a + b) == encode_utf8(a) + encode_utf8(b),
    decreases a.len(),
{
    if a.len() == 0 {
        assert(a + b =~= b);
        assert(encode_utf8(a) =~= Seq::<u8>::empty());
        assert(encode_utf8(a) + encode_utf8(b) =~= encode_utf8(b));
    } else {
        assert((a + b).drop_first() =~= a.drop_first() + b);
        assert((a + b)[0] == a[0]);
        lemma_encode_utf8_concat(a.drop_first(), b);
        assert(encode_utf8(a + b) =~= encode_utf8(a) + encode_utf8(b));
    }
}

/// The bytes of a shortened key: the first and last 8 bytes around `...`
/// when the key is longer than 16 bytes, else the key itself.
pub open spec fn short_key_bytes(key: Seq<u8>) -> Seq<u8> {
    if key.len() > 16 {
        key.subrange(0, 8) + seq![46u8, 46u8, 46u8] + key.subrange(key.len() - 8, key.len() as int)
    } else {
        key
    }
}

/// Where a key can be cut for shortening without splitting a char.
pub open spec fn short_key_cuttable(key: Seq<u8>) -> bool {
    key.len() > 16 ==> is_char_boundary(key, 8) && is_char_boundary(key, key.len() - 8)
}

/// The first 12 bytes of the shortened key (all of it when shorter).
pub open spec fn key_label_bytes(key: Seq<u8>) -> Seq<u8> {
    let s = short_key_bytes(key);
    if s.len() > 12 {
        s.subrange(0, 12)
    } else {
        s
    }
}

/// The key shortened for display, `abcdefgh...stuvwxyz` style.
pub fn short_key(key: &str) -> (res: String)
    requires
        key.spec_bytes().len() <= usize::MAX,
        short_key_cuttable(key.spec_bytes()),
    ensures
        encode_utf8(res@) == short_key_bytes(key.spec_bytes()),
{
    let len = key.len();
    if len > 16 {
        let (head, _) = key.split_at(8);
        let (_, tail) = key.split_at(len - 8);
        let mut s = owned(head);
        s.append("...");
        s.append(tail);
        proof {
            reveal_strlit("...");
            lemma_encode_utf8_concat(head@, "..."@);
            lemma_encode_utf8_concat(head@ + "..."@, tail@);
            assert(encode_utf8("..."@) =~= seq![46u8, 46u8, 46u8]) by {
                vstd::utf8::is_ascii_chars_encode_utf8("..."@);
            }
        }
        s
    } else {
        owned(key)
    }
}

/// The short label of a key: the first 12 bytes of its shortened form.
pub fn key_label(key: &str) -> (res: String)
    requires
        key.spec_bytes().len() <= usize::MAX,
        short_key_cuttable(key.spec_bytes()),
        is_char_boundary(short_key_bytes(key.spec_bytes()), 12) || short_key_bytes(key.spec_bytes()).len() <= 12,
    ensures
        encode_utf8(res@) == key_label_bytes(key.spec_bytes()),
{
    let s = short_key(key);
    let t = s.as_str();
    if t.len() > 12 {
        let (head, _) = t.split_at(12);
        owned(head)
    } else {
        s
    }
}

} // verus!
