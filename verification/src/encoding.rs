//! Text encodings used by the protocol: lowercase hex, decimal numbers and
//! JSON string literals, with their mathematical definitions.
use vstd::prelude::*;
use vstd::string::*;
use vstd::utf8::*;

verus! {

/// String::push appends one char to the end of the string.
pub assume_specification[ String::push ](s: &mut String, ch: char)
    ensures
        final(s)@ == old(s)@.push(ch),
;

/// The lowercase hex digit for a value below 16.
pub open spec fn hex_char(n: u8) -> char {
    if n < 10 {
        (n + 48) as char
    } else {
        (n + 87) as char
    }
}

/// Lowercase hex text of a byte string: two digits per byte, high nibble first.
pub open spec fn hex_lower(bytes: Seq<u8>) -> Seq<char> {
    Seq::new(
        2 * bytes.len(),
        |i: int|
            if i % 2 == 0 {
                hex_char((bytes[i / 2] / 16) as u8)
            } else {
                hex_char((bytes[i / 2] % 16) as u8)
            },
    )
}

/// The value of one hex digit byte, either case.
pub open spec fn hex_digit_value(c: u8) -> Option<u8> {
    if 48 <= c <= 57 {
        Some((c - 48) as u8)
    } else if 97 <= c <= 102 {
        Some((c - 87) as u8)
    } else if 65 <= c <= 70 {
        Some((c - 55) as u8)
    } else {
        None
    }
}

/// Decoding of hex text given as bytes: defined when the length is even and
/// every byte is a hex digit; each pair of digits gives one byte.
pub open spec fn hex_decode_bytes(s: Seq<u8>) -> Option<Seq<u8>> {
    if s.len() % 2 == 0 && forall|i: int| 0 <= i < s.len() ==> (#[trigger] hex_digit_value(s[i])) is Some {
        Some(
            Seq::new(
                (s.len() / 2) as nat,
                |i: int|
                    (hex_digit_value(s[2 * i])->0 * 16 + hex_digit_value(s[2 * i + 1])->0) as u8,
            ),
        )
    } else {
        None
    }
}

/// The 32 bytes of a slice of that length, as an array.
pub fn bytes32(v: &[u8]) -> (res: [u8; 32])
    requires
        v@.len() == 32,
    ensures
        res@ == v@,
{
    let mut a = [0u8; 32];
    for i in 0..32
        invariant
            v@.len() == 32,
            forall|k: int| 0 <= k < i ==> a@[k] == v@[k],
    {
        a[i] = v[i];
    }
    assert(a@ =~= v@);
    a
}

/// The 64 bytes of a slice of that length, as an array.
pub fn bytes64(v: &[u8]) -> (res: [u8; 64])
    requires
        v@.len() == 64,
    ensures
        res@ == v@,
{
    let mut a = [0u8; 64];
    for i in 0..64
        invariant
            v@.len() == 64,
            forall|k: int| 0 <= k < i ==> a@[k] == v@[k],
    {
        a[i] = v[i];
    }
    assert(a@ =~= v@);
    a
}

/// hex::encode: the lowercase hex text of the bytes.
#[verifier::external_body]
pub(crate) fn hex_encode(bytes: &[u8]) -> (res: String)
    ensures
        res@ == hex_lower(bytes@),
{
    hex::encode(bytes)
}

/// Why hex text does not decode (the variants of `hex::FromHexError`).
#[derive(Debug, Clone, Copy, PartialEq, Eq, Structural)]
pub enum HexError {
    /// The byte `c` at position `index` is not a hex digit.
    InvalidHexCharacter { c: char, index: usize },
    /// The text has an odd number of bytes.
    OddLength,
    /// The text does not fit the output's length (not given by decoding to
    /// a vector).
    InvalidStringLength,
}

/// The first position of a byte that is not a hex digit.
pub open spec fn first_non_hex(s: Seq<u8>) -> int {
    choose|i: int|
        0 <= i < s.len() && hex_digit_value(s[i]) is None && forall|j: int|
            0 <= j < i ==> (#[trigger] hex_digit_value(s[j])) is Some
}

/// Why hex text given as bytes does not decode: an odd length first, else
/// the first byte that is not a hex digit, with its position.
pub open spec fn hex_decode_error(s: Seq<u8>) -> HexError {
    if s.len() % 2 != 0 {
        HexError::OddLength
    } else {
        HexError::InvalidHexCharacter {
            c: (s[first_non_hex(s)] as u32) as char,
            index: first_non_hex(s) as usize,
        }
    }
}

/// hex::decode on the UTF-8 bytes of the text: the decoded bytes when the
/// text is valid hex, else its error: odd length, or the first byte (read
/// in order) that is not a hex digit, with its position.
#[verifier::external_body]
pub(crate) fn hex_decode(text: &str) -> (res: Result<Vec<u8>, HexError>)
    ensures
        match res {
            Ok(v) => hex_decode_bytes(text.spec_bytes()) == Some(v@),
            Err(e) => hex_decode_bytes(text.spec_bytes()) is None && e == hex_decode_error(
                text.spec_bytes(),
            ),
        },
{
    match hex::decode(text) {
        Ok(bytes) => Ok(bytes),
        Err(hex::FromHexError::InvalidHexCharacter { c, index }) => Err(
            HexError::InvalidHexCharacter { c, index },
        ),
        Err(hex::FromHexError::OddLength) => Err(HexError::OddLength),
        Err(hex::FromHexError::InvalidStringLength) => Err(HexError::InvalidStringLength),
    }
}

/// Decoding the lowercase hex text of a byte string gives the bytes back.
pub proof fn lemma_hex_roundtrip(bytes: Seq<u8>)
    ensures
        is_ascii_chars(hex_lower(bytes)),
        hex_decode_bytes(encode_utf8(hex_lower(bytes))) == Some(bytes),
{
    let h = hex_lower(bytes);
    assert forall|i: int| 0 <= i < h.len() implies '\0' <= #[trigger] h[i] <= '\u{7f}' by {
        let b = bytes[i / 2];
        assert(b / 16 < 16 && b % 16 < 16);
    }
    vstd::utf8::is_ascii_chars_encode_utf8(h);
    let e = encode_utf8(h);
    assert forall|i: int| 0 <= i < e.len() implies (#[trigger] hex_digit_value(e[i])) is Some && (
    hex_digit_value(e[i])->0 == if i % 2 == 0 {
        bytes[i / 2] / 16
    } else {
        bytes[i / 2] % 16
    }) by {
        assert(h[i] as u8 == e[i]);
        let b = bytes[i / 2];
        assert(b / 16 < 16 && b % 16 < 16);
    }
    let d = hex_decode_bytes(e)->0;
    assert forall|i: int| 0 <= i < bytes.len() implies d[i] == bytes[i] by {
        assert(hex_digit_value(e[2 * i]) is Some);
        assert(hex_digit_value(e[2 * i + 1]) is Some);
        assert((2 * i) / 2 == i);
        assert((2 * i + 1) / 2 == i);
        assert((2 * i) % 2 == 0);
        assert((2 * i + 1) % 2 == 1);
    }
    assert(d =~= bytes);
}


/// The ASCII digit for a value below 10.
pub open spec fn digit_char(d: nat) -> char {
    (d + 48) as char
}

/// Decimal text of a natural number, without sign or leading zeros.
pub open spec fn decimal(n: nat) -> Seq<char>
    decreases n,
{
    if n < 10 {
        seq![digit_char(n)]
    } else {
        decimal(n / 10).push(digit_char(n % 10))
    }
}

/// Appends the decimal text of `n`.
pub fn push_decimal(out: &mut String, n: u64)
    ensures
        final(out)@ == old(out)@ + decimal(n as nat),
    decreases n,
{
    if n >= 10 {
        push_decimal(out, n / 10);
    }
    let d: u8 = (n % 10) as u8;
    out.push((d + 48) as char);
    proof {
        if n >= 10 {
            assert(old(out)@ + decimal(n as nat) =~= old(out)@ + decimal((n / 10) as nat) + seq![digit_char((n % 10) as nat)]);
        } else {
            assert(old(out)@ + decimal(n as nat) =~= old(out)@ + seq![digit_char(n as nat)]);
        }
    }
}

/// How serde_json writes one char inside a JSON string: `"` and `\` and the
/// control characters below U+0020 are escaped, every other char is kept.
pub open spec fn json_escape(c: char) -> Seq<char> {
    if c == '"' {
        seq!['\\', '"']
    } else if c == '\\' {
        seq!['\\', '\\']
    } else if c == '\u{8}' {
        seq!['\\', 'b']
    } else if c == '\u{c}' {
        seq!['\\', 'f']
    } else if c == '\n' {
        seq!['\\', 'n']
    } else if c == '\r' {
        seq!['\\', 'r']
    } else if c == '\t' {
        seq!['\\', 't']
    } else if (c as u32) < 0x20 {
        seq!['\\', 'u', '0', '0', hex_char(((c as u32) / 16) as u8), hex_char(((c as u32) % 16) as u8)]
    } else {
        seq![c]
    }
}

/// The escaped body of a JSON string.
pub open spec fn json_escaped(s: Seq<char>) -> Seq<char>
    decreases s.len(),
{
    if s.len() == 0 {
        seq![]
    } else {
        json_escaped(s.drop_last()) + json_escape(s.last())
    }
}

/// A JSON string literal: the escaped text between double quotes.
pub open spec fn json_string(s: Seq<char>) -> Seq<char> {
    seq!['"'] + json_escaped(s) + seq!['"']
}

/// JSON values joined by commas.
pub open spec fn json_join(items: Seq<Seq<char>>) -> Seq<char>
    decreases items.len(),
{
    if items.len() == 0 {
        seq![]
    } else if items.len() == 1 {
        items[0]
    } else {
        json_join(items.drop_last()) + seq![','] + items.last()
    }
}

/// A compact JSON array of the given JSON values.
pub open spec fn json_array(items: Seq<Seq<char>>) -> Seq<char> {
    seq!['['] + json_join(items) + seq![']']
}

/// JSON string literals, as a function.
pub open spec fn json_string_enc() -> spec_fn(Seq<char>) -> Seq<char> {
    |s: Seq<char>| json_string(s)
}

/// A compact JSON array of strings.
pub open spec fn json_string_array(strs: Seq<Seq<char>>) -> Seq<char> {
    json_array(strs.map_values(json_string_enc()))
}

/// JSON arrays of strings, as a function.
pub open spec fn json_string_array_enc() -> spec_fn(Seq<Seq<char>>) -> Seq<char> {
    |r: Seq<Seq<char>>| json_string_array(r)
}

/// A compact JSON array of arrays of strings (the shape of event tags).
pub open spec fn json_nested_array(rows: Seq<Seq<Seq<char>>>) -> Seq<char> {
    json_array(rows.map_values(json_string_array_enc()))
}

/// The texts held by a vector of strings.
pub open spec fn strings_view(v: Seq<String>) -> Seq<Seq<char>> {
    v.map_values(|s: String| s@)
}

/// The texts held by a vector of vectors of strings.
pub open spec fn nested_strings_view(v: Seq<Vec<String>>) -> Seq<Seq<Seq<char>>> {
    v.map_values(|t: Vec<String>| strings_view(t@))
}

/// serde_json::to_string on a string slice: the JSON string literal of the
/// text. Serializing a `str` cannot fail.
#[verifier::external_body]
pub(crate) fn json_quote(s: &str) -> (res: String)
    ensures
        res@ == json_string(s@),
{
    serde_json::to_string(s).expect("a string slice always serializes")
}

/// Appends the JSON string literal of `s`.
pub fn push_json_string(out: &mut String, s: &str)
    ensures
        final(out)@ == old(out)@ + json_string(s@),
{
    let q = json_quote(s);
    out.append(q.as_str());
}

/// Appends the JSON literal `null` or the string literal of the value.
pub fn push_json_option(out: &mut String, s: &Option<String>)
    ensures
        final(out)@ == old(out)@ + json_option(opt_view(*s)),
{
    match s {
        Some(v) => push_json_string(out, v.as_str()),
        None => {
            out.append("null");
            proof {
                reveal_strlit("null");
            }
        },
    }
}

/// The text held by an optional string.
pub open spec fn opt_view(s: Option<String>) -> Option<Seq<char>> {
    match s {
        Some(v) => Some(v@),
        None => None,
    }
}

/// JSON of an optional string: `null` when absent.
pub open spec fn json_option(s: Option<Seq<char>>) -> Seq<char> {
    match s {
        Some(v) => json_string(v),
        None => seq!['n', 'u', 'l', 'l'],
    }
}

/// The JSON of an optional string is read back unambiguously from the
/// start of a text.
pub proof fn lemma_json_option_prefix(
    x: Option<Seq<char>>,
    y: Option<Seq<char>>,
    r1: Seq<char>,
    r2: Seq<char>,
)
    requires
        json_option(x) + r1 == json_option(y) + r2,
    ensures
        x == y,
        r1 == r2,
{
    let s = json_option(x) + r1;
    match (x, y) {
        (Some(a), Some(b)) => {
            lemma_json_string_prefix(a, b, r1, r2);
        },
        (None, None) => {
            assert(r1 =~= s.subrange(4, s.len() as int));
            assert(r2 =~= s.subrange(4, s.len() as int));
        },
        (Some(a), None) => {
            assert(s[0] == json_string(a)[0]);
            assert(s[0] == 'n');
        },
        (None, Some(b)) => {
            assert(s[0] == json_string(b)[0]);
            assert(s[0] == 'n');
        },
    }
}

/// Equal texts after an equal prefix are equal.
pub proof fn lemma_drop_common_prefix(a: Seq<char>, x: Seq<char>, y: Seq<char>)
    requires
        a + x == a + y,
    ensures
        x == y,
{
    assert(x =~= (a + x).subrange(a.len() as int, (a + x).len() as int));
    assert(y =~= (a + y).subrange(a.len() as int, (a + y).len() as int));
}

/// One more item of a joined list.
pub proof fn lemma_json_join_step(items: Seq<Seq<char>>, i: int)
    requires
        0 <= i < items.len(),
    ensures
        json_join(items.take(i + 1)) == if i == 0 {
            items[0]
        } else {
            json_join(items.take(i)) + seq![','] + items[i]
        },
{
    let t = items.take(i + 1);
    if i > 0 {
        assert(t.drop_last() =~= items.take(i));
    }
}

/// Appends the compact JSON array of the strings.
pub fn push_json_string_array(out: &mut String, items: &Vec<String>)
    ensures
        final(out)@ == old(out)@ + json_string_array(strings_view(items@)),
{
    let ghost m = strings_view(items@).map_values(json_string_enc());
    out.push('[');
    let ghost start = out@;
    let n = items.len();
    for i in 0..n
        invariant
            n == items.len(),
            m.len() == n,
            m == strings_view(items@).map_values(json_string_enc()),
            out@ == start + json_join(m.take(i as int)),
    {
        proof {
            lemma_json_join_step(m, i as int);
        }
        if i > 0 {
            out.push(',');
        }
        push_json_string(out, items[i].as_str());
        assert(m[i as int] == json_string(items@[i as int]@));
        assert(out@ =~= start + json_join(m.take(i + 1)));
    }
    out.push(']');
    assert(m.take(n as int) =~= m);
    assert(out@ =~= old(out)@ + json_string_array(strings_view(items@)));
}

/// Appends the compact JSON array of arrays of strings.
pub fn push_json_nested_array(out: &mut String, rows: &Vec<Vec<String>>)
    ensures
        final(out)@ == old(out)@ + json_nested_array(nested_strings_view(rows@)),
{
    let ghost m = nested_strings_view(rows@).map_values(json_string_array_enc());
    out.push('[');
    let ghost start = out@;
    let n = rows.len();
    for i in 0..n
        invariant
            n == rows.len(),
            m.len() == n,
            m == nested_strings_view(rows@).map_values(json_string_array_enc()),
            out@ == start + json_join(m.take(i as int)),
    {
        proof {
            lemma_json_join_step(m, i as int);
        }
        if i > 0 {
            out.push(',');
        }
        push_json_string_array(out, &rows[i]);
        assert(m[i as int] == json_string_array(strings_view(rows@[i as int]@)));
        assert(out@ =~= start + json_join(m.take(i + 1)));
    }
    out.push(']');
    assert(m.take(n as int) =~= m);
    assert(out@ =~= old(out)@ + json_nested_array(nested_strings_view(rows@)));
}

/// Hex text has no whitespace, so trimming leaves it unchanged.
pub proof fn lemma_hex_has_no_whitespace(bytes: Seq<u8>)
    ensures
        forall|i: int| 0 <= i < hex_lower(bytes).len() ==> !crate::text::is_whitespace(#[trigger] hex_lower(bytes)[i]),
        crate::text::trimmed(hex_lower(bytes)) == hex_lower(bytes),
{
    let h = hex_lower(bytes);
    assert forall|i: int| 0 <= i < h.len() implies !crate::text::is_whitespace(#[trigger] h[i]) by {
        let b = bytes[i / 2];
        assert(b / 16 < 16 && b % 16 < 16);
    }
    if h.len() > 0 {
        assert(!crate::text::is_whitespace(h[0]));
        assert(!crate::text::is_whitespace(h.last()));
    }
}

/// The escaped text, read from its first char.
pub proof fn lemma_json_escaped_first(s: Seq<char>)
    requires
        s.len() > 0,
    ensures
        json_escaped(s) == json_escape(s[0]) + json_escaped(s.drop_first()),
    decreases s.len(),
{
    if s.len() == 1 {
        assert(s.drop_last() =~= Seq::<char>::empty());
        assert(s.drop_first() =~= Seq::<char>::empty());
        assert(json_escaped(s) =~= json_escape(s[0]) + json_escaped(s.drop_first()));
    } else {
        lemma_json_escaped_first(s.drop_last());
        assert(s.drop_last().drop_first() =~= s.drop_first().drop_last());
        assert(s.drop_first().last() == s.last());
        assert(json_escaped(s) =~= json_escape(s[0]) + json_escaped(s.drop_first()));
    }
}

/// Each char is escaped into a non-empty text that does not start with a
/// double quote.
pub proof fn lemma_json_escape_head(c: char)
    ensures
        json_escape(c).len() > 0,
        json_escape(c)[0] != '"',
        json_escape(c)[0] == '\\' || json_escape(c) == seq![c],
{
}

/// The hex digit of a value below 16 determines the value.
pub proof fn lemma_hex_char_injective(a: u8, b: u8)
    requires
        a < 16,
        b < 16,
        hex_char(a) == hex_char(b),
    ensures
        a == b,
{
}

/// Two escaped chars at the start of the same text are the same char.
pub proof fn lemma_json_escape_unique(c: char, d: char, u: Seq<char>, v: Seq<char>)
    requires
        json_escape(c) + u == json_escape(d) + v,
    ensures
        c == d,
        u == v,
{
    let s = json_escape(c) + u;
    let ec = json_escape(c);
    let ed = json_escape(d);
    assert(s[0] == ec[0]);
    assert(s[0] == ed[0]);
    if ec.len() > 1 && ed.len() > 1 {
        assert(s[1] == ec[1]);
        assert(s[1] == ed[1]);
        if ec.len() == 6 && ed.len() == 6 {
            assert(s[4] == ec[4] && s[4] == ed[4]);
            assert(s[5] == ec[5] && s[5] == ed[5]);
            let cc = c as u32;
            let dd = d as u32;
            lemma_hex_char_injective((cc / 16) as u8, (dd / 16) as u8);
            lemma_hex_char_injective((cc % 16) as u8, (dd % 16) as u8);
            assert(cc == dd);
            vstd::utf8::char_u32_cast(c, cc);
            vstd::utf8::char_u32_cast(d, dd);
        }
    }
    assert(c == d);
    assert(u =~= s.subrange(ec.len() as int, s.len() as int));
    assert(v =~= s.subrange(ed.len() as int, s.len() as int));
}

/// An escaped text followed by a closing quote is read back unambiguously.
pub proof fn lemma_json_escaped_then_quote(x: Seq<char>, y: Seq<char>, r1: Seq<char>, r2: Seq<char>)
    requires
        json_escaped(x) + seq!['"'] + r1 == json_escaped(y) + seq!['"'] + r2,
    ensures
        x == y,
        r1 == r2,
    decreases x.len(),
{
    let s = json_escaped(x) + seq!['"'] + r1;
    if x.len() == 0 {
        assert(s =~= seq!['"'] + r1);
        if y.len() > 0 {
            lemma_json_escaped_first(y);
            lemma_json_escape_head(y[0]);
            assert(s =~= json_escape(y[0]) + (json_escaped(y.drop_first()) + seq!['"'] + r2));
            assert(s[0] == json_escape(y[0])[0]);
            assert(false);
        }
        assert(s =~= seq!['"'] + r2);
        assert(r1 =~= s.drop_first());
        assert(r2 =~= s.drop_first());
    } else {
        lemma_json_escaped_first(x);
        lemma_json_escape_head(x[0]);
        assert(s =~= json_escape(x[0]) + (json_escaped(x.drop_first()) + seq!['"'] + r1));
        if y.len() == 0 {
            assert(s =~= seq!['"'] + r2);
            assert(s[0] == json_escape(x[0])[0]);
            assert(false);
        }
        lemma_json_escaped_first(y);
        assert(s =~= json_escape(y[0]) + (json_escaped(y.drop_first()) + seq!['"'] + r2));
        lemma_json_escape_unique(
            x[0],
            y[0],
            json_escaped(x.drop_first()) + seq!['"'] + r1,
            json_escaped(y.drop_first()) + seq!['"'] + r2,
        );
        lemma_json_escaped_then_quote(x.drop_first(), y.drop_first(), r1, r2);
        assert(x =~= seq![x[0]] + x.drop_first());
        assert(y =~= seq![y[0]] + y.drop_first());
    }
}

/// A JSON string literal is read back unambiguously from the start of a
/// text: no literal is a proper prefix of another.
pub proof fn lemma_json_string_prefix(x: Seq<char>, y: Seq<char>, r1: Seq<char>, r2: Seq<char>)
    requires
        json_string(x) + r1 == json_string(y) + r2,
    ensures
        x == y,
        r1 == r2,
{
    let s = json_string(x) + r1;
    assert(s.drop_first() =~= json_escaped(x) + seq!['"'] + r1);
    assert(s.drop_first() =~= json_escaped(y) + seq!['"'] + r2);
    lemma_json_escaped_then_quote(x, y, r1, r2);
}

/// No encoding of one value is a proper prefix of the encoding of another:
/// a value is read back unambiguously from the start of a text.
pub open spec fn prefix_free<A>(enc: spec_fn(A) -> Seq<char>) -> bool {
    forall|x: A, y: A, r1: Seq<char>, r2: Seq<char>|
        #[trigger] (enc(x) + r1) == #[trigger] (enc(y) + r2) ==> x == y && r1 == r2
}

/// Every encoding is non-empty and does not start with `]`.
pub open spec fn never_closes<A>(enc: spec_fn(A) -> Seq<char>) -> bool {
    forall|x: A| (#[trigger] enc(x)).len() > 0 && enc(x)[0] != ']'
}

/// A joined list, read from its first item.
pub proof fn lemma_json_join_first(items: Seq<Seq<char>>)
    requires
        items.len() > 0,
    ensures
        json_join(items) == items[0] + if items.len() > 1 {
            seq![','] + json_join(items.drop_first())
        } else {
            Seq::<char>::empty()
        },
    decreases items.len(),
{
    if items.len() == 1 {
        assert(json_join(items) =~= items[0] + Seq::<char>::empty());
    } else if items.len() == 2 {
        assert(items.drop_last().len() == 1);
        assert(items.drop_first().len() == 1);
        assert(json_join(items.drop_last()) == items[0]);
        assert(json_join(items.drop_first()) == items[1]);
        assert(json_join(items) == json_join(items.drop_last()) + seq![','] + items.last());
        assert(json_join(items) =~= items[0] + (seq![','] + json_join(items.drop_first())));
    } else {
        lemma_json_join_first(items.drop_last());
        assert(items.drop_last().drop_first() =~= items.drop_first().drop_last());
        assert(items.drop_first().last() == items.last());
        assert(json_join(items) =~= items[0] + (seq![','] + json_join(items.drop_first())));
    }
}

/// The items of a joined list followed by `]` are read back unambiguously.
pub proof fn lemma_json_join_close<A>(
    enc: spec_fn(A) -> Seq<char>,
    xs: Seq<A>,
    ys: Seq<A>,
    r1: Seq<char>,
    r2: Seq<char>,
)
    requires
        prefix_free(enc),
        never_closes(enc),
        json_join(xs.map_values(enc)) + seq![']'] + r1 == json_join(ys.map_values(enc)) + seq![']']
            + r2,
    ensures
        xs == ys,
        r1 == r2,
    decreases xs.len(),
{
    let xe = xs.map_values(enc);
    let ye = ys.map_values(enc);
    let s = json_join(xe) + seq![']'] + r1;
    if xs.len() == 0 {
        assert(s =~= seq![']'] + r1);
        if ys.len() > 0 {
            lemma_json_join_first(ye);
            let t = if ye.len() > 1 {
                seq![','] + json_join(ye.drop_first())
            } else {
                Seq::<char>::empty()
            };
            assert(s =~= enc(ys[0]) + (t + seq![']'] + r2));
            assert(enc(ys[0]).len() > 0 && enc(ys[0])[0] != ']');
            assert(s[0] == enc(ys[0])[0]);
            assert(false);
        }
        assert(s =~= seq![']'] + r2);
        assert(r1 =~= s.drop_first());
        assert(r2 =~= s.drop_first());
        assert(xs =~= ys);
    } else {
        lemma_json_join_first(xe);
        let t1 = if xe.len() > 1 {
            seq![','] + json_join(xe.drop_first())
        } else {
            Seq::<char>::empty()
        };
        assert(s =~= enc(xs[0]) + (t1 + seq![']'] + r1));
        if ys.len() == 0 {
            assert(s =~= seq![']'] + r2);
            assert(enc(xs[0]).len() > 0 && enc(xs[0])[0] != ']');
            assert(s[0] == enc(xs[0])[0]);
            assert(false);
        }
        lemma_json_join_first(ye);
        let t2 = if ye.len() > 1 {
            seq![','] + json_join(ye.drop_first())
        } else {
            Seq::<char>::empty()
        };
        assert(s =~= enc(ys[0]) + (t2 + seq![']'] + r2));
        assert(enc(xs[0]) + (t1 + seq![']'] + r1) == enc(ys[0]) + (t2 + seq![']'] + r2));
        assert(xs[0] == ys[0] && t1 + seq![']'] + r1 == t2 + seq![']'] + r2);
        let u = t1 + seq![']'] + r1;
        if xs.len() == 1 && ys.len() > 1 {
            assert(u =~= seq![']'] + r1);
            assert(u =~= seq![','] + (json_join(ye.drop_first()) + seq![']'] + r2));
            assert(u[0] == ']');
            assert(false);
        }
        if xs.len() > 1 && ys.len() == 1 {
            assert(u =~= seq![']'] + r2);
            assert(u =~= seq![','] + (json_join(xe.drop_first()) + seq![']'] + r1));
            assert(u[0] == ']');
            assert(false);
        }
        if xs.len() == 1 {
            assert(u =~= seq![']'] + r1);
            assert(u =~= seq![']'] + r2);
            assert(r1 =~= u.drop_first());
            assert(r2 =~= u.drop_first());
            assert(xs =~= ys);
        } else {
            assert(u.drop_first() =~= json_join(xe.drop_first()) + seq![']'] + r1);
            assert(u.drop_first() =~= json_join(ye.drop_first()) + seq![']'] + r2);
            assert(xe.drop_first() =~= xs.drop_first().map_values(enc));
            assert(ye.drop_first() =~= ys.drop_first().map_values(enc));
            lemma_json_join_close(enc, xs.drop_first(), ys.drop_first(), r1, r2);
            assert(xs =~= seq![xs[0]] + xs.drop_first());
            assert(ys =~= seq![ys[0]] + ys.drop_first());
        }
    }
}

/// A JSON array of prefix-free items is read back unambiguously from the
/// start of a text.
pub proof fn lemma_json_array_prefix<A>(
    enc: spec_fn(A) -> Seq<char>,
    xs: Seq<A>,
    ys: Seq<A>,
    r1: Seq<char>,
    r2: Seq<char>,
)
    requires
        prefix_free(enc),
        never_closes(enc),
        json_array(xs.map_values(enc)) + r1 == json_array(ys.map_values(enc)) + r2,
    ensures
        xs == ys,
        r1 == r2,
{
    let s = json_array(xs.map_values(enc)) + r1;
    assert(s.drop_first() =~= json_join(xs.map_values(enc)) + seq![']'] + r1);
    assert(s.drop_first() =~= json_join(ys.map_values(enc)) + seq![']'] + r2);
    lemma_json_join_close(enc, xs, ys, r1, r2);
}

/// JSON string literals are prefix-free and start with a quote.
pub proof fn lemma_json_string_enc()
    ensures
        prefix_free(json_string_enc()),
        never_closes(json_string_enc()),
{
    assert forall|x: Seq<char>, y: Seq<char>, r1: Seq<char>, r2: Seq<char>|
        #[trigger] (json_string_enc()(x) + r1) == #[trigger] (json_string_enc()(y) + r2) implies x
        == y && r1 == r2 by {
        lemma_json_string_prefix(x, y, r1, r2);
    }
}

/// A JSON array of strings is read back unambiguously from the start of a
/// text.
pub proof fn lemma_json_string_array_prefix(
    x: Seq<Seq<char>>,
    y: Seq<Seq<char>>,
    r1: Seq<char>,
    r2: Seq<char>,
)
    requires
        json_string_array(x) + r1 == json_string_array(y) + r2,
    ensures
        x == y,
        r1 == r2,
{
    lemma_json_string_enc();
    lemma_json_array_prefix(json_string_enc(), x, y, r1, r2);
}

/// JSON arrays of strings are prefix-free and start with `[`.
pub proof fn lemma_json_string_array_enc()
    ensures
        prefix_free(json_string_array_enc()),
        never_closes(json_string_array_enc()),
{
    assert forall|x: Seq<Seq<char>>, y: Seq<Seq<char>>, r1: Seq<char>, r2: Seq<char>|
        #[trigger] (json_string_array_enc()(x) + r1) == #[trigger] (json_string_array_enc()(y)
            + r2) implies x == y && r1 == r2 by {
        lemma_json_string_array_prefix(x, y, r1, r2);
    }
}

/// A JSON array of arrays of strings is read back unambiguously from the
/// start of a text.
pub proof fn lemma_json_nested_array_prefix(
    x: Seq<Seq<Seq<char>>>,
    y: Seq<Seq<Seq<char>>>,
    r1: Seq<char>,
    r2: Seq<char>,
)
    requires
        json_nested_array(x) + r1 == json_nested_array(y) + r2,
    ensures
        x == y,
        r1 == r2,
{
    lemma_json_string_array_enc();
    lemma_json_array_prefix(json_string_array_enc(), x, y, r1, r2);
}

/// Decimal text is non-empty and made of ASCII digits.
pub proof fn lemma_decimal_digits(n: nat)
    ensures
        decimal(n).len() > 0,
        forall|i: int| 0 <= i < decimal(n).len() ==> '0' <= #[trigger] decimal(n)[i] <= '9',
    decreases n,
{
    if n >= 10 {
        lemma_decimal_digits(n / 10);
    }
}

/// Different numbers have different decimal texts.
pub proof fn lemma_decimal_injective(n: nat, m: nat)
    requires
        decimal(n) == decimal(m),
    ensures
        n == m,
    decreases n,
{
    lemma_decimal_digits(n / 10);
    lemma_decimal_digits(m / 10);
    if n < 10 && m < 10 {
        assert(decimal(n)[0] == digit_char(n));
        assert(decimal(m)[0] == digit_char(m));
    } else if n < 10 {
        assert(decimal(m).len() >= 2);
    } else if m < 10 {
        assert(decimal(n).len() >= 2);
    } else {
        let a = decimal(n);
        let b = decimal(m);
        assert(a.last() == digit_char(n % 10));
        assert(b.last() == digit_char(m % 10));
        assert(n % 10 == m % 10);
        assert(a.drop_last() =~= decimal(n / 10));
        assert(b.drop_last() =~= decimal(m / 10));
        lemma_decimal_injective(n / 10, m / 10);
    }
}

/// A decimal number followed by a comma is read back unambiguously.
pub proof fn lemma_decimal_then_comma(n: nat, m: nat, r1: Seq<char>, r2: Seq<char>)
    requires
        decimal(n) + seq![','] + r1 == decimal(m) + seq![','] + r2,
    ensures
        n == m,
        r1 == r2,
{
    let s = decimal(n) + seq![','] + r1;
    let l1 = decimal(n).len();
    let l2 = decimal(m).len();
    lemma_decimal_digits(n);
    lemma_decimal_digits(m);
    if l1 < l2 {
        assert(s[l1 as int] == ',');
        assert(s[l1 as int] == decimal(m)[l1 as int]);
        assert(false);
    }
    if l2 < l1 {
        assert(s[l2 as int] == ',');
        assert(s[l2 as int] == decimal(n)[l2 as int]);
        assert(false);
    }
    assert(decimal(n) =~= s.subrange(0, l1 as int));
    assert(decimal(m) =~= s.subrange(0, l1 as int));
    lemma_decimal_injective(n, m);
    assert(r1 =~= s.subrange(l1 as int + 1, s.len() as int));
    assert(r2 =~= s.subrange(l1 as int + 1, s.len() as int));
}

/// Whether one of the texts holds the char.
pub open spec fn some_text_has(texts: Seq<Seq<char>>, c: char) -> bool {
    exists|j: int| 0 <= j < texts.len() && #[trigger] texts[j].contains(c)
}

/// A char of a concatenation is a char of one of its parts.
pub proof fn lemma_contains_concat(a: Seq<char>, b: Seq<char>, c: char)
    requires
        (a + b).contains(c),
    ensures
        a.contains(c) || b.contains(c),
{
    let k = choose|k: int| 0 <= k < (a + b).len() && (a + b)[k] == c;
    if k < a.len() {
        assert(a[k] == c);
    } else {
        assert(b[k - a.len()] == c);
    }
}

/// An escaped char holds no control char, and a space only for a space.
pub proof fn lemma_json_escape_chars(c: char, d: char)
    requires
        json_escape(c).contains(d),
    ensures
        d as u32 >= 0x20,
        d == ' ' ==> c == ' ',
{
    let e = json_escape(c);
    let k = choose|k: int| 0 <= k < e.len() && e[k] == d;
    if (c as u32) < 0x20 && c != '\u{8}' && c != '\u{c}' && c != '\n' && c != '\r' && c != '\t' {
        let hi = ((c as u32) / 16) as u8;
        let lo = ((c as u32) % 16) as u8;
        assert(hi < 16 && lo < 16);
        assert(e[k] == '\\' || e[k] == 'u' || e[k] == '0' || e[k] == hex_char(hi) || e[k] == hex_char(lo));
    }
}

/// Escaped text holds no control char, and a space only where the text does.
pub proof fn lemma_json_escaped_chars(s: Seq<char>, d: char)
    requires
        json_escaped(s).contains(d),
    ensures
        d as u32 >= 0x20,
        d == ' ' ==> s.contains(' '),
    decreases s.len(),
{
    if s.len() > 0 {
        lemma_contains_concat(json_escaped(s.drop_last()), json_escape(s.last()), d);
        if json_escaped(s.drop_last()).contains(d) {
            lemma_json_escaped_chars(s.drop_last(), d);
            if d == ' ' {
                let k = choose|k: int| 0 <= k < s.drop_last().len() && s.drop_last()[k] == ' ';
                assert(s[k] == ' ');
            }
        } else {
            lemma_json_escape_chars(s.last(), d);
            if d == ' ' {
                assert(s[s.len() - 1] == ' ');
            }
        }
    }
}

/// A JSON string literal holds no control char, and a space only where the
/// text does.
pub proof fn lemma_json_string_chars(s: Seq<char>, d: char)
    requires
        json_string(s).contains(d),
    ensures
        d as u32 >= 0x20,
        d == ' ' ==> s.contains(' '),
{
    lemma_contains_concat(seq!['"'] + json_escaped(s), seq!['"'], d);
    if (seq!['"'] + json_escaped(s)).contains(d) {
        lemma_contains_concat(seq!['"'], json_escaped(s), d);
        if json_escaped(s).contains(d) {
            lemma_json_escaped_chars(s, d);
        }
    }
}

/// A char of a joined list is a comma or a char of an item.
pub proof fn lemma_json_join_chars(items: Seq<Seq<char>>, d: char)
    requires
        json_join(items).contains(d),
    ensures
        d == ',' || some_text_has(items, d),
    decreases items.len(),
{
    if items.len() == 1 {
        assert(items[0].contains(d));
    } else if items.len() > 1 {
        let a = json_join(items.drop_last());
        lemma_contains_concat(a + seq![','], items.last(), d);
        if (a + seq![','] + items.last()).contains(d) && !items.last().contains(d) {
            lemma_contains_concat(a, seq![','], d);
            if a.contains(d) {
                lemma_json_join_chars(items.drop_last(), d);
                if d != ',' {
                    let j = choose|j: int| 0 <= j < items.drop_last().len() && #[trigger] items.drop_last()[j].contains(d);
                    assert(items[j].contains(d));
                }
            }
        } else {
            assert(items[items.len() - 1].contains(d));
        }
    }
}

/// A char of a JSON array is a bracket, a comma or a char of an item.
pub proof fn lemma_json_array_chars(items: Seq<Seq<char>>, d: char)
    requires
        json_array(items).contains(d),
    ensures
        d == '[' || d == ']' || d == ',' || some_text_has(items, d),
{
    lemma_contains_concat(seq!['['] + json_join(items), seq![']'], d);
    if (seq!['['] + json_join(items)).contains(d) {
        lemma_contains_concat(seq!['['], json_join(items), d);
        if json_join(items).contains(d) {
            lemma_json_join_chars(items, d);
        }
    }
}

/// A JSON array of strings holds no control char, and a space only where
/// one of the strings does.
pub proof fn lemma_json_string_array_chars(x: Seq<Seq<char>>, d: char)
    requires
        json_string_array(x).contains(d),
    ensures
        d as u32 >= 0x20,
        d == ' ' ==> some_text_has(x, ' '),
{
    let items = x.map_values(json_string_enc());
    lemma_json_array_chars(items, d);
    if d != '[' && d != ']' && d != ',' {
        let j = choose|j: int| 0 <= j < items.len() && #[trigger] items[j].contains(d);
        assert(items[j] == json_string(x[j]));
        lemma_json_string_chars(x[j], d);
    }
}

/// A JSON array of arrays of strings holds no control char, and a space
/// only where one of the strings does.
pub proof fn lemma_json_nested_array_chars(t: Seq<Seq<Seq<char>>>, d: char)
    requires
        json_nested_array(t).contains(d),
    ensures
        d as u32 >= 0x20,
        d == ' ' ==> exists|i: int| 0 <= i < t.len() && some_text_has(#[trigger] t[i], ' '),
{
    let items = t.map_values(json_string_array_enc());
    lemma_json_array_chars(items, d);
    if d != '[' && d != ']' && d != ',' {
        let i = choose|i: int| 0 <= i < items.len() && #[trigger] items[i].contains(d);
        assert(items[i] == json_string_array(t[i]));
        lemma_json_string_array_chars(t[i], d);
    }
}

/// Decimal text holds only digits.
pub proof fn lemma_decimal_chars(n: nat, d: char)
    requires
        decimal(n).contains(d),
    ensures
        '0' <= d <= '9',
{
    lemma_decimal_digits(n);
}

} // verus!
