//! SHA-256 digests and their textual form.
use sha2::{Digest, Sha256};
use vstd::prelude::*;
use vstd::string::*;
#[allow(unused_imports)]
use vstd::utf8::*;

#[allow(unused_imports)]
use crate::text::starts;

verus! {

/// The SHA-256 digest of a byte sequence, as `sha2` computes it.
pub uninterp spec fn sha256(bytes: Seq<u8>) -> Seq<u8>;

/// `sha2::Sha256::digest`: the digest of the bytes is a function of the bytes
/// alone and is 32 bytes long. That different bytes have different digests is not said:
/// where it matters, it stands as a condition.
#[verifier::external_body]
fn sha256_of(bytes: &[u8]) -> (out: Vec<u8>)
    ensures
        out@ == sha256(bytes@),
        out@.len() == 32,
{
    Sha256::digest(bytes).to_vec()
}

/// The lower-case hexadecimal character of a four-bit value.
pub open spec fn nibble(n: int) -> char {
    if n < 10 {
        (48 + n) as char
    } else {
        (87 + n) as char
    }
}

/// The lower-case hexadecimal text of a byte sequence.
pub open spec fn hex(bytes: Seq<u8>) -> Seq<char>
    decreases bytes.len(),
{
    if bytes.len() == 0 {
        Seq::empty()
    } else {
        hex(bytes.drop_last()).push(nibble(bytes.last() as int / 16)).push(
            nibble(bytes.last() as int % 16),
        )
    }
}

/// Whether a character is a lower-case hexadecimal digit.
pub open spec fn is_hex(c: char) -> bool {
    ('0' <= c && c <= '9') || ('a' <= c && c <= 'f')
}

/// The hexadecimal SHA-256 digest of a byte sequence.
pub open spec fn sha256_hex(bytes: Seq<u8>) -> Seq<char> {
    hex(sha256(bytes))
}

/// The labelled SHA-256 digest of a byte sequence.
pub open spec fn sha256_label(bytes: Seq<u8>) -> Seq<char> {
    "sha256:"@ + sha256_hex(bytes)
}

/// Whether a text is a labelled SHA-256 digest: the label and 64 lower-case
/// hexadecimal digits.
pub open spec fn is_digest(s: Seq<char>) -> bool {
    &&& starts(s, "sha256:"@)
    &&& s.len() == "sha256:"@.len() + 64
    &&& forall|i: int| "sha256:"@.len() <= i < s.len() ==> is_hex(#[trigger] s[i])
}

/// Whether two byte sequences are the same if their digests are.
pub open spec fn no_collision(a: Seq<u8>, b: Seq<u8>) -> bool {
    sha256(a) == sha256(b) ==> a == b
}

proof fn hex_tells_apart(a: Seq<u8>, b: Seq<u8>)
    requires
        hex(a) == hex(b),
    ensures
        a == b,
    decreases a.len(),
{
    hex_shape(a);
    hex_shape(b);
    if a.len() > 0 {
        let s = hex(a);
        let n = s.len() as int;
        assert(s.take(n - 2) =~= hex(a.drop_last()));
        assert(s.take(n - 2) =~= hex(b.drop_last()));
        hex_tells_apart(a.drop_last(), b.drop_last());
        assert(s[n - 2] == nibble(a.last() as int / 16) && s[n - 1] == nibble(
            a.last() as int % 16,
        ));
        assert(s[n - 2] == nibble(b.last() as int / 16) && s[n - 1] == nibble(
            b.last() as int % 16,
        ));
        assert(a.last() == b.last());
        assert(a =~= a.drop_last().push(a.last()));
        assert(b =~= b.drop_last().push(b.last()));
    } else {
        assert(a =~= b);
    }
}

/// Where the digests do not collide, labelled digests are equal just where the bytes are.
pub proof fn labels_tell_bytes_apart(a: Seq<u8>, b: Seq<u8>)
    requires
        no_collision(a, b),
    ensures
        sha256_label(a) == sha256_label(b) <==> a == b,
{
    if sha256_label(a) == sha256_label(b) {
        let n = "sha256:"@.len() as int;
        assert(sha256_label(a).skip(n) =~= sha256_hex(a));
        assert(sha256_label(b).skip(n) =~= sha256_hex(b));
        hex_tells_apart(sha256(a), sha256(b));
    }
}

/// Where the digests do not collide, labelled digests of texts are equal just where the
/// texts are.
pub proof fn labels_tell_texts_apart(a: Seq<char>, b: Seq<char>)
    requires
        no_collision(encode_utf8(a), encode_utf8(b)),
    ensures
        sha256_label(encode_utf8(a)) == sha256_label(encode_utf8(b)) <==> a == b,
{
    labels_tell_bytes_apart(encode_utf8(a), encode_utf8(b));
    encode_utf8_decode_utf8(a);
    encode_utf8_decode_utf8(b);
}

fn nibble_char(n: u8) -> (c: char)
    requires
        n < 16,
    ensures
        c == nibble(n as int),
{
    if n < 10 {
        (48u8 + n) as char
    } else {
        (87u8 + n) as char
    }
}

proof fn hex_shape(bytes: Seq<u8>)
    ensures
        hex(bytes).len() == 2 * bytes.len(),
        forall|i: int| 0 <= i < hex(bytes).len() ==> is_hex(#[trigger] hex(bytes)[i]),
    decreases bytes.len(),
{
    if bytes.len() > 0 {
        hex_shape(bytes.drop_last());
    }
}

/// The lower-case hexadecimal text of a byte sequence.
pub fn hex_text(bytes: &Vec<u8>) -> (s: String)
    ensures
        s@ == hex(bytes@),
{
    let mut s = String::new();
    let mut i: usize = 0;
    assert(bytes@.take(0) =~= Seq::<u8>::empty());
    while i < bytes.len()
        invariant
            i <= bytes@.len(),
            s@ == hex(bytes@.take(i as int)),
        decreases bytes@.len() - i,
    {
        let b: u8 = bytes[i];
        s.push(nibble_char(b / 16));
        s.push(nibble_char(b % 16));
        i = i + 1;
        assert(bytes@.take(i as int).drop_last() =~= bytes@.take(i - 1));
    }
    assert(bytes@.take(bytes@.len() as int) =~= bytes@);
    s
}

/// The hexadecimal SHA-256 digest of a byte sequence: 64 digits.
pub fn digest_hex(bytes: &[u8]) -> (s: String)
    ensures
        s@ == sha256_hex(bytes@),
        s@.len() == 64,
        forall|i: int| 0 <= i < 64 ==> is_hex(#[trigger] s@[i]),
{
    let out = sha256_of(bytes);
    proof {
        hex_shape(out@);
    }
    hex_text(&out)
}

/// The labelled SHA-256 digest of a byte sequence. It is a well-formed digest.
pub fn digest_label(bytes: &[u8]) -> (s: String)
    ensures
        s@ == sha256_label(bytes@),
        is_digest(s@),
{
    let digits = digest_hex(bytes);
    let mut s = "sha256:".to_owned();
    s.append(digits.as_str());
    proof {
        assert(s@.subrange(0, "sha256:"@.len() as int) =~= "sha256:"@);
        assert forall|i: int| "sha256:"@.len() <= i < s@.len() implies is_hex(#[trigger] s@[i]) by {
            assert(s@[i] == digits@[i - "sha256:"@.len()]);
        }
    }
    s
}

/// The labelled SHA-256 digest of a text's UTF-8 bytes.
pub fn text_label(text: &str) -> (s: String)
    ensures
        s@ == sha256_label(encode_utf8(text@)),
        is_digest(s@),
{
    digest_label(text.as_bytes())
}

/// What a hexadecimal digit counts.
pub open spec fn hex_digit_value(c: char) -> int {
    if '0' <= c && c <= '9' {
        c as int - 48
    } else {
        c as int - 87
    }
}

/// The hexadecimal text of bytes spells each of them, in their order, by two digits, the
/// higher half first.
pub proof fn hex_spells_every_byte(bytes: Seq<u8>, i: int)
    requires
        0 <= i < bytes.len(),
    ensures
        hex(bytes).len() == 2 * bytes.len(),
        bytes[i] == 16 * hex_digit_value(hex(bytes)[2 * i]) + hex_digit_value(hex(bytes)[2 * i + 1]),
    decreases bytes.len(),
{
    hex_shape(bytes);
    hex_shape(bytes.drop_last());
    if i < bytes.len() - 1 {
        hex_spells_every_byte(bytes.drop_last(), i);
        assert(bytes.drop_last()[i] == bytes[i]);
    }
}

} // verus!
