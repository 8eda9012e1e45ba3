//! SHA-256 digests in hexadecimal digits.

use sha2::Digest;
use vstd::prelude::*;
use vstd::string::*;
use vstd::utf8::*;

verus! {

/// The SHA-256 digest of a byte string.
pub uninterp spec fn sha256(bytes: Seq<u8>) -> Seq<u8>;

/// Calls `sha2::Sha256::digest`, whose output is 32 bytes that the input fixes.
#[verifier::external_body]
fn sha256_bytes(bytes: &[u8]) -> (digest: Vec<u8>)
    ensures
        digest@ == sha256(bytes@),
        digest@.len() == 32,
{
    sha2::Sha256::digest(bytes).to_vec()
}

/// A hexadecimal digit.
pub open spec fn hex_digit(d: int) -> char {
    if d < 10 {
        (48 + d) as char
    } else {
        (87 + d) as char
    }
}

/// A byte string in hexadecimal digits, two for each byte.
pub open spec fn hex(bytes: Seq<u8>) -> Seq<char>
    decreases bytes.len(),
{
    if bytes.len() == 0 {
        Seq::empty()
    } else {
        hex(bytes.drop_last()).push(hex_digit(bytes.last() as int / 16)).push(
            hex_digit(bytes.last() as int % 16),
        )
    }
}

fn digit_text(d: u8) -> (text: &'static str)
    requires
        d < 16,
    ensures
        text@ == seq![hex_digit(d as int)],
{
    proof {
        reveal_strlit("0");
        reveal_strlit("1");
        reveal_strlit("2");
        reveal_strlit("3");
        reveal_strlit("4");
        reveal_strlit("5");
        reveal_strlit("6");
        reveal_strlit("7");
        reveal_strlit("8");
        reveal_strlit("9");
        reveal_strlit("a");
        reveal_strlit("b");
        reveal_strlit("c");
        reveal_strlit("d");
        reveal_strlit("e");
        reveal_strlit("f");
    }
    let text: &'static str = if d == 0 {
        "0"
    } else if d == 1 {
        "1"
    } else if d == 2 {
        "2"
    } else if d == 3 {
        "3"
    } else if d == 4 {
        "4"
    } else if d == 5 {
        "5"
    } else if d == 6 {
        "6"
    } else if d == 7 {
        "7"
    } else if d == 8 {
        "8"
    } else if d == 9 {
        "9"
    } else if d == 10 {
        "a"
    } else if d == 11 {
        "b"
    } else if d == 12 {
        "c"
    } else if d == 13 {
        "d"
    } else if d == 14 {
        "e"
    } else {
        "f"
    };
    assert(text@ =~= seq![hex_digit(d as int)]);
    text
}

fn hex_text(bytes: &Vec<u8>) -> (text: String)
    ensures
        text@ == hex(bytes@),
{
    let mut text = String::new();
    assert(text@ =~= hex(bytes@.subrange(0, 0)));
    let mut k: usize = 0;
    while k < bytes.len()
        invariant
            k <= bytes@.len(),
            text@ == hex(bytes@.subrange(0, k as int)),
        decreases bytes@.len() - k,
    {
        let ghost next = bytes@.subrange(0, k + 1);
        assert(next.drop_last() =~= bytes@.subrange(0, k as int));
        assert(next.last() == bytes@[k as int]);
        let byte: u8 = bytes[k];
        text.append(digit_text(byte / 16));
        text.append(digit_text(byte % 16));
        k = k + 1;
        assert(text@ =~= hex(next));
    }
    assert(bytes@.subrange(0, k as int) =~= bytes@);
    text
}

/// The SHA-256 digest of a byte string in hexadecimal digits.
pub open spec fn fingerprint(bytes: Seq<u8>) -> Seq<char> {
    hex(sha256(bytes))
}

/// The SHA-256 digest of a byte string in hexadecimal digits.
pub fn fingerprint_of(bytes: &[u8]) -> (text: String)
    ensures
        text@ == fingerprint(bytes@),
        is_fingerprint(text@),
{
    let digest = sha256_bytes(bytes);
    proof {
        lemma_hex(digest@);
    }
    hex_text(&digest)
}

/// The fingerprint of a text is that of its bytes.
pub open spec fn text_fingerprint(text: Seq<char>) -> Seq<char> {
    fingerprint(encode_utf8(text))
}

/// The fingerprint of a text.
pub fn text_fingerprint_of(text: &str) -> (result: String)
    ensures
        result@ == text_fingerprint(text@),
        is_fingerprint(result@),
{
    fingerprint_of(text.as_bytes())
}

/// The text is a fingerprint: 64 lower-case hexadecimal digits.
pub open spec fn is_fingerprint(text: Seq<char>) -> bool {
    text.len() == 64 && forall|k: int| 0 <= k < text.len() ==> is_lower_hex(#[trigger] text[k])
}

pub open spec fn is_lower_hex(c: char) -> bool {
    '0' <= c <= '9' || 'a' <= c <= 'f'
}

proof fn lemma_hex(bytes: Seq<u8>)
    ensures
        hex(bytes).len() == 2 * bytes.len(),
        forall|k: int| 0 <= k < hex(bytes).len() ==> is_lower_hex(#[trigger] hex(bytes)[k]),
    decreases bytes.len(),
{
    if bytes.len() > 0 {
        lemma_hex(bytes.drop_last());
    }
}

proof fn lemma_hex_is_injective(a: Seq<u8>, b: Seq<u8>)
    requires
        hex(a) == hex(b),
    ensures
        a == b,
    decreases a.len(),
{
    lemma_hex(a);
    lemma_hex(b);
    if a.len() == 0 {
        assert(a =~= b);
    } else {
        let n = hex(a).len() as int;
        let (x, y) = (a.last() as int, b.last() as int);
        assert(hex(a)[n - 1] == hex_digit(x % 16) && hex(b)[n - 1] == hex_digit(y % 16));
        assert(hex(a)[n - 2] == hex_digit(x / 16) && hex(b)[n - 2] == hex_digit(y / 16));
        assert(hex(a).subrange(0, n - 2) =~= hex(a.drop_last()));
        assert(hex(b).subrange(0, n - 2) =~= hex(b.drop_last()));
        lemma_hex_is_injective(a.drop_last(), b.drop_last());
        assert(a =~= a.drop_last().push(a.last()));
        assert(b =~= b.drop_last().push(b.last()));
    }
}

/// Two different byte strings have the same SHA-256 digest.
pub open spec fn digests_collide(a: Seq<u8>, b: Seq<u8>) -> bool {
    a != b && sha256(a) == sha256(b)
}

/// Different texts have different fingerprints, but for a collision of digests.
pub proof fn fingerprints_differ_unless_digests_collide(a: Seq<char>, b: Seq<char>)
    requires
        a != b,
    ensures
        text_fingerprint(a) == text_fingerprint(b) <==> digests_collide(
            encode_utf8(a),
            encode_utf8(b),
        ),
{
    encode_utf8_decode_utf8(a);
    encode_utf8_decode_utf8(b);
    if text_fingerprint(a) == text_fingerprint(b) {
        lemma_hex_is_injective(sha256(encode_utf8(a)), sha256(encode_utf8(b)));
    }
}

} // verus!
