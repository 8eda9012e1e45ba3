//! Text and byte-string helpers shared by every module.

use vstd::prelude::*;
use vstd::slice::*;
use vstd::string::*;
use vstd::utf8::*;

verus! {

/// Two strings hold the same characters.
pub fn same(a: &str, b: &str) -> (r: bool)
    ensures
        r == (a@ == b@),
{
    let r: bool = same_bytes(a.as_bytes(), b.as_bytes());
    proof {
        encode_utf8_decode_utf8(a@);
        encode_utf8_decode_utf8(b@);
    }
    r
}

/// Two byte strings are equal.
pub fn same_bytes(a: &[u8], b: &[u8]) -> (r: bool)
    ensures
        r == (a@ == b@),
{
    if a.len() != b.len() {
        return false;
    }
    let mut i: usize = 0;
    while i < a.len()
        invariant
            a@.len() == b@.len(),
            i <= a@.len(),
            forall|k: int| 0 <= k < i ==> a@[k] == b@[k],
        decreases a@.len() - i,
    {
        if a[i] != b[i] {
            return false;
        }
        i = i + 1;
    }
    assert(a@ =~= b@);
    true
}

/// The string begins with the given characters.
pub fn starts_with(text: &str, prefix: &str) -> (r: bool)
    ensures
        r == prefix@.is_prefix_of(text@),
{
    let n: usize = prefix.unicode_len();
    if text.unicode_len() < n {
        return false;
    }
    let mut i: usize = 0;
    while i < n
        invariant
            n == prefix@.len(),
            n <= text@.len(),
            i <= n,
            forall|k: int| 0 <= k < i ==> text@[k] == prefix@[k],
        decreases n - i,
    {
        if text.get_char(i) != prefix.get_char(i) {
            assert(text@.subrange(0, n as int)[i as int] == text@[i as int]);
            return false;
        }
        i = i + 1;
    }
    assert(text@.subrange(0, n as int) =~= prefix@);
    true
}

/// The string ends with the given characters.
pub fn ends_with(text: &str, suffix: &str) -> (r: bool)
    ensures
        r == suffix@.is_suffix_of(text@),
{
    let n: usize = suffix.unicode_len();
    let length: usize = text.unicode_len();
    if length < n {
        return false;
    }
    let start: usize = length - n;
    let mut i: usize = 0;
    while i < n
        invariant
            n == suffix@.len(),
            length == text@.len(),
            start == length - n,
            n <= length,
            i <= n,
            forall|k: int| 0 <= k < i ==> text@[start + k] == suffix@[k],
        decreases n - i,
    {
        if text.get_char(start + i) != suffix.get_char(i) {
            assert(text@.subrange(start as int, length as int)[i as int] == text@[start + i]);
            return false;
        }
        i = i + 1;
    }
    assert(text@.subrange(start as int, length as int) =~= suffix@);
    true
}

/// The position of the first character of a kind at or behind a position; the
/// length where there is none.
pub open spec fn find_char(s: Seq<char>, c: char, at: int) -> int
    decreases s.len() - at,
{
    if at >= s.len() {
        s.len() as int
    } else if s[at] == c {
        at
    } else {
        find_char(s, c, at + 1)
    }
}

/// The characters before the first occurrence of one.
pub open spec fn until(s: Seq<char>, c: char) -> Seq<char> {
    s.subrange(0, find_char(s, c, 0))
}

/// The characters before the first occurrence of one.
pub fn text_until(text: &str, c: char) -> (start: &str)
    ensures
        start@ == until(text@, c),
{
    let length: usize = text.unicode_len();
    let mut at: usize = 0;
    while at < length && text.get_char(at) != c
        invariant
            length == text@.len(),
            at <= length,
            find_char(text@, c, at as int) == find_char(text@, c, 0),
        decreases length - at,
    {
        at = at + 1;
    }
    text.substring_char(0, at)
}

/// From position `i` on, the first byte string sorts before the second one.
pub open spec fn lex_less_from(a: Seq<u8>, b: Seq<u8>, i: int) -> bool
    decreases b.len() - i,
{
    if i >= b.len() {
        false
    } else if i >= a.len() {
        true
    } else if a[i] != b[i] {
        a[i] < b[i]
    } else {
        lex_less_from(a, b, i + 1)
    }
}

/// The order of byte strings.
pub open spec fn lex_less(a: Seq<u8>, b: Seq<u8>) -> bool {
    lex_less_from(a, b, 0)
}

/// The order of strings, which is that of their bytes.
pub open spec fn text_less(a: Seq<char>, b: Seq<char>) -> bool {
    lex_less(encode_utf8(a), encode_utf8(b))
}

/// The first string sorts before the second one.
pub fn less(a: &str, b: &str) -> (r: bool)
    ensures
        r == text_less(a@, b@),
{
    let (x, y) = (a.as_bytes(), b.as_bytes());
    let mut i: usize = 0;
    while i < y.len()
        invariant
            x@ == a.spec_bytes(),
            y@ == b.spec_bytes(),
            i <= y@.len(),
            lex_less_from(x@, y@, i as int) == lex_less(x@, y@),
        decreases y@.len() - i,
    {
        if i >= x.len() {
            return true;
        }
        if x[i] != y[i] {
            return x[i] < y[i];
        }
        i = i + 1;
    }
    false
}

proof fn lemma_lex_asymmetric(a: Seq<u8>, b: Seq<u8>, i: int)
    requires
        lex_less_from(a, b, i),
        0 <= i,
    ensures
        !lex_less_from(b, a, i),
    decreases b.len() - i,
{
    if i < b.len() && i < a.len() && a[i] == b[i] {
        lemma_lex_asymmetric(a, b, i + 1);
    }
}

proof fn lemma_lex_step(a: Seq<u8>, b: Seq<u8>, c: Seq<u8>, i: int)
    requires
        lex_less_from(a, b, i),
        !lex_less_from(c, b, i),
        0 <= i,
    ensures
        lex_less_from(a, c, i),
    decreases b.len() - i,
{
    if i < b.len() && i < c.len() && i < a.len() && a[i] == b[i] && c[i] == b[i] {
        lemma_lex_step(a, b, c, i + 1);
    }
}

proof fn lemma_lex_total(a: Seq<u8>, b: Seq<u8>, i: int)
    requires
        0 <= i,
        i <= a.len(),
        i <= b.len(),
        forall|k: int| 0 <= k < i ==> a[k] == b[k],
        !lex_less_from(a, b, i),
        !lex_less_from(b, a, i),
    ensures
        a == b,
    decreases b.len() - i,
{
    if i < b.len() && i < a.len() {
        lemma_lex_total(a, b, i + 1);
    } else {
        assert(a =~= b);
    }
}

/// Strings are strictly and totally ordered.
pub proof fn text_order_is_strict(a: Seq<char>, b: Seq<char>, c: Seq<char>)
    ensures
        text_less(a, b) ==> !text_less(b, a),
        text_less(a, b) && !text_less(c, b) ==> text_less(a, c),
        !text_less(a, b) && !text_less(b, a) ==> a == b,
{
    let (x, y, z) = (encode_utf8(a), encode_utf8(b), encode_utf8(c));
    if lex_less(x, y) {
        lemma_lex_asymmetric(x, y, 0);
        if !lex_less(z, y) {
            lemma_lex_step(x, y, z, 0);
        }
    } else if !lex_less(y, x) {
        lemma_lex_total(x, y, 0);
        encode_utf8_decode_utf8(a);
        encode_utf8_decode_utf8(b);
    }
}

/// The bytes that are valid UTF-8 read as characters; anything else reads as
/// the empty text.
pub open spec fn decoded(bytes: Seq<u8>) -> Seq<char> {
    if valid_utf8(bytes) {
        decode_utf8(bytes)
    } else {
        Seq::empty()
    }
}

/// Calls `std::str::from_utf8`, which succeeds exactly on valid UTF-8 and then
/// returns a string with the same bytes.
#[verifier::external_body]
fn from_utf8(bytes: &[u8]) -> (text: Option<&str>)
    ensures
        text is Some <==> valid_utf8(bytes@),
        text is Some ==> text->0.spec_bytes() == bytes@,
{
    std::str::from_utf8(bytes).ok()
}

/// What the standard library says of bytes that are not UTF-8.
pub uninterp spec fn utf8_complaint(bytes: Seq<u8>) -> Seq<char>;

/// The longest valid start of a byte string ends at the given position.
pub open spec fn valid_up_to(bytes: Seq<u8>, at: int) -> bool {
    &&& 0 <= at < bytes.len()
    &&& valid_utf8(bytes.subrange(0, at))
    &&& forall|k: int| at < k <= bytes.len() ==> !valid_utf8(#[trigger] bytes.subrange(0, k))
}

/// Calls `std::str::from_utf8` for its error: the longest valid start of the
/// bytes, and the error's own text, which is fixed by the bytes.
#[verifier::external_body]
pub(crate) fn utf8_failure(bytes: &[u8]) -> (failure: Option<(usize, String)>)
    ensures
        failure is None <==> valid_utf8(bytes@),
        failure matches Some(found) ==> valid_up_to(bytes@, found.0 as int) && found.1@
            == utf8_complaint(bytes@),
{
    let error = std::str::from_utf8(bytes).err()?;
    Some((error.valid_up_to(), error.to_string()))
}

/// The characters of a byte string.
pub fn decode(bytes: &[u8]) -> (text: &str)
    ensures
        text@ == decoded(bytes@),
{
    match from_utf8(bytes) {
        Some(text) => {
            proof {
                encode_utf8_decode_utf8(text@);
            }
            text
        }
        None => {
            let empty: &str = "";
            proof {
                reveal_strlit("");
                assert(empty@ =~= Seq::<char>::empty());
            }
            empty
        }
    }
}

/// The texts of a list of string slices.
pub open spec fn slices(list: Seq<&str>) -> Seq<Seq<char>> {
    list.map_values(|s: &str| s@)
}

/// The parts of a text from a position on, between the occurrences of a
/// character.
pub open spec fn split_from(s: Seq<char>, c: char, at: int) -> Seq<Seq<char>>
    decreases s.len() - at,
{
    let end = find_char(s, c, at);
    if at < 0 || at > s.len() || end >= s.len() || end < at {
        seq![s.subrange(at, s.len() as int)]
    } else {
        seq![s.subrange(at, end)] + split_from(s, c, end + 1)
    }
}

/// The parts of a text between the occurrences of a character.
pub open spec fn split(s: Seq<char>, c: char) -> Seq<Seq<char>> {
    split_from(s, c, 0)
}

pub proof fn lemma_find_char(s: Seq<char>, c: char, at: int)
    requires
        0 <= at <= s.len(),
    ensures
        at <= find_char(s, c, at) <= s.len(),
        forall|k: int| at <= k < find_char(s, c, at) ==> #[trigger] s[k] != c,
        find_char(s, c, at) < s.len() ==> s[find_char(s, c, at)] == c,
    decreases s.len() - at,
{
    if at < s.len() && s[at] != c {
        lemma_find_char(s, c, at + 1);
    }
}

/// The position of the first occurrence of a character at or behind a position;
/// the length where there is none.
pub fn position_of(text: &str, c: char, from: usize) -> (at: usize)
    requires
        from <= text@.len(),
    ensures
        at == find_char(text@, c, from as int),
        from <= at <= text@.len(),
        at < text@.len() ==> text@[at as int] == c,
{
    let length: usize = text.unicode_len();
    let mut at: usize = from;
    if (c as u32) < 128 && text.is_ascii() {
        let b: u8 = c as u8;
        while at < length && text.get_ascii(at) != b
            invariant
                (c as u32) < 128,
                text.is_ascii(),
                b == c as u8,
                from <= at <= length == text@.len(),
                find_char(text@, c, at as int) == find_char(text@, c, from as int),
            decreases length - at,
        {
            at = at + 1;
        }
        return at;
    }
    while at < length && text.get_char(at) != c
        invariant
            from <= at <= length == text@.len(),
            find_char(text@, c, at as int) == find_char(text@, c, from as int),
        decreases length - at,
    {
        at = at + 1;
    }
    at
}

/// The parts of a text between the occurrences of a character.
pub fn split_text(text: &str, c: char) -> (parts: Vec<&str>)
    ensures
        slices(parts@) == split(text@, c),
        parts@.len() >= 1,
{
    let length: usize = text.unicode_len();
    let mut parts: Vec<&str> = Vec::new();
    let mut at: usize = 0;
    assert(slices(parts@) + split_from(text@, c, 0) =~= split(text@, c));
    loop
        invariant
            at <= length == text@.len(),
            slices(parts@) + split_from(text@, c, at as int) == split(text@, c),
        decreases length - at,
    {
        let end: usize = position_of(text, c, at);
        let part: &str = text.substring_char(at, end);
        let ghost before = slices(parts@);
        parts.push(part);
        assert(slices(parts@) =~= before.push(part@));
        if end >= length {
            assert(slices(parts@) =~= before + split_from(text@, c, at as int));
            return parts;
        }
        assert(before + (seq![part@] + split_from(text@, c, end + 1)) =~= slices(parts@)
            + split_from(text@, c, end + 1));
        at = end + 1;
    }
}

/// The byte strings of a list of slices.
pub open spec fn byte_slices(list: Seq<&[u8]>) -> Seq<Seq<u8>> {
    list.map_values(|s: &[u8]| s@)
}

/// The position of the first occurrence of a byte at or behind a position; the
/// length where there is none.
pub open spec fn find_byte(s: Seq<u8>, b: u8, at: int) -> int
    decreases s.len() - at,
{
    if at >= s.len() {
        s.len() as int
    } else if s[at] == b {
        at
    } else {
        find_byte(s, b, at + 1)
    }
}

/// The parts of a byte string from a position on, between the occurrences of a
/// byte.
pub open spec fn split_bytes_from(s: Seq<u8>, b: u8, at: int) -> Seq<Seq<u8>>
    decreases s.len() - at,
{
    let end = find_byte(s, b, at);
    if at < 0 || at > s.len() || end >= s.len() || end < at {
        seq![s.subrange(at, s.len() as int)]
    } else {
        seq![s.subrange(at, end)] + split_bytes_from(s, b, end + 1)
    }
}

/// The parts of a byte string between the occurrences of a byte.
pub open spec fn split_bytes(s: Seq<u8>, b: u8) -> Seq<Seq<u8>> {
    split_bytes_from(s, b, 0)
}

/// The position of the first occurrence of a byte at or behind a position; the
/// length where there is none.
pub fn byte_position(bytes: &[u8], b: u8, from: usize) -> (at: usize)
    requires
        from <= bytes@.len(),
    ensures
        at == find_byte(bytes@, b, from as int),
        from <= at <= bytes@.len(),
        at < bytes@.len() ==> bytes@[at as int] == b,
{
    let length: usize = bytes.len();
    let mut at: usize = from;
    while at < length && bytes[at] != b
        invariant
            from <= at <= length == bytes@.len(),
            find_byte(bytes@, b, at as int) == find_byte(bytes@, b, from as int),
        decreases length - at,
    {
        at = at + 1;
    }
    at
}

/// The parts of a byte string between the occurrences of a byte.
pub fn byte_parts(bytes: &[u8], b: u8) -> (parts: Vec<&[u8]>)
    ensures
        byte_slices(parts@) == split_bytes(bytes@, b),
        parts@.len() >= 1,
{
    let length: usize = bytes.len();
    let mut parts: Vec<&[u8]> = Vec::new();
    let mut at: usize = 0;
    assert(byte_slices(parts@) + split_bytes_from(bytes@, b, 0) =~= split_bytes(bytes@, b));
    loop
        invariant
            at <= length == bytes@.len(),
            byte_slices(parts@) + split_bytes_from(bytes@, b, at as int) == split_bytes(bytes@, b),
        decreases length - at,
    {
        let end: usize = byte_position(bytes, b, at);
        let part: &[u8] = slice_subrange(bytes, at, end);
        let ghost before = byte_slices(parts@);
        parts.push(part);
        assert(byte_slices(parts@) =~= before.push(part@));
        if end >= length {
            assert(byte_slices(parts@) =~= before + split_bytes_from(bytes@, b, at as int));
            return parts;
        }
        assert(before + (seq![part@] + split_bytes_from(bytes@, b, end + 1)) =~= byte_slices(parts@)
            + split_bytes_from(bytes@, b, end + 1));
        at = end + 1;
    }
}

/// The characters with the Unicode property White_Space.
pub open spec fn is_white(c: char) -> bool {
    let n = c as u32;
    9 <= n <= 13 || n == 32 || n == 0x85 || n == 0xa0 || n == 0x1680 || 0x2000 <= n <= 0x200a || n
        == 0x2028 || n == 0x2029 || n == 0x202f || n == 0x205f || n == 0x3000
}

/// The character has the Unicode property White_Space.
pub fn white(c: char) -> (r: bool)
    ensures
        r == is_white(c),
{
    let n: u32 = c as u32;
    (9 <= n && n <= 13) || n == 32 || n == 0x85 || n == 0xa0 || n == 0x1680 || (0x2000 <= n && n
        <= 0x200a) || n == 0x2028 || n == 0x2029 || n == 0x202f || n == 0x205f || n == 0x3000
}

/// Bytes as characters, with what is not UTF-8 replaced.
pub uninterp spec fn lossy(bytes: Seq<u8>) -> Seq<char>;

/// Calls `String::from_utf8_lossy`. What replaces invalid bytes is fixed by the
/// bytes.
#[verifier::external_body]
pub(crate) fn lossy_text(bytes: &[u8]) -> (text: String)
    ensures
        text@ == lossy(bytes@),
{
    String::from_utf8_lossy(bytes).into_owned()
}

/// The characters of bytes that are valid UTF-8.
pub fn decode_valid(bytes: &[u8]) -> (text: Option<&str>)
    ensures
        text is Some <==> valid_utf8(bytes@),
        text matches Some(text) ==> text@ == decoded(bytes@),
{
    match from_utf8(bytes) {
        Some(text) => {
            proof {
                encode_utf8_decode_utf8(text@);
            }
            Some(text)
        },
        None => None,
    }
}

} // verus!
