//! How texts are split, quoted and shown in hexadecimal.

use vstd::prelude::*;

use crate::digest::{fingerprint, hex, hex_digit, is_fingerprint, is_lower_hex, sha256};
use crate::json::{json_char, json_chars, json_list, json_string, json_strings};
use crate::text::{
    find_byte, find_char, is_white, lex_less, lex_less_from, split, split_bytes, split_bytes_from,
    split_from, until,
};

verus! {

pub proof fn lemma_find(s: Seq<char>, c: char, at: int, n: int)
    requires
        0 <= at <= n <= s.len(),
        forall|k: int| at <= k < n ==> s[k] != c,
        n < s.len() ==> s[n] == c,
    ensures
        find_char(s, c, at) == n,
    decreases n - at,
{
    if at < n {
        lemma_find(s, c, at + 1, n);
    }
}

pub proof fn lemma_find_behind(s: Seq<char>, b: Seq<char>, c: char, m: int, at: int)
    requires
        0 <= at <= b.len(),
        0 <= m,
        s.len() == m + b.len(),
        forall|k: int| 0 <= k < b.len() ==> #[trigger] b[k] == s[m + k],
    ensures
        find_char(s, c, m + at) == m + find_char(b, c, at),
        at <= find_char(b, c, at) <= b.len(),
    decreases b.len() - at,
{
    if at < b.len() {
        assert(b[at] == s[m + at]);
        lemma_find_behind(s, b, c, m, at + 1);
    }
}

proof fn lemma_split_behind(s: Seq<char>, b: Seq<char>, c: char, m: int, at: int)
    requires
        0 <= at <= b.len(),
        0 <= m,
        s.len() == m + b.len(),
        forall|k: int| 0 <= k < b.len() ==> #[trigger] b[k] == s[m + k],
    ensures
        split_from(s, c, m + at) == split_from(b, c, at),
    decreases b.len() - at,
{
    lemma_find_behind(s, b, c, m, at);
    let end = find_char(b, c, at);
    if end < b.len() {
        assert(s.subrange(m + at, m + end) =~= b.subrange(at, end));
        lemma_split_behind(s, b, c, m, end + 1);
    } else {
        assert(s.subrange(m + at, s.len() as int) =~= b.subrange(at, b.len() as int));
    }
}

/// A text is split at each separator: what stands before the first one is the first
/// part, and the parts of the rest follow. Without one the text is the only part.
pub proof fn texts_are_split(a: Seq<char>, c: char, b: Seq<char>)
    requires
        !a.contains(c),
    ensures
        split(a, c) == seq![a],
        split(a + seq![c] + b, c) == seq![a] + split(b, c),
        until(a, c) == a,
        until(a + seq![c] + b, c) == a,
        find_char(a + seq![c] + b, c, 0) == a.len(),
        find_char(a, c, 0) == a.len(),
{
    let s = a + seq![c] + b;
    let n = a.len() as int;
    assert forall|k: int| 0 <= k < n implies s[k] != c by {
        assert(s[k] == a[k]);
        assert(a.contains(a[k]));
    }
    assert forall|k: int| 0 <= k < n implies a[k] != c by {
        assert(a.contains(a[k]));
    }
    lemma_find(s, c, 0, n);
    lemma_find(a, c, 0, n);
    assert(s.subrange(0, n) =~= a);
    assert(a.subrange(0, n) =~= a);
    assert forall|k: int| 0 <= k < b.len() implies #[trigger] b[k] == s[n + 1 + k] by {}
    lemma_split_behind(s, b, c, n + 1, 0);
}

pub proof fn lemma_find_in_bytes(s: Seq<u8>, c: u8, at: int, n: int)
    requires
        0 <= at <= n <= s.len(),
        forall|k: int| at <= k < n ==> s[k] != c,
        n < s.len() ==> s[n] == c,
    ensures
        find_byte(s, c, at) == n,
    decreases n - at,
{
    if at < n {
        lemma_find_in_bytes(s, c, at + 1, n);
    }
}

proof fn lemma_bytes_behind(s: Seq<u8>, b: Seq<u8>, c: u8, m: int, at: int)
    requires
        0 <= at <= b.len(),
        0 <= m,
        s.len() == m + b.len(),
        forall|k: int| 0 <= k < b.len() ==> #[trigger] b[k] == s[m + k],
    ensures
        find_byte(s, c, m + at) == m + find_byte(b, c, at),
        at <= find_byte(b, c, at) <= b.len(),
    decreases b.len() - at,
{
    if at < b.len() {
        assert(b[at] == s[m + at]);
        lemma_bytes_behind(s, b, c, m, at + 1);
    }
}

proof fn lemma_split_bytes_behind(s: Seq<u8>, b: Seq<u8>, c: u8, m: int, at: int)
    requires
        0 <= at <= b.len(),
        0 <= m,
        s.len() == m + b.len(),
        forall|k: int| 0 <= k < b.len() ==> #[trigger] b[k] == s[m + k],
    ensures
        split_bytes_from(s, c, m + at) == split_bytes_from(b, c, at),
    decreases b.len() - at,
{
    lemma_bytes_behind(s, b, c, m, at);
    let end = find_byte(b, c, at);
    if end < b.len() {
        assert(s.subrange(m + at, m + end) =~= b.subrange(at, end));
        lemma_split_bytes_behind(s, b, c, m, end + 1);
    } else {
        assert(s.subrange(m + at, s.len() as int) =~= b.subrange(at, b.len() as int));
    }
}

/// Bytes are split in the same way.
pub proof fn bytes_are_split(a: Seq<u8>, c: u8, b: Seq<u8>)
    requires
        !a.contains(c),
    ensures
        split_bytes(a, c) == seq![a],
        split_bytes(a + seq![c] + b, c) == seq![a] + split_bytes(b, c),
        find_byte(a + seq![c] + b, c, 0) == a.len(),
        find_byte(a, c, 0) == a.len(),
{
    let s = a + seq![c] + b;
    let n = a.len() as int;
    assert forall|k: int| 0 <= k < n implies s[k] != c by {
        assert(s[k] == a[k]);
        assert(a.contains(a[k]));
    }
    assert forall|k: int| 0 <= k < n implies a[k] != c by {
        assert(a.contains(a[k]));
    }
    lemma_find_in_bytes(s, c, 0, n);
    lemma_find_in_bytes(a, c, 0, n);
    assert(s.subrange(0, n) =~= a);
    assert(a.subrange(0, n) =~= a);
    assert forall|k: int| 0 <= k < b.len() implies #[trigger] b[k] == s[n + 1 + k] by {}
    lemma_split_bytes_behind(s, b, c, n + 1, 0);
}

proof fn lemma_order(a: Seq<u8>, b: Seq<u8>, i: int, k: int)
    requires
        0 <= i <= k,
        k <= a.len(),
        k <= b.len(),
        forall|j: int| i <= j < k ==> a[j] == b[j],
    ensures
        lex_less_from(a, b, i) == lex_less_from(a, b, k),
    decreases k - i,
{
    if i < k {
        lemma_order(a, b, i + 1, k);
    }
}

/// Texts are ordered by their first difference; a beginning comes before the whole.
pub proof fn first_differences_decide(a: Seq<u8>, b: Seq<u8>, k: int)
    requires
        0 <= k <= a.len(),
        k <= b.len(),
        forall|j: int| 0 <= j < k ==> a[j] == b[j],
    ensures
        k < a.len() && k < b.len() && a[k] < b[k] ==> lex_less(a, b) && !lex_less(b, a),
        k == a.len() && k < b.len() ==> lex_less(a, b) && !lex_less(b, a),
        k == a.len() && k == b.len() ==> !lex_less(a, b),
{
    lemma_order(a, b, 0, k);
    lemma_order(b, a, 0, k);
}

/// The characters that are white in a text.
pub proof fn white_characters(c: char)
    ensures
        c == ' ' || c == '\t' || c == '\n' || c == '\r' ==> is_white(c),
        c as u32 == 11 || c as u32 == 12 || c as u32 == 0x85 || c as u32 == 0xa0 || c as u32
            == 0x3000 ==> is_white(c),
        33 <= c as u32 <= 126 ==> !is_white(c),
        (c as u32) < 9 || 14 <= c as u32 <= 31 ==> !is_white(c),
{
}

/// A digit stands for its value in base sixteen, in lower case.
pub proof fn hexadecimal_digits(d: int)
    requires
        0 <= d < 16,
    ensures
        hex_digit(d) == seq![
            '0',
            '1',
            '2',
            '3',
            '4',
            '5',
            '6',
            '7',
            '8',
            '9',
            'a',
            'b',
            'c',
            'd',
            'e',
            'f',
        ][d],
        is_lower_hex(hex_digit(d)),
{
    assert(d == 0 || d == 1 || d == 2 || d == 3 || d == 4 || d == 5 || d == 6 || d == 7 || d == 8
        || d == 9 || d == 10 || d == 11 || d == 12 || d == 13 || d == 14 || d == 15);
}

/// The characters of a hexadecimal text.
pub proof fn hexadecimal_characters(c: char)
    ensures
        is_lower_hex(c) <==> '0' <= c <= '9' || 'a' <= c <= 'f',
{
}

/// A fingerprint is the digest of the bytes, each byte as two digits, the higher first.
pub proof fn fingerprints_show_digests(bytes: Seq<u8>, b: u8)
    ensures
        fingerprint(bytes) == hex(sha256(bytes)),
        hex(Seq::empty()).len() == 0,
        hex(bytes.push(b)) == hex(bytes) + seq![hex_digit(b as int / 16), hex_digit(b as int % 16)],
        hex(bytes).len() == 2 * bytes.len(),
    decreases bytes.len(),
{
    assert(bytes.push(b).drop_last() =~= bytes);
    assert(hex(bytes.push(b)) =~= hex(bytes) + seq![
        hex_digit(b as int / 16),
        hex_digit(b as int % 16),
    ]);
    if bytes.len() > 0 {
        fingerprints_show_digests(bytes.drop_last(), b);
    }
}

/// A fingerprint has sixty-four lower-case hexadecimal digits.
pub proof fn shape_of_fingerprints(text: Seq<char>)
    ensures
        is_fingerprint(text) <==> text.len() == 64 && forall|k: int|
            0 <= k < 64 ==> '0' <= #[trigger] text[k] <= '9' || 'a' <= text[k] <= 'f',
{
    if text.len() == 64 {
        if is_fingerprint(text) {
            assert forall|k: int| 0 <= k < 64 implies '0' <= #[trigger] text[k] <= '9' || 'a'
                <= text[k] <= 'f' by {
                assert(is_lower_hex(text[k]));
            }
        }
    }
}

/// In a JSON string the quotation mark, the backslash and the control characters are
/// escaped, and every other character stands for itself.
pub proof fn json_escapes(c: char)
    ensures
        json_char('"') == seq!['\\', '"'],
        json_char('\\') == seq!['\\', '\\'],
        json_char('\n') == seq!['\\', 'n'],
        json_char('\r') == seq!['\\', 'r'],
        json_char('\t') == seq!['\\', 't'],
        c as int == 8 ==> json_char(c) == seq!['\\', 'b'],
        c as int == 12 ==> json_char(c) == seq!['\\', 'f'],
        (c as int) < 32 && !seq![8int, 9, 10, 12, 13].contains(c as int) ==> json_char(c) == seq![
            '\\',
            'u',
            '0',
            '0',
            hex_digit(c as int / 16),
            hex_digit(c as int % 16),
        ],
        c as int >= 32 && c != '"' && c != '\\' ==> json_char(c) == seq![c],
{
    let plain = seq![8int, 9, 10, 12, 13];
    assert(plain[0] == 8 && plain[1] == 9 && plain[2] == 10 && plain[3] == 12 && plain[4] == 13);
}

/// A JSON string stands between quotation marks, character by character; a list of them
/// stands between brackets, with commas between any two.
pub proof fn json_texts(text: Seq<char>, c: char, list: Seq<Seq<char>>, k: int)
    ensures
        json_string(text) == seq!['"'] + json_chars(text) + seq!['"'],
        json_chars(Seq::empty()).len() == 0,
        json_chars(text.push(c)) == json_chars(text) + json_char(c),
        json_strings(list).len() == list.len(),
        0 <= k < list.len() ==> json_strings(list)[k] == json_string(list[k]),
        json_list(list) == seq!['['] + crate::format::joined(json_strings(list), seq![',']) + seq![
            ']',
        ],
{
    assert(text.push(c).drop_last() =~= text);
    reveal_strlit("[");
    reveal_strlit(",");
    reveal_strlit("]");
    assert("["@ =~= seq!['[']);
    assert(","@ =~= seq![',']);
    assert("]"@ =~= seq![']']);
}

} // verus!
