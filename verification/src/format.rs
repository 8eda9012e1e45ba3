//! Numbers and lists as text.

use vstd::prelude::*;
use vstd::string::*;

verus! {

/// The texts of a list.
pub open spec fn texts(list: Seq<String>) -> Seq<Seq<char>> {
    list.map_values(|s: String| s@)
}

/// The texts of a list of literals.
pub open spec fn literals(list: Seq<&'static str>) -> Seq<Seq<char>> {
    list.map_values(|s: &'static str| s@)
}

/// The text of an optional string.
pub open spec fn optional(text: Option<String>) -> Option<Seq<char>> {
    match text {
        Some(text) => Some(text@),
        None => None,
    }
}

/// The text of an optional string slice.
pub open spec fn optional_str(text: Option<&str>) -> Option<Seq<char>> {
    match text {
        Some(text) => Some(text@),
        None => None,
    }
}

pub open spec fn digit(d: int) -> char {
    (48 + d) as char
}

pub open spec fn is_digit(c: char) -> bool {
    '0' <= c <= '9'
}

pub open spec fn digit_value(c: char) -> int {
    c as int - 48
}

/// A number in decimal digits.
pub open spec fn decimal(n: nat) -> Seq<char>
    decreases n,
{
    if n < 10 {
        seq![digit(n as int)]
    } else {
        decimal(n / 10).push(digit((n % 10) as int))
    }
}

fn digit_text(d: u64) -> (text: &'static str)
    requires
        d < 10,
    ensures
        text@ == seq![digit(d as int)],
{
    proof {
        reveal_strlit("0");
        reveal_strlit("1");
        reveal_strlit("2");
        reveal_strlit("3");
        reveal_strlit("4");
        reveal_strlit("5");
        reveal_strlit("6");
        reveal_strlit("7");
        reveal_strlit("8");
        reveal_strlit("9");
    }
    let text: &'static str = if d == 0 {
        "0"
    } else if d == 1 {
        "1"
    } else if d == 2 {
        "2"
    } else if d == 3 {
        "3"
    } else if d == 4 {
        "4"
    } else if d == 5 {
        "5"
    } else if d == 6 {
        "6"
    } else if d == 7 {
        "7"
    } else if d == 8 {
        "8"
    } else {
        "9"
    };
    assert(text@ =~= seq![digit(d as int)]);
    text
}

/// A number in decimal digits.
pub fn decimal_text(n: u64) -> (text: String)
    ensures
        text@ == decimal(n as nat),
    decreases n,
{
    if n < 10 {
        digit_text(n).to_owned()
    } else {
        let mut text = decimal_text(n / 10);
        let ghost front = text@;
        text.append(digit_text(n % 10));
        assert(text@ =~= front.push(digit((n % 10) as int)));
        text
    }
}

/// A count in decimal digits.
pub fn count_text(n: usize) -> (text: String)
    ensures
        text@ == decimal(n as nat),
{
    decimal_text(n as u64)
}

/// A number in decimal digits, with a minus sign where it is negative.
pub open spec fn signed_decimal(n: int) -> Seq<char> {
    if n < 0 {
        "-"@ + decimal((-n) as nat)
    } else {
        decimal(n as nat)
    }
}

/// A number in decimal digits, with a minus sign where it is negative.
pub fn signed_text(n: i64) -> (text: String)
    ensures
        text@ == signed_decimal(n as int),
{
    if n == i64::MIN {
        let mut text = "-".to_owned();
        let digits = decimal_text(0x8000_0000_0000_0000);
        text.append(digits.as_str());
        text
    } else if n < 0 {
        let mut text = "-".to_owned();
        let digits = decimal_text((0 - n) as u64);
        text.append(digits.as_str());
        text
    } else {
        decimal_text(n as u64)
    }
}

/// Every character is a decimal digit.
pub open spec fn is_digits(s: Seq<char>) -> bool {
    forall|k: int| 0 <= k < s.len() ==> is_digit(#[trigger] s[k])
}

/// The number that decimal digits spell.
pub open spec fn digits_value(s: Seq<char>) -> int
    decreases s.len(),
{
    if s.len() == 0 {
        0
    } else {
        10 * digits_value(s.drop_last()) + digit_value(s.last())
    }
}

/// The digits behind an optional plus sign.
pub open spec fn unsigned_digits(s: Seq<char>) -> Seq<char> {
    if s.len() > 0 && s[0] == '+' {
        s.subrange(1, s.len() as int)
    } else {
        s
    }
}

/// The number that a text spells: digits, with an optional plus sign before
/// them, that make up a number not above `max`.
pub open spec fn unsigned(s: Seq<char>, max: int) -> Option<int> {
    let digits = unsigned_digits(s);
    if digits.len() > 0 && is_digits(digits) && digits_value(digits) <= max {
        Some(digits_value(digits))
    } else {
        None
    }
}

proof fn lemma_digits_grow(s: Seq<char>, n: int)
    requires
        is_digits(s),
        0 <= n <= s.len(),
    ensures
        0 <= digits_value(s.subrange(0, n)) <= digits_value(s),
    decreases s.len(),
{
    if n == s.len() {
        assert(s.subrange(0, n) =~= s);
        if n > 0 {
            lemma_digits_grow(s.drop_last(), n - 1);
            assert(s.drop_last().subrange(0, n - 1) =~= s.drop_last());
            assert(is_digit(s[n - 1]));
        }
    } else {
        assert(is_digit(s[s.len() - 1]));
        lemma_digits_grow(s.drop_last(), n);
        assert(s.drop_last().subrange(0, n) =~= s.subrange(0, n));
    }
}

/// Reads a number: digits, with an optional plus sign before them.
pub fn parse_unsigned(text: &str, max: u64) -> (value: Option<u64>)
    ensures
        match value {
            Some(value) => unsigned(text@, max as int) == Some(value as int),
            None => unsigned(text@, max as int) is None,
        },
{
    let length: usize = text.unicode_len();
    let start: usize = if length > 0 && text.get_char(0) == '+' {
        1
    } else {
        0
    };
    let ghost digits = unsigned_digits(text@);
    assert(digits =~= text@.subrange(start as int, length as int));
    if start == length {
        return None;
    }
    let mut value: u64 = 0;
    let mut k: usize = start;
    assert(digits.subrange(0, 0) =~= Seq::<char>::empty());
    while k < length
        invariant
            start <= k <= length,
            length == text@.len(),
            digits == text@.subrange(start as int, length as int),
            digits == unsigned_digits(text@),
            is_digits(digits.subrange(0, k - start)),
            value == digits_value(digits.subrange(0, k - start)),
            value <= max,
        decreases length - k,
    {
        let c: char = text.get_char(k);
        assert(digits[k - start] == c);
        if !('0' <= c && c <= '9') {
            assert(!is_digit(digits[k - start]));
            return None;
        }
        let d: u64 = (c as u32 - 48) as u64;
        let ghost front = digits.subrange(0, k - start);
        let ghost next = digits.subrange(0, k - start + 1);
        assert(next.drop_last() =~= front);
        assert(next.last() == c);
        assert(is_digits(next)) by {
            assert forall|n: int| 0 <= n < next.len() implies is_digit(#[trigger] next[n]) by {
                if n < front.len() {
                    assert(is_digit(front[n]));
                }
            }
        }
        let within: bool = value <= max / 10 && (value < max / 10 || d <= max % 10);
        if !within {
            assert(digits_value(next) > max);
            proof {
                if is_digits(digits) {
                    lemma_digits_grow(digits, k - start + 1);
                }
            }
            return None;
        }
        value = value * 10 + d;
        k = k + 1;
    }
    assert(digits.subrange(0, length - start) =~= digits);
    Some(value)
}

/// The number that a text spells, with an optional sign before its digits.
pub open spec fn signed(s: Seq<char>, max: int) -> Option<int> {
    if s.len() > 0 && s[0] == '-' {
        let digits = s.subrange(1, s.len() as int);
        if digits.len() > 0 && is_digits(digits) && digits_value(digits) <= max + 1 {
            Some(-digits_value(digits))
        } else {
            None
        }
    } else {
        unsigned(s, max)
    }
}

/// Reads a number with an optional sign before its digits.
pub fn parse_signed(text: &str) -> (value: Option<i64>)
    ensures
        match value {
            Some(value) => signed(text@, i64::MAX as int) == Some(value as int),
            None => signed(text@, i64::MAX as int) is None,
        },
{
    let length: usize = text.unicode_len();
    if length > 0 && text.get_char(0) == '-' {
        let rest: &str = text.substring_char(1, length);
        if length > 1 && rest.get_char(0) == '+' {
            assert(rest@[0] == '+');
            assert(!is_digit(rest@[0]));
            return None;
        }
        match parse_unsigned(rest, 0x8000_0000_0000_0000) {
            Some(value) => if value == 0x8000_0000_0000_0000 {
                Some(i64::MIN)
            } else {
                Some(0 - value as i64)
            },
            None => None,
        }
    } else {
        match parse_unsigned(text, 0x7fff_ffff_ffff_ffff) {
            Some(value) => Some(value as i64),
            None => None,
        }
    }
}

/// The parts of a list with a separator between them.
pub open spec fn joined(parts: Seq<Seq<char>>, separator: Seq<char>) -> Seq<char>
    decreases parts.len(),
{
    if parts.len() == 0 {
        Seq::empty()
    } else if parts.len() == 1 {
        parts[0]
    } else {
        joined(parts.drop_last(), separator) + separator + parts.last()
    }
}

/// The parts of a list with a separator between them.
pub fn join(parts: &Vec<String>, separator: &str) -> (text: String)
    ensures
        text@ == joined(texts(parts@), separator@),
{
    let ghost all = texts(parts@);
    let mut text = String::new();
    assert(text@ =~= Seq::<char>::empty());
    let mut k: usize = 0;
    while k < parts.len()
        invariant
            all == texts(parts@),
            k <= parts@.len(),
            text@ == joined(all.subrange(0, k as int), separator@),
        decreases parts@.len() - k,
    {
        let ghost before = all.subrange(0, k as int);
        let ghost next = all.subrange(0, k + 1);
        assert(next.drop_last() =~= before);
        assert(next.last() == parts@[k as int]@);
        if k > 0 {
            text.append(separator);
        }
        text.append(parts[k].as_str());
        k = k + 1;
        assert(text@ =~= joined(next, separator@));
    }
    assert(all.subrange(0, k as int) =~= all);
    text
}

/// A text between its quotes, with what cannot be printed escaped.
pub uninterp spec fn debug_text(text: Seq<char>) -> Seq<char>;

/// Formats with `{:?}` of the standard library. What it escapes is fixed by the
/// text.
#[verifier::external_body]
pub(crate) fn quoted(text: &str) -> (quote: String)
    ensures
        quote@ == debug_text(text@),
{
    format!("{text:?}")
}

} // verus!
