//! How numbers and columns are written.

use vstd::prelude::*;

use crate::format::{decimal, digits_value, is_digits, joined, signed, signed_decimal, unsigned};
use crate::output::{blanks, grouped, left_aligned, readable, right_aligned};

verus! {

/// The value of a row of digits.
pub open spec fn number(digits: Seq<char>) -> int
    decreases digits.len(),
{
    if digits.len() == 0 {
        0
    } else {
        10 * number(digits.drop_last()) + (digits.last() as int - '0' as int)
    }
}

proof fn lemma_values_agree(digits: Seq<char>)
    ensures
        number(digits) == digits_value(digits),
    decreases digits.len(),
{
    if digits.len() > 0 {
        lemma_values_agree(digits.drop_last());
    }
}

/// A decimal number is made of digits, has no leading zero, and has the value it was
/// written for.
pub proof fn decimals_have_their_value(n: nat)
    ensures
        number(decimal(n)) == n,
        decimal(n).len() > 0,
        forall|k: int| 0 <= k < decimal(n).len() ==> '0' <= #[trigger] decimal(n)[k] <= '9',
        n > 0 ==> decimal(n)[0] != '0',
    decreases n,
{
    let d = (n % 10) as int;
    assert((48 + d) as char as int == 48 + d);
    if n >= 10 {
        decimals_have_their_value(n / 10);
        assert(decimal(n).drop_last() =~= decimal(n / 10));
    } else {
        let one = decimal(n);
        assert((48 + n) as char as int == 48 + n);
        assert(one.len() == 1);
        assert(one.drop_last().len() == 0);
        assert(number(one.drop_last()) == 0);
    }
}

/// Reading a written number gives it back, as long as it is in range.
pub proof fn written_numbers_read_back(n: int, max: int)
    requires
        0 <= n <= max,
    ensures
        unsigned(decimal(n as nat), max) == Some(n),
        signed(decimal(n as nat), max) == Some(n),
        signed(signed_decimal(-n), max) == Some(-n),
{
    let text = decimal(n as nat);
    decimals_have_their_value(n as nat);
    lemma_values_agree(text);
    assert(text[0] != '+' && text[0] != '-');
    assert(is_digits(text));
    reveal_strlit("-");
    let minus = signed_decimal(-n);
    if n > 0 {
        assert(minus[0] == '-');
        assert(minus.subrange(1, minus.len() as int) =~= text);
    }
}

/// The text behind a leading plus sign, or all of it.
pub open spec fn behind_plus(text: Seq<char>) -> Seq<char> {
    if text.len() > 0 && text[0] == '+' {
        text.subrange(1, text.len() as int)
    } else {
        text
    }
}

/// The text is made of digits alone, at least one of them.
pub open spec fn all_digits(text: Seq<char>) -> bool {
    text.len() > 0 && forall|k: int| 0 <= k < text.len() ==> '0' <= #[trigger] text[k] <= '9'
}

/// What is read as a number is made of digits, behind an optional plus sign, and is that
/// number.
pub proof fn numbers_are_digits(text: Seq<char>, max: int)
    ensures
        unsigned(text, max) is Some <==> all_digits(behind_plus(text)) && number(
            behind_plus(text),
        ) <= max,
        unsigned(text, max) is Some ==> unsigned(text, max)->0 == number(behind_plus(text)),
{
    let digits = behind_plus(text);
    lemma_values_agree(digits);
    assert(is_digits(digits) <==> forall|k: int|
        0 <= k < digits.len() ==> '0' <= #[trigger] digits[k] <= '9') by {
        if is_digits(digits) {
            assert forall|k: int| 0 <= k < digits.len() implies '0' <= #[trigger] digits[k]
                <= '9' by {
                assert(crate::format::is_digit(digits[k]));
            }
        }
    }
}

/// Up to three digits stand together; from there on a comma stands before each three.
pub proof fn thousands_are_set_apart(digits: Seq<char>, more: Seq<char>)
    requires
        more.len() == 3,
        digits.len() > 0,
    ensures
        digits.len() <= 3 ==> grouped(digits) == digits,
        grouped(digits + more) == grouped(digits) + seq![','] + more,
{
    reveal_strlit(",");
    let all = digits + more;
    assert(all.subrange(0, all.len() - 3) =~= digits);
    assert(all.subrange(all.len() - 3, all.len() as int) =~= more);
    assert(","@ =~= seq![',']);
}

/// A count is written as its decimal digits, in groups.
pub proof fn counts_are_grouped(value: usize)
    ensures
        value < 1000 ==> readable(value) == decimal(value as nat),
        readable(value) == grouped(decimal(value as nat)),
{
    if value < 1000 {
        let n = value as nat;
        lemma_short(n);
    }
}

proof fn lemma_short(n: nat)
    requires
        n < 1000,
    ensures
        decimal(n).len() <= 3,
{
    reveal_with_fuel(decimal, 4);
}

proof fn lemma_blanks(n: int)
    ensures
        blanks(n).len() == if n > 0 {
            n
        } else {
            0
        },
        forall|k: int| 0 <= k < n ==> #[trigger] blanks(n)[k] == ' ',
    decreases n,
{
    reveal_strlit(" ");
    if n > 0 {
        lemma_blanks(n - 1);
        assert forall|k: int| 0 <= k < n implies #[trigger] blanks(n)[k] == ' ' by {
            if k < n - 1 {
                assert(blanks(n)[k] == blanks(n - 1)[k]);
            } else {
                assert(blanks(n)[k] == " "@[0]);
            }
        }
    }
}

/// A column is at least as wide as asked. On the left or on the right the text fills it,
/// and the rest is blank.
pub proof fn columns_are_filled(text: Seq<char>, width: nat)
    ensures
        text.len() >= width ==> left_aligned(text, width) == text && right_aligned(text, width)
            == text,
        text.len() < width ==> {
            let left = left_aligned(text, width);
            let right = right_aligned(text, width);
            let gap = width - text.len();
            &&& left.len() == width && right.len() == width
            &&& left.subrange(0, text.len() as int) == text
            &&& right.subrange(gap, width as int) == text
            &&& forall|k: int| text.len() <= k < width ==> #[trigger] left[k] == ' '
            &&& forall|k: int| 0 <= k < gap ==> #[trigger] right[k] == ' '
        },
{
    lemma_blanks(width - text.len());
    let left = left_aligned(text, width);
    let right = right_aligned(text, width);
    let gap = width - text.len();
    if gap <= 0 {
        assert(left =~= text);
        assert(right =~= text);
    } else {
        assert(left.subrange(0, text.len() as int) =~= text);
        assert(right.subrange(gap, width as int) =~= text);
        assert forall|k: int| text.len() <= k < width implies #[trigger] left[k] == ' ' by {
            assert(left[k] == blanks(gap)[k - text.len()]);
        }
        assert forall|k: int| 0 <= k < gap implies #[trigger] right[k] == ' ' by {
            assert(right[k] == blanks(gap)[k]);
        }
    }
}

/// Parts are joined in their order with the separator between any two of them.
pub proof fn parts_are_joined(parts: Seq<Seq<char>>, part: Seq<char>, separator: Seq<char>)
    ensures
        joined(Seq::empty(), separator).len() == 0,
        joined(seq![part], separator) == part,
        parts.len() > 0 ==> joined(parts.push(part), separator) == joined(parts, separator)
            + separator + part,
{
    assert(parts.push(part).drop_last() =~= parts);
}

} // verus!
