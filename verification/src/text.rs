//! Decimal numbers as text, and comparison of texts.
//!
//! Storage keys carry a number in decimal, so the crate needs to write one and
//! to read one back. Both directions are stated over plain character sequences.

use vstd::prelude::*;

verus! {

/// The character that stands for a single decimal digit.
pub open spec fn digit(d: nat) -> char
    recommends
        d < 10,
{
    (48 + d) as char
}

/// The shortest decimal rendering of `n`: no sign, no leading zero.
pub open spec fn decimal(n: nat) -> Seq<char>
    decreases n,
{
    if n < 10 {
        seq![digit(n)]
    } else {
        decimal(n / 10).push(digit(n % 10))
    }
}

/// Whether a character is one of `0` to `9`.
pub open spec fn is_digit(c: char) -> bool {
    48 <= c as int <= 57
}

/// Whether a text holds decimal digits only.
pub open spec fn all_digits(s: Seq<char>) -> bool {
    forall|i: int| 0 <= i < s.len() ==> is_digit(#[trigger] s[i])
}

/// The number that a text of decimal digits stands for.
pub open spec fn digits_value(s: Seq<char>) -> nat
    decreases s.len(),
{
    if s.len() == 0 {
        0
    } else {
        digits_value(s.drop_last()) * 10 + (s.last() as int - 48) as nat
    }
}

/// A text without its leading `+`, if it has one.
pub open spec fn without_plus(s: Seq<char>) -> Seq<char> {
    if s.len() > 0 && s[0] == '+' {
        s.skip(1)
    } else {
        s
    }
}

/// The `u32` that a text stands for: an optional `+`, then at least one
/// decimal digit and nothing else, with a value that fits.
pub open spec fn parsed_u32(s: Seq<char>) -> Option<u32> {
    let digits = without_plus(s);
    if digits.len() > 0 && all_digits(digits) && digits_value(digits) <= u32::MAX {
        Some(digits_value(digits) as u32)
    } else {
        None
    }
}

/// Whether a numeral says more than it must: a leading `+`, or a leading zero
/// in front of further digits.
pub open spec fn is_redundant(s: Seq<char>) -> bool {
    ||| s.len() > 0 && s[0] == '+'
    ||| s.len() > 1 && s[0] == '0'
}

/// A decimal rendering holds digits only, is not empty, and stands for the
/// number it renders.
pub proof fn lemma_decimal_is_read_back(n: nat)
    ensures
        decimal(n).len() > 0,
        all_digits(decimal(n)),
        digits_value(decimal(n)) == n,
    decreases n,
{
    reveal_with_fuel(digits_value, 2);
    if n < 10 {
        assert(decimal(n).drop_last() =~= Seq::<char>::empty());
    } else {
        lemma_decimal_is_read_back(n / 10);
        assert(decimal(n).drop_last() =~= decimal(n / 10));
    }
}

/// Cutting digits off the end of a numeral never makes its value larger.
proof fn lemma_prefix_value(s: Seq<char>, n: int)
    requires
        all_digits(s),
        0 <= n <= s.len(),
    ensures
        digits_value(s.take(n)) <= digits_value(s),
    decreases s.len(),
{
    if n == s.len() {
        assert(s.take(n) =~= s);
    } else {
        assert(s.drop_last().take(n) =~= s.take(n));
        assert(is_digit(s[s.len() - 1]));
        lemma_prefix_value(s.drop_last(), n);
    }
}

/// A text of digits without a superfluous zero is the rendering of its value.
pub proof fn lemma_plain_numeral_is_decimal(s: Seq<char>)
    requires
        s.len() > 0,
        all_digits(s),
        !is_redundant(s),
    ensures
        decimal(digits_value(s)) == s,
        s.len() > 1 ==> digits_value(s) >= 10,
    decreases s.len(),
{
    reveal_with_fuel(digits_value, 2);
    assert(is_digit(s[s.len() - 1]));
    if s.len() == 1 {
        assert(s.drop_last() =~= Seq::<char>::empty());
        assert(decimal(digits_value(s)) =~= s);
    } else {
        let front = s.drop_last();
        assert(front[0] == s[0]);
        assert(is_digit(s[0]));
        lemma_plain_numeral_is_decimal(front);
        if front.len() == 1 {
            assert(front.drop_last() =~= Seq::<char>::empty());
            assert(digits_value(front) >= 1);
        }
        let v = digits_value(s);
        assert(v / 10 == digits_value(front) && v % 10 == (s.last() as int - 48) as nat);
        assert(decimal(v) =~= s);
    }
}

/// The single-character text of a decimal digit.
fn digit_text(d: u32) -> (r: &'static str)
    requires
        d < 10,
    ensures
        r@ == seq![digit(d as nat)],
{
    proof {
        reveal_strlit("0");
        reveal_strlit("1");
        reveal_strlit("2");
        reveal_strlit("3");
        reveal_strlit("4");
        reveal_strlit("5");
        reveal_strlit("6");
        reveal_strlit("7");
        reveal_strlit("8");
        reveal_strlit("9");
    }
    match d {
        0 => "0",
        1 => "1",
        2 => "2",
        3 => "3",
        4 => "4",
        5 => "5",
        6 => "6",
        7 => "7",
        8 => "8",
        _ => "9",
    }
}

/// Appends the decimal rendering of `n`.
pub fn append_decimal(out: &mut String, n: u32)
    ensures
        final(out)@ == old(out)@ + decimal(n as nat),
    decreases n,
{
    if n >= 10 {
        append_decimal(out, n / 10);
    }
    out.append(digit_text(n % 10));
    proof {
        assert(final(out)@ =~= old(out)@ + decimal(n as nat));
    }
}

/// Whether two texts hold the same characters.
pub fn same_text(a: &str, b: &str) -> (r: bool)
    ensures
        r == (a@ == b@),
{
    a.to_owned() == b.to_owned()
}

/// Reads a `u32` written in decimal.
pub fn parse_u32(s: &str) -> (r: Option<u32>)
    ensures
        r == parsed_u32(s@),
{
    let len: usize = s.unicode_len();
    let rest: &str = if len > 0 && s.get_char(0) == '+' {
        s.substring_char(1, len)
    } else {
        s
    };
    let ghost digits = without_plus(s@);
    assert(rest@ =~= digits);
    if rest.is_empty() {
        return None;
    }
    let mut total: u32 = 0;
    for c in it: rest.chars()
        invariant
            it.seq() == digits,
            digits == without_plus(s@),
            digits.len() > 0,
            all_digits(digits.take(it.index())),
            total == digits_value(digits.take(it.index())),
    {
        let ghost n = it.index();
        let code: u32 = c as u32;
        proof {
            assert(c == digits[n]);
            vstd::utf8::char_u32_cast(c, code);
            assert(code as int == c as int);
        }
        if code < 48 || code > 57 {
            return None;
        }
        let next: u64 = total as u64 * 10 + (code - 48) as u64;
        proof {
            assert(digits.take(n + 1).drop_last() =~= digits.take(n));
            if next > u32::MAX && all_digits(digits) {
                lemma_prefix_value(digits, n + 1);
            }
        }
        if next > u32::MAX as u64 {
            return None;
        }
        total = next as u32;
    }
    assert(digits.take(digits.len() as int) =~= digits);
    Some(total)
}

} // verus!
