//! Numbers as text: the numerals that metric names and metric values hold.

use crate::text::{same_ignoring_case, tail_is_word};
use vstd::prelude::*;
use vstd::string::*;

verus! {

/// Whether `c` is one of the ten decimal digits.
pub open spec fn is_digit(c: char) -> bool {
    '0' <= c && c <= '9'
}

/// The number that a decimal digit stands for.
pub open spec fn digit_value(c: char) -> nat
    recommends
        is_digit(c),
{
    (c as u32 - '0' as u32) as nat
}

/// Whether every character of `s` is a decimal digit.
pub open spec fn all_digits(s: Seq<char>) -> bool {
    forall|i: int| 0 <= i < s.len() ==> is_digit(#[trigger] s[i])
}

/// The number that a run of decimal digits stands for.
pub open spec fn digits_value(s: Seq<char>) -> nat
    recommends
        all_digits(s),
    decreases s.len(),
{
    if s.len() == 0 {
        0
    } else {
        digits_value(s.drop_last()) * 10 + digit_value(s.last())
    }
}

/// The digits of an unsigned numeral: the text without a leading `+`.
pub open spec fn unsigned_digits(s: Seq<char>) -> Seq<char> {
    if s.len() > 0 && s[0] == '+' {
        s.drop_first()
    } else {
        s
    }
}

/// The number that `s` denotes as an unsigned 32-bit numeral: an optional
/// `+`, then one or more decimal digits, with a value that fits. Anything
/// else denotes no number.
pub open spec fn parse_u32_spec(s: Seq<char>) -> Option<u32> {
    let digits = unsigned_digits(s);
    if digits.len() > 0 && all_digits(digits) && digits_value(digits) <= u32::MAX {
        Some(digits_value(digits) as u32)
    } else {
        None
    }
}

/// A longer run of digits stands for a number at least as large.
proof fn lemma_digits_value_grows(s: Seq<char>, n: int)
    requires
        0 <= n <= s.len(),
    ensures
        digits_value(s.take(n)) <= digits_value(s),
    decreases s.len() - n,
{
    if n < s.len() {
        lemma_digits_value_grows(s, n + 1);
        assert(s.take(n + 1).drop_last() =~= s.take(n));
        assert(digits_value(s.take(n)) <= digits_value(s.take(n + 1))) by (nonlinear_arith)
            requires
                digits_value(s.take(n + 1)) == digits_value(s.take(n)) * 10 + digit_value(
                    s.take(n + 1).last(),
                ),
        ;
    } else {
        assert(s.take(n) =~= s);
    }
}

/// Whether `c` is a decimal digit.
pub fn is_digit_char(c: char) -> (yes: bool)
    ensures
        yes == is_digit(c),
{
    c >= '0' && c <= '9'
}

/// Reads `chars[from..to]` as an unsigned 32-bit numeral.
pub fn parse_u32(chars: &Vec<char>, from: usize, to: usize) -> (value: Option<u32>)
    requires
        from <= to <= chars@.len(),
    ensures
        value == parse_u32_spec(chars@.subrange(from as int, to as int)),
{
    let ghost s = chars@.subrange(from as int, to as int);
    let mut i: usize = from;
    if i < to && chars[i] == '+' {
        i = i + 1;
    }
    let start: usize = i;
    let ghost digits = unsigned_digits(s);
    assert(digits =~= chars@.subrange(start as int, to as int));
    if start == to {
        return None;
    }
    let mut value: u64 = 0;
    while i < to
        invariant
            from <= start <= i <= to <= chars@.len(),
            digits == chars@.subrange(start as int, to as int),
            digits == unsigned_digits(chars@.subrange(from as int, to as int)),
            digits.len() > 0,
            all_digits(digits.take(i - start)),
            value == digits_value(digits.take(i - start)),
            value <= u32::MAX,
        decreases to - i,
    {
        let c: char = chars[i];
        if !is_digit_char(c) {
            assert(!is_digit(digits[i - start]));
            return None;
        }
        let d: u64 = (c as u32 - '0' as u32) as u64;
        proof {
            assert(digits.take(i - start + 1).drop_last() =~= digits.take(i - start));
            assert(digits.take(i - start + 1).last() == c);
            assert forall|k: int| 0 <= k < i - start + 1 implies is_digit(
                #[trigger] digits.take(i - start + 1)[k],
            ) by {
                if k < i - start {
                    assert(digits.take(i - start + 1)[k] == digits.take(i - start)[k]);
                }
            }
        }
        value = value * 10 + d;
        i = i + 1;
        if value > 0xffff_ffff {
            proof {
                lemma_digits_value_grows(digits, i - start);
            }
            return None;
        }
    }
    assert(digits.take(i - start) =~= digits);
    Some(value as u32)
}

/// The end of the longest run of decimal digits of `s` that starts at `from`.
pub open spec fn digits_end(s: Seq<char>, from: int) -> int
    decreases s.len() - from,
{
    if 0 <= from < s.len() && is_digit(s[from]) {
        digits_end(s, from + 1)
    } else {
        from
    }
}

/// Whether `c` is a sign.
pub open spec fn is_sign(c: char) -> bool {
    c == '+' || c == '-'
}

/// Whether `c` opens an exponent.
pub open spec fn is_exponent_mark(c: char) -> bool {
    c == 'e' || c == 'E'
}

/// Where the exponent that starts at `from` ends, if `s` holds one there:
/// the mark, an optional sign, then one or more digits.
pub open spec fn exponent_end(s: Seq<char>, from: int) -> Option<int> {
    if 0 <= from < s.len() && is_exponent_mark(s[from]) {
        let digits = if from + 1 < s.len() && is_sign(s[from + 1]) {
            from + 2
        } else {
            from + 1
        };
        if digits_end(s, digits) > digits {
            Some(digits_end(s, digits))
        } else {
            None
        }
    } else {
        None
    }
}

/// Whether `s[from..]` is a decimal number: digits with at most one point
/// among them, at least one digit in all, then optionally an exponent.
pub open spec fn is_decimal_number(s: Seq<char>, from: int) -> bool {
    let whole_end = digits_end(s, from);
    let has_point = whole_end < s.len() && s[whole_end] == '.';
    let fraction = if has_point {
        whole_end + 1
    } else {
        whole_end
    };
    let fraction_end = if has_point {
        digits_end(s, fraction)
    } else {
        whole_end
    };
    &&& (whole_end - from) + (fraction_end - fraction) > 0
    &&& (fraction_end == s.len() || exponent_end(s, fraction_end) == Some(s.len() as int))
}

/// Whether `s` names infinity or not-a-number, in any case of letters.
pub open spec fn is_special_value(s: Seq<char>) -> bool {
    ||| same_ignoring_case(s, "inf"@)
    ||| same_ignoring_case(s, "infinity"@)
    ||| same_ignoring_case(s, "nan"@)
}

/// Where the body of a signed numeral starts: after its sign, if it has one.
pub open spec fn after_sign(s: Seq<char>) -> int {
    if s.len() > 0 && is_sign(s[0]) {
        1
    } else {
        0
    }
}

/// Whether `s` is the text of a floating-point number: an optional sign,
/// then a decimal number, or `inf`, `infinity` or `nan` in any case of
/// letters. A metric value that is no such text is no number.
pub open spec fn is_float_literal(s: Seq<char>) -> bool {
    is_decimal_number(s, after_sign(s)) || is_special_value(s.skip(after_sign(s)))
}

/// The end of the run of digits that starts at `from`.
fn scan_digits(chars: &Vec<char>, from: usize) -> (end: usize)
    requires
        from <= chars@.len(),
    ensures
        end == digits_end(chars@, from as int),
        from <= end <= chars@.len(),
{
    let mut i: usize = from;
    while i < chars.len() && is_digit_char(chars[i])
        invariant
            from <= i <= chars@.len(),
            digits_end(chars@, from as int) == digits_end(chars@, i as int),
        decreases chars@.len() - i,
    {
        i += 1;
    }
    i
}

/// Whether `chars` is the text of a floating-point number.
pub fn is_float_text(chars: &Vec<char>) -> (yes: bool)
    ensures
        yes == is_float_literal(chars@),
{
    let len: usize = chars.len();
    let body: usize = if len > 0 && (chars[0] == '+' || chars[0] == '-') {
        1
    } else {
        0
    };
    if tail_is_word(chars, body, "inf") || tail_is_word(chars, body, "infinity") || tail_is_word(
        chars,
        body,
        "nan",
    ) {
        return true;
    }
    let whole_end: usize = scan_digits(chars, body);
    let has_point: bool = whole_end < len && chars[whole_end] == '.';
    let fraction: usize = if has_point {
        whole_end + 1
    } else {
        whole_end
    };
    let fraction_end: usize = if has_point {
        scan_digits(chars, fraction)
    } else {
        whole_end
    };
    if (whole_end - body) + (fraction_end - fraction) == 0 {
        return false;
    }
    if fraction_end == len {
        return true;
    }
    if !(chars[fraction_end] == 'e' || chars[fraction_end] == 'E') {
        return false;
    }
    let digits: usize = if fraction_end + 1 < len && (chars[fraction_end + 1] == '+'
        || chars[fraction_end + 1] == '-') {
        fraction_end + 2
    } else {
        fraction_end + 1
    };
    let end: usize = scan_digits(chars, digits);
    end > digits && end == len
}

} // verus!
