//! The check digit of a seven-digit record number.

use crate::text::char_to_string;
use vstd::prelude::*;

verus! {

/// True when `c` is one of the decimal digits `'0'..='9'`.
pub open spec fn is_digit(c: char) -> bool {
    '0' <= c && c <= '9'
}

/// True when every character of `s` is a decimal digit.
pub open spec fn all_digits(s: Seq<char>) -> bool {
    forall|i: int| 0 <= i < s.len() ==> is_digit(#[trigger] s[i])
}

/// A record number: exactly seven decimal digits.
pub open spec fn is_record_number(s: Seq<char>) -> bool {
    s.len() == 7 && all_digits(s)
}

/// The value of a decimal digit.
pub open spec fn digit_value(c: char) -> int {
    c as int - '0' as int
}

/// The sum of the digits of `s`, the rightmost multiplied by 2, the one to
/// its left by 3, and so on: the digit at index `i` has weight
/// `s.len() - i + 1`.
pub open spec fn weighted_sum(s: Seq<char>) -> int
    decreases s.len(),
{
    if s.len() == 0 {
        0
    } else {
        digit_value(s[0]) * (s.len() + 1) + weighted_sum(s.drop_first())
    }
}

/// The character that writes a remainder modulo eleven: `'0'..='9'`, or
/// `'x'` for ten.
pub open spec fn remainder_char(r: int) -> char {
    if r == 10 {
        'x'
    } else {
        ((r + 48) as u32) as char
    }
}

/// The check digit of the record number `s`.
pub open spec fn check_char(s: Seq<char>) -> char {
    remainder_char(weighted_sum(s) % 11)
}

/// True when `c` may stand as a check digit.
pub open spec fn is_check_char(c: char) -> bool {
    is_digit(c) || c == 'x'
}

/// Every record number has a check digit that is a decimal digit or `x`.
pub proof fn lemma_check_char_alphabet(n: Seq<char>)
    requires
        is_record_number(n),
    ensures
        is_check_char(check_char(n)),
{
    let r = weighted_sum(n) % 11;
    assert(0 <= r < 11);
}

/// The check digit of a record number, as a character.
pub(crate) fn check_char_of(record_number: &str) -> (c: char)
    requires
        is_record_number(record_number@),
    ensures
        c == check_char(record_number@),
{
    let ghost s = record_number@;
    let mut total: u32 = 0;
    let mut i: usize = 0;
    assert(s.subrange(0, 7) =~= s);
    while i < 7
        invariant
            s == record_number@,
            is_record_number(s),
            i <= 7,
            total <= 72 * i,
            total + weighted_sum(s.subrange(i as int, 7)) == weighted_sum(s),
        decreases 7 - i,
    {
        let c = record_number.get_char(i);
        let d: u32 = (c as u32) - ('0' as u32);
        let weight: u32 = 8 - i as u32;
        proof {
            let rest = s.subrange(i as int, 7);
            assert(rest[0] == c);
            assert(rest.drop_first() =~= s.subrange(i as int + 1, 7));
            assert(is_digit(s[i as int]));
            assert(d as int == digit_value(c));
            assert(d <= 9);
            assert(weighted_sum(rest) == d * weight + weighted_sum(s.subrange(i as int + 1, 7)));
            assert(d * weight <= 72) by (nonlinear_arith)
                requires
                    d <= 9,
                    weight <= 8,
            ;
            assert(total + d * weight <= 72 * (i + 1));
        }
        total = total + d * weight;
        i = i + 1;
    }
    proof {
        assert(s.subrange(7, 7).len() == 0);
    }
    let remainder: u32 = total % 11;
    if remainder == 10 {
        'x'
    } else {
        ((remainder + 48) as u8) as char
    }
}

/// Returns the check digit of a seven-digit record number, as a string of one
/// character.
///
/// Digits are weighted from the right, starting at 2; the check digit is the
/// weighted sum modulo 11, written `x` when that remainder is 10.
pub fn get_check_digit(record_number: &str) -> (r: String)
    requires
        is_record_number(record_number@),
    ensures
        r@ == seq![check_char(record_number@)],
        is_check_char(r@[0]),
{
    proof {
        lemma_check_char_alphabet(record_number@);
    }
    char_to_string(check_char_of(record_number))
}

} // verus!
