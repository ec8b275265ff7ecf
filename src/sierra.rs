//! Validating full record numbers and appending check digits.

use crate::check_digit::{
    all_digits, check_char, get_check_digit, is_digit, is_record_number, lemma_check_char_alphabet,
};
use crate::text::{
    byte_len, is_one_byte, lemma_scalar_len, lemma_utf8_len, lemma_utf8_len_first, substring_of,
    utf8_len,
};
use vstd::prelude::*;

verus! {

/// Returns true when every character of `s` is a decimal digit; true for
/// the empty string.
pub fn is_numeric(s: &str) -> (r: bool)
    ensures
        r == all_digits(s@),
{
    let n = s.unicode_len();
    let mut i: usize = 0;
    while i < n
        invariant
            n == s@.len(),
            i <= n,
            forall|j: int| 0 <= j < i ==> is_digit(#[trigger] s@[j]),
        decreases n - i,
    {
        let c = s.get_char(i);
        if !('0' <= c && c <= '9') {
            return false;
        }
        i = i + 1;
    }
    true
}


/// Seven digits followed by their check digit.
pub open spec fn is_checked_number(s: Seq<char>) -> bool {
    &&& s.len() == 8
    &&& is_record_number(s.subrange(0, 7))
    &&& s[7] == check_char(s.subrange(0, 7))
}

/// The full record numbers: seven digits and their check digit, possibly
/// preceded by one record-type prefix of any character that takes a single
/// byte.
pub open spec fn is_valid_record(s: Seq<char>) -> bool {
    ||| is_checked_number(s)
    ||| (s.len() == 9 && is_one_byte(s[0]) && is_checked_number(s.drop_first()))
}

/// A record number followed by its check digit takes eight bytes.
proof fn lemma_checked_number_len(s: Seq<char>)
    requires
        is_checked_number(s),
    ensures
        utf8_len(s) == 8,
{
    lemma_check_char_alphabet(s.subrange(0, 7));
    assert forall|i: int| 0 <= i < s.len() implies is_one_byte(#[trigger] s[i]) by {
        if i < 7 {
            assert(s[i] == s.subrange(0, 7)[i]);
            assert(is_digit(s.subrange(0, 7)[i]));
        }
    }
    lemma_utf8_len(s);
}

/// A string of digits has one byte per character.
proof fn lemma_digits_len(s: Seq<char>)
    requires
        all_digits(s),
    ensures
        utf8_len(s) == s.len(),
{
    assert forall|i: int| 0 <= i < s.len() implies is_one_byte(#[trigger] s[i]) by {
        assert(is_digit(s[i]));
    }
    lemma_utf8_len(s);
}

/// Returns true when `record_number` is a valid Sierra record number: seven
/// digits followed by their check digit, with an optional record-type prefix
/// whose identity is not checked.
///
/// The length is counted in bytes: nine bytes are a prefix and a record
/// number with its check digit, eight bytes a record number with its check
/// digit; any other length is invalid.
pub fn validate(record_number: &str) -> (r: bool)
    ensures
        r == is_valid_record(record_number@),
    decreases record_number@.len(),
{
    let ghost s = record_number@;
    proof {
        lemma_utf8_len(s);
        if is_checked_number(s) {
            lemma_checked_number_len(s);
        }
        if s.len() == 9 && is_one_byte(s[0]) && is_checked_number(s.drop_first()) {
            lemma_checked_number_len(s.drop_first());
            lemma_utf8_len_first(s);
            lemma_scalar_len(s[0]);
        }
    }
    if byte_len(record_number) == 9 {
        // A record-type prefix followed by the record number.
        let rest = substring_of(record_number, 1, 10);
        proof {
            assert(rest@ =~= s.drop_first());
            if is_checked_number(rest@) {
                lemma_checked_number_len(rest@);
                lemma_utf8_len_first(s);
                lemma_scalar_len(s[0]);
            }
        }
        validate(rest)
    } else if byte_len(record_number) == 8 {
        // Seven digits followed by the check digit.
        let number = substring_of(record_number, 0, 7);
        let check_digit = substring_of(record_number, 7, 8);
        if is_numeric(number) {
            proof {
                lemma_digits_len(number@);
                if s.len() <= 7 {
                    assert(number@ =~= s);
                }
                assert(number@ =~= s.subrange(0, 7));
                assert(check_digit@ =~= seq![s[7]]);
            }
            let expected = get_check_digit(number);
            let found = check_digit.to_owned();
            let r = expected == found;
            proof {
                if r {
                    assert(expected@[0] == found@[0]);
                } else {
                    assert(expected@ != found@);
                    if check_char(number@) == s[7] {
                        assert(expected@ =~= found@);
                    }
                }
            }
            r
        } else {
            proof {
                if s.len() == 8 {
                    assert(number@ =~= s.subrange(0, 7));
                }
            }
            false
        }
    } else {
        false
    }
}

/// The input of `add_check_digit` was neither a record number nor a record
/// number with a record-type prefix.
#[derive(Debug, Clone, PartialEq, Eq)]
pub struct InvalidSierraNumber {
    /// The input, as it was given.
    pub number: String,
}

/// A record number, bare or behind a one-byte record-type prefix, with its
/// check digit appended; `None` for any other input.
pub open spec fn with_check_digit(s: Seq<char>) -> Option<Seq<char>> {
    if is_record_number(s) {
        Some(s.push(check_char(s)))
    } else if s.len() == 8 && is_one_byte(s[0]) && is_record_number(s.drop_first()) {
        Some(s.push(check_char(s.drop_first())))
    } else {
        None
    }
}

/// Appends the check digit to a record number.
///
/// Seven digits get their check digit appended. Eight bytes of which the last
/// seven are digits are a record-type prefix and a record number: the prefix
/// is kept as it is and the check digit of the seven digits is appended. Any
/// other input is an `InvalidSierraNumber` that holds the input.
pub fn add_check_digit(number: &str) -> (r: Result<String, InvalidSierraNumber>)
    ensures
        match r {
            Ok(full) => with_check_digit(number@) == Some(full@),
            Err(e) => with_check_digit(number@) is None && e.number@ == number@,
        },
{
    let ghost s = number@;
    proof {
        lemma_utf8_len(s);
        if is_record_number(s) {
            lemma_digits_len(s);
        }
        if s.len() == 8 && is_one_byte(s[0]) && is_record_number(s.drop_first()) {
            lemma_digits_len(s.drop_first());
            lemma_utf8_len_first(s);
            lemma_scalar_len(s[0]);
        }
    }
    let len = byte_len(number);
    if len == 7 && is_numeric(number) {
        proof {
            lemma_digits_len(s);
        }
        let check = get_check_digit(number);
        let full = number.to_owned().concat(check.as_str());
        assert(full@ =~= s.push(check_char(s)));
        Ok(full)
    } else if len == 8 {
        let record_number = substring_of(number, 1, 8);
        if is_numeric(record_number) && record_number.unicode_len() == 7 {
            let prefix = substring_of(number, 0, 1);
            proof {
                assert(record_number@ =~= s.drop_first());
                lemma_digits_len(record_number@);
                lemma_utf8_len_first(s);
                lemma_scalar_len(s[0]);
                assert(!is_record_number(s));
            }
            let check = get_check_digit(record_number);
            let full = prefix.to_owned().concat(record_number).concat(check.as_str());
            assert(full@ =~= s.push(check_char(s.drop_first())));
            Ok(full)
        } else {
            proof {
                if s.len() == 8 {
                    assert(record_number@ =~= s.drop_first());
                }
            }
            Err(InvalidSierraNumber { number: number.to_owned() })
        }
    } else {
        Err(InvalidSierraNumber { number: number.to_owned() })
    }
}

/// Appending the check digit to a record number gives a valid full record
/// number, and appending any other character gives an invalid one.
pub proof fn lemma_check_digit_round_trip(n: Seq<char>, c: char)
    requires
        is_record_number(n),
    ensures
        is_valid_record(n.push(check_char(n))),
        c != check_char(n) ==> !is_valid_record(n.push(c)),
{
    assert(n.push(check_char(n)).subrange(0, 7) =~= n);
    assert(n.push(c).subrange(0, 7) =~= n);
}

/// The record-type prefix is not checked: behind any one-byte prefix, a
/// string of eight characters is valid exactly when it is valid alone.
pub proof fn lemma_prefix_irrelevant(p: char, t: Seq<char>)
    requires
        is_one_byte(p),
        t.len() == 8,
    ensures
        is_valid_record(seq![p] + t) == is_valid_record(t),
{
    assert((seq![p] + t).drop_first() =~= t);
}

/// Whatever `add_check_digit` returns is accepted by `validate`.
pub proof fn lemma_added_check_digit_validates(s: Seq<char>)
    requires
        with_check_digit(s) is Some,
    ensures
        is_valid_record(with_check_digit(s)->Some_0),
{
    if is_record_number(s) {
        lemma_check_digit_round_trip(s, check_char(s));
    } else {
        let n = s.drop_first();
        lemma_check_digit_round_trip(n, check_char(n));
        assert(s.push(check_char(n)).drop_first() =~= n.push(check_char(n)));
    }
}

} // verus!
