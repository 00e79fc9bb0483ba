//! The grammar of numeric tokens.
//!
//! A coordinate or temperature is carried as a decimal-literal token.  A token
//! is accepted exactly when it matches the grammar of Rust's standard
//! float-from-string conversion: an optional sign, then either one of the
//! case-insensitive keywords `inf`, `infinity`, `nan`, or a decimal number
//! (digits, an optional point and fraction, an optional exponent).

use crate::text::is_space_char;
use vstd::prelude::*;

verus! {

pub open spec fn is_ascii_digit(c: char) -> bool {
    '0' <= c && c <= '9'
}

/// First index at or after `i` that does not hold an ASCII digit.
pub open spec fn digits_end(s: Seq<char>, i: int) -> int
    decreases s.len() - i,
{
    if i < s.len() && is_ascii_digit(s[i]) {
        digits_end(s, i + 1)
    } else {
        i
    }
}

pub proof fn lemma_digits_end_bounds(s: Seq<char>, i: int)
    requires
        0 <= i <= s.len(),
    ensures
        i <= digits_end(s, i) <= s.len(),
        forall|k: int| i <= k < digits_end(s, i) ==> is_ascii_digit(s[k]),
    decreases s.len() - i,
{
    if i < s.len() && is_ascii_digit(s[i]) {
        lemma_digits_end_bounds(s, i + 1);
    }
}

/// An exponent part filling the rest of the token: `e` or `E`, an optional
/// sign, and at least one digit.
pub open spec fn is_exponent_from(s: Seq<char>, i: int) -> bool {
    &&& i < s.len()
    &&& (s[i] == 'e' || s[i] == 'E')
    &&& {
        let j = if i + 1 < s.len() && (s[i + 1] == '+' || s[i + 1] == '-') {
            i + 2
        } else {
            i + 1
        };
        digits_end(s, j) > j && digits_end(s, j) == s.len()
    }
}

/// A decimal number filling the rest of the token: digits, an optional point
/// with optional further digits (at least one digit on one side of the
/// point), and an optional exponent.
pub open spec fn is_number_from(s: Seq<char>, i: int) -> bool {
    let a = digits_end(s, i);
    if a == s.len() {
        a > i
    } else if s[a] == '.' {
        let b = digits_end(s, a + 1);
        let digits_ok = a > i || b > a + 1;
        if b == s.len() {
            digits_ok
        } else {
            digits_ok && is_exponent_from(s, b)
        }
    } else {
        a > i && is_exponent_from(s, a)
    }
}

pub open spec fn is_inf_from(s: Seq<char>, i: int) -> bool {
    &&& s.len() - i == 3
    &&& (s[i] == 'i' || s[i] == 'I')
    &&& (s[i + 1] == 'n' || s[i + 1] == 'N')
    &&& (s[i + 2] == 'f' || s[i + 2] == 'F')
}

pub open spec fn is_infinity_from(s: Seq<char>, i: int) -> bool {
    &&& s.len() - i == 8
    &&& (s[i] == 'i' || s[i] == 'I')
    &&& (s[i + 1] == 'n' || s[i + 1] == 'N')
    &&& (s[i + 2] == 'f' || s[i + 2] == 'F')
    &&& (s[i + 3] == 'i' || s[i + 3] == 'I')
    &&& (s[i + 4] == 'n' || s[i + 4] == 'N')
    &&& (s[i + 5] == 'i' || s[i + 5] == 'I')
    &&& (s[i + 6] == 't' || s[i + 6] == 'T')
    &&& (s[i + 7] == 'y' || s[i + 7] == 'Y')
}

pub open spec fn is_nan_from(s: Seq<char>, i: int) -> bool {
    &&& s.len() - i == 3
    &&& (s[i] == 'n' || s[i] == 'N')
    &&& (s[i + 1] == 'a' || s[i + 1] == 'A')
    &&& (s[i + 2] == 'n' || s[i + 2] == 'N')
}

pub open spec fn is_special_from(s: Seq<char>, i: int) -> bool {
    is_inf_from(s, i) || is_infinity_from(s, i) || is_nan_from(s, i)
}

/// Index of the first character after the optional leading sign.
pub open spec fn sign_end(s: Seq<char>) -> int {
    if s.len() > 0 && (s[0] == '+' || s[0] == '-') {
        1
    } else {
        0
    }
}

/// The acceptance predicate for numeric tokens.
pub open spec fn is_float_literal(s: Seq<char>) -> bool {
    is_special_from(s, sign_end(s)) || is_number_from(s, sign_end(s))
}

fn digits_end_exec(s: &Vec<char>, i: usize) -> (j: usize)
    requires
        i <= s.len(),
    ensures
        j == digits_end(s@, i as int),
        i <= j <= s.len(),
{
    let mut j = i;
    while j < s.len() && '0' <= s[j] && s[j] <= '9'
        invariant
            i <= j <= s.len(),
            digits_end(s@, i as int) == digits_end(s@, j as int),
        decreases s.len() - j,
    {
        j = j + 1;
    }
    j
}

fn check_exponent(s: &Vec<char>, i: usize) -> (b: bool)
    requires
        i <= s.len(),
    ensures
        b == is_exponent_from(s@, i as int),
{
    if i >= s.len() {
        return false;
    }
    if !(s[i] == 'e' || s[i] == 'E') {
        return false;
    }
    let j: usize = if i + 1 < s.len() && (s[i + 1] == '+' || s[i + 1] == '-') {
        i + 2
    } else {
        i + 1
    };
    let d = digits_end_exec(s, j);
    d > j && d == s.len()
}

fn check_number(s: &Vec<char>, i: usize) -> (b: bool)
    requires
        i <= s.len(),
    ensures
        b == is_number_from(s@, i as int),
{
    let a = digits_end_exec(s, i);
    if a == s.len() {
        a > i
    } else if s[a] == '.' {
        let b2 = digits_end_exec(s, a + 1);
        let digits_ok = a > i || b2 > a + 1;
        if b2 == s.len() {
            digits_ok
        } else {
            digits_ok && check_exponent(s, b2)
        }
    } else {
        a > i && check_exponent(s, a)
    }
}

fn check_special(s: &Vec<char>, i: usize) -> (b: bool)
    requires
        i <= s.len(),
    ensures
        b == is_special_from(s@, i as int),
{
    let n = s.len();
    if n - i == 3 {
        if (s[i] == 'i' || s[i] == 'I') && (s[i + 1] == 'n' || s[i + 1] == 'N') && (s[i + 2]
            == 'f' || s[i + 2] == 'F') {
            return true;
        }
        (s[i] == 'n' || s[i] == 'N') && (s[i + 1] == 'a' || s[i + 1] == 'A') && (s[i + 2] == 'n'
            || s[i + 2] == 'N')
    } else if n - i == 8 {
        (s[i] == 'i' || s[i] == 'I') && (s[i + 1] == 'n' || s[i + 1] == 'N') && (s[i + 2] == 'f'
            || s[i + 2] == 'F') && (s[i + 3] == 'i' || s[i + 3] == 'I') && (s[i + 4] == 'n' || s[i
            + 4] == 'N') && (s[i + 5] == 'i' || s[i + 5] == 'I') && (s[i + 6] == 't' || s[i + 6]
            == 'T') && (s[i + 7] == 'y' || s[i + 7] == 'Y')
    } else {
        false
    }
}

/// The characters a numeric token can be built from: digits, signs, the
/// decimal point, and the letters of `e`, `inf`, `infinity` and `nan`.
pub open spec fn is_token_char(c: char) -> bool {
    ||| is_ascii_digit(c)
    ||| c == '+'
    ||| c == '-'
    ||| c == '.'
    ||| c == 'e'
    ||| c == 'E'
    ||| c == 'i'
    ||| c == 'I'
    ||| c == 'n'
    ||| c == 'N'
    ||| c == 'f'
    ||| c == 'F'
    ||| c == 'a'
    ||| c == 'A'
    ||| c == 't'
    ||| c == 'T'
    ||| c == 'y'
    ||| c == 'Y'
}

proof fn lemma_exponent_chars(s: Seq<char>, i: int)
    requires
        0 <= i < s.len(),
        is_exponent_from(s, i),
    ensures
        forall|k: int| i <= k < s.len() ==> is_token_char(s[k]),
{
    let j = if i + 1 < s.len() && (s[i + 1] == '+' || s[i + 1] == '-') {
        i + 2
    } else {
        i + 1
    };
    lemma_digits_end_bounds(s, j);
    assert forall|k: int| i <= k < s.len() implies is_token_char(s[k]) by {
        if k == i {
        } else if k < j {
        } else {
            assert(is_ascii_digit(s[k]));
        }
    }
}

/// A numeric token is non-empty and made of token characters alone; in
/// particular it holds no white space and no line break.
pub proof fn lemma_float_literal_chars(s: Seq<char>)
    requires
        is_float_literal(s),
    ensures
        s.len() > 0,
        forall|k: int| 0 <= k < s.len() ==> is_token_char(s[k]),
{
    let i = sign_end(s);
    if is_special_from(s, i) {
        assert forall|k: int| 0 <= k < s.len() implies is_token_char(s[k]) by {
            if k < i {
            } else if is_inf_from(s, i) || is_nan_from(s, i) {
                assert(k == i || k == i + 1 || k == i + 2);
            } else {
                assert(i <= k < i + 8);
            }
        }
    } else {
        let a = digits_end(s, i);
        lemma_digits_end_bounds(s, i);
        if a == s.len() {
            assert forall|k: int| 0 <= k < s.len() implies is_token_char(s[k]) by {
                if i <= k {
                    assert(is_ascii_digit(s[k]));
                }
            }
        } else if s[a] == '.' {
            let b = digits_end(s, a + 1);
            lemma_digits_end_bounds(s, a + 1);
            if b < s.len() {
                lemma_exponent_chars(s, b);
            }
            assert forall|k: int| 0 <= k < s.len() implies is_token_char(s[k]) by {
                if k < i {
                } else if k < a {
                    assert(is_ascii_digit(s[k]));
                } else if k == a {
                } else if k < b {
                    assert(is_ascii_digit(s[k]));
                }
            }
        } else {
            lemma_exponent_chars(s, a);
            assert forall|k: int| 0 <= k < s.len() implies is_token_char(s[k]) by {
                if i <= k < a {
                    assert(is_ascii_digit(s[k]));
                }
            }
        }
    }
}

/// A numeric token is non-empty and holds no white space and no line-ending
/// character, so splitting and trimming leave it intact.
pub proof fn lemma_float_literal_no_space(s: Seq<char>)
    requires
        is_float_literal(s),
    ensures
        s.len() > 0,
        forall|k: int|
            0 <= k < s.len() ==> !is_space_char(s[k]) && s[k] != '\n' && s[k] != '\r',
{
    lemma_float_literal_chars(s);
    assert forall|k: int| 0 <= k < s.len() implies !is_space_char(s[k]) && s[k] != '\n' && s[k]
        != '\r' by {
        assert(is_token_char(s[k]));
    }
}

/// Decides whether a token is an accepted numeric literal.
pub fn check_float_literal(s: &Vec<char>) -> (b: bool)
    ensures
        b == is_float_literal(s@),
{
    let i: usize = if s.len() > 0 && (s[0] == '+' || s[0] == '-') {
        1
    } else {
        0
    };
    if check_special(s, i) {
        return true;
    }
    check_number(s, i)
}

} // verus!
