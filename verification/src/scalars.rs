//! Text-level scalar coercions: boolean words, integer literals in
//! decimal notation, and decimal rendering of integers.
//!
//! These are the lax branches of the scalar validators: a string (or
//! UTF-8 bytes) may stand for a boolean or an integer, and a number may
//! be rendered as text. Each conversion is specified exactly.

use vstd::prelude::*;

use vstd::string::StrSliceExecFns;

use crate::errors::ErrorKind;

verus! {

/// Whether a character is an ASCII decimal digit.
pub open spec fn is_digit_char(c: char) -> bool {
    48 <= c as u32 <= 57
}

/// The numeric value of an ASCII decimal digit.
pub open spec fn digit_char_val(c: char) -> int {
    c as u32 - 48
}

/// Case-insensitive match of an input character against a lowercase
/// ASCII letter (or any other character, matched exactly).
pub open spec fn char_ci_eq(a: char, b: char) -> bool {
    a == b || a as u32 + 32 == b as u32
}

/// Case-insensitive match of an input text against a lowercase ASCII
/// word.
pub open spec fn text_ci_eq(t: Seq<char>, lit: Seq<char>) -> bool {
    t.len() == lit.len() && (forall|i: int| 0 <= i < t.len() ==> char_ci_eq(t[i], lit[i]))
}

/// Case-insensitive comparison of a string against a lowercase word.
pub fn str_ci_eq(s: &str, lit: &str) -> (r: bool)
    ensures
        r == text_ci_eq(s@, lit@),
{
    let n: usize = s.unicode_len();
    if n != lit.unicode_len() {
        return false;
    }
    let mut i: usize = 0;
    while i < n
        invariant
            i <= n,
            n == s@.len() == lit@.len(),
            forall|j: int| 0 <= j < i ==> char_ci_eq(s@[j], lit@[j]),
        decreases n - i,
    {
        let a = s.get_char(i);
        let b = lit.get_char(i);
        if !(a == b || (a as u32) + 32 == b as u32) {
            return false;
        }
        i = i + 1;
    }
    true
}

/// The boolean a text stands for, if any: the words `0`, `off`, `f`,
/// `false`, `n`, `no` mean false and `1`, `on`, `t`, `true`, `y`, `yes`
/// mean true, case-insensitively; anything else is no boolean.
pub open spec fn spec_str_as_bool(t: Seq<char>) -> Option<bool> {
    if text_ci_eq(t, "0"@) || text_ci_eq(t, "off"@) || text_ci_eq(t, "f"@) || text_ci_eq(
        t,
        "false"@,
    ) || text_ci_eq(t, "n"@) || text_ci_eq(t, "no"@) {
        Some(false)
    } else if text_ci_eq(t, "1"@) || text_ci_eq(t, "on"@) || text_ci_eq(t, "t"@) || text_ci_eq(
        t,
        "true"@,
    ) || text_ci_eq(t, "y"@) || text_ci_eq(t, "yes"@) {
        Some(true)
    } else {
        None
    }
}

/// The boolean a string stands for, if any.
pub fn str_as_bool(s: &str) -> (r: Option<bool>)
    ensures
        r == spec_str_as_bool(s@),
{
    if str_ci_eq(s, "0") || str_ci_eq(s, "off") || str_ci_eq(s, "f") || str_ci_eq(s, "false")
        || str_ci_eq(s, "n") || str_ci_eq(s, "no") {
        Some(false)
    } else if str_ci_eq(s, "1") || str_ci_eq(s, "on") || str_ci_eq(s, "t") || str_ci_eq(s, "true")
        || str_ci_eq(s, "y") || str_ci_eq(s, "yes") {
        Some(true)
    } else {
        None
    }
}

/// Whether a text is one or more ASCII decimal digits.
pub open spec fn all_digits(t: Seq<char>) -> bool {
    t.len() > 0 && (forall|i: int| 0 <= i < t.len() ==> is_digit_char(t[i]))
}

/// The value of a digit string read in base ten.
pub open spec fn digits_value(t: Seq<char>) -> int
    decreases t.len(),
{
    if t.len() == 0 {
        0
    } else {
        digits_value(t.drop_last()) * 10 + digit_char_val(t[t.len() - 1])
    }
}

/// A digit string's value is never negative.
pub proof fn lemma_digits_value_nonneg(t: Seq<char>)
    requires
        forall|i: int| 0 <= i < t.len() ==> is_digit_char(t[i]),
    ensures
        digits_value(t) >= 0,
    decreases t.len(),
{
    if t.len() > 0 {
        lemma_digits_value_nonneg(t.drop_last());
    }
}

/// Appending digits never shrinks the value.
pub proof fn lemma_digits_value_prefix(t: Seq<char>, i: int)
    requires
        forall|j: int| 0 <= j < t.len() ==> is_digit_char(t[j]),
        0 <= i <= t.len(),
    ensures
        digits_value(t.subrange(0, i)) <= digits_value(t),
    decreases t.len() - i,
{
    if i < t.len() {
        let t1 = t.subrange(0, i + 1);
        assert(t1.drop_last() =~= t.subrange(0, i));
        lemma_digits_value_nonneg(t.subrange(0, i));
        assert(digits_value(t.subrange(0, i)) <= digits_value(t1));
        lemma_digits_value_prefix(t, i + 1);
        assert(t.subrange(0, t.len() as int) =~= t);
    } else {
        assert(t.subrange(0, t.len() as int) =~= t);
    }
}

/// The integer a text stands for: an optional sign followed by one or
/// more decimal digits. No other form is an integer literal.
pub open spec fn spec_str_to_int(t: Seq<char>) -> Option<int> {
    if t.len() == 0 {
        None
    } else if t[0] == '-' {
        if all_digits(t.drop_first()) {
            Some(-digits_value(t.drop_first()))
        } else {
            None
        }
    } else if t[0] == '+' {
        if all_digits(t.drop_first()) {
            Some(digits_value(t.drop_first()))
        } else {
            None
        }
    } else {
        if all_digits(t) {
            Some(digits_value(t))
        } else {
            None
        }
    }
}

/// Parse a string as an integer. The text must be an optional sign
/// followed by decimal digits; a well-formed literal whose value does
/// not fit the output type is refused as too large, any other text as
/// no integer at all.
#[verifier::loop_isolation(false)]
pub fn str_to_int(s: &str) -> (r: Result<i64, ErrorKind>)
    ensures
        match r {
            Ok(v) => spec_str_to_int(s@) == Some(v as int),
            Err(k) => match spec_str_to_int(s@) {
                Some(v) => k == ErrorKind::IntParsingSize && (v > i64::MAX || v < i64::MIN),
                None => k == ErrorKind::IntParsing,
            },
        },
{
    let n: usize = s.unicode_len();
    if n == 0 {
        return Err(ErrorKind::IntParsing);
    }
    let first = s.get_char(0);
    let neg: bool = first == '-';
    let start: usize = if first == '-' || first == '+' {
        1
    } else {
        0
    };
    if start >= n {
        return Err(ErrorKind::IntParsing);
    }
    let ghost digits: Seq<char> = s@.subrange(start as int, n as int);
    proof {
        if start == 1 {
            assert(digits =~= s@.drop_first());
        } else {
            assert(digits =~= s@);
        }
    }
    let mut i: usize = start;
    let mut acc: u128 = 0;
    let mut over: bool = false;
    while i < n
        invariant
            start <= i <= n,
            n == s@.len(),
            digits == s@.subrange(start as int, n as int),
            start < n,
            forall|j: int| start <= j < i ==> is_digit_char(s@[j]),
            !over ==> acc == digits_value(s@.subrange(start as int, i as int)) && acc
                <= 9223372036854775808u128,
            over ==> digits_value(s@.subrange(start as int, i as int))
                > 9223372036854775808int,
        decreases n - i,
    {
        let c = s.get_char(i);
        let cu: u32 = c as u32;
        if !(48 <= cu && cu <= 57) {
            proof {
                assert(digits[i - start] == s@[i as int]);
                assert(!all_digits(digits));
                if start == 1 {
                    assert(s@.drop_first() =~= digits);
                } else {
                    assert(s@ =~= digits);
                }
            }
            return Err(ErrorKind::IntParsing);
        }
        let d: u128 = (cu - 48) as u128;
        let ghost pre = s@.subrange(start as int, i as int);
        let ghost post = s@.subrange(start as int, i as int + 1);
        proof {
            assert(post.drop_last() =~= pre);
            assert(post[post.len() - 1] == s@[i as int]);
            lemma_digits_value_nonneg(pre);
        }
        if !over {
            acc = acc * 10 + d;
            if acc > 9223372036854775808u128 {
                over = true;
            }
        } else {
            proof {
                assert(digits_value(post) == digits_value(pre) * 10 + digit_char_val(
                    s@[i as int],
                ));
                assert(digits_value(pre) * 10 >= digits_value(pre));
            }
        }
        i = i + 1;
    }
    proof {
        assert(s@.subrange(start as int, n as int) == digits);
        assert(all_digits(digits));
        lemma_digits_value_nonneg(digits);
    }
    let magnitude_fits: bool = !over;
    if !magnitude_fits {
        return Err(ErrorKind::IntParsingSize);
    }
    if neg {
        if acc > 9223372036854775808u128 {
            return Err(ErrorKind::IntParsingSize);
        }
        if acc == 9223372036854775808u128 {
            Ok(i64::MIN)
        } else {
            Ok(-(acc as i64))
        }
    } else {
        if acc > 9223372036854775807u128 {
            return Err(ErrorKind::IntParsingSize);
        }
        Ok(acc as i64)
    }
}

/// The decimal digit character for a value below ten.
pub open spec fn digit_char_of(d: int) -> char {
    if d == 0 {
        '0'
    } else if d == 1 {
        '1'
    } else if d == 2 {
        '2'
    } else if d == 3 {
        '3'
    } else if d == 4 {
        '4'
    } else if d == 5 {
        '5'
    } else if d == 6 {
        '6'
    } else if d == 7 {
        '7'
    } else if d == 8 {
        '8'
    } else {
        '9'
    }
}

/// The decimal rendering of a nonnegative number.
pub open spec fn spec_nat_text(m: int) -> Seq<char>
    decreases m,
{
    if m < 10 {
        seq![digit_char_of(m)]
    } else {
        spec_nat_text(m / 10).push(digit_char_of(m % 10))
    }
}

/// The decimal rendering of an integer: a minus sign for negatives,
/// then the digits of the magnitude.
pub open spec fn spec_int_text(n: int) -> Seq<char> {
    if n < 0 {
        seq!['-'] + spec_nat_text(-n)
    } else {
        spec_nat_text(n)
    }
}

/// Relies on std's String::push: the character is appended to the text.
#[verifier::external_body]
fn string_push_char(s: &mut String, c: char)
    ensures
        final(s)@ == old(s)@.push(c),
{
    s.push(c);
}

/// Append the decimal rendering of a nonnegative number.
fn push_nat_text(s: &mut String, m: u64)
    ensures
        final(s)@ == old(s)@ + spec_nat_text(m as int),
    decreases m,
{
    if m < 10 {
        let c: char = digit_char_exec(m);
        string_push_char(s, c);
        proof {
            assert(final(s)@ =~= old(s)@ + spec_nat_text(m as int));
        }
    } else {
        push_nat_text(s, m / 10);
        let c: char = digit_char_exec(m % 10);
        string_push_char(s, c);
        proof {
            assert(final(s)@ =~= old(s)@ + spec_nat_text(m as int));
        }
    }
}

/// The digit character of a value below ten.
fn digit_char_exec(d: u64) -> (c: char)
    requires
        d < 10,
    ensures
        c == digit_char_of(d as int),
{
    if d == 0 {
        '0'
    } else if d == 1 {
        '1'
    } else if d == 2 {
        '2'
    } else if d == 3 {
        '3'
    } else if d == 4 {
        '4'
    } else if d == 5 {
        '5'
    } else if d == 6 {
        '6'
    } else if d == 7 {
        '7'
    } else if d == 8 {
        '8'
    } else {
        '9'
    }
}

/// The decimal rendering of an integer as a fresh string.
pub fn int_to_string(n: i64) -> (r: String)
    ensures
        r@ == spec_int_text(n as int),
{
    let mut s = String::new();
    if n < 0 {
        string_push_char(&mut s, '-');
        let magnitude: u64 = if n == i64::MIN {
            9223372036854775808u64
        } else {
            (-n) as u64
        };
        push_nat_text(&mut s, magnitude);
        proof {
            assert(s@ =~= spec_int_text(n as int));
        }
    } else {
        push_nat_text(&mut s, n as u64);
        proof {
            assert(s@ =~= spec_int_text(n as int));
        }
    }
    s
}

} // verus!
