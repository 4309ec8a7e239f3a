//! Numeric literals: which tokens are numbers.
//!
//! A number is written as the standard library reads one: an optional
//! sign, then `inf`, `infinity`, `nan` or a decimal number with an optional
//! exponent, in letters of either case. This module only tells whether a
//! token is a number; its value is left to the caller.

use vstd::prelude::*;
use crate::text::{ascii_lowercase, lower_char, matches_text};

verus! {

/// An ASCII decimal digit.
pub open spec fn is_digit(c: char) -> bool {
    '0' <= c && c <= '9'
}

/// A plus or a minus sign.
pub open spec fn is_sign(c: char) -> bool {
    c == '+' || c == '-'
}

/// Whether every character of a text is a digit.
pub open spec fn all_digits(s: Seq<char>) -> bool {
    forall|i: int| 0 <= i < s.len() ==> is_digit(#[trigger] s[i])
}

/// A text without the sign that it may begin with.
pub open spec fn unsigned(s: Seq<char>) -> Seq<char> {
    if s.len() > 0 && is_sign(s[0]) {
        s.skip(1)
    } else {
        s
    }
}

/// A mantissa: one digit or more, or digits with one point before, among
/// or behind them.
pub open spec fn is_mantissa(s: Seq<char>) -> bool {
    ||| s.len() >= 1 && all_digits(s)
    ||| s.len() >= 2 && exists|point: int|
        #![trigger s.take(point)]
        0 <= point < s.len() && s[point] == '.' && all_digits(s.take(point)) && all_digits(
            s.skip(point + 1),
        )
}

/// An exponent: the letter e, then one digit or more, with or without a
/// sign before them.
pub open spec fn is_exponent(s: Seq<char>) -> bool {
    &&& s.len() >= 2
    &&& s[0] == 'e'
    &&& all_digits(s.skip(1)) || (s.len() >= 3 && is_sign(s[1]) && all_digits(s.skip(2)))
}

/// A decimal number in small letters: a mantissa, with or without an
/// exponent behind it.
pub open spec fn is_decimal(s: Seq<char>) -> bool {
    exists|end: int|
        #![trigger s.take(end)]
        0 <= end <= s.len() && is_mantissa(s.take(end)) && (end == s.len() || is_exponent(
            s.skip(end),
        ))
}

/// Whether a token is a numeric literal: an optional sign, then `inf`,
/// `infinity`, `nan` or a decimal number, in letters of either case.
pub open spec fn is_number(s: Seq<char>) -> bool {
    let body = ascii_lowercase(unsigned(s));
    body == "inf"@ || body == "infinity"@ || body == "nan"@ || is_decimal(body)
}

/// How many digits a text begins with.
pub open spec fn leading_digits(s: Seq<char>) -> nat
    decreases s.len(),
{
    if s.len() > 0 && is_digit(s[0]) {
        1 + leading_digits(s.skip(1))
    } else {
        0
    }
}

/// An exponent as a reader from left to right finds it: the letter e, an
/// optional sign, and digits up to the end.
pub open spec fn reads_as_exponent(s: Seq<char>) -> bool {
    &&& s.len() > 0
    &&& s[0] == 'e'
    &&& unsigned(s.skip(1)).len() > 0
    &&& leading_digits(unsigned(s.skip(1))) == unsigned(s.skip(1)).len()
}

/// A decimal number as a reader from left to right finds it: the digits
/// at the start, then a point and the digits behind it if a point
/// follows, then nothing or an exponent. At least one digit was read.
pub open spec fn reads_as_decimal(s: Seq<char>) -> bool {
    let whole = leading_digits(s);
    let rest = s.skip(whole as int);
    let pointed = rest.len() > 0 && rest[0] == '.';
    let fraction: int = if pointed {
        leading_digits(rest.skip(1)) as int
    } else {
        0
    };
    let tail = if pointed {
        rest.skip(1 + fraction)
    } else {
        rest
    };
    &&& whole + fraction > 0
    &&& tail.len() == 0 || reads_as_exponent(tail)
}

/// The digits that a text begins with are digits, and what follows them
/// is none.
pub proof fn lemma_leading_digits(s: Seq<char>)
    ensures
        leading_digits(s) <= s.len(),
        all_digits(s.take(leading_digits(s) as int)),
        leading_digits(s) < s.len() ==> !is_digit(s[leading_digits(s) as int]),
    decreases s.len(),
{
    if s.len() > 0 && is_digit(s[0]) {
        lemma_leading_digits(s.skip(1));
        let n = leading_digits(s);
        assert forall|i: int| 0 <= i < s.take(n as int).len() implies is_digit(
            #[trigger] s.take(n as int)[i],
        ) by {
            if i > 0 {
                assert(s.take(n as int)[i] == s.skip(1).take(n - 1)[i - 1]);
            }
        }
        if n < s.len() {
            assert(s[n as int] == s.skip(1)[n - 1]);
        }
    }
}

/// Only so many digits begin a text as are followed by something else.
pub proof fn lemma_leading_digits_are(s: Seq<char>, n: int)
    requires
        0 <= n <= s.len(),
        all_digits(s.take(n)),
        n < s.len() ==> !is_digit(s[n]),
    ensures
        leading_digits(s) == n,
    decreases s.len(),
{
    if n > 0 {
        assert(s[0] == s.take(n)[0]);
        assert forall|i: int| 0 <= i < s.skip(1).take(n - 1).len() implies is_digit(
            #[trigger] s.skip(1).take(n - 1)[i],
        ) by {
            assert(s.skip(1).take(n - 1)[i] == s.take(n)[i + 1]);
        }
        if n < s.len() {
            assert(s.skip(1)[n - 1] == s[n]);
        }
        lemma_leading_digits_are(s.skip(1), n - 1);
    }
}

/// A text is all digits exactly where the digits it begins with are the
/// whole of it.
pub proof fn lemma_all_digits(s: Seq<char>)
    ensures
        all_digits(s) <==> leading_digits(s) == s.len(),
{
    lemma_leading_digits(s);
    if all_digits(s) {
        assert(s.take(s.len() as int) =~= s);
        lemma_leading_digits_are(s, s.len() as int);
    } else {
        if leading_digits(s) == s.len() {
            assert(s.take(s.len() as int) =~= s);
        }
    }
}

/// A reader from left to right finds the exponents, and nothing else.
pub proof fn lemma_reads_exponent(s: Seq<char>)
    ensures
        reads_as_exponent(s) <==> is_exponent(s),
{
    if s.len() > 0 {
        let tail = s.skip(1);
        lemma_all_digits(unsigned(tail));
        if tail.len() > 0 && is_sign(tail[0]) {
            assert(tail.skip(1) =~= s.skip(2));
            assert(!is_digit(tail[0]));
            if all_digits(tail) {
                assert(is_digit(tail[0]));
            }
        }
    }
}

/// A reader from left to right finds the decimal numbers, and nothing
/// else.
pub proof fn lemma_reads_decimal(s: Seq<char>)
    ensures
        reads_as_decimal(s) <==> is_decimal(s),
{
    let whole = leading_digits(s) as int;
    lemma_leading_digits(s);
    let rest = s.skip(whole);
    let pointed = rest.len() > 0 && rest[0] == '.';
    if reads_as_decimal(s) {
        if pointed {
            let fraction = leading_digits(rest.skip(1)) as int;
            lemma_leading_digits(rest.skip(1));
            let end = whole + 1 + fraction;
            let m = s.take(end);
            assert(m.take(whole) =~= s.take(whole));
            assert(m.skip(whole + 1) =~= rest.skip(1).take(fraction));
            assert(m[whole] == '.');
            assert(is_mantissa(m));
            assert(rest.skip(1 + fraction) =~= s.skip(end));
            lemma_reads_exponent(s.skip(end));
            assert(is_decimal(s));
        } else {
            assert(is_mantissa(s.take(whole)));
            lemma_reads_exponent(rest);
            assert(is_decimal(s));
        }
    }
    if is_decimal(s) {
        let end = choose|end: int|
            #![trigger s.take(end)]
            0 <= end <= s.len() && is_mantissa(s.take(end)) && (end == s.len() || is_exponent(
                s.skip(end),
            ));
        let m = s.take(end);
        lemma_reads_exponent(s.skip(end));
        if end < s.len() {
            assert(s.skip(end)[0] == 'e');
        }
        if m.len() >= 1 && all_digits(m) {
            lemma_leading_digits_are(s, end);
            assert(!pointed);
        } else {
            let point = choose|point: int|
                #![trigger m.take(point)]
                0 <= point < m.len() && m[point] == '.' && all_digits(m.take(point))
                    && all_digits(m.skip(point + 1));
            assert(m.take(point) =~= s.take(point));
            lemma_leading_digits_are(s, point);
            assert(pointed);
            let after = rest.skip(1);
            let fraction = end - point - 1;
            assert(after.take(fraction) =~= m.skip(point + 1));
            if fraction < after.len() {
                assert(after[fraction] == s.skip(end)[0]);
            }
            lemma_leading_digits_are(after, fraction);
            assert(rest.skip(1 + fraction) =~= s.skip(end));
        }
    }
}

/// Whether a token is a number does not depend on the case of its
/// letters.
pub proof fn law_number_ignores_case(s: Seq<char>)
    ensures
        is_number(ascii_lowercase(s)) == is_number(s),
{
    assert(ascii_lowercase(unsigned(ascii_lowercase(s))) =~= ascii_lowercase(unsigned(s)));
}

/// Tells whether the character is an ASCII decimal digit.
pub fn digit(c: char) -> (r: bool)
    ensures
        r == is_digit(c),
{
    c >= '0' && c <= '9'
}

/// Counts the digits that stand in a text from `from` on, up to the first
/// character that is none.
fn count_digits(s: &Vec<char>, from: usize) -> (n: usize)
    requires
        from <= s.len(),
    ensures
        n == leading_digits(s@.skip(from as int)),
        from + n <= s.len(),
{
    let mut i: usize = from;
    while i < s.len() && digit(s[i])
        invariant
            from <= i <= s.len(),
            leading_digits(s@.skip(from as int)) == (i - from) + leading_digits(s@.skip(i as int)),
        decreases s.len() - i,
    {
        assert(s@.skip(i as int).skip(1) =~= s@.skip(i + 1));
        i += 1;
    }
    i - from
}

/// Tells whether the text from `from` on is an exponent.
fn exponent_at(s: &Vec<char>, from: usize) -> (r: bool)
    requires
        from <= s.len(),
    ensures
        r == is_exponent(s@.skip(from as int)),
{
    proof {
        lemma_reads_exponent(s@.skip(from as int));
    }
    if from >= s.len() || s[from] != 'e' {
        return false;
    }
    let ghost tail = s@.skip(from as int).skip(1);
    assert(tail =~= s@.skip(from + 1));
    let mut at: usize = from + 1;
    if at < s.len() && (s[at] == '+' || s[at] == '-') {
        at += 1;
        assert(unsigned(tail) =~= s@.skip(at as int));
    } else {
        assert(unsigned(tail) =~= s@.skip(at as int));
    }
    let n: usize = count_digits(s, at);
    at < s.len() && at + n == s.len()
}

/// Tells whether a text in small letters is a decimal number.
pub fn decimal(s: &Vec<char>) -> (r: bool)
    ensures
        r == is_decimal(s@),
{
    proof {
        lemma_reads_decimal(s@);
    }
    assert(s@.skip(0) =~= s@);
    let whole: usize = count_digits(s, 0);
    let ghost rest = s@.skip(whole as int);
    if whole < s.len() && s[whole] == '.' {
        assert(rest.skip(1) =~= s@.skip(whole + 1));
        let fraction: usize = count_digits(s, whole + 1);
        assert(rest.skip(1 + fraction) =~= s@.skip(whole + 1 + fraction));
        let end: usize = whole + 1 + fraction;
        proof {
            lemma_reads_exponent(s@.skip(end as int));
        }
        whole + fraction > 0 && (end == s.len() || exponent_at(s, end))
    } else {
        proof {
            lemma_reads_exponent(s@.skip(whole as int));
        }
        whole > 0 && (whole == s.len() || exponent_at(s, whole))
    }
}

/// Tells whether a token is a numeric literal.
pub fn number(token: &Vec<char>) -> (r: bool)
    ensures
        r == is_number(token@),
{
    let mut body: Vec<char> = Vec::new();
    let start: usize = if token.len() > 0 && (token[0] == '+' || token[0] == '-') {
        1
    } else {
        0
    };
    let mut i: usize = start;
    while i < token.len()
        invariant
            start <= i <= token.len(),
            body@ == ascii_lowercase(token@.subrange(start as int, i as int)),
        decreases token.len() - i,
    {
        body.push(lower_char(token[i]));
        i += 1;
        assert(body@ =~= ascii_lowercase(token@.subrange(start as int, i as int)));
    }
    assert(token@.subrange(start as int, token.len() as int) =~= unsigned(token@));
    matches_text(&body, "inf") || matches_text(&body, "infinity") || matches_text(&body, "nan")
        || decimal(&body)
}

} // verus!
