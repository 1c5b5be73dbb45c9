//! Integer literals: digit separators, signs, digits in a radix.

use crate::text::chars_of;
use vstd::prelude::*;

verus! {

/// The character that may group the digits of a number and counts for
/// nothing.
pub open spec fn is_separator(c: char) -> bool {
    c == '_'
}

/// `s` without its separators.
pub open spec fn strip(s: Seq<char>) -> Seq<char>
    decreases s.len(),
{
    if s.len() == 0 {
        s
    } else if is_separator(s.last()) {
        strip(s.drop_last())
    } else {
        strip(s.drop_last()).push(s.last())
    }
}

/// What `c` is worth as a digit: `0` to `9`, then the letters, in either
/// case, from ten on.
pub open spec fn digit_value(c: char) -> Option<int> {
    let n: int = c as int;
    if 48 <= n <= 57 {
        Some(n - 48)
    } else if 97 <= n <= 122 {
        Some(n - 87)
    } else if 65 <= n <= 90 {
        Some(n - 55)
    } else {
        None
    }
}

/// Whether `c` is a digit of the radix.
pub open spec fn is_digit(c: char, radix: int) -> bool {
    digit_value(c) matches Some(d) && d < radix
}

/// Whether `s` holds digits of the radix only.
pub open spec fn all_digits(s: Seq<char>, radix: int) -> bool {
    forall|i: int| 0 <= i < s.len() ==> is_digit(#[trigger] s[i], radix)
}

/// The number that the digits `s` write in the radix, the first digit
/// counting most.
pub open spec fn magnitude(s: Seq<char>, radix: int) -> int
    decreases s.len(),
{
    if s.len() == 0 {
        0
    } else {
        magnitude(s.drop_last(), radix) * radix + digit_value(s.last()).unwrap_or(0)
    }
}

/// Whether `s` starts with a sign.
pub open spec fn has_sign(s: Seq<char>) -> bool {
    s.len() > 0 && (s[0] == '-' || s[0] == '+')
}

/// The digits of `s`: what follows its sign, if it has one.
pub open spec fn digits_of(s: Seq<char>) -> Seq<char> {
    if has_sign(s) {
        s.skip(1)
    } else {
        s
    }
}

/// The integer that `s` writes in the radix: an optional sign, then one
/// digit or more. `None` where `s` is not of that form.
pub open spec fn integer_of(s: Seq<char>, radix: int) -> Option<int> {
    let digits = digits_of(s);
    if digits.len() == 0 || !all_digits(digits, radix) {
        None
    } else if s[0] == '-' {
        Some(-magnitude(digits, radix))
    } else {
        Some(magnitude(digits, radix))
    }
}

/// [`integer_of`] where the integer fits in 64 bits, `None` elsewhere.
pub open spec fn i64_of(s: Seq<char>, radix: int) -> Option<i64> {
    match integer_of(s, radix) {
        Some(v) => if i64::MIN <= v <= i64::MAX {
            Some(v as i64)
        } else {
            None
        },
        None => None,
    }
}

/// The value of a decimal literal: its separators are dropped, and the
/// rest is read in radix ten.
pub open spec fn decimal_literal(s: Seq<char>) -> Option<i64> {
    i64_of(strip(s), 10)
}

/// The value of a literal with a radix prefix: the first two characters,
/// which must each take one byte, are the prefix; the separators of the
/// rest are dropped, and what is left is read in the radix.
pub open spec fn radix_literal(s: Seq<char>, radix: int) -> Option<i64> {
    if s.len() < 2 || s[0] as int >= 128 || s[1] as int >= 128 || radix < 2 || radix > 36 {
        None
    } else {
        i64_of(strip(s.skip(2)), radix)
    }
}

/// A number grows, or stays, with each digit that is added.
pub proof fn lemma_magnitude_grows(s: Seq<char>, k: int, radix: int)
    requires
        radix >= 1,
        0 <= k <= s.len(),
    ensures
        0 <= magnitude(s.take(k), radix) <= magnitude(s, radix),
    decreases s.len() - k,
{
    lemma_magnitude_nonnegative(s.take(k), radix);
    if k == s.len() {
        assert(s.take(k) =~= s);
    } else {
        lemma_magnitude_grows(s, k + 1, radix);
        let t = s.take(k + 1);
        assert(t.drop_last() =~= s.take(k));
        let m = magnitude(s.take(k), radix);
        assert(m * radix >= m) by (nonlinear_arith)
            requires
                m >= 0,
                radix >= 1,
        ;
    }
}

/// No digits write a negative number.
pub proof fn lemma_magnitude_nonnegative(s: Seq<char>, radix: int)
    requires
        radix >= 1,
    ensures
        magnitude(s, radix) >= 0,
    decreases s.len(),
{
    if s.len() > 0 {
        lemma_magnitude_nonnegative(s.drop_last(), radix);
        let m = magnitude(s.drop_last(), radix);
        assert(m * radix >= 0) by (nonlinear_arith)
            requires
                m >= 0,
                radix >= 1,
        ;
    }
}

/// The characters of `chars` from `from` on, without the separators.
pub fn strip_from(chars: &Vec<char>, from: usize) -> (r: Vec<char>)
    requires
        from <= chars.len(),
    ensures
        r@ == strip(chars@.skip(from as int)),
{
    let mut out: Vec<char> = Vec::new();
    let mut i: usize = from;
    assert(chars@.subrange(from as int, from as int) =~= Seq::<char>::empty());
    while i < chars.len()
        invariant
            from <= i <= chars.len(),
            out@ == strip(chars@.subrange(from as int, i as int)),
        decreases chars.len() - i,
    {
        let c: char = chars[i];
        assert(chars@.subrange(from as int, i + 1).drop_last() =~= chars@.subrange(
            from as int,
            i as int,
        ));
        if c != '_' {
            out.push(c);
        }
        i += 1;
    }
    assert(chars@.subrange(from as int, chars.len() as int) =~= chars@.skip(from as int));
    out
}

/// The characters of `s` without the separators.
pub fn strip_separators(s: &str) -> (r: Vec<char>)
    ensures
        r@ == strip(s@),
{
    let chars = chars_of(s);
    assert(chars@.skip(0) =~= chars@);
    strip_from(&chars, 0)
}

/// The code point of `c`.
pub fn code_of(c: char) -> (r: u32)
    ensures
        r == c as int,
{
    c as u32
}

/// What `c` is worth as a digit of the radix, if it is one.
pub fn digit_in(c: char, radix: u32) -> (r: Option<u32>)
    ensures
        r is Some <==> is_digit(c, radix as int),
        r matches Some(d) ==> digit_value(c) == Some(d as int),
{
    let n: u32 = c as u32;
    let d: u32 = if 48 <= n && n <= 57 {
        n - 48
    } else if 97 <= n && n <= 122 {
        n - 87
    } else if 65 <= n && n <= 90 {
        n - 55
    } else {
        return None;
    };
    if d < radix {
        Some(d)
    } else {
        None
    }
}

/// Reads a signed integer in the radix.
pub fn read_integer(s: &Vec<char>, radix: u32) -> (r: Option<i64>)
    requires
        2 <= radix <= 36,
    ensures
        r == i64_of(s@, radix as int),
{
    let negative: bool = s.len() > 0 && s[0] == '-';
    let start: usize = if s.len() > 0 && (s[0] == '-' || s[0] == '+') {
        1
    } else {
        0
    };
    let ghost digits = digits_of(s@);
    assert(digits =~= s@.skip(start as int));
    if start == s.len() {
        return None;
    }
    let limit: u128 = 0x8000_0000_0000_0000u128;
    let mut acc: u128 = 0;
    let mut i: usize = start;
    assert(digits.take(0) =~= Seq::<char>::empty());
    while i < s.len()
        invariant
            2 <= radix <= 36,
            start <= i <= s.len(),
            digits == s@.skip(start as int),
            digits == digits_of(s@),
            negative == (s@.len() > 0 && s@[0] == '-'),
            limit == 0x8000_0000_0000_0000u128,
            acc <= limit,
            all_digits(digits.take(i - start), radix as int),
            acc == magnitude(digits.take(i - start), radix as int),
        decreases s.len() - i,
    {
        let ghost k: int = i - start;
        let c: char = s[i];
        assert(digits[k] == c);
        assert(digits.take(k + 1).drop_last() =~= digits.take(k));
        match digit_in(c, radix) {
            None => {
                assert(!is_digit(digits[k], radix as int));
                return None;
            },
            Some(d) => {
                assert(acc * (radix as u128) + (d as u128) <= 0x8000_0000_0000_0000u128 * 36 + 36)
                    by (nonlinear_arith)
                    requires
                        acc <= 0x8000_0000_0000_0000u128,
                        radix <= 36,
                        d < 36,
                ;
                let next: u128 = acc * (radix as u128) + (d as u128);
                assert(next == magnitude(digits.take(k + 1), radix as int));
                if next > limit {
                    proof {
                        if all_digits(digits, radix as int) {
                            lemma_magnitude_grows(digits, k + 1, radix as int);
                        }
                    }
                    return None;
                }
                assert forall|j: int| 0 <= j < k + 1 implies is_digit(
                    #[trigger] digits.take(k + 1)[j],
                    radix as int,
                ) by {
                    if j < k {
                        assert(digits.take(k + 1)[j] == digits.take(k)[j]);
                    }
                }
                acc = next;
            },
        }
        i += 1;
    }
    assert(digits.take(s.len() - start) =~= digits);
    if negative {
        if acc == limit {
            Some(i64::MIN)
        } else {
            let v: i64 = acc as i64;
            Some(-v)
        }
    } else if acc == limit {
        None
    } else {
        Some(acc as i64)
    }
}

/// Reads a decimal literal. `None` where the text, once its separators are
/// dropped, is no decimal integer of 64 bits.
pub fn parse_decimal(s: &str) -> (r: Option<i64>)
    ensures
        r == decimal_literal(s@),
{
    let digits = strip_separators(s);
    read_integer(&digits, 10)
}

/// Reads a literal with a radix prefix. `None` where the text is no such
/// literal, the radix is not between 2 and 36, or the number does not fit
/// in 64 bits.
pub fn try_parse_int(s: &str, radix: u32) -> (r: Option<i64>)
    ensures
        r == radix_literal(s@, radix as int),
{
    if radix < 2 || radix > 36 {
        return None;
    }
    let chars = chars_of(s);
    if chars.len() < 2 {
        return None;
    }
    let first: char = chars[0];
    let second: char = chars[1];
    let a: u32 = code_of(first);
    let b: u32 = code_of(second);
    if a >= 128 || b >= 128 {
        return None;
    }
    let digits = strip_from(&chars, 2);
    read_integer(&digits, radix)
}

/// Reads a literal with a radix prefix that is known to be well formed.
pub fn parse_int(s: &str, radix: u32) -> (r: i64)
    requires
        radix_literal(s@, radix as int) is Some,
    ensures
        Some(r) == radix_literal(s@, radix as int),
{
    match try_parse_int(s, radix) {
        Some(v) => v,
        None => 0,
    }
}

} // verus!
