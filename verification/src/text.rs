//! Characters and strings: decimal numbers, trimming and letter case.
use vstd::prelude::*;

verus! {

use vstd::arithmetic::div_mod::lemma_div_denominator;
use vstd::arithmetic::power::{lemma_pow0, lemma_pow1, lemma_pow_positive, pow};

/// `String::push` appends one character to the end of the string.
pub assume_specification[ String::push ](s: &mut String, c: char)
    ensures
        final(s)@ == old(s)@.push(c),
;

/// The characters of Unicode's `White_Space` property.
pub open spec fn is_white_space(c: char) -> bool {
    let v = c as int;
    ||| 0x09 <= v <= 0x0d
    ||| v == 0x20
    ||| v == 0x85
    ||| v == 0xa0
    ||| v == 0x1680
    ||| 0x2000 <= v <= 0x200a
    ||| v == 0x2028
    ||| v == 0x2029
    ||| v == 0x202f
    ||| v == 0x205f
    ||| v == 0x3000
}

/// `s` without the white space at its two ends.
pub open spec fn trimmed(s: Seq<char>) -> Seq<char>
    decreases s.len(),
{
    if s.len() == 0 {
        s
    } else if is_white_space(s.first()) {
        trimmed(s.drop_first())
    } else if is_white_space(s.last()) {
        trimmed(s.drop_last())
    } else {
        s
    }
}

/// `str::trim` removes leading and trailing characters that have the `White_Space` property,
/// and nothing else.
pub assume_specification[ str::trim ](s: &str) -> (r: &str)
    ensures
        r@ == trimmed(s@),
;

/// What `str::to_lowercase` returns for a string.
pub uninterp spec fn lowercased(s: Seq<char>) -> Seq<char>;

/// The lowercase form of an ASCII character.
pub open spec fn ascii_lowercase(c: char) -> char {
    if 'A' <= c <= 'Z' {
        (c as int + 32) as char
    } else {
        c
    }
}

/// `str::to_lowercase` maps a string by Unicode's lowercase mapping. Of a string of ASCII
/// characters it changes the letters `A` to `Z` alone, each into its lowercase letter. What
/// it makes of other characters is not stated.
pub assume_specification[ str::to_lowercase ](s: &str) -> (r: String)
    ensures
        r@ == lowercased(s@),
        (forall|i: int| 0 <= i < s@.len() ==> (#[trigger] s@[i] as int) < 128) ==> r@
            == s@.map_values(|c: char| ascii_lowercase(c)),
;

/// The character of a decimal digit.
pub open spec fn digit_char(d: int) -> char {
    (48 + d) as char
}

/// A natural number in decimal, without leading zeros.
pub open spec fn decimal(n: nat) -> Seq<char>
    decreases n,
{
    if n < 10 {
        seq![digit_char(n as int)]
    } else {
        decimal(n / 10).push(digit_char((n % 10) as int))
    }
}

/// An integer in decimal: a negative one is its absolute value behind a minus sign.
pub open spec fn signed_decimal(n: int) -> Seq<char> {
    if n < 0 {
        seq!['-'] + decimal((-n) as nat)
    } else {
        decimal(n as nat)
    }
}

/// Appends `n` in decimal.
pub fn push_decimal(out: &mut String, n: u64)
    ensures
        final(out)@ == old(out)@ + decimal(n as nat),
    decreases n,
{
    if n >= 10 {
        push_decimal(out, n / 10);
    }
    let digit: u8 = (n % 10) as u8;
    out.push((48 + digit) as char);
    assert(out@ =~= old(out)@ + decimal(n as nat));
}

/// Appends `n` in decimal, with a minus sign where it is negative.
pub fn push_signed_decimal(out: &mut String, n: i64)
    ensures
        final(out)@ == old(out)@ + signed_decimal(n as int),
{
    if n < 0 {
        out.push('-');
        let magnitude: u64 = (-(n + 1)) as u64 + 1;
        push_decimal(out, magnitude);
    } else {
        push_decimal(out, n as u64);
    }
    assert(out@ =~= old(out)@ + signed_decimal(n as int));
}

/// Every character of a decimal number is a digit, and there is at least one.
pub proof fn lemma_decimal_digits(n: nat)
    ensures
        decimal(n).len() > 0,
        forall|i: int| 0 <= i < decimal(n).len() ==> '0' <= #[trigger] decimal(n)[i] <= '9',
    decreases n,
{
    if n >= 10 {
        lemma_decimal_digits(n / 10);
    }
}

/// Different numbers are written differently.
pub proof fn lemma_decimal_injective(a: nat, b: nat)
    requires
        decimal(a) == decimal(b),
    ensures
        a == b,
    decreases a,
{
    lemma_decimal_digits(a / 10);
    lemma_decimal_digits(b / 10);
    assert(decimal(a).last() == decimal(b).last());
    assert(decimal(a).last() as int == 48 + a % 10);
    assert(decimal(b).last() as int == 48 + b % 10);
    if a >= 10 {
        assert(decimal(a).len() > 1);
        assert(b >= 10);
        assert(decimal(a).drop_last() =~= decimal(a / 10));
        assert(decimal(b).drop_last() =~= decimal(b / 10));
        lemma_decimal_injective(a / 10, b / 10);
    } else {
        assert(decimal(b).len() == 1);
        assert(b < 10);
    }
}

/// The digits of a decimal number stand for its value: the last one counts the ones, the one
/// before it the tens, and so on. There are as many as the value needs, and no zero leads.
pub proof fn law_digits_have_place_values(n: nat)
    ensures
        decimal(n).len() > 0,
        n < pow(10, decimal(n).len()),
        n > 0 ==> decimal(n)[0] != '0',
        n == 0 ==> decimal(n).len() == 1,
        forall|i: int|
            0 <= i < decimal(n).len() ==> (#[trigger] decimal(n)[decimal(n).len() - 1 - i]) as int
                == 48 + (n as int / pow(10, i as nat)) % 10,
    decreases n,
{
    let len = decimal(n).len();
    lemma_pow0(10);
    if n < 10 {
        lemma_pow1(10);
        assert(n as int / 1 == n);
    } else {
        let tenth = n / 10;
        law_digits_have_place_values(tenth);
        assert(pow(10, len) == 10 * pow(10, (len - 1) as nat)) by {
            reveal(pow);
        }
        assert forall|i: int| 0 <= i < len implies (#[trigger] decimal(n)[len - 1 - i]) as int
            == 48 + (n as int / pow(10, i as nat)) % 10 by {
            if i > 0 {
                let power = pow(10, (i - 1) as nat);
                lemma_pow_positive(10, (i - 1) as nat);
                assert(pow(10, i as nat) == 10 * power) by {
                    reveal(pow);
                }
                lemma_div_denominator(n as int, 10, power);
                assert(decimal(n)[len - 1 - i] == decimal(tenth)[decimal(tenth).len() - 1 - (i
                    - 1)]);
            } else {
                assert(n as int / 1 == n);
            }
        }
    }
}

/// A sign stands in front of a negative number, and behind it the digits of its absolute value;
/// any other number has its digits alone.
pub proof fn law_sign_stands_in_front(n: int)
    ensures
        n >= 0 ==> signed_decimal(n) == decimal(n as nat),
        n < 0 ==> signed_decimal(n).len() == decimal((-n) as nat).len() + 1,
        n < 0 ==> signed_decimal(n)[0] == '-',
        n < 0 ==> signed_decimal(n).drop_first() == decimal((-n) as nat),
{
    if n < 0 {
        assert(signed_decimal(n).drop_first() =~= decimal((-n) as nat));
    }
}

/// Trimming takes white space off the two ends, all of it, and nothing else.
pub proof fn law_trimming_takes_the_ends(s: Seq<char>) -> (cut: (int, int))
    ensures
        0 <= cut.0 <= cut.1 <= s.len(),
        trimmed(s) == s.subrange(cut.0, cut.1),
        forall|i: int| 0 <= i < cut.0 ==> is_white_space(#[trigger] s[i]),
        forall|i: int| cut.1 <= i < s.len() ==> is_white_space(#[trigger] s[i]),
        cut.0 < cut.1 ==> !is_white_space(s[cut.0]) && !is_white_space(s[cut.1 - 1]),
    decreases s.len(),
{
    if s.len() == 0 {
        assert(s =~= s.subrange(0, 0));
        (0, 0)
    } else if is_white_space(s.first()) {
        let rest = s.drop_first();
        let cut = law_trimming_takes_the_ends(rest);
        assert(rest.subrange(cut.0, cut.1) =~= s.subrange(cut.0 + 1, cut.1 + 1));
        assert forall|i: int| 0 <= i < cut.0 + 1 implies is_white_space(#[trigger] s[i]) by {
            assert(i > 0 ==> s[i] == rest[i - 1]);
        }
        assert forall|i: int| cut.1 + 1 <= i < s.len() implies is_white_space(#[trigger] s[i]) by {
            assert(s[i] == rest[i - 1]);
        }
        (cut.0 + 1, cut.1 + 1)
    } else if is_white_space(s.last()) {
        let rest = s.drop_last();
        let cut = law_trimming_takes_the_ends(rest);
        assert(rest.subrange(cut.0, cut.1) =~= s.subrange(cut.0, cut.1));
        assert forall|i: int| 0 <= i < cut.0 implies is_white_space(#[trigger] s[i]) by {
            assert(s[i] == rest[i]);
        }
        assert forall|i: int| cut.1 <= i < s.len() implies is_white_space(#[trigger] s[i]) by {
            assert(i < s.len() - 1 ==> s[i] == rest[i]);
        }
        (cut.0, cut.1)
    } else {
        assert(s =~= s.subrange(0, s.len() as int));
        (0, s.len() as int)
    }
}

} // verus!
