//! Decimal numerals: reading a machine integer from text and writing it back.

use crate::text::{lemma_run_len, lemma_run_len_unique, run_len};
use vstd::prelude::*;

verus! {

/// Why a piece of text is not a decimal numeral that fits a `usize`.
#[derive(Clone, Copy, Debug, PartialEq, Eq, Structural)]
pub enum IntFault {
    /// The text is empty.
    Empty,
    /// A character that is no decimal digit stands where a digit is needed.
    InvalidDigit,
    /// The digits denote a number above `usize::MAX`.
    Overflow,
}

/// `c` is one of the ten ASCII digits.
pub open spec fn is_digit(c: char) -> bool {
    '0' <= c <= '9'
}

/// The number that the digit `c` stands for.
pub open spec fn digit_value(c: char) -> nat
    recommends
        is_digit(c),
{
    (c as int - '0' as int) as nat
}

/// The digit that stands for `d`.
pub open spec fn digit_char(d: nat) -> char
    recommends
        d < 10,
{
    ('0' as int + d) as char
}

/// Every character of `s` is a digit.
pub open spec fn all_digits(s: Seq<char>) -> bool {
    forall|i: int| 0 <= i < s.len() ==> is_digit(#[trigger] s[i])
}

/// The number that a run of digits denotes, most significant digit first.
pub open spec fn digits_value(s: Seq<char>) -> nat
    decreases s.len(),
{
    if s.len() == 0 {
        0
    } else {
        10 * digits_value(s.drop_last()) + digit_value(s.last())
    }
}

/// How many digits stand at the front of `s` before its first other character.
pub open spec fn digit_run(s: Seq<char>) -> nat {
    run_len(s, |c: char| is_digit(c))
}

/// The text of a numeral without its optional leading `+`.
pub open spec fn unsigned_part(s: Seq<char>) -> Seq<char> {
    if s.len() > 0 && s[0] == '+' {
        s.skip(1)
    } else {
        s
    }
}

/// What reading `s` as a decimal numeral gives.
///
/// A numeral is an optional `+` followed by one or more digits. The text is
/// read from the left and the first fault met decides the error: a number that
/// has already outgrown `usize` is an overflow even if a stray character
/// follows the digits.
pub open spec fn parse_int(s: Seq<char>) -> Result<nat, IntFault> {
    let d = unsigned_part(s);
    let run = d.take(digit_run(d) as int);
    if s.len() == 0 {
        Err(IntFault::Empty)
    } else if digits_value(run) > usize::MAX {
        Err(IntFault::Overflow)
    } else if run.len() < d.len() || d.len() == 0 {
        Err(IntFault::InvalidDigit)
    } else {
        Ok(digits_value(d))
    }
}

/// The canonical decimal numeral of `n`: no sign and no leading zero.
pub open spec fn decimal(n: nat) -> Seq<char>
    decreases n,
{
    if n < 10 {
        seq![digit_char(n)]
    } else {
        decimal(n / 10).push(digit_char(n % 10))
    }
}

/// `s` is written the way `decimal` writes: digits only, at least one, and no
/// leading zero except in `"0"` itself.
pub open spec fn is_canonical(s: Seq<char>) -> bool {
    &&& s.len() > 0
    &&& all_digits(s)
    &&& s.len() > 1 ==> s[0] != '0'
}

/// The digits before the first other character are digits, and the run ends at
/// the end of the text or at a character that is none.
pub proof fn lemma_digit_run(s: Seq<char>)
    ensures
        digit_run(s) <= s.len(),
        all_digits(s.take(digit_run(s) as int)),
        digit_run(s) < s.len() ==> !is_digit(s[digit_run(s) as int]),
{
    lemma_run_len(s, |c: char| is_digit(c));
}

/// A prefix of digits that ends at the end of the text or before a character
/// that is no digit is the digit run.
pub proof fn lemma_digit_run_unique(s: Seq<char>, k: int)
    requires
        0 <= k <= s.len(),
        all_digits(s.take(k)),
        k < s.len() ==> !is_digit(s[k]),
    ensures
        digit_run(s) == k,
{
    assert forall|i: int| 0 <= i < k implies is_digit(#[trigger] s[i]) by {
        assert(s.take(k)[i] == s[i]);
    }
    lemma_run_len_unique(s, |c: char| is_digit(c), k);
}

/// A longer prefix of a text denotes at least as much as a shorter one.
pub proof fn lemma_value_grows(s: Seq<char>, j: int, k: int)
    requires
        0 <= j <= k <= s.len(),
    ensures
        digits_value(s.take(j)) <= digits_value(s.take(k)),
    decreases k - j,
{
    if j < k {
        lemma_value_grows(s, j, k - 1);
        assert(s.take(k).drop_last() =~= s.take(k - 1));
    }
}

/// What `decimal` writes is canonical and denotes the number it was written for.
pub proof fn lemma_decimal_value(n: nat)
    ensures
        is_canonical(decimal(n)),
        digits_value(decimal(n)) == n,
    decreases n,
{
    if n < 10 {
        let s = decimal(n);
        assert(s.drop_last() =~= Seq::<char>::empty());
        assert(digits_value(s.drop_last()) == 0);
    } else {
        lemma_decimal_value(n / 10);
        let p = decimal(n / 10);
        let s = decimal(n);
        assert(s.drop_last() =~= p);
        assert(s[0] == p[0]);
        if p.len() == 1 {
            assert(p.drop_last() =~= Seq::<char>::empty());
            assert(digits_value(p.drop_last()) == 0);
        }
    }
}

/// A canonical numeral is what `decimal` writes for the number it denotes.
pub proof fn lemma_canonical_decimal(s: Seq<char>)
    requires
        is_canonical(s),
    ensures
        decimal(digits_value(s)) == s,
    decreases s.len(),
{
    let init = s.drop_last();
    if s.len() == 1 {
        assert(init =~= Seq::<char>::empty());
        assert(digits_value(init) == 0);
        assert(is_digit(s[0]));
        assert(decimal(digits_value(s)) =~= s);
    } else {
        assert(is_digit(s.last()));
        assert(init[0] == s[0]);
        assert(is_digit(s[0]));
        lemma_canonical_decimal(init);
        lemma_value_grows(init, 1, init.len() as int);
        assert(init.take(init.len() as int) =~= init);
        assert(init.take(1).drop_last() =~= Seq::<char>::empty());
        assert(digits_value(init.take(1).drop_last()) == 0);
        assert(init.take(1).last() == s[0]);
        assert(digits_value(init) >= 1);
        assert(decimal(digits_value(s)) =~= s);
    }
}

/// Reading a canonical numeral that fits gives its number.
pub proof fn lemma_parse_canonical(s: Seq<char>)
    requires
        is_canonical(s),
        digits_value(s) <= usize::MAX,
    ensures
        parse_int(s) == Ok::<nat, IntFault>(digits_value(s)),
{
    assert(is_digit(s[0]));
    assert(unsigned_part(s) == s);
    assert(s.take(s.len() as int) =~= s);
    lemma_digit_run_unique(s, s.len() as int);
}

/// Reading what `decimal` wrote gives the number back.
pub proof fn lemma_parse_decimal(n: nat)
    requires
        n <= usize::MAX,
    ensures
        parse_int(decimal(n)) == Ok::<nat, IntFault>(n),
{
    lemma_decimal_value(n);
    lemma_parse_canonical(decimal(n));
}

/// `String::push`: the character is appended to the text.
pub assume_specification[ String::push ](s: &mut String, c: char)
    ensures
        final(s)@ == old(s)@.push(c),
;

/// Reads the characters of `text` from `from` up to `to` as a decimal numeral.
pub fn read_int(text: &[char], from: usize, to: usize) -> (r: Result<usize, IntFault>)
    requires
        from <= to <= text@.len(),
    ensures
        r matches Ok(n) ==> parse_int(text@.subrange(from as int, to as int)) == Ok::<
            nat,
            IntFault,
        >(n as nat),
        r matches Err(fault) ==> parse_int(text@.subrange(from as int, to as int)) == Err::<
            nat,
            IntFault,
        >(fault),
{
    let ghost s = text@.subrange(from as int, to as int);
    if from == to {
        return Err(IntFault::Empty);
    }
    let start: usize = if text[from] == '+' { from + 1 } else { from };
    let ghost d = unsigned_part(s);
    assert(d =~= text@.subrange(start as int, to as int));
    let mut i: usize = start;
    let mut acc: usize = 0;
    while i < to
        invariant
            from < to,
            start <= i <= to <= text@.len(),
            s == text@.subrange(from as int, to as int),
            d == unsigned_part(s),
            d == text@.subrange(start as int, to as int),
            all_digits(d.take(i - start)),
            digits_value(d.take(i - start)) == acc,
        decreases to - i,
    {
        let c = text[i];
        proof {
            assert(d[i - start] == c);
            assert(d.take(i - start + 1).drop_last() =~= d.take(i - start));
            assert(d.take(i - start + 1).last() == c);
        }
        if !(c >= '0' && c <= '9') {
            proof {
                lemma_digit_run_unique(d, i - start);
            }
            return Err(IntFault::InvalidDigit);
        }
        let digit: usize = (c as u32 - '0' as u32) as usize;
        proof {
            assert forall|j: int| 0 <= j < i - start + 1 implies is_digit(
                #[trigger] d.take(i - start + 1)[j],
            ) by {
                if j < i - start {
                    assert(d.take(i - start + 1)[j] == d.take(i - start)[j]);
                }
            }
            lemma_digit_run(d);
            if digit_run(d) < i - start + 1 {
                assert(d.take(i - start + 1)[digit_run(d) as int] == d[digit_run(d) as int]);
            }
            lemma_value_grows(d, i - start + 1, digit_run(d) as int);
        }
        if acc > (usize::MAX - digit) / 10 {
            return Err(IntFault::Overflow);
        }
        acc = acc * 10 + digit;
        i += 1;
    }
    proof {
        assert(d.take(d.len() as int) =~= d);
        lemma_digit_run_unique(d, d.len() as int);
    }
    if start == to {
        Err(IntFault::InvalidDigit)
    } else {
        Ok(acc)
    }
}

/// Appends the canonical decimal numeral of `n` to `out`.
pub fn write_int(out: &mut String, n: usize)
    ensures
        final(out)@ == old(out)@ + decimal(n as nat),
    decreases n,
{
    if n >= 10 {
        write_int(out, n / 10);
    }
    let digit: u8 = (n % 10) as u8;
    let c: char = (48u8 + digit) as char;
    assert(c == digit_char((n % 10) as nat));
    out.push(c);
    assert(final(out)@ =~= old(out)@ + decimal(n as nat));
}

} // verus!
