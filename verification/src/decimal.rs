//! Decimal notation for unsigned 32-bit numbers, as bytes of ASCII text.
//!
//! A token denotes a number when it is an optional `+` followed by at least one
//! ASCII digit, and the digits, read in base ten, do not exceed `u32::MAX`.
//! Leading zeros are allowed; no other byte is: no sign `-`, no blank, no
//! separator, no prefix of another base.

use vstd::prelude::*;

verus! {

/// The byte `0`, the first of the ten digits.
pub const DIGIT_ZERO: u8 = 0x30;

/// The byte `9`, the last of the ten digits.
pub const DIGIT_NINE: u8 = 0x39;

/// The byte `+`, which may stand once before the digits.
pub const PLUS: u8 = 0x2b;

/// Whether a byte is one of `0` to `9`.
pub open spec fn is_digit(b: u8) -> bool {
    0x30 <= b <= 0x39
}

/// Whether every byte of the sequence is a digit.
pub open spec fn all_digits(s: Seq<u8>) -> bool {
    forall|i: int| 0 <= i < s.len() ==> is_digit(#[trigger] s[i])
}

/// The number that a sequence of digits denotes in base ten; the empty sequence denotes 0.
pub open spec fn digits_value(s: Seq<u8>) -> nat
    decreases s.len(),
{
    if s.len() == 0 {
        0
    } else {
        digits_value(s.drop_last()) * 10 + (s.last() - 0x30) as nat
    }
}

/// The token without the one `+` that may lead it.
pub open spec fn magnitude(token: Seq<u8>) -> Seq<u8> {
    if token.len() > 0 && token[0] == 0x2b {
        token.skip(1)
    } else {
        token
    }
}

/// The number that a token denotes, if it denotes one that fits in 32 bits.
pub open spec fn decimal_u32(token: Seq<u8>) -> Option<u32> {
    let digits = magnitude(token);
    if digits.len() > 0 && all_digits(digits) && digits_value(digits) <= u32::MAX {
        Some(digits_value(digits) as u32)
    } else {
        None
    }
}

/// The shortest run of digits that denotes `n`: no sign and no leading zero, but `0` itself.
pub open spec fn decimal_digits(n: nat) -> Seq<u8>
    decreases n,
{
    if n < 10 {
        seq![(0x30 + n) as u8]
    } else {
        decimal_digits(n / 10).push((0x30 + n % 10) as u8)
    }
}

/// A run of digits denotes at least what any of its prefixes denotes.
pub proof fn lemma_prefix_value(s: Seq<u8>, k: int)
    requires
        all_digits(s),
        0 <= k <= s.len(),
    ensures
        digits_value(s.take(k)) <= digits_value(s),
    decreases s.len(),
{
    if k == s.len() {
        assert(s.take(k) =~= s);
    } else {
        let shorter = s.drop_last();
        assert(shorter.take(k) =~= s.take(k));
        assert(is_digit(s[s.len() - 1]));
        lemma_prefix_value(shorter, k);
    }
}

/// The shortest notation of `n` is a non-empty run of digits that denotes `n`.
pub proof fn lemma_decimal_digits(n: nat)
    ensures
        decimal_digits(n).len() > 0,
        all_digits(decimal_digits(n)),
        digits_value(decimal_digits(n)) == n,
    decreases n,
{
    if n < 10 {
        let s = decimal_digits(n);
        assert(s.drop_last() =~= Seq::<u8>::empty());
        assert(digits_value(s.drop_last()) == 0);
    } else {
        lemma_decimal_digits(n / 10);
        let s = decimal_digits(n);
        assert(s.drop_last() =~= decimal_digits(n / 10));
        assert(s.last() == (0x30 + n % 10) as u8);
    }
}

/// Reading the shortest notation of a 32-bit number gives the number back.
pub proof fn lemma_decimal_round_trip(n: u32)
    ensures
        decimal_u32(decimal_digits(n as nat)) == Some(n),
{
    lemma_decimal_digits(n as nat);
    let s = decimal_digits(n as nat);
    assert(is_digit(s[0]));
}

/// Reads a token as an unsigned 32-bit number in decimal notation.
///
/// Returns the number exactly when the token is an optional `+` followed by
/// one or more digits whose value fits in 32 bits, and `None` for any other
/// sequence of bytes.
pub fn parse_u32(token: &[u8]) -> (r: Option<u32>)
    ensures
        r == decimal_u32(token@),
{
    let n: usize = token.len();
    let start: usize = if n > 0 && token[0] == PLUS { 1 } else { 0 };
    let ghost digits = magnitude(token@);
    assert(digits =~= token@.skip(start as int));
    if start == n {
        return None;
    }
    let mut i: usize = start;
    let mut acc: u32 = 0;
    assert(digits.take(0) =~= Seq::<u8>::empty());
    while i < n
        invariant
            start <= i <= n,
            n == token@.len(),
            digits == token@.skip(start as int),
            digits == magnitude(token@),
            all_digits(digits.take(i - start)),
            acc == digits_value(digits.take(i - start)),
        decreases n - i,
    {
        let b: u8 = token[i];
        if b < DIGIT_ZERO || b > DIGIT_NINE {
            assert(digits[i - start] == b);
            assert(!all_digits(digits));
            return None;
        }
        let next: u64 = (acc as u64) * 10 + ((b - DIGIT_ZERO) as u64);
        let ghost read = digits.take(i - start + 1);
        assert(read.drop_last() =~= digits.take(i - start));
        assert(read.last() == b);
        assert(digits_value(read) == next);
        if next > 0xffff_ffff {
            proof {
                if all_digits(digits) {
                    lemma_prefix_value(digits, i - start + 1);
                }
            }
            return None;
        }
        acc = next as u32;
        i = i + 1;
    }
    assert(digits.take(i - start) =~= digits);
    Some(acc)
}

/// Writes a number in its shortest notation at the end of `out`.
pub fn write_u32(out: &mut Vec<u8>, n: u32)
    ensures
        final(out)@ == old(out)@ + decimal_digits(n as nat),
    decreases n,
{
    if n >= 10 {
        write_u32(out, n / 10);
    }
    let digit: u8 = DIGIT_ZERO + (n % 10) as u8;
    out.push(digit);
    proof {
        if n >= 10 {
            assert(out@ =~= old(out)@ + decimal_digits((n / 10) as nat).push(digit));
        } else {
            assert(out@ =~= old(out)@ + seq![digit]);
        }
    }
}

} // verus!
