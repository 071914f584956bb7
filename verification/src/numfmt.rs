//! Decimal rendering of integers: plain, signed, and zero-padded to a fixed
//! width, together with the injectivity facts the storage-key module needs.

use vstd::prelude::*;

verus! {

/// The character for one decimal digit.
pub open spec fn digit_char(d: int) -> char {
    if d == 0 {
        '0'
    } else if d == 1 {
        '1'
    } else if d == 2 {
        '2'
    } else if d == 3 {
        '3'
    } else if d == 4 {
        '4'
    } else if d == 5 {
        '5'
    } else if d == 6 {
        '6'
    } else if d == 7 {
        '7'
    } else if d == 8 {
        '8'
    } else {
        '9'
    }
}

/// Decimal digits of `n`, most significant first, without leading zeros.
pub open spec fn dec_digits(n: nat) -> Seq<char>
    decreases n,
{
    if n < 10 {
        seq![digit_char(n as int)]
    } else {
        dec_digits(n / 10) + seq![digit_char((n % 10) as int)]
    }
}

/// Decimal rendering of a signed number: a minus sign before the digits of
/// the magnitude for negative values.
pub open spec fn dec_signed(n: int) -> Seq<char> {
    if n < 0 {
        seq!['-'] + dec_digits((-n) as nat)
    } else {
        dec_digits(n as nat)
    }
}

/// `n` zero-padded to exactly `w` digits; only the last `w` decimal digits
/// of the value appear.
pub open spec fn padded_digits(n: nat, w: nat) -> Seq<char>
    decreases w,
{
    if w == 0 {
        Seq::empty()
    } else {
        padded_digits(n / 10, (w - 1) as nat) + seq![digit_char((n % 10) as int)]
    }
}

fn digit_exec(d: u64) -> (c: char)
    requires
        d < 10,
    ensures
        c == digit_char(d as int),
{
    if d == 0 {
        '0'
    } else if d == 1 {
        '1'
    } else if d == 2 {
        '2'
    } else if d == 3 {
        '3'
    } else if d == 4 {
        '4'
    } else if d == 5 {
        '5'
    } else if d == 6 {
        '6'
    } else if d == 7 {
        '7'
    } else if d == 8 {
        '8'
    } else {
        '9'
    }
}

/// Append the decimal digits of `n` to `out`.
pub fn push_dec_u64(out: &mut Vec<char>, n: u64)
    ensures
        final(out)@ == old(out)@ + dec_digits(n as nat),
    decreases n,
{
    if n < 10 {
        out.push(digit_exec(n));
        proof {
            assert(final(out)@ =~= old(out)@ + dec_digits(n as nat));
        }
    } else {
        push_dec_u64(out, n / 10);
        out.push(digit_exec(n % 10));
        proof {
            assert(final(out)@ =~= old(out)@ + dec_digits(n as nat));
        }
    }
}

/// Append the decimal rendering of a signed number to `out`.
pub fn push_dec_i64(out: &mut Vec<char>, n: i64)
    ensures
        final(out)@ == old(out)@ + dec_signed(n as int),
{
    if n < 0 {
        out.push('-');
        let wide: i128 = n as i128;
        let m: u64 = (-wide) as u64;
        proof {
            assert(m as nat == (-(n as int)) as nat);
        }
        push_dec_u64(out, m);
        proof {
            assert(final(out)@ =~= old(out)@ + dec_signed(n as int));
        }
    } else {
        push_dec_u64(out, n as u64);
    }
}

/// Append `n` zero-padded to exactly `w` digits.
pub fn push_padded_u64(out: &mut Vec<char>, n: u64, w: u64)
    ensures
        final(out)@ == old(out)@ + padded_digits(n as nat, w as nat),
    decreases w,
{
    if w == 0 {
        proof {
            assert(final(out)@ =~= old(out)@ + padded_digits(n as nat, 0));
        }
    } else {
        push_padded_u64(out, n / 10, w - 1);
        out.push(digit_exec(n % 10));
        proof {
            assert(final(out)@ =~= old(out)@ + padded_digits(n as nat, w as nat));
        }
    }
}

/// A decimal rendering is never empty.
pub proof fn lemma_dec_digits_len(n: nat)
    ensures
        dec_digits(n).len() >= 1,
    decreases n,
{
    if n >= 10 {
        lemma_dec_digits_len(n / 10);
    }
}

/// A padded rendering has exactly the requested width.
pub proof fn lemma_padded_digits_len(n: nat, w: nat)
    ensures
        padded_digits(n, w).len() == w,
    decreases w,
{
    if w > 0 {
        lemma_padded_digits_len(n / 10, (w - 1) as nat);
    }
}

/// Powers of ten: the capacity of a fixed-width rendering.
pub open spec fn pow10(w: nat) -> nat
    decreases w,
{
    if w == 0 {
        1
    } else {
        10 * pow10((w - 1) as nat)
    }
}

/// Below the width's capacity, zero-padded rendering is injective.
pub proof fn lemma_padded_digits_injective(a: nat, b: nat, w: nat)
    requires
        padded_digits(a, w) == padded_digits(b, w),
        a < pow10(w),
        b < pow10(w),
    ensures
        a == b,
    decreases w,
{
    if w == 0 {
    } else {
        lemma_padded_digits_len(a / 10, (w - 1) as nat);
        lemma_padded_digits_len(b / 10, (w - 1) as nat);
        assert(padded_digits(a, w).last() == digit_char((a % 10) as int));
        assert(padded_digits(b, w).last() == digit_char((b % 10) as int));
        assert(a % 10 == b % 10);
        assert(padded_digits(a, w).drop_last() =~= padded_digits(a / 10, (w - 1) as nat));
        assert(padded_digits(b, w).drop_last() =~= padded_digits(b / 10, (w - 1) as nat));
        assert(a / 10 < pow10((w - 1) as nat)) by (nonlinear_arith)
            requires
                a < 10 * pow10((w - 1) as nat),
        ;
        assert(b / 10 < pow10((w - 1) as nat)) by (nonlinear_arith)
            requires
                b < 10 * pow10((w - 1) as nat),
        ;
        lemma_padded_digits_injective(a / 10, b / 10, (w - 1) as nat);
        assert(a == 10 * (a / 10) + a % 10);
        assert(b == 10 * (b / 10) + b % 10);
    }
}

/// Two distinct naturals never render to the same digit string.
pub proof fn lemma_dec_digits_injective(a: nat, b: nat)
    requires
        dec_digits(a) == dec_digits(b),
    ensures
        a == b,
    decreases a,
{
    if a < 10 && b < 10 {
        assert(dec_digits(a)[0] == digit_char(a as int));
        assert(dec_digits(b)[0] == digit_char(b as int));
    } else if a < 10 && b >= 10 {
        lemma_dec_digits_len(b / 10);
        assert(dec_digits(b).len() >= 2);
        assert(false);
    } else if a >= 10 && b < 10 {
        lemma_dec_digits_len(a / 10);
        assert(dec_digits(a).len() >= 2);
        assert(false);
    } else {
        lemma_dec_digits_len(a / 10);
        lemma_dec_digits_len(b / 10);
        assert(dec_digits(a).last() == digit_char((a % 10) as int));
        assert(dec_digits(b).last() == digit_char((b % 10) as int));
        assert(a % 10 == b % 10);
        assert(dec_digits(a).drop_last() =~= dec_digits(a / 10));
        assert(dec_digits(b).drop_last() =~= dec_digits(b / 10));
        lemma_dec_digits_injective(a / 10, b / 10);
    }
}

/// Two distinct integers never render to the same signed decimal string.
pub proof fn lemma_dec_signed_injective(a: int, b: int)
    requires
        dec_signed(a) == dec_signed(b),
    ensures
        a == b,
{
    if a >= 0 && b >= 0 {
        lemma_dec_digits_injective(a as nat, b as nat);
    } else if a < 0 && b < 0 {
        assert(dec_signed(a).skip(1) =~= dec_digits((-a) as nat));
        assert(dec_signed(b).skip(1) =~= dec_digits((-b) as nat));
        lemma_dec_digits_injective((-a) as nat, (-b) as nat);
    } else if a < 0 && b >= 0 {
        assert(dec_signed(a)[0] == '-');
        lemma_dec_digits_first_is_digit(b as nat);
        assert(false);
    } else {
        assert(dec_signed(b)[0] == '-');
        lemma_dec_digits_first_is_digit(a as nat);
        assert(false);
    }
}

/// The first character of an unsigned rendering is a digit, never a sign.
pub proof fn lemma_dec_digits_first_is_digit(n: nat)
    ensures
        dec_digits(n).len() >= 1,
        dec_digits(n)[0] != '-',
    decreases n,
{
    if n < 10 {
        assert(dec_digits(n)[0] == digit_char(n as int));
    } else {
        lemma_dec_digits_first_is_digit(n / 10);
        assert(dec_digits(n)[0] == dec_digits(n / 10)[0]);
    }
}

} // verus!
