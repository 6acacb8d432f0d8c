//! Decimal, octal and hexadecimal rendering of integers as ASCII bytes.
//!
//! Every escape sequence this crate produces embeds numbers in their textual form (`\e[12;5H`,
//! `\e[31m`, `printf`-style `%d`/`%x`/`%o` in `tparm`). The spec functions here say what those
//! digit strings are; the executable functions append exactly those bytes.

use vstd::prelude::*;

verus! {

/// The ASCII digit for `d` (`0-9`, then `a-f` or `A-F`).
pub open spec fn digit_byte(d: nat, upper: bool) -> u8 {
    if d < 10 {
        (48 + d) as u8
    } else if upper {
        (55 + d) as u8
    } else {
        (87 + d) as u8
    }
}

/// The digits of `n` written in `base`, most significant first, with no leading zeros
/// (zero is the single digit `0`).
pub open spec fn digits(n: nat, base: nat, upper: bool) -> Seq<u8>
    decreases n,
{
    if base < 2 || n < base {
        seq![digit_byte(n, upper)]
    } else {
        proof {
            vstd::arithmetic::div_mod::lemma_div_decreases(n as int, base as int);
        }
        digits(n / base, base, upper).push(digit_byte(n % base, upper))
    }
}

/// The decimal text of `n`: a leading `-` for negative values, then the digits of `|n|`.
pub open spec fn dec(n: int) -> Seq<u8> {
    if n < 0 {
        seq![45u8] + digits((-n) as nat, 10, false)
    } else {
        digits(n as nat, 10, false)
    }
}

/// A rendered number always has at least one digit.
pub proof fn lemma_digits_nonempty(n: nat, base: nat, upper: bool)
    ensures
        digits(n, base, upper).len() >= 1,
    decreases n,
{
    if !(base < 2 || n < base) {
        vstd::arithmetic::div_mod::lemma_div_decreases(n as int, base as int);
        lemma_digits_nonempty(n / base, base, upper);
    }
}

/// Every byte of a rendered number is a digit of the given base.
pub proof fn lemma_digits_are_digits(n: nat, base: nat, upper: bool)
    requires
        2 <= base <= 16,
    ensures
        forall|i: int|
            0 <= i < digits(n, base, upper).len() ==> is_radix_digit(
                #[trigger] digits(n, base, upper)[i],
            ),
    decreases n,
{
    if !(n < base) {
        vstd::arithmetic::div_mod::lemma_div_decreases(n as int, base as int);
        vstd::arithmetic::div_mod::lemma_mod_pos_bound(n as int, base as int);
        lemma_digits_are_digits(n / base, base, upper);
        assert(digits(n, base, upper) == digits(n / base, base, upper).push(
            digit_byte(n % base, upper),
        ));
    }
}

/// An ASCII digit of any base up to 16, either case.
pub open spec fn is_radix_digit(b: u8) -> bool {
    (48 <= b <= 57) || (65 <= b <= 70) || (97 <= b <= 102)
}

/// Append the digits of `n` in `base` (2..=16) to `out`.
pub fn push_digits(out: &mut Vec<u8>, n: u64, base: u64, upper: bool)
    requires
        2 <= base <= 16,
    ensures
        final(out)@ == old(out)@ + digits(n as nat, base as nat, upper),
    decreases n,
{
    let ghost start = out@;
    if n >= base {
        assert(n / base < n) by (nonlinear_arith)
            requires
                n >= base,
                base >= 2,
        ;
        push_digits(out, n / base, base, upper);
    }
    let d = n % base;
    let b: u8 = if d < 10 {
        48 + d as u8
    } else if upper {
        55 + d as u8
    } else {
        87 + d as u8
    };
    out.push(b);
    assert(b == digit_byte((n as nat) % (base as nat), upper));
    if n >= base {
        assert(digits(n as nat, base as nat, upper) == digits(
            (n as nat) / (base as nat),
            base as nat,
            upper,
        ).push(digit_byte((n as nat) % (base as nat), upper)));
    } else {
        proof { vstd::arithmetic::div_mod::lemma_small_mod(n as nat, base as nat); }
        assert(digits(n as nat, base as nat, upper) == seq![digit_byte(n as nat, upper)]);
    }
    assert(out@ =~= start + digits(n as nat, base as nat, upper));
}

/// Append the decimal text of `n` to `out`.
pub fn push_dec(out: &mut Vec<u8>, n: i64)
    ensures
        final(out)@ == old(out)@ + dec(n as int),
{
    let ghost start = out@;
    if n < 0 {
        out.push(45u8);
        let m: u64 = if n == i64::MIN {
            9223372036854775808u64
        } else {
            (-n) as u64
        };
        push_digits(out, m, 10, false);
        assert(out@ =~= start + dec(n as int));
    } else {
        push_digits(out, n as u64, 10, false);
    }
}

/// The decimal text of `n` as a fresh byte vector.
pub fn dec_bytes(n: i64) -> (r: Vec<u8>)
    ensures
        r@ == dec(n as int),
{
    let mut v = Vec::new();
    push_dec(&mut v, n);
    assert(v@ =~= dec(n as int));
    v
}

/// Append a byte slice to `out`.
pub fn push_bytes(out: &mut Vec<u8>, s: &[u8])
    ensures
        final(out)@ == old(out)@ + s@,
{
    out.extend_from_slice(s);
    assert(final(out)@ =~= old(out)@ + s@);
}

/// Append `n` copies of `b` to `out`.
pub fn push_repeat(out: &mut Vec<u8>, b: u8, n: usize)
    ensures
        final(out)@ == old(out)@ + Seq::new(n as nat, |_i: int| b),
{
    let ghost start = out@;
    let mut k: usize = 0;
    while k < n
        invariant
            k <= n,
            out@ == start + Seq::new(k as nat, |_i: int| b),
        decreases n - k,
    {
        out.push(b);
        k = k + 1;
        assert(out@ =~= start + Seq::new(k as nat, |_i: int| b));
    }
}

} // verus!
