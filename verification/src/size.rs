//! Sizes in bytes, written for people.
//!
//! A size is shown as the fraction that a double-precision number holds
//! once the byte count is converted to one, rounded to the digits shown.
//! All of it is computed on integers.

use vstd::prelude::*;
use crate::text::{decimal, push_decimal, push_decimal_wide, push_str, string_of};

verus! {

/// `num / den` rounded to the nearest integer, a tie going to the even one.
pub open spec fn round_half_even(num: nat, den: nat) -> nat {
    let q = num / den;
    let r = num % den;
    if 2 * r > den || (2 * r == den && q % 2 == 1) {
        q + 1
    } else {
        q
    }
}

/// The power of two that `unit` grows to while `m` is halved until it is
/// below 2^53.
pub open spec fn double_scale(m: nat, unit: nat) -> nat
    decreases m,
{
    if m < 0x20_0000_0000_0000 {
        unit
    } else {
        double_scale(m / 2, 2 * unit)
    }
}

/// The integer that the double nearest to `n` holds, a tie going to the
/// even mantissa: `n` itself below 2^53, and above it `n` rounded to 53
/// significant bits.
pub open spec fn nearest_double(n: nat) -> nat {
    let unit = double_scale(n, 1);
    round_half_even(n, unit) * unit
}

/// `nearest_double(n) / den` with one digit behind the point.
pub open spec fn one_decimal(n: nat, den: nat) -> Seq<char> {
    let tenths = round_half_even(nearest_double(n) * 10, den);
    decimal(tenths / 10) + "."@ + decimal(tenths % 10)
}

/// `nearest_double(n) / den` with two digits behind the point.
pub open spec fn two_decimals(n: nat, den: nat) -> Seq<char> {
    let hundredths = round_half_even(nearest_double(n) * 100, den);
    decimal(hundredths / 100) + "."@ + decimal((hundredths % 100) / 10) + decimal(
        hundredths % 10,
    )
}

/// A size in bytes as text: in bytes below 1024, else in the largest of
/// KB, MB and GB (powers of 1024) that it reaches, with one digit behind
/// the point.
pub open spec fn size_text(bytes: nat) -> Seq<char> {
    if bytes < 1024 {
        decimal(bytes) + " B"@
    } else if bytes < 1048576 {
        one_decimal(bytes, 1024) + " KB"@
    } else if bytes < 1073741824 {
        one_decimal(bytes, 1048576) + " MB"@
    } else {
        one_decimal(bytes, 1073741824) + " GB"@
    }
}

fn rounded_ratio(num: u128, den: u128) -> (q: u128)
    requires
        den > 0,
        num / den < u128::MAX,
    ensures
        q == round_half_even(num as nat, den as nat),
{
    let q: u128 = num / den;
    let r: u128 = num % den;
    // `r < den`, so `den - r` cannot wrap, and `r > den - r` says `2 r > den`.
    if r > den - r || (r == den - r && q % 2 == 1) {
        q + 1
    } else {
        q
    }
}

/// The integer that the double nearest to `n` holds.
pub fn as_double(n: u64) -> (f: u128)
    ensures
        f == nearest_double(n as nat),
        f <= 0x1_0000_0000_0000_1000,
{
    let mut m: u64 = n;
    let mut unit: u64 = 1;
    while m >= 0x20_0000_0000_0000
        invariant
            1 <= unit <= 4096,
            m * unit <= n,
            double_scale(m as nat, unit as nat) == double_scale(n as nat, 1),
        decreases m,
    {
        assert(unit < 2048) by (nonlinear_arith)
            requires
                m >= 0x20_0000_0000_0000,
                m * unit <= n,
                n <= 0xFFFF_FFFF_FFFF_FFFF,
                unit >= 1,
        ;
        assert((m / 2) * (2 * unit) <= m * unit) by (nonlinear_arith)
            requires
                unit >= 1,
        ;
        m = m / 2;
        unit = unit * 2;
    }
    let q = rounded_ratio(n as u128, unit as u128);
    assert(q * unit <= n + unit) by (nonlinear_arith)
        requires
            q <= n / unit + 1,
            unit >= 1,
    ;
    q * (unit as u128)
}


/// Appends `n / den`, as a double holds it, with one digit behind the
/// point.
pub fn push_one_decimal(dst: &mut Vec<char>, n: u64, den: u64)
    requires
        den > 0,
    ensures
        final(dst)@ == old(dst)@ + one_decimal(n as nat, den as nat),
{
    let tenths = rounded_ratio(as_double(n) * 10, den as u128);
    let ghost before = dst@;
    push_decimal_wide(dst, tenths / 10);
    push_str(dst, ".");
    push_decimal_wide(dst, tenths % 10);
    assert(dst@ == before + (decimal((tenths / 10) as nat) + "."@ + decimal(
        (tenths % 10) as nat,
    )));
}

/// Appends `n / den`, as a double holds it, with two digits behind the
/// point.
pub fn push_two_decimals(dst: &mut Vec<char>, n: u64, den: u64)
    requires
        den > 0,
    ensures
        final(dst)@ == old(dst)@ + two_decimals(n as nat, den as nat),
{
    let hundredths = rounded_ratio(as_double(n) * 100, den as u128);
    let ghost before = dst@;
    push_decimal_wide(dst, hundredths / 100);
    push_str(dst, ".");
    push_decimal_wide(dst, (hundredths % 100) / 10);
    push_decimal_wide(dst, hundredths % 10);
    assert(dst@ == before + (decimal((hundredths / 100) as nat) + "."@ + decimal(
        ((hundredths % 100) / 10) as nat,
    ) + decimal((hundredths % 10) as nat)));
}

/// Appends `bytes` as a size.
pub fn push_size(dst: &mut Vec<char>, bytes: u64)
    ensures
        final(dst)@ == old(dst)@ + size_text(bytes as nat),
{
    let ghost before = dst@;
    if bytes < 1024 {
        push_decimal(dst, bytes);
        push_str(dst, " B");
        assert(dst@ == before + (decimal(bytes as nat) + " B"@));
    } else if bytes < 1048576 {
        push_one_decimal(dst, bytes, 1024);
        push_str(dst, " KB");
        assert(dst@ == before + (one_decimal(bytes as nat, 1024) + " KB"@));
    } else if bytes < 1073741824 {
        push_one_decimal(dst, bytes, 1048576);
        push_str(dst, " MB");
        assert(dst@ == before + (one_decimal(bytes as nat, 1048576) + " MB"@));
    } else {
        push_one_decimal(dst, bytes, 1073741824);
        push_str(dst, " GB");
        assert(dst@ == before + (one_decimal(bytes as nat, 1073741824) + " GB"@));
    }
}

/// `bytes` as a size: `512 B`, `1.5 KB`, `2.0 MB`, `3.2 GB`.
pub fn format_size(bytes: u64) -> (text: String)
    ensures
        text@ == size_text(bytes as nat),
{
    let mut v: Vec<char> = Vec::new();
    push_size(&mut v, bytes);
    assert(v@ == size_text(bytes as nat));
    string_of(&v)
}

} // verus!
