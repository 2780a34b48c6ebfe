//! Byte sizes written in binary units (B, KB, MB, GB) with two decimals.
//!
//! A size is first taken as a double, as the sizes of layers and reports are:
//! sizes below 2^53 are exact, larger ones are rounded to 53 significant bits
//! (ties to even). The double divided by a power of 1024 is exact, and it is
//! written rounded to hundredths, ties to even.
use vstd::prelude::*;
use crate::text;
use crate::text::{decimal, digit_char};

verus! {

/// `n / d` rounded to the nearest integer, ties to the even one.
pub open spec fn round_half_even(n: nat, d: nat) -> nat
    recommends
        d > 0,
{
    let q = n / d;
    let r = n % d;
    if 2 * r > d || (2 * r == d && q % 2 == 1) {
        q + 1
    } else {
        q
    }
}

/// `x` rounded to a multiple of `p` (ties to even), once `y`, standing for `x / p`,
/// is below 2^53; while it is not, the unit doubles.
pub open spec fn rounded_at(x: nat, y: nat, p: nat) -> nat
    decreases y,
{
    if y < 0x20_0000_0000_0000 {
        round_half_even(x, p) * p
    } else {
        rounded_at(x, y / 2, p * 2)
    }
}

/// The value of `x` as a double: `x` itself below 2^53, else `x` rounded to 53
/// significant bits, ties to even.
pub open spec fn as_double(x: nat) -> nat {
    rounded_at(x, x, 1)
}

/// A count of hundredths written with two decimals.
pub open spec fn two_decimals(h: nat) -> Seq<char> {
    decimal(h / 100) + seq!['.', digit_char((h % 100) / 10), digit_char(h % 10)]
}

/// The text of a size in the largest binary unit, up to GB, that it reaches.
pub open spec fn size_text(size: nat) -> Seq<char> {
    let v = as_double(size);
    if v < 1024 {
        decimal(v) + " B"@
    } else if v < 1048576 {
        two_decimals(round_half_even(v * 100, 1024)) + " KB"@
    } else if v < 1073741824 {
        two_decimals(round_half_even(v * 100, 1048576)) + " MB"@
    } else {
        two_decimals(round_half_even(v * 100, 1073741824)) + " GB"@
    }
}

/// The text of a size in MB, or in GB from 1 GB on.
pub open spec fn large_size_text(size: nat) -> Seq<char> {
    let v = as_double(size);
    if v < 1073741824 {
        two_decimals(round_half_even(v * 100, 1048576)) + " MB"@
    } else {
        two_decimals(round_half_even(v * 100, 1073741824)) + " GB"@
    }
}

/// A size as a number of GB with two decimals, without a unit.
pub open spec fn gb_text(size: nat) -> Seq<char> {
    two_decimals(round_half_even(as_double(size) * 100, 1073741824))
}

fn round_div(n: u128, d: u128) -> (r: u128)
    requires
        d > 0,
        n / d < u128::MAX,
    ensures
        r == round_half_even(n as nat, d as nat),
        r <= n / d + 1,
{
    let q = n / d;
    let r = n % d;
    if r > d - r || (r == d - r && q % 2 == 1) {
        q + 1
    } else {
        q
    }
}

/// The value of a size as a double, as an integer.
pub fn double_value(x: u64) -> (v: u128)
    ensures
        v == as_double(x as nat),
        v <= 2 * (x as nat) + 1,
{
    let mut y: u64 = x;
    let mut p: u128 = 1;
    while y >= 0x20_0000_0000_0000
        invariant
            rounded_at(x as nat, y as nat, p as nat) == as_double(x as nat),
            1 <= p,
            y * p <= x,
            p > 1 ==> y >= 0x10_0000_0000_0000,
        decreases y,
    {
        assert((y / 2) * (p * 2) <= y * p) by (nonlinear_arith)
            requires
                p >= 1,
        ;
        assert(p * 2 <= 2 * (x as int)) by (nonlinear_arith)
            requires
                y * p <= x,
                y >= 1,
                p >= 1,
        ;
        y = y / 2;
        p = p * 2;
    }
    assert(p <= x as int + 1) by (nonlinear_arith)
        requires
            y * p <= x,
            p >= 1,
            p > 1 ==> y >= 1,
    ;
    let xx: u128 = x as u128;
    let q = round_div(xx, p);
    assert((xx / p) * p <= xx) by (nonlinear_arith)
        requires
            p >= 1,
    ;
    assert(q * p <= 2 * (x as int) + 1) by (nonlinear_arith)
        requires
            q <= xx / p + 1,
            (xx / p) * p <= xx,
            xx == x,
            p <= x as int + 1,
            p >= 1,
    ;
    q * p
}

/// A count of hundredths written with two decimals.
pub fn two_decimals_text(h: u64) -> (r: String)
    ensures
        r@ == two_decimals(h as nat),
{
    let mut out = text::u64_to_decimal(h / 100);
    text::push_char(&mut out, '.');
    text::push_char(&mut out, text::digit((h % 100) / 10));
    text::push_char(&mut out, text::digit(h % 10));
    out
}

fn scaled_text(v: u128, unit: u128, suffix: &str) -> (r: String)
    requires
        unit >= 1024,
        v <= 0x3_0000_0000_0000_0000,
    ensures
        r@ == two_decimals(round_half_even((v * 100) as nat, unit as nat)) + suffix@,
{
    let h = round_div(v * 100, unit);
    assert(((v * 100) as int) / (unit as int) <= 0x12c_0000_0000_0000_0000int / 1024) by (nonlinear_arith)
        requires
            unit >= 1024,
            v <= 0x3_0000_0000_0000_0000,
    ;
    let mut out = two_decimals_text(h as u64);
    out.append(suffix);
    out
}

/// A size in the largest binary unit, up to GB, that it reaches, with two
/// decimals (whole bytes below 1 KB).
pub fn format_size_text(size: u64) -> (r: String)
    ensures
        r@ == size_text(size as nat),
{
    let v = double_value(size);
    if v < 1024 {
        let mut out = text::u64_to_decimal(v as u64);
        out.append(" B");
        out
    } else if v < 1048576 {
        scaled_text(v, 1024, " KB")
    } else if v < 1073741824 {
        scaled_text(v, 1048576, " MB")
    } else {
        scaled_text(v, 1073741824, " GB")
    }
}

/// A size in MB, or in GB from 1 GB on, with two decimals.
pub fn format_large_size_text(size: u64) -> (r: String)
    ensures
        r@ == large_size_text(size as nat),
{
    let v = double_value(size);
    if v < 1073741824 {
        scaled_text(v, 1048576, " MB")
    } else {
        scaled_text(v, 1073741824, " GB")
    }
}

/// A size as a number of GB with two decimals, without a unit.
pub fn format_gb_text(size: u64) -> (r: String)
    ensures
        r@ == gb_text(size as nat),
{
    let v = double_value(size);
    let h = round_div(v * 100, 1073741824);
    assert(((v * 100) as int) / 1073741824int <= 0x12c_0000_0000_0000_0000int / 1024) by (nonlinear_arith)
        requires
            v <= 0x3_0000_0000_0000_0000,
    ;
    two_decimals_text(h as u64)
}

} // verus!
