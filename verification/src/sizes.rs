//! Human-readable byte sizes: "12 B", "1.5 KB", "3.0 MB", "2.1 GB".
//!
//! Sizes of a kilobyte and more are written with one decimal, the way
//! `format!("{:.1}", n as f64 / unit as f64)` writes them: the count is first
//! rounded to the nearest `f64` (ties to an even significand), the quotient by
//! the unit is exact (the unit is a power of two), and the decimal is then
//! rounded half to even. The computation here is carried out on integers.

use vstd::prelude::*;
use vstd::arithmetic::power2::{pow2, lemma_pow2_unfold, lemma_pow2_pos, lemma_pow2_strictly_increases, lemma2_to64};
use crate::text::{decimal, decimal_u64, digit_char, push_char, push_str};

verus! {

pub const KB: u64 = 1024;
pub const MB: u64 = 1048576;
pub const GB: u64 = 1073741824;

/// Number of binary digits of `n` (0 for 0).
pub open spec fn bit_len(n: nat) -> nat
    decreases n,
{
    if n == 0 { 0 } else { 1 + bit_len(n / 2) }
}

/// `a / d` rounded to the nearest integer, ties to the even one.
pub open spec fn div_round_half_even(a: nat, d: nat) -> nat
    recommends
        d > 0,
{
    let q = a / d;
    let r = a % d;
    if 2 * r < d {
        q
    } else if 2 * r > d {
        q + 1
    } else if q % 2 == 0 {
        q
    } else {
        q + 1
    }
}

/// The `f64` nearest to the integer `n` (ties to an even significand), as an integer.
pub open spec fn nearest_f64(n: nat) -> nat {
    if bit_len(n) <= 53 {
        n
    } else {
        let u = pow2((bit_len(n) - 53) as nat);
        div_round_half_even(n, u) * u
    }
}

/// Tenths of `n / unit`, rounded as `{:.1}` rounds the `f64` quotient.
pub open spec fn tenths(n: nat, unit: nat) -> nat {
    div_round_half_even(10 * nearest_f64(n), unit)
}

/// "<integer part>.<one digit> <suffix>" for a count of tenths.
pub open spec fn one_decimal(t: nat, suffix: Seq<char>) -> Seq<char> {
    decimal(t / 10).push('.').push(digit_char(t % 10)) + suffix
}

/// What `format_size` writes for `n` bytes.
pub open spec fn format_size_spec(n: nat) -> Seq<char> {
    if n >= GB {
        one_decimal(tenths(n, GB as nat), " GB"@)
    } else if n >= MB {
        one_decimal(tenths(n, MB as nat), " MB"@)
    } else if n >= KB {
        one_decimal(tenths(n, KB as nat), " KB"@)
    } else {
        decimal(n) + " B"@
    }
}

proof fn lemma_bit_len_bound(n: nat, k: nat)
    requires
        n < pow2(k),
    ensures
        bit_len(n) <= k,
    decreases k,
{
    lemma2_to64();
    if k > 0 && n > 0 {
        lemma_pow2_unfold(k);
        lemma_bit_len_bound(n / 2, (k - 1) as nat);
    }
}

/// Bit length of a `u64`.
fn bit_len_u64(n: u64) -> (b: u32)
    ensures
        b as nat == bit_len(n as nat),
        b <= 64,
{
    let mut m: u64 = n;
    let mut b: u32 = 0;
    proof {
        lemma2_to64();
        lemma_bit_len_bound(n as nat, 64);
    }
    while m > 0
        invariant
            b as nat + bit_len(m as nat) == bit_len(n as nat),
            bit_len(n as nat) <= 64,
        decreases m,
    {
        m = m / 2;
        b = b + 1;
    }
    b
}

/// `div_round_half_even` on machine integers.
fn div_round_half_even_u128(a: u128, d: u128) -> (q: u128)
    requires
        0 < d < 0x1_0000_0000_0000_0000_0000_0000_0000,
        a < 0x1_0000_0000_0000_0000_0000_0000_0000,
    ensures
        q as nat == div_round_half_even(a as nat, d as nat),
{
    let q = a / d;
    let r = a % d;
    if 2 * r < d {
        q
    } else if 2 * r > d {
        q + 1
    } else if q % 2 == 0 {
        q
    } else {
        q + 1
    }
}

/// `2^e` for small `e`.
fn two_pow_u128(e: u32) -> (p: u128)
    requires
        e <= 64,
    ensures
        p as nat == pow2(e as nat),
        1 <= p <= 0x1_0000_0000_0000_0000,
{
    proof {
        lemma2_to64();
    }
    let mut p: u128 = 1;
    let mut i: u32 = 0;
    while i < e
        invariant
            i <= e <= 64,
            p as nat == pow2(i as nat),
            p >= 1,
            p <= 0x1_0000_0000_0000_0000,
        decreases e - i,
    {
        proof {
            lemma_pow2_unfold((i + 1) as nat);
            lemma2_to64();
            if i + 1 < 64 {
                lemma_pow2_strictly_increases((i + 1) as nat, 64);
            }
        }
        p = p * 2;
        i = i + 1;
    }
    p
}

/// The `f64` nearest to `n`, as an integer (at most `2^64`).
fn nearest_f64_u128(n: u64) -> (f: u128)
    ensures
        f as nat == nearest_f64(n as nat),
        f <= 0x1_0000_0000_0000_0000,
{
    let b = bit_len_u64(n);
    if b <= 53 {
        n as u128
    } else {
        let u = two_pow_u128(b - 53);
        let q = div_round_half_even_u128(n as u128, u);
        proof {
            lemma2_to64();
            let e: nat = (b - 53) as nat;
            if e < 11 {
                lemma_pow2_strictly_increases(e, 11);
            }
            // u divides 2^64 and n < 2^64, so rounding up stays within 2^64
            let m: nat = pow2((64 - e) as nat);
            vstd::arithmetic::power2::lemma_pow2_adds((64 - e) as nat, e);
            assert((64 - e) as nat + e == 64);
            let ni: int = n as int;
            let ui: int = u as int;
            let qi: int = q as int;
            assert(ni < m * ui);
            assert(ni / ui < m) by (nonlinear_arith)
                requires ni < m * ui, ui > 0, ni >= 0;
            assert(qi <= ni / ui + 1);
            assert(qi * ui <= m * ui) by (nonlinear_arith)
                requires qi <= m, ui > 0;
        }
        q * u
    }
}

/// Appends "<t / 10>.<t % 10><suffix>".
fn push_one_decimal(out: &mut String, t: u128, suffix: &str)
    requires
        t < 0x1_0000_0000_0000_0000,
    ensures
        final(out)@ == old(out)@ + one_decimal(t as nat, suffix@),
{
    let whole = decimal_u64((t / 10) as u64);
    push_str(out, whole.as_str());
    push_char(out, '.');
    let d = (t % 10) as u64;
    let c = crate::text::digit_of_exec(d);
    push_char(out, c);
    push_str(out, suffix);
    assert(final(out)@ =~= old(out)@ + one_decimal(t as nat, suffix@));
}

/// Human-readable size: "12 B", "1.2 KB", "3.4 MB", "5.6 GB".
pub fn format_size(n: u64) -> (s: String)
    ensures
        s@ == format_size_spec(n as nat),
{
    let mut out = String::new();
    if n >= KB {
        let unit: u128 = if n >= GB { GB as u128 } else if n >= MB { MB as u128 } else { KB as u128 };
        let f = nearest_f64_u128(n);
        let t = div_round_half_even_u128(10 * f, unit);
        proof {
            let ghost tf: int = 10 * f;
            assert(t <= tf / (unit as int) + 1);
            assert(tf / (unit as int) <= tf / 1024) by (nonlinear_arith)
                requires unit >= 1024, tf >= 0;
        }
        if n >= GB {
            push_one_decimal(&mut out, t, " GB");
        } else if n >= MB {
            push_one_decimal(&mut out, t, " MB");
        } else {
            push_one_decimal(&mut out, t, " KB");
        }
        assert(out@ =~= format_size_spec(n as nat));
    } else {
        let whole = decimal_u64(n);
        push_str(&mut out, whole.as_str());
        push_str(&mut out, " B");
        assert(out@ =~= format_size_spec(n as nat));
    }
    out
}

} // verus!
