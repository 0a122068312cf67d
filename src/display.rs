//! Human-readable rendering of sizes and durations.

use vstd::prelude::*;
use crate::text::{decimal, digit_char, digit_str, push_decimal};

verus! {

pub open spec fn pow1024(k: nat) -> nat
    decreases k,
{
    if k == 0 { 1 } else { 1024 * pow1024((k - 1) as nat) }
}

pub open spec fn pow10(d: nat) -> nat
    decreases d,
{
    if d == 0 { 1 } else { 10 * pow10((d - 1) as nat) }
}

/// `n / den` rounded to the nearest integer, ties to even.
pub open spec fn div_round_even(n: nat, den: nat) -> nat {
    let q = n / den;
    let r = n % den;
    if 2 * r > den || (2 * r == den && q % 2 == 1) { q + 1 } else { q }
}

/// `q / 10^d` written with exactly `d` (at most two) decimals.
pub open spec fn fixed_text(q: nat, d: nat) -> Seq<char> {
    if d == 0 {
        decimal(q)
    } else if d == 1 {
        decimal(q / 10) + seq!['.', digit_char((q % 10) as int)]
    } else {
        decimal(q / 100) + seq!['.', digit_char(((q % 100) / 10) as int), digit_char((q % 10) as int)]
    }
}

/// `n / den` rounded to `d` decimals and written out.
pub open spec fn ratio_text(n: nat, den: nat, d: nat) -> Seq<char> {
    fixed_text(div_round_even(n * pow10(d), den), d)
}

pub fn push_ratio(out: &mut String, n: u64, den: u64, d: u32)
    requires
        den > 0,
        d <= 2,
    ensures
        final(out)@ == old(out)@ + ratio_text(n as nat, den as nat, d as nat),
{
    let p: u128 = if d == 0 { 1 } else if d == 1 { 10 } else { 100 };
    proof {
        assert(pow10(0) == 1);
        assert(pow10(1) == 10) by { assert(pow10(0) == 1); }
        assert(pow10(2) == 100) by { assert(pow10(1) == 10) by { assert(pow10(0) == 1); } }
        assert(n as nat * pow10(d as nat) <= u64::MAX as nat * 100) by (nonlinear_arith)
            requires pow10(d as nat) <= 100, n <= u64::MAX;
    }
    let num: u128 = n as u128 * p;
    let q0: u128 = num / den as u128;
    let r: u128 = num % den as u128;
    let q: u128 = if 2 * r > den as u128 || (2 * r == den as u128 && q0 % 2 == 1) { q0 + 1 } else { q0 };
    proof {
        vstd::arithmetic::div_mod::lemma_div_is_ordered_by_denominator(num as int, 1, den as int);
        assert(q <= u64::MAX as int * 100 + 1);
        assert(q as nat == div_round_even(n as nat * pow10(d as nat), den as nat));
        if d == 0 {
            if den == 1 {
                assert(r == 0);
                assert(q == n);
            } else {
                vstd::arithmetic::div_mod::lemma_div_is_ordered_by_denominator(num as int, 2, den as int);
                assert(q0 <= num / 2);
            }
        }
    }
    if d == 0 {
        push_decimal(out, q as u64);
    } else if d == 1 {
        push_decimal(out, (q / 10) as u64);
        out.append(".");
        out.append(digit_str((q % 10) as u64));
        proof {
            reveal_strlit(".");
        }
    } else {
        push_decimal(out, (q / 100) as u64);
        out.append(".");
        out.append(digit_str(((q % 100) / 10) as u64));
        out.append(digit_str((q % 10) as u64));
        proof {
            reveal_strlit(".");
        }
    }
    proof {
        assert(out@ =~= old(out)@ + ratio_text(n as nat, den as nat, d as nat));
    }
}

/// `Ns`, `Mm Ss`, `Hh Mm` or `Dd Hh`, by magnitude.
pub open spec fn duration_text(secs: nat) -> Seq<char> {
    if secs < 60 {
        decimal(secs) + "s"@
    } else if secs < 3600 {
        decimal(secs / 60) + "m "@ + decimal(secs % 60) + "s"@
    } else if secs < 86400 {
        decimal(secs / 3600) + "h "@ + decimal((secs % 3600) / 60) + "m"@
    } else {
        decimal(secs / 86400) + "d "@ + decimal((secs % 86400) / 3600) + "h"@
    }
}

/// A duration in seconds, in its two largest units.
pub fn human_duration(secs: u64) -> (r: String)
    ensures
        r@ == duration_text(secs as nat),
{
    let mut s = String::new();
    if secs < 60 {
        push_decimal(&mut s, secs);
        s.append("s");
    } else if secs < 3600 {
        push_decimal(&mut s, secs / 60);
        s.append("m ");
        push_decimal(&mut s, secs % 60);
        s.append("s");
    } else if secs < 86400 {
        push_decimal(&mut s, secs / 3600);
        s.append("h ");
        push_decimal(&mut s, (secs % 3600) / 60);
        s.append("m");
    } else {
        push_decimal(&mut s, secs / 86400);
        s.append("d ");
        push_decimal(&mut s, (secs % 86400) / 3600);
        s.append("h");
    }
    proof {
        assert(s@ =~= duration_text(secs as nat));
    }
    s
}

/// Binary unit names, bytes to petabytes.
pub open spec fn unit_name(k: nat) -> Seq<char> {
    if k == 0 { "B"@ } else if k == 1 { "KB"@ } else if k == 2 { "MB"@ } else if k == 3 { "GB"@ }
    else if k == 4 { "TB"@ } else { "PB"@ }
}

/// Smallest unit in which the size is below 1024 (6 past the petabyte).
pub open spec fn unit_index(bytes: nat) -> nat {
    if bytes < pow1024(1) { 0 } else if bytes < pow1024(2) { 1 } else if bytes < pow1024(3) { 2 }
    else if bytes < pow1024(4) { 3 } else if bytes < pow1024(5) { 4 } else if bytes < pow1024(6) { 5 }
    else { 6 }
}

/// Size in binary units with three significant figures: two decimals below
/// 10, one below 100, none above; past the petabyte range, one decimal.
pub open spec fn human_bytes_text(bytes: nat) -> Seq<char> {
    let k = unit_index(bytes);
    if k == 6 {
        ratio_text(bytes, pow1024(6), 1) + " PB"@
    } else {
        let den = pow1024(k);
        let d: nat = if bytes >= 100 * den { 0 } else if bytes >= 10 * den { 1 } else { 2 };
        ratio_text(bytes, den, d) + " "@ + unit_name(k)
    }
}

proof fn lemma_pow1024_values()
    ensures
        pow1024(0) == 1,
        pow1024(1) == 1024,
        pow1024(2) == 1_048_576,
        pow1024(3) == 1_073_741_824,
        pow1024(4) == 1_099_511_627_776,
        pow1024(5) == 1_125_899_906_842_624,
        pow1024(6) == 1_152_921_504_606_846_976,
{
    reveal_with_fuel(pow1024, 7);
}

fn unit_str(k: u32) -> (r: &'static str)
    requires
        k <= 5,
    ensures
        r@ == unit_name(k as nat),
{
    if k == 0 { "B" } else if k == 1 { "KB" } else if k == 2 { "MB" } else if k == 3 { "GB" }
    else if k == 4 { "TB" } else { "PB" }
}

/// A size in bytes, in binary units.
pub fn human_bytes(bytes: u64) -> (r: String)
    ensures
        r@ == human_bytes_text(bytes as nat),
{
    proof {
        lemma_pow1024_values();
    }
    let mut s = String::new();
    let mut k: u32 = 0;
    let mut den: u64 = 1;
    while k < 6 && bytes >= den * 1024
        invariant
            k <= 6,
            den as nat == pow1024(k as nat),
            forall|j: nat| 1 <= j <= k ==> bytes >= #[trigger] pow1024(j),
            k < 6 ==> den <= 1_125_899_906_842_624,
        decreases 6 - k,
    {
        proof {
            lemma_pow1024_values();
        }
        den = den * 1024;
        k = k + 1;
    }
    proof {
        lemma_pow1024_values();
        if k < 6 {
            assert(bytes < pow1024(k as nat + 1));
        }
        if k >= 1 { assert(bytes >= pow1024(1)); }
        if k >= 2 { assert(bytes >= pow1024(2)); }
        if k >= 3 { assert(bytes >= pow1024(3)); }
        if k >= 4 { assert(bytes >= pow1024(4)); }
        if k >= 5 { assert(bytes >= pow1024(5)); }
        if k >= 6 { assert(bytes >= pow1024(6)); }
        assert(unit_index(bytes as nat) == k as nat);
    }
    if k == 6 {
        push_ratio(&mut s, bytes, den, 1);
        s.append(" PB");
    } else {
        let d: u32 = if bytes as u128 >= 100 * den as u128 { 0 } else if bytes as u128 >= 10 * den as u128 { 1 } else { 2 };
        push_ratio(&mut s, bytes, den, d);
        s.append(" ");
        s.append(unit_str(k));
    }
    proof {
        assert(s@ =~= human_bytes_text(bytes as nat));
    }
    s
}

} // verus!
