//! Human-readable sizes, speeds and durations.

use vstd::prelude::*;

use crate::text::{dec_nat, owned, push_char, push_decimal, push_str};

verus! {

pub open spec fn pow1024(u: nat) -> nat
    decreases u,
{
    if u == 0 {
        1
    } else {
        1024 * pow1024((u - 1) as nat)
    }
}

/// Number of significant bits of `n`.
pub open spec fn bit_len(n: nat) -> nat
    decreases n,
{
    if n == 0 {
        0
    } else {
        1 + bit_len(n / 2)
    }
}

pub open spec fn pow2(k: nat) -> nat
    decreases k,
{
    if k == 0 {
        1
    } else {
        2 * pow2((k - 1) as nat)
    }
}

/// `n / step` rounded to the nearest integer, ties going to the even one.
pub open spec fn round_div_half_even(n: nat, step: nat) -> nat {
    let q = n / step;
    let r = n % step;
    if 2 * r > step || (2 * r == step && q % 2 == 1) {
        q + 1
    } else {
        q
    }
}

/// `n` rounded to the nearest multiple of `step`, ties going to the even
/// multiple.
pub open spec fn round_half_even(n: nat, step: nat) -> nat {
    round_div_half_even(n, step) * step
}

/// The value of `n as f64`: `n` rounded to 53 significant bits, ties to even.
pub open spec fn f64_value(n: nat) -> nat {
    if bit_len(n) <= 53 {
        n
    } else {
        round_half_even(n, pow2((bit_len(n) - 53) as nat))
    }
}

/// The unit (0 = B, 1 = KB, .. 5 = PB) in which a value of `v` bytes is
/// shown: the largest one in which it is at least 1.
pub open spec fn unit_of(v: nat) -> nat {
    if v >= pow1024(5) {
        5
    } else if v >= pow1024(4) {
        4
    } else if v >= pow1024(3) {
        3
    } else if v >= pow1024(2) {
        2
    } else if v >= pow1024(1) {
        1
    } else {
        0
    }
}

pub open spec fn unit_label(u: nat) -> Seq<char> {
    if u == 0 {
        "B"@
    } else if u == 1 {
        "KB"@
    } else if u == 2 {
        "MB"@
    } else if u == 3 {
        "GB"@
    } else if u == 4 {
        "TB"@
    } else {
        "PB"@
    }
}

/// Tenths of `v / d`, rounded to nearest with ties to even.
pub open spec fn tenths(v: nat, d: nat) -> nat {
    round_div_half_even(10 * v, d)
}

/// `t` tenths written with one decimal: "12.3".
pub open spec fn one_decimal(t: nat) -> Seq<char> {
    dec_nat(t / 10) + seq!['.'] + dec_nat(t % 10)
}

/// "0 B" for zero, the exact count below 1 KB, and otherwise the value (as
/// the nearest double) in the largest unit up to PB that keeps it at least
/// 1, with one decimal rounded to nearest (ties to even).
pub open spec fn bytes_text(bytes: u64) -> Seq<char> {
    if bytes == 0 {
        "0 B"@
    } else {
        let v = f64_value(bytes as nat);
        let u = unit_of(v);
        if u == 0 {
            dec_nat(bytes as nat) + " B"@
        } else {
            one_decimal(tenths(v, pow1024(u))) + seq![' '] + unit_label(u)
        }
    }
}

proof fn lemma_pow1024_values()
    ensures
        pow1024(0) == 1,
        pow1024(1) == 1024,
        pow1024(2) == 1048576,
        pow1024(3) == 1073741824,
        pow1024(4) == 1099511627776,
        pow1024(5) == 1125899906842624,
{
    reveal_with_fuel(pow1024, 6);
}

proof fn lemma_bit_len_bound(n: nat, k: nat)
    ensures
        n < pow2(k) <==> bit_len(n) <= k,
    decreases k,
{
    if k > 0 {
        lemma_bit_len_bound(n / 2, (k - 1) as nat);
    } else {
        if n > 0 {
            assert(bit_len(n) >= 1);
        }
    }
}

proof fn lemma_pow2_positive(k: nat)
    ensures
        pow2(k) >= 1,
    decreases k,
{
    if k > 0 {
        lemma_pow2_positive((k - 1) as nat);
    }
}

/// `n / step` rounded to nearest, ties to even.
fn div_round_half_even(n: u128, step: u128) -> (r: u128)
    requires
        0 < step < 0x1000_0000_0000_0000_0000,
        n < 0x1000_0000_0000_0000_0000,
    ensures
        r == round_div_half_even(n as nat, step as nat),
        r <= n / step + 1,
{
    let q = n / step;
    let rem = n % step;
    if 2 * rem > step || (2 * rem == step && q % 2 == 1) {
        q + 1
    } else {
        q
    }
}

/// `n as f64`, as an exact integer.
fn f64_value_of(n: u64) -> (r: u128)
    ensures
        r == f64_value(n as nat),
        r < 0x4_0000_0000_0000_0000,
        n >= 1 ==> r >= 1,
        n < 1024 ==> r == n,
{
    let mut bits: u64 = 0;
    let mut step: u128 = 1;
    proof {
        reveal_with_fuel(pow2, 1);
    }
    while (n as u128) >= step
        invariant
            step == pow2(bits as nat),
            bits == 0 || n >= pow2((bits - 1) as nat),
            bits <= 64,
            step <= 0x1_0000_0000_0000_0000,
        decreases 65 - bits,
    {
        proof {
            if bits == 64 {
                assert(step == 0x1_0000_0000_0000_0000) by {
                    lemma_pow2_64();
                }
                assert(false);
            }
            if bits < 64 {
                lemma_pow2_le_64(bits as nat);
            }
        }
        step = step * 2;
        bits = bits + 1;
        proof {
            reveal_with_fuel(pow2, 1);
        }
    }
    proof {
        lemma_bit_len_bound(n as nat, bits as nat);
        if bits > 0 {
            lemma_bit_len_bound(n as nat, (bits - 1) as nat);
        }
        assert(bit_len(n as nat) == bits);
    }
    if bits <= 53 {
        n as u128
    } else {
        let mut unit: u128 = 1;
        let mut k: u64 = 0;
        while k < bits - 53
            invariant
                k <= bits - 53,
                bits <= 64,
                unit == pow2(k as nat),
                unit <= 2048,
            decreases bits - 53 - k,
        {
            proof {
                reveal_with_fuel(pow2, 1);
                lemma_pow2_le_11(k as nat + 1);
            }
            unit = unit * 2;
            k = k + 1;
        }
        proof {
            lemma_pow2_positive(k as nat);
            assert(n >= 1024) by {
                lemma_pow2_monotone(10, (bits - 1) as nat);
                reveal_with_fuel(pow2, 11);
            }
            assert(n as u128 >= unit) by {
                lemma_pow2_monotone(k as nat, (bits - 1) as nat);
            }
        }
        let r = div_round_half_even(n as u128, unit);
        proof {
            assert(r * unit <= (n as u128 / unit + 1) * unit) by (nonlinear_arith)
                requires
                    r <= n as u128 / unit + 1,
                    unit > 0,
            ;
            assert((n as u128 / unit + 1) * unit <= n as u128 + unit) by (nonlinear_arith)
                requires
                    unit > 0,
            ;
            assert(r >= 1) by (nonlinear_arith)
                requires
                    r >= n as u128 / unit,
                    n as u128 >= unit,
                    unit > 0,
            ;
            assert(r * unit >= 1) by (nonlinear_arith)
                requires
                    r >= 1,
                    unit >= 1,
            ;
        }
        r * unit
    }
}

proof fn lemma_pow2_64()
    ensures
        pow2(64) == 0x1_0000_0000_0000_0000,
{
    reveal_with_fuel(pow2, 65);
}

proof fn lemma_pow2_le_64(k: nat)
    requires
        k < 64,
    ensures
        pow2(k) <= 0x8000_0000_0000_0000,
    decreases k,
{
    lemma_pow2_monotone(k, 63);
    reveal_with_fuel(pow2, 64);
}

proof fn lemma_pow2_le_11(k: nat)
    requires
        k <= 11,
    ensures
        pow2(k) <= 2048,
{
    lemma_pow2_monotone(k, 11);
    reveal_with_fuel(pow2, 12);
}

proof fn lemma_pow2_monotone(a: nat, b: nat)
    requires
        a <= b,
    ensures
        pow2(a) <= pow2(b),
    decreases b - a,
{
    if a < b {
        lemma_pow2_monotone(a, (b - 1) as nat);
        lemma_pow2_positive((b - 1) as nat);
    }
}

fn unit_str(u: u64) -> (r: &'static str)
    ensures
        r@ == unit_label(u as nat),
{
    if u == 0 {
        "B"
    } else if u == 1 {
        "KB"
    } else if u == 2 {
        "MB"
    } else if u == 3 {
        "GB"
    } else if u == 4 {
        "TB"
    } else {
        "PB"
    }
}

/// Human-readable size, e.g. "0 B", "512 B", "1.5 MB".
pub fn format_bytes(bytes: u64) -> (r: String)
    ensures
        r@ == bytes_text(bytes),
{
    if bytes == 0 {
        return owned("0 B");
    }
    let v = f64_value_of(bytes);
    proof {
        lemma_pow1024_values();
    }
    let (unit, d): (u64, u128) = if v >= 1125899906842624 {
        (5, 1125899906842624)
    } else if v >= 1099511627776 {
        (4, 1099511627776)
    } else if v >= 1073741824 {
        (3, 1073741824)
    } else if v >= 1048576 {
        (2, 1048576)
    } else if v >= 1024 {
        (1, 1024)
    } else {
        (0, 1)
    };
    let mut s = String::new();
    if unit == 0 {
        push_decimal(&mut s, bytes);
        push_str(&mut s, " B");
    } else {
        let t = div_round_half_even(10 * v, d);
        proof {
            assert((10 * v) as int / d as int <= (10 * v) as int / 1024) by (nonlinear_arith)
                requires
                    d >= 1024,
            ;
        }
        push_decimal(&mut s, (t / 10) as u64);
        push_char(&mut s, '.');
        push_decimal(&mut s, (t % 10) as u64);
        push_char(&mut s, ' ');
        push_str(&mut s, unit_str(unit));
    }
    assert(s@ =~= bytes_text(bytes));
    s
}

/// A transfer rate: the size followed by "/s".
pub fn format_speed(bytes_per_sec: u64) -> (r: String)
    ensures
        r@ == bytes_text(bytes_per_sec) + "/s"@,
{
    let mut s = format_bytes(bytes_per_sec);
    push_str(&mut s, "/s");
    s
}

/// A duration in its two largest units: "2d 3h", "4h 5m", "6m 7s" or "8s".
pub open spec fn eta_text(secs: u64) -> Seq<char> {
    if secs >= 86400 {
        dec_nat((secs / 86400) as nat) + "d "@ + dec_nat(((secs % 86400) / 3600) as nat) + "h"@
    } else if secs >= 3600 {
        dec_nat((secs / 3600) as nat) + "h "@ + dec_nat(((secs % 3600) / 60) as nat) + "m"@
    } else if secs >= 60 {
        dec_nat((secs / 60) as nat) + "m "@ + dec_nat((secs % 60) as nat) + "s"@
    } else {
        dec_nat(secs as nat) + "s"@
    }
}

/// A duration is shown in its two largest units, each unit counting the
/// whole units left over by the larger one: "<d>d <h>h" with
/// `d*86400 + h*3600 <= secs < d*86400 + (h+1)*3600` and `h < 24`,
/// "<h>h <m>m" with `h*3600 + m*60 <= secs < h*3600 + (m+1)*60` and
/// `m < 60`, "<m>m <s>s" with `m*60 + s == secs` and `s < 60`, and plain
/// seconds under a minute.
pub proof fn lemma_eta_units(secs: u64)
    ensures
        secs >= 86400 ==> exists|d: nat, h: nat|
            #![trigger dec_nat(d), dec_nat(h)]
            h < 24 && d * 86400 + h * 3600 <= secs < d * 86400 + (h + 1) * 3600 && eta_text(secs)
                == dec_nat(d) + "d "@ + dec_nat(h) + "h"@,
        3600 <= secs < 86400 ==> exists|h: nat, m: nat|
            #![trigger dec_nat(h), dec_nat(m)]
            m < 60 && h * 3600 + m * 60 <= secs < h * 3600 + (m + 1) * 60 && eta_text(secs)
                == dec_nat(h) + "h "@ + dec_nat(m) + "m"@,
        60 <= secs < 3600 ==> exists|m: nat, s: nat|
            #![trigger dec_nat(m), dec_nat(s)]
            s < 60 && m * 60 + s == secs && eta_text(secs) == dec_nat(m) + "m "@ + dec_nat(s) + "s"@,
        secs < 60 ==> eta_text(secs) == dec_nat(secs as nat) + "s"@,
{
    if secs >= 86400 {
        let d = (secs / 86400) as nat;
        let h = ((secs % 86400) / 3600) as nat;
        assert(h < 24 && d * 86400 + h * 3600 <= secs < d * 86400 + (h + 1) * 3600) by (nonlinear_arith)
            requires
                d == secs / 86400,
                h == (secs % 86400) / 3600,
        ;
        assert(eta_text(secs) == dec_nat(d) + "d "@ + dec_nat(h) + "h"@);
    } else if secs >= 3600 {
        let h = (secs / 3600) as nat;
        let m = ((secs % 3600) / 60) as nat;
        assert(m < 60 && h * 3600 + m * 60 <= secs < h * 3600 + (m + 1) * 60) by (nonlinear_arith)
            requires
                h == secs / 3600,
                m == (secs % 3600) / 60,
        ;
        assert(eta_text(secs) == dec_nat(h) + "h "@ + dec_nat(m) + "m"@);
    } else if secs >= 60 {
        let m = (secs / 60) as nat;
        let s = (secs % 60) as nat;
        assert(s < 60 && m * 60 + s == secs) by (nonlinear_arith)
            requires
                m == secs / 60,
                s == secs % 60,
        ;
        assert(eta_text(secs) == dec_nat(m) + "m "@ + dec_nat(s) + "s"@);
    }
}

pub fn format_eta(secs: u64) -> (r: String)
    ensures
        r@ == eta_text(secs),
{
    let mut s = String::new();
    if secs >= 86400 {
        push_decimal(&mut s, secs / 86400);
        push_str(&mut s, "d ");
        push_decimal(&mut s, (secs % 86400) / 3600);
        push_str(&mut s, "h");
    } else if secs >= 3600 {
        push_decimal(&mut s, secs / 3600);
        push_str(&mut s, "h ");
        push_decimal(&mut s, (secs % 3600) / 60);
        push_str(&mut s, "m");
    } else if secs >= 60 {
        push_decimal(&mut s, secs / 60);
        push_str(&mut s, "m ");
        push_decimal(&mut s, secs % 60);
        push_str(&mut s, "s");
    } else {
        push_decimal(&mut s, secs);
        push_str(&mut s, "s");
    }
    assert(s@ =~= eta_text(secs));
    s
}

} // verus!
