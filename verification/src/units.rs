//! Byte counts for people: the value of a byte count as a double, scaled by a power of
//! two and printed with one decimal, computed exactly in integers.
//!
//! A byte count is turned into a double the way `u64 as f64` does it (exact below
//! 2^53, else the nearest double, ties to even); dividing a double by a power of two is
//! exact here, and `{:.1}` prints the exact value rounded to tenths, ties to even.

use crate::text::{decimal, digit_char, push_str};
use vstd::prelude::*;

verus! {

/// Two to the power `k`.
pub open spec fn pow2(k: nat) -> nat
    decreases k,
{
    if k == 0 {
        1
    } else {
        2 * pow2((k - 1) as nat)
    }
}

/// The number of binary digits of `n`.
pub open spec fn bit_length(n: nat) -> nat
    decreases n,
{
    if n == 0 {
        0
    } else {
        1 + bit_length(n / 2)
    }
}

/// `m / d` rounded to the nearest integer, ties to even.
pub open spec fn round_half_even(m: nat, d: nat) -> nat {
    let q = m / d;
    let r = m % d;
    if r * 2 > d || (r * 2 == d && q % 2 == 1) {
        q + 1
    } else {
        q
    }
}

/// The value of `n` as a double: `n` itself below 2^53, else `n` rounded to 53
/// significant bits, ties to even.
pub open spec fn f64_value(n: nat) -> nat {
    let b = bit_length(n);
    if b <= 53 {
        n
    } else {
        let p = pow2((b - 53) as nat);
        round_half_even(n, p) * p
    }
}

/// `v / 2^k` printed with one decimal: the value rounded to tenths, ties to even.
pub open spec fn fixed1(v: nat, k: nat) -> Seq<char> {
    let t = round_half_even(10 * v, pow2(k));
    decimal(t / 10) + seq!['.', digit_char(t % 10)]
}

/// The unit of a byte count: the largest of B, KiB, MiB, GiB and TiB that the value
/// reaches.
pub open spec fn byte_unit(v: nat) -> nat {
    if v >= pow2(40) {
        4
    } else if v >= pow2(30) {
        3
    } else if v >= pow2(20) {
        2
    } else if v >= pow2(10) {
        1
    } else {
        0
    }
}

/// The name of a byte unit.
pub open spec fn unit_name(u: nat) -> Seq<char> {
    if u == 0 {
        "B"@
    } else if u == 1 {
        "KiB"@
    } else if u == 2 {
        "MiB"@
    } else if u == 3 {
        "GiB"@
    } else {
        "TiB"@
    }
}

/// A byte count for people: whole bytes below one KiB, else one decimal of the largest
/// unit reached.
pub open spec fn human_bytes_spec(bytes: nat) -> Seq<char> {
    let v = f64_value(bytes);
    let u = byte_unit(v);
    if u == 0 {
        decimal(bytes) + " "@ + unit_name(0)
    } else {
        fixed1(v, 10 * u) + " "@ + unit_name(u)
    }
}

/// A byte count in MiB with one decimal.
pub open spec fn mib_spec(bytes: nat) -> Seq<char> {
    fixed1(f64_value(bytes), 20) + " MiB"@
}

proof fn lemma_pow2_positive(k: nat)
    ensures
        pow2(k) >= 1,
    decreases k,
{
    if k > 0 {
        lemma_pow2_positive((k - 1) as nat);
    }
}

proof fn lemma_pow2_mono(i: nat, j: nat)
    requires
        i <= j,
    ensures
        pow2(i) <= pow2(j),
    decreases j,
{
    if i < j {
        lemma_pow2_mono(i, (j - 1) as nat);
        lemma_pow2_positive((j - 1) as nat);
    }
}

proof fn lemma_pow2_values()
    ensures
        pow2(10) == 1024,
        pow2(11) == 2048,
        pow2(20) == 1048576,
        pow2(30) == 1073741824,
        pow2(40) == 1099511627776,
        pow2(64) == 18446744073709551616,
{
    assert(pow2(0) == 1);
    assert(pow2(1) == 2);
    assert(pow2(2) == 4);
    assert(pow2(3) == 8);
    assert(pow2(4) == 16);
    assert(pow2(5) == 32);
    assert(pow2(6) == 64);
    assert(pow2(7) == 128);
    assert(pow2(8) == 256);
    assert(pow2(9) == 512);
    assert(pow2(10) == 1024);
    assert(pow2(11) == 2048);
    assert(pow2(12) == 4096);
    assert(pow2(13) == 8192);
    assert(pow2(14) == 16384);
    assert(pow2(15) == 32768);
    assert(pow2(16) == 65536);
    assert(pow2(17) == 131072);
    assert(pow2(18) == 262144);
    assert(pow2(19) == 524288);
    assert(pow2(20) == 1048576);
    assert(pow2(21) == 2097152);
    assert(pow2(22) == 4194304);
    assert(pow2(23) == 8388608);
    assert(pow2(24) == 16777216);
    assert(pow2(25) == 33554432);
    assert(pow2(26) == 67108864);
    assert(pow2(27) == 134217728);
    assert(pow2(28) == 268435456);
    assert(pow2(29) == 536870912);
    assert(pow2(30) == 1073741824);
    assert(pow2(31) == 2147483648);
    assert(pow2(32) == 4294967296);
    assert(pow2(33) == 8589934592);
    assert(pow2(34) == 17179869184);
    assert(pow2(35) == 34359738368);
    assert(pow2(36) == 68719476736);
    assert(pow2(37) == 137438953472);
    assert(pow2(38) == 274877906944);
    assert(pow2(39) == 549755813888);
    assert(pow2(40) == 1099511627776);
    assert(pow2(41) == 2199023255552);
    assert(pow2(42) == 4398046511104);
    assert(pow2(43) == 8796093022208);
    assert(pow2(44) == 17592186044416);
    assert(pow2(45) == 35184372088832);
    assert(pow2(46) == 70368744177664);
    assert(pow2(47) == 140737488355328);
    assert(pow2(48) == 281474976710656);
    assert(pow2(49) == 562949953421312);
    assert(pow2(50) == 1125899906842624);
    assert(pow2(51) == 2251799813685248);
    assert(pow2(52) == 4503599627370496);
    assert(pow2(53) == 9007199254740992);
    assert(pow2(54) == 18014398509481984);
    assert(pow2(55) == 36028797018963968);
    assert(pow2(56) == 72057594037927936);
    assert(pow2(57) == 144115188075855872);
    assert(pow2(58) == 288230376151711744);
    assert(pow2(59) == 576460752303423488);
    assert(pow2(60) == 1152921504606846976);
    assert(pow2(61) == 2305843009213693952);
    assert(pow2(62) == 4611686018427387904);
    assert(pow2(63) == 9223372036854775808);
    assert(pow2(64) == 18446744073709551616);
}

proof fn lemma_bit_length_bound(n: nat, k: nat)
    requires
        n < pow2(k),
    ensures
        bit_length(n) <= k,
    decreases k,
{
    if n > 0 {
        assert(k > 0);
        lemma_bit_length_bound(n / 2, (k - 1) as nat);
    }
}

fn pow2_exec(k: u32) -> (p: u128)
    requires
        k <= 64,
    ensures
        p == pow2(k as nat),
{
    proof {
        lemma_pow2_values();
    }
    let mut p: u128 = 1;
    let mut i: u32 = 0;
    while i < k
        invariant
            i <= k <= 64,
            p == pow2(i as nat),
            pow2(64) == 18446744073709551616,
        decreases k - i,
    {
        proof {
            lemma_pow2_mono(i as nat, 63);
            lemma_pow2_values();
            assert(pow2(64) == 2 * pow2(63));
        }
        p = p * 2;
        i = i + 1;
    }
    p
}

fn bit_length_exec(n: u64) -> (b: u32)
    ensures
        b == bit_length(n as nat),
        b <= 64,
{
    proof {
        lemma_pow2_values();
        lemma_bit_length_bound(n as nat, 64);
    }
    let mut t = n;
    let mut b: u32 = 0;
    while t > 0
        invariant
            b + bit_length(t as nat) == bit_length(n as nat),
            bit_length(n as nat) <= 64,
        decreases t,
    {
        t = t / 2;
        b = b + 1;
    }
    b
}

fn round_half_even_exec(m: u128, d: u128) -> (r: u128)
    requires
        d > 0,
        m < u128::MAX,
    ensures
        r == round_half_even(m as nat, d as nat),
        r <= m / d + 1,
{
    let q = m / d;
    let rem = m % d;
    if rem > d - rem || (rem == d - rem && q % 2 == 1) {
        proof {
            assert(q <= m);
            vstd::arithmetic::div_mod::lemma_div_is_ordered_by_denominator(m as int, 1, d as int);
        }
        q + 1
    } else {
        q
    }
}

/// The value of a byte count as a double.
fn f64_value_exec(n: u64) -> (v: u128)
    ensures
        v == f64_value(n as nat),
        v <= n + 2048,
{
    let b = bit_length_exec(n);
    if b <= 53 {
        return n as u128;
    }
    let s = b - 53;
    let p = pow2_exec(s);
    proof {
        lemma_pow2_mono(s as nat, 11);
        lemma_pow2_values();
        lemma_pow2_positive(s as nat);
        vstd::arithmetic::div_mod::lemma_fundamental_div_mod(n as int, p as int);
    }
    let q = round_half_even_exec(n as u128, p);
    proof {
        assert(q <= (n as int) / (p as int) + 1);
        assert((n as int) / (p as int) * (p as int) <= n);
        assert(q * p <= (n as int) / (p as int) * (p as int) + p) by (nonlinear_arith)
            requires
                q <= (n as int) / (p as int) + 1,
                p >= 1,
        ;
    }
    q * p
}

fn push_decimal_u128(out: &mut String, n: u128)
    ensures
        final(out)@ == old(out)@ + decimal(n as nat),
    decreases n,
{
    if n < 10 {
        out.push(((n as u8) + 48) as char);
        assert(old(out)@.push(digit_char(n as nat)) =~= old(out)@ + decimal(n as nat));
    } else {
        push_decimal_u128(out, n / 10);
        out.push((((n % 10) as u8) + 48) as char);
        assert(old(out)@ + decimal((n / 10) as nat) + seq![digit_char((n % 10) as nat)]
            =~= old(out)@ + decimal(n as nat));
    }
}

/// Appends `v / 2^k` with one decimal.
fn push_fixed1(out: &mut String, v: u128, k: u32)
    requires
        k <= 64,
        v <= u64::MAX + 2048,
    ensures
        final(out)@ == old(out)@ + fixed1(v as nat, k as nat),
{
    let d = pow2_exec(k);
    proof {
        lemma_pow2_positive(k as nat);
    }
    let t = round_half_even_exec(10 * v, d);
    push_decimal_u128(out, t / 10);
    out.push('.');
    out.push((((t % 10) as u8) + 48) as char);
    assert(final(out)@ =~= old(out)@ + fixed1(v as nat, k as nat));
}

/// A byte count for people, as setup progress shows it.
pub fn human_bytes(bytes: u64) -> (r: String)
    ensures
        r@ == human_bytes_spec(bytes as nat),
{
    let v = f64_value_exec(bytes);
    proof {
        lemma_pow2_values();
    }
    let unit: u32 = if v >= 1099511627776 {
        4
    } else if v >= 1073741824 {
        3
    } else if v >= 1048576 {
        2
    } else if v >= 1024 {
        1
    } else {
        0
    };
    let name = if unit == 0 {
        "B"
    } else if unit == 1 {
        "KiB"
    } else if unit == 2 {
        "MiB"
    } else if unit == 3 {
        "GiB"
    } else {
        "TiB"
    };
    let mut out = String::new();
    if unit == 0 {
        push_decimal_u128(&mut out, bytes as u128);
    } else {
        push_fixed1(&mut out, v, 10 * unit);
    }
    push_str(&mut out, " ");
    push_str(&mut out, name);
    out
}

/// A byte count in MiB with one decimal, as the benchmark report shows peak memory.
pub fn format_bytes(bytes: u64) -> (r: String)
    ensures
        r@ == mib_spec(bytes as nat),
{
    let v = f64_value_exec(bytes);
    let mut out = String::new();
    push_fixed1(&mut out, v, 20);
    push_str(&mut out, " MiB");
    out
}

} // verus!
