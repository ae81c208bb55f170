use vstd::prelude::*;

use crate::decimal::{decimal, padded2, push_decimal, push_padded2};
use crate::text::push_char;

verus! {

/// `2` raised to `e`.
pub open spec fn pow2(e: nat) -> nat
    decreases e,
{
    if e == 0 { 1 } else { 2 * pow2((e - 1) as nat) }
}

/// `1024` raised to `e`.
pub open spec fn pow1024(e: nat) -> nat
    decreases e,
{
    if e == 0 { 1 } else { 1024 * pow1024((e - 1) as nat) }
}

/// The number of bits needed to write `n` in binary (`0` for `0`).
pub open spec fn bit_length(n: nat) -> nat
    decreases n,
{
    if n == 0 { 0 } else { 1 + bit_length(n / 2) }
}

/// `a / d` rounded to the nearest integer, ties to the even neighbour.
pub open spec fn div_round_half_even(a: nat, d: nat) -> nat
    recommends
        d > 0,
{
    let q = a / d;
    let r = a % d;
    if 2 * r > d || (2 * r == d && q % 2 == 1) { q + 1 } else { q }
}

/// The value of the `f64` nearest to `n` (what `n as f64` holds): `n` itself
/// when it fits in the 53 bits of an `f64` significand, otherwise `n`
/// rounded to 53 significant bits, ties to even.
pub open spec fn f64_value(n: nat) -> nat {
    if bit_length(n) <= 53 {
        n
    } else {
        let s = (bit_length(n) - 53) as nat;
        div_round_half_even(n, pow2(s)) * pow2(s)
    }
}

/// The index of the unit in which a size of `r` bytes is shown: the first
/// `k` from `start` on (at most the last unit, `8`) with `r < 1024^(k+1)`,
/// or `9` when there is none.
pub open spec fn unit_index_from(r: nat, start: nat) -> nat
    decreases 9 - start,
{
    if start >= 9 {
        9
    } else if r < pow1024(start + 1) {
        start
    } else {
        unit_index_from(r, start + 1)
    }
}

/// The unit suffix with index `k`; past the last unit the size is shown in `B`.
pub open spec fn unit_suffix(k: nat) -> Seq<char> {
    if k == 0 { seq!['B'] }
    else if k == 1 { seq!['K', 'B'] }
    else if k == 2 { seq!['M', 'B'] }
    else if k == 3 { seq!['G', 'B'] }
    else if k == 4 { seq!['T', 'B'] }
    else if k == 5 { seq!['P', 'B'] }
    else if k == 6 { seq!['E', 'B'] }
    else if k == 7 { seq!['Z', 'B'] }
    else if k == 8 { seq!['Y', 'B'] }
    else { seq!['B'] }
}

/// The size `n` in bytes as text: the nearest `f64` to `n`, divided by
/// 1024 for each unit step, written with two decimals (rounded to nearest,
/// ties to even, as `{:.2}` does), a space and the unit.
pub open spec fn file_size_text(n: nat) -> Seq<char> {
    let r = f64_value(n);
    let k = unit_index_from(r, 0);
    let cents = div_round_half_even(r * 100, pow1024(k));
    decimal(cents / 100) + seq!['.'] + padded2(cents % 100) + seq![' '] + unit_suffix(k)
}

/// A duration of `ms` milliseconds as `HH:MM:SS`, or `MM:SS` when it is
/// shorter than an hour; each field has at least two digits.
pub open spec fn duration_text(ms: nat) -> Seq<char> {
    let total = ms / 1000;
    let hours = total / 3600;
    let minutes = (total % 3600) / 60;
    let seconds = total % 60;
    if hours > 0 {
        padded2(hours) + seq![':'] + padded2(minutes) + seq![':'] + padded2(seconds)
    } else {
        padded2(minutes) + seq![':'] + padded2(seconds)
    }
}

proof fn lemma_pow1024_bound(k: nat)
    requires
        k <= 9,
    ensures
        1 <= pow1024(k) <= pow1024(9),
    decreases 9 - k,
{
    lemma_pow1024_pos(k);
    if k < 9 {
        lemma_pow1024_bound(k + 1);
        assert(pow1024(k + 1) == 1024 * pow1024(k));
    }
}

proof fn lemma_pow1024_pos(k: nat)
    ensures
        pow1024(k) >= 1,
    decreases k,
{
    if k > 0 {
        lemma_pow1024_pos((k - 1) as nat);
    }
}

proof fn lemma_pow1024_9()
    ensures
        pow1024(9) == 1237940039285380274899124224,
{
    reveal_with_fuel(pow1024, 10);
}

proof fn lemma_pow2_bound(k: nat)
    requires
        k <= 11,
    ensures
        1 <= pow2(k) <= 2048,
    decreases 11 - k,
{
    if k < 11 {
        lemma_pow2_bound(k + 1);
    } else {
        reveal_with_fuel(pow2, 12);
    }
}

proof fn lemma_bit_length_mono(a: nat, b: nat)
    requires
        a <= b,
    ensures
        bit_length(a) <= bit_length(b),
    decreases b,
{
    if a > 0 {
        lemma_bit_length_mono(a / 2, b / 2);
    }
}

proof fn lemma_bit_length_pow2(e: nat)
    ensures
        bit_length(pow2(e)) == e + 1,
        bit_length((pow2(e) - 1) as nat) == e,
        pow2(e) >= 1,
    decreases e,
{
    if e > 0 {
        lemma_bit_length_pow2((e - 1) as nat);
        assert(pow2(e) / 2 == pow2((e - 1) as nat));
        assert(((pow2(e) - 1) as nat) / 2 == (pow2((e - 1) as nat) - 1) as nat);
    } else {
        assert(bit_length(0) == 0);
        assert(bit_length(1) == 1 + bit_length(0));
    }
}

proof fn lemma_pow2_mul(a: nat, b: nat)
    ensures
        pow2(a) * pow2(b) == pow2(a + b),
    decreases a,
{
    if a > 0 {
        lemma_pow2_mul((a - 1) as nat, b);
        assert(pow2(a + b) == 2 * pow2((a + b - 1) as nat));
        assert(pow2(a) * pow2(b) == 2 * (pow2((a - 1) as nat) * pow2(b))) by (nonlinear_arith)
            requires
                pow2(a) == 2 * pow2((a - 1) as nat),
        {
        }
    } else {
        assert(pow2(a) == 1);
        assert(pow2(a) * pow2(b) == pow2(b)) by (nonlinear_arith)
            requires
                pow2(a) == 1,
        {
        }
    }
}

proof fn lemma_pow2_mono(a: nat, b: nat)
    requires
        a <= b,
    ensures
        pow2(a) <= pow2(b),
    decreases b,
{
    if a < b {
        lemma_pow2_mono(a, (b - 1) as nat);
    }
}

proof fn lemma_bit_length_lt_pow2(n: nat)
    ensures
        n < pow2(bit_length(n)),
    decreases n,
{
    if n > 0 {
        lemma_bit_length_lt_pow2(n / 2);
    }
}

fn pow1024_exec(k: u32) -> (p: u128)
    requires
        k <= 9,
    ensures
        p == pow1024(k as nat),
    decreases k,
{
    if k == 0 {
        1
    } else {
        let q = pow1024_exec(k - 1);
        proof {
            lemma_pow1024_bound((k - 1) as nat);
            lemma_pow1024_bound(k as nat);
            lemma_pow1024_9();
        }
        q * 1024
    }
}

fn bit_length_exec(n: u64) -> (b: u32)
    ensures
        b == bit_length(n as nat),
        b <= 64,
{
    let mut m = n;
    let mut b: u32 = 0;
    proof {
        lemma_bit_length_pow2(64);
        lemma_pow2_64();
        lemma_bit_length_mono(n as nat, (pow2(64) - 1) as nat);
    }
    while m > 0
        invariant
            b + bit_length(m as nat) == bit_length(n as nat),
            bit_length(n as nat) <= 64,
        decreases m,
    {
        m = m / 2;
        b = b + 1;
    }
    b
}

fn pow2_exec(e: u32) -> (p: u128)
    requires
        e <= 11,
    ensures
        p == pow2(e as nat),
    decreases e,
{
    if e == 0 {
        1
    } else {
        let q = pow2_exec(e - 1);
        proof {
            lemma_pow2_bound(e as nat);
        }
        q * 2
    }
}

fn div_round_half_even_exec(a: u128, d: u128) -> (r: u128)
    requires
        d > 0,
        a / d < u128::MAX,
    ensures
        r == div_round_half_even(a as nat, d as nat),
{
    let q = a / d;
    let rem = a % d;
    if rem > d - rem || (rem == d - rem && q % 2 == 1) {
        q + 1
    } else {
        q
    }
}

proof fn lemma_pow2_64()
    ensures
        pow2(64) == 0x1_0000_0000_0000_0000,
{
    reveal_with_fuel(pow2, 65);
}

proof fn lemma_rounded_fits(n: nat, s: nat, q: nat)
    requires
        bit_length(n) == 53 + s,
        s <= 11,
        q == div_round_half_even(n, pow2(s)),
    ensures
        q * pow2(s) <= 0x1_0000_0000_0000_0000,
{
    let p = pow2(s);
    lemma_pow2_bound(s);
    lemma_pow2_64();
    lemma_pow2_mul(53, s);
    lemma_bit_length_lt_pow2(n);
    lemma_pow2_mono(53 + s, 64);
    let a = pow2(53);
    assert(n / p < a) by (nonlinear_arith)
        requires
            n < a * p,
            p >= 1,
    {
    }
    assert(q <= n / p + 1);
    assert(q <= a);
    assert(q * p <= a * p) by (nonlinear_arith)
        requires
            q <= a,
            p >= 1,
    {
    }
}

fn f64_value_exec(n: u64) -> (r: u128)
    ensures
        r == f64_value(n as nat),
        r <= 0x1_0000_0000_0000_0000,
{
    let bl = bit_length_exec(n);
    if bl <= 53 {
        n as u128
    } else {
        let s = bl - 53;
        let p = pow2_exec(s);
        proof {
            lemma_pow2_bound(s as nat);
        }
        let q = div_round_half_even_exec(n as u128, p);
        proof {
            lemma_rounded_fits(n as nat, s as nat, q as nat);
        }
        q * p
    }
}

/// `f64_value` of a `u64` is at most `2^64`.
pub proof fn lemma_f64_value_le(n: u64)
    ensures
        f64_value(n as nat) <= 0x1_0000_0000_0000_0000,
{
    let bl = bit_length(n as nat);
    lemma_bit_length_pow2(64);
    lemma_pow2_64();
    lemma_bit_length_mono(n as nat, (pow2(64) - 1) as nat);
    if bl > 53 {
        let s = (bl - 53) as nat;
        lemma_rounded_fits(n as nat, s, div_round_half_even(n as nat, pow2(s)));
    }
}

fn unit_suffix_str(k: u32) -> (s: &'static str)
    ensures
        s@ == unit_suffix(k as nat),
{
    proof {
        reveal_strlit("B");
        reveal_strlit("KB");
        reveal_strlit("MB");
        reveal_strlit("GB");
        reveal_strlit("TB");
        reveal_strlit("PB");
        reveal_strlit("EB");
        reveal_strlit("ZB");
        reveal_strlit("YB");
    }
    match k {
        0 => "B",
        1 => "KB",
        2 => "MB",
        3 => "GB",
        4 => "TB",
        5 => "PB",
        6 => "EB",
        7 => "ZB",
        8 => "YB",
        _ => "B",
    }
}

/// The size `n` in bytes as text, as `file_size_text` states.
pub fn file_size_string(n: u64) -> (s: String)
    ensures
        s@ == file_size_text(n as nat),
{
    let r = f64_value_exec(n);
    let mut k: u32 = 0;
    while k < 9 && r >= pow1024_exec(k + 1)
        invariant
            k <= 9,
            unit_index_from(r as nat, 0) == unit_index_from(r as nat, k as nat),
        decreases 9 - k,
    {
        k = k + 1;
    }
    assert(unit_index_from(r as nat, k as nat) == k);
    let p = pow1024_exec(k);
    proof {
        lemma_pow1024_bound(k as nat);
    }
    let cents = div_round_half_even_exec(r * 100, p);
    let mut s = String::new();
    push_decimal(&mut s, cents / 100);
    push_char(&mut s, '.');
    push_padded2(&mut s, cents % 100);
    push_char(&mut s, ' ');
    s.append(unit_suffix_str(k));
    assert(s@ =~= file_size_text(n as nat));
    s
}

/// A duration in milliseconds as text, as `duration_text` states.
pub fn duration_string(ms: u64) -> (s: String)
    ensures
        s@ == duration_text(ms as nat),
{
    let total = ms / 1000;
    let hours = total / 3600;
    let minutes = (total % 3600) / 60;
    let seconds = total % 60;
    let mut s = String::new();
    if hours > 0 {
        push_padded2(&mut s, hours as u128);
        push_char(&mut s, ':');
    }
    push_padded2(&mut s, minutes as u128);
    push_char(&mut s, ':');
    push_padded2(&mut s, seconds as u128);
    assert(s@ =~= duration_text(ms as nat));
    s
}

/// Human-readable text for numbers.
pub trait FormatNumber {
    /// The number as a size in bytes, in the largest fitting unit with two decimals.
    fn format_file_size(&self) -> String;

    /// The number as a duration in milliseconds, as `HH:MM:SS` or `MM:SS`.
    fn format_duration(&self) -> String;
}

impl FormatNumber for u64 {
    fn format_file_size(&self) -> (s: String)
        ensures
            s@ == file_size_text(*self as nat),
    {
        file_size_string(*self)
    }

    fn format_duration(&self) -> (s: String)
        ensures
            s@ == duration_text(*self as nat),
    {
        duration_string(*self)
    }
}

} // verus!
