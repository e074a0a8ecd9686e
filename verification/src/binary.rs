//! Rounding as binary floating point with 53 significant bits does it: to the
//! nearest number that can be held, and to the even one of two that are
//! equally near.

use vstd::prelude::*;
use vstd::arithmetic::div_mod::lemma_fundamental_div_mod;

verus! {

/// The least number with 53 significant bits: two to the power 52.
pub const HALF_RANGE: u128 = 0x10_0000_0000_0000;

/// The first number that takes more than 53 bits: two to the power 53.
pub const FULL_RANGE: u128 = 0x20_0000_0000_0000;

/// The nanoseconds in a millisecond.
pub const PER_MILLI: u128 = 1_000_000;

/// `HALF_RANGE` times `PER_MILLI`: a count scaled up to here or beyond has a
/// quotient by `PER_MILLI` of 53 bits.
pub const SCALED_FROM: u128 = 4_503_599_627_370_496_000_000;

/// The whole number nearest to `num / den`; where two are equally near, the
/// even one.
pub open spec fn nearest(num: nat, den: nat) -> nat
    recommends
        den > 0,
{
    let q = num / den;
    let r = num % den;
    if 2 * r > den || (2 * r == den && q % 2 == 1) {
        q + 1
    } else {
        q
    }
}

/// The distance between neighbouring numbers of 53 significant bits around
/// the 64-bit count `n`: 1 below two to the power 53, and twice as much with
/// every bit more.
pub open spec fn spacing(n: nat) -> nat {
    if n < 0x20_0000_0000_0000 {
        1
    } else if n < 0x40_0000_0000_0000 {
        2
    } else if n < 0x80_0000_0000_0000 {
        4
    } else if n < 0x100_0000_0000_0000 {
        8
    } else if n < 0x200_0000_0000_0000 {
        16
    } else if n < 0x400_0000_0000_0000 {
        32
    } else if n < 0x800_0000_0000_0000 {
        64
    } else if n < 0x1000_0000_0000_0000 {
        128
    } else if n < 0x2000_0000_0000_0000 {
        256
    } else if n < 0x4000_0000_0000_0000 {
        512
    } else if n < 0x8000_0000_0000_0000 {
        1024
    } else {
        2048
    }
}

/// The 64-bit count `n` as 53 significant bits hold it: `n` itself where it
/// fits, else the nearest multiple of the spacing.
pub open spec fn held(n: nat) -> nat {
    nearest(n, spacing(n)) * spacing(n)
}

/// `v` and `t` doubled together until `v` reaches `SCALED_FROM`; a `v` of
/// zero stays. With `t` starting at 1, the result is `v` times a power of
/// two, and that power.
pub open spec fn scaled(v: nat, t: nat) -> (nat, nat)
    decreases (if v < SCALED_FROM { SCALED_FROM - v } else { 0 }),
{
    if v == 0 || v >= SCALED_FROM {
        (v, t)
    } else {
        scaled(2 * v, 2 * t)
    }
}

/// The nearest whole number lies at most half a unit from the quotient.
pub proof fn nearest_is_within_half(num: nat, den: nat)
    requires
        den > 0,
    ensures
        2 * (nearest(num, den) * den) <= 2 * num + den,
        2 * num <= 2 * (nearest(num, den) * den) + den,
        num % den == 0 ==> nearest(num, den) * den == num,
{
    let q = num / den;
    let r = num % den;
    lemma_fundamental_div_mod(num as int, den as int);
    assert(num == den * q + r);
    assert((q + 1) * den == q * den + den) by (nonlinear_arith);
    assert(den * q == q * den) by (nonlinear_arith);
}

/// Scaling multiplies by a power of two and stops in the first range of
/// 53-bit quotients: from `v` below `SCALED_FROM` and not zero, and `t` not
/// zero, the scaled pair keeps the ratio of `v` to `t`, and its first part
/// lies from `SCALED_FROM` up to, but not at, twice that.
pub proof fn scaled_keeps_ratio(v: nat, t: nat)
    requires
        0 < v < 2 * SCALED_FROM,
        0 < t,
    ensures
        scaled(v, t).0 * t == v * scaled(v, t).1,
        SCALED_FROM <= scaled(v, t).0 < 2 * SCALED_FROM,
        scaled(v, t).1 >= t,
    decreases (if v < SCALED_FROM { SCALED_FROM - v } else { 0 }),
{
    if v < SCALED_FROM {
        scaled_keeps_ratio(2 * v, 2 * t);
        let (a, b) = scaled(2 * v, 2 * t);
        assert(a * t == v * b) by (nonlinear_arith)
            requires
                a * (2 * t) == (2 * v) * b,
        {
        }
    }
}

/// What is held of a 64-bit count is the multiple of the spacing nearest to
/// it, with no more than 53 significant bits: a count below `FULL_RANGE` is
/// held as it is, and no count that is not zero is held as zero.
pub proof fn held_is_near(n: nat)
    requires
        n <= u64::MAX,
    ensures
        2 * held(n) <= 2 * n + spacing(n),
        2 * n <= 2 * held(n) + spacing(n),
        nearest(n, spacing(n)) <= FULL_RANGE,
        n < FULL_RANGE ==> held(n) == n,
        n > 0 ==> held(n) > 0,
{
    let p = spacing(n);
    let u = nearest(n, p);
    nearest_is_within_half(n, p);
    lemma_fundamental_div_mod(n as int, p as int);
    let q = n / p;
    assert(p * q == q * p) by (nonlinear_arith);
    assert(q < FULL_RANGE) by (nonlinear_arith)
        requires
            n == p * q + n % p,
            n % p >= 0,
            n < p * FULL_RANGE,
            p > 0,
    {
    }
    if n >= FULL_RANGE {
        assert(q >= 1) by (nonlinear_arith)
            requires
                n == p * q + n % p,
                n % p < p,
                n >= p,
                p > 0,
                q >= 0,
        {
        }
        assert(u * p >= 1) by (nonlinear_arith)
            requires
                u >= q,
                q >= 1,
                p >= 1,
        {
        }
    }
}

/// The whole number nearest to `num / den`, ties to the even one.
pub fn round_nearest(num: u128, den: u128) -> (n: u128)
    requires
        den > 0,
        num / den < u128::MAX,
    ensures
        n as nat == nearest(num as nat, den as nat),
{
    let q: u128 = num / den;
    let r: u128 = num % den;
    if r > den - r || (r == den - r && q % 2 == 1) {
        q + 1
    } else {
        q
    }
}

/// The count `n` as 53 significant bits hold it.
pub fn hold(n: u64) -> (h: u128)
    ensures
        h as nat == held(n as nat),
        h <= n + spacing(n as nat),
        n > 0 ==> h > 0,
{
    let wide: u128 = n as u128;
    let mut p: u128 = 1;
    let mut bound: u128 = FULL_RANGE;
    while p < 2048 && wide >= bound
        invariant
            wide == n,
            bound == p * 0x20_0000_0000_0000,
            p == 1 || p == 2 || p == 4 || p == 8 || p == 16 || p == 32 || p == 64 || p == 128
                || p == 256 || p == 512 || p == 1024 || p == 2048,
            p == 1 || 2 * wide >= bound,
        decreases 2048 - p,
    {
        p = 2 * p;
        bound = 2 * bound;
    }
    assert(p as nat == spacing(n as nat));
    let units: u128 = round_nearest(wide, p);
    proof {
        held_is_near(n as nat);
        assert(units * p <= FULL_RANGE * 2048) by (nonlinear_arith)
            requires
                units <= FULL_RANGE,
                p <= 2048,
        {
        }
    }
    units * p
}

} // verus!
