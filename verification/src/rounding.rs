use vstd::prelude::*;
use vstd::arithmetic::div_mod::lemma_fundamental_div_mod;

verus! {

// The preview places and prints integers the way a single-precision
// (32-bit IEEE 754) number holds them: 24 significant bits, rounded to the
// nearest, half-way cases to even. These functions state that rounding over
// the integers.

/// The distance between neighbouring single-precision numbers at the
/// magnitude of `x`: 1 below 2^24, doubled each time `x` doubles above it.
pub open spec fn spacing(x: nat) -> nat
    decreases x,
{
    if x < 0x100_0000 {
        1
    } else {
        2 * spacing(x / 2)
    }
}

/// `x` rounded to a multiple of `p`, the nearest one, or the even one of two
/// that are equally near.
pub open spec fn round_to_even_multiple(x: nat, p: nat) -> nat {
    let q = x / p;
    let r = x % p;
    if 2 * r < p {
        q * p
    } else if 2 * r > p {
        (q + 1) * p
    } else if q % 2 == 0 {
        q * p
    } else {
        (q + 1) * p
    }
}

/// The single-precision number nearest to the natural number `x`.
pub open spec fn single_nat(x: nat) -> nat {
    round_to_even_multiple(x, spacing(x))
}

/// The single-precision number nearest to the integer `x`: the rounding is
/// symmetric around 0.
pub open spec fn single_int(x: int) -> int {
    if x < 0 {
        -(single_nat((-x) as nat) as int)
    } else {
        single_nat(x as nat) as int
    }
}

/// `d / 2` rounded to the nearest integer, half-way cases away from 0.
pub open spec fn half_away_from_zero(d: int) -> int {
    if d >= 0 {
        (d + 1) / 2
    } else {
        -((1 - d) / 2)
    }
}

/// `v` held to the range of `i32`, as a cast from a single-precision number
/// does.
pub open spec fn saturate_i32(v: int) -> i32 {
    if v > i32::MAX {
        i32::MAX
    } else if v < i32::MIN {
        i32::MIN
    } else {
        v as i32
    }
}

/// `v` held to the range of `u32`, as a cast from a single-precision number
/// does.
pub open spec fn saturate_u32(v: int) -> u32 {
    if v > u32::MAX {
        u32::MAX
    } else if v < 0 {
        0
    } else {
        v as u32
    }
}

/// Integers below 2^24 in magnitude are single-precision numbers: rounding
/// leaves them as they are.
pub proof fn law_single_exact_below_2_24(x: int)
    requires
        -0x100_0000 < x < 0x100_0000,
    ensures
        single_int(x) == x,
{
}

fn spacing_u128(x: u128) -> (p: u128)
    ensures
        p == spacing(x as nat),
        1 <= p,
        x >= 0x100_0000 ==> p <= x,
    decreases x,
{
    if x < 0x100_0000 {
        1
    } else {
        let h = spacing_u128(x / 2);
        2 * h
    }
}

/// The single-precision number nearest to `x`.
pub fn single_u128(x: u128) -> (r: u128)
    requires
        x <= 0x10_0000_0000_0000_0000_0000_0000,
    ensures
        r == single_nat(x as nat),
        r <= 2 * x,
{
    let p = spacing_u128(x);
    let q = x / p;
    let rem = x % p;
    proof {
        lemma_fundamental_div_mod(x as int, p as int);
        assert((q + 1) * p == q * p + p) by (nonlinear_arith);
        assert(q * p == p * q) by (nonlinear_arith);
    }
    if x < 0x100_0000 {
        assert(rem == 0 && q * p == x) by (nonlinear_arith)
            requires
                p == 1,
                x == p * q + rem,
                rem < p,
        ;
    }
    if 2 * rem < p {
        q * p
    } else if 2 * rem > p {
        (q + 1) * p
    } else if q % 2 == 0 {
        q * p
    } else {
        (q + 1) * p
    }
}

/// The single-precision number nearest to `x`.
pub fn single_i64(x: i64) -> (r: i64)
    requires
        -0x100_0000_0000 <= x <= 0x100_0000_0000,
    ensures
        r == single_int(x as int),
        -2 * x <= r <= 2 * x || 2 * x <= r <= -2 * x,
{
    if x < 0 {
        let m = single_u128((-x) as u128);
        -(m as i64)
    } else {
        let m = single_u128(x as u128);
        m as i64
    }
}

/// The power of two `s` that brings `n * s` to at least 2^23 times `d`,
/// the smallest one; 1 where `n` is 0.
pub open spec fn up_scale(n: nat, d: nat) -> nat
    decreases (if n >= 0x80_0000 * d {
        0
    } else {
        0x80_0000 * d - n
    }),
{
    if n == 0 || n >= 0x80_0000 * d {
        1
    } else {
        2 * up_scale(2 * n, d)
    }
}

/// The power of two `s` that brings `n` below 2^24 times `d * s`, the
/// smallest one; 1 where `d` is 0.
pub open spec fn down_scale(n: nat, d: nat) -> nat
    decreases (if n < 0x100_0000 * d {
        0
    } else {
        n + 1 - 0x100_0000 * d
    }),
{
    if d == 0 || n < 0x100_0000 * d {
        1
    } else {
        2 * down_scale(n, 2 * d)
    }
}

/// `n / d` rounded to the nearest integer, half-way cases to even.
pub open spec fn rounded_quotient(n: nat, d: nat) -> nat {
    let q = n / d;
    let r = n % d;
    if 2 * r < d {
        q
    } else if 2 * r > d {
        q + 1
    } else if q % 2 == 0 {
        q
    } else {
        q + 1
    }
}

/// The single-precision number nearest to the fraction `n / d`, `d` not 0,
/// as a fraction: its 24 significant bits are the quotient, rounded to even,
/// of the fraction scaled by a power of two into [2^23, 2^24).
pub open spec fn single_ratio(n: nat, d: nat) -> (nat, nat) {
    if n == 0 {
        (0, 1)
    } else if n < 0x80_0000 * d {
        let s = up_scale(n, d);
        (rounded_quotient(n * s, d), s)
    } else {
        let s = down_scale(n, d);
        (rounded_quotient(n, d * s) * s, 1)
    }
}

/// The step that a progress at `value` percent reaches out of `steps`, as a
/// single-precision computation makes it: the value held as a single, divided
/// by 100, multiplied by `steps` held as a single, each result rounded to a
/// single, and the product rounded to an integer, half-way cases up.
pub open spec fn progress_position(value: u32, steps: nat) -> nat {
    let (bn, bd) = single_ratio(single_nat(value as nat), 100);
    let (pn, pd) = single_ratio(bn * single_nat(steps), bd);
    (2 * pn + pd) / (2 * pd)
}

fn rounded_quotient_u128(n: u128, d: u128) -> (r: u128)
    requires
        d > 0,
        n <= 0x1_0000_0000_0000_0000_0000_0000_0000,
    ensures
        r == rounded_quotient(n as nat, d as nat),
        r <= n / d + 1,
{
    let q = n / d;
    let rem = n % d;
    if rem < d - rem {
        q
    } else if rem > d - rem {
        q + 1
    } else if q % 2 == 0 {
        q
    } else {
        q + 1
    }
}

/// See `single_ratio`.
pub fn single_ratio_u128(n: u128, d: u128) -> (r: (u128, u128))
    requires
        n <= 0x100_0000_0000_0000_0000_0000_0000,
        1 <= d <= 0x100_0000_0000,
    ensures
        (r.0 as nat, r.1 as nat) == single_ratio(n as nat, d as nat),
        r.0 <= 0x100_0000 + 2 * n,
        1 <= r.1 <= 0x100_0000 * d,
{
    if n == 0 {
        return (0, 1);
    }
    if n < 0x80_0000 * d {
        let mut m: u128 = n;
        let mut s: u128 = 1;
        while m < 0x80_0000 * d
            invariant
                1 <= d <= 0x100_0000_0000,
                1 <= n,
                m == n * s,
                1 <= s <= m,
                m < 0x100_0000 * d,
                up_scale(n as nat, d as nat) == s * up_scale(m as nat, d as nat),
            decreases 0x100_0000 * d - m,
        {
            assert(up_scale(m as nat, d as nat) == 2 * up_scale((2 * m) as nat, d as nat));
            assert(s * (2 * up_scale((2 * m) as nat, d as nat)) == (2 * s) * up_scale((2 * m) as nat, d as nat))
                by (nonlinear_arith);
            assert(n * (2 * s) == 2 * (n * s)) by (nonlinear_arith);
            m = 2 * m;
            s = 2 * s;
        }
        let ghost rest = up_scale(m as nat, d as nat);
        assert(rest == 1);
        assert(s * rest == s) by (nonlinear_arith)
            requires
                rest == 1,
        ;
        let q = rounded_quotient_u128(m, d);
        assert(m / d < 0x100_0000) by (nonlinear_arith)
            requires
                m < 0x100_0000 * d,
                d >= 1,
        ;
        (q, s)
    } else {
        let mut e: u128 = d;
        let mut s: u128 = 1;
        while n >= 0x100_0000 * e
            invariant
                1 <= d <= 0x100_0000_0000,
                n <= 0x100_0000_0000_0000_0000_0000_0000,
                e == d * s,
                1 <= s <= e,
                0x80_0000 * e <= n,
                down_scale(n as nat, d as nat) == s * down_scale(n as nat, e as nat),
            decreases n + 1 - 0x80_0000 * e,
        {
            assert(down_scale(n as nat, e as nat) == 2 * down_scale(n as nat, (2 * e) as nat));
            assert(s * (2 * down_scale(n as nat, (2 * e) as nat)) == (2 * s) * down_scale(n as nat, (2 * e) as nat))
                by (nonlinear_arith);
            assert(d * (2 * s) == 2 * (d * s)) by (nonlinear_arith);
            e = 2 * e;
            s = 2 * s;
        }
        let ghost rest = down_scale(n as nat, e as nat);
        assert(rest == 1);
        assert(s * rest == s) by (nonlinear_arith)
            requires
                rest == 1,
        ;
        let q = rounded_quotient_u128(n, e);
        assert(n / e < 0x100_0000) by (nonlinear_arith)
            requires
                n < 0x100_0000 * e,
                e >= 1,
        ;
        assert(q * s <= 2 * n) by (nonlinear_arith)
            requires
                q <= 0x100_0000,
                0x80_0000 * e <= n,
                e == d * s,
                d >= 1,
                s >= 1,
        ;
        (q * s, 1)
    }
}

/// See `progress_position`.
pub fn progress_position_u128(value: u32, steps: u64) -> (r: u128)
    ensures
        r == progress_position(value, steps as nat),
{
    let a = single_u128(value as u128);
    let (bn, bd) = single_ratio_u128(a, 100);
    let c = single_u128(steps as u128);
    assert(bn * c <= 0x100_0000_0000_0000_0000_0000_0000) by (nonlinear_arith)
        requires
            bn <= 0x100_0000 + 2 * 0x2_0000_0000,
            c <= 2 * 0xFFFF_FFFF_FFFF_FFFF,
    ;
    let (pn, pd) = single_ratio_u128(bn * c, bd);
    (2 * pn + pd) / (2 * pd)
}

proof fn lemma_rounded_quotient_bound(n: nat, d: nat, m: nat)
    requires
        d > 0,
        n <= m * d,
    ensures
        rounded_quotient(n, d) <= m,
        n == m * d ==> rounded_quotient(n, d) == m,
{
    let q = n / d;
    let r = n % d;
    lemma_fundamental_div_mod(n as int, d as int);
    assert(q <= m) by (nonlinear_arith)
        requires
            n == d * q + r,
            0 <= r < d,
            n <= m * d,
            d > 0,
    ;
    if q == m {
        assert(r == 0) by (nonlinear_arith)
            requires
                n == d * q + r,
                0 <= r < d,
                n <= m * d,
                q == m,
        ;
    }
    if n == m * d {
        assert(q == m && r == 0) by (nonlinear_arith)
            requires
                n == d * q + r,
                0 <= r < d,
                n == m * d,
                d > 0,
        ;
    }
}

/// A fraction at most the integer `k` below 2^24 is held, rounded, as a
/// single-precision number at most `k`; one equal to `k` is held exactly.
proof fn lemma_single_ratio_at_most(n: nat, d: nat, k: nat)
    requires
        d > 0,
        n <= k * d,
        k < 0x100_0000,
    ensures
        single_ratio(n, d).1 > 0,
        single_ratio(n, d).0 <= k * single_ratio(n, d).1,
        n == k * d ==> single_ratio(n, d).0 == k * single_ratio(n, d).1,
{
    lemma_up_scale_positive(n, d);
    lemma_down_scale_positive(n, d);
    if n == 0 {
        assert(n == k * d ==> k == 0) by (nonlinear_arith)
            requires
                n == 0,
                d > 0,
        ;
    } else if n < 0x80_0000 * d {
        let sc = up_scale(n, d);
        assert(n * sc <= (k * sc) * d && (n == k * d ==> n * sc == (k * sc) * d)) by (nonlinear_arith)
            requires
                n <= k * d,
                sc > 0,
        ;
        lemma_rounded_quotient_bound(n * sc, d, k * sc);
    } else {
        assert(n < 0x100_0000 * d) by (nonlinear_arith)
            requires
                n <= k * d,
                k < 0x100_0000,
                d > 0,
        ;
        assert(down_scale(n, d) == 1);
        lemma_rounded_quotient_bound(n, d * 1, k);
    }
}

proof fn lemma_up_scale_positive(n: nat, d: nat)
    ensures
        up_scale(n, d) > 0,
    decreases (if n >= 0x80_0000 * d {
        0
    } else {
        0x80_0000 * d - n
    }),
{
    if !(n == 0 || n >= 0x80_0000 * d) {
        lemma_up_scale_positive(2 * n, d);
    }
}

proof fn lemma_down_scale_positive(n: nat, d: nat)
    ensures
        down_scale(n, d) > 0,
    decreases (if n < 0x100_0000 * d {
        0
    } else {
        n + 1 - 0x100_0000 * d
    }),
{
    if !(d == 0 || n < 0x100_0000 * d) {
        lemma_down_scale_positive(n, 2 * d);
    }
}

/// A progress of at most 100 percent reaches at most the last step, where
/// there are fewer than 2^24 steps; 0 percent reaches the first step and 100
/// percent the last.
pub proof fn law_progress_within_steps(value: u32, steps: nat)
    requires
        value <= 100,
        steps < 0x100_0000,
    ensures
        progress_position(value, steps) <= steps,
        value == 0 ==> progress_position(value, steps) == 0,
        value == 100 ==> progress_position(value, steps) == steps,
{
    law_single_exact_below_2_24(value as int);
    law_single_exact_below_2_24(steps as int);
    let a = single_nat(value as nat);
    assert(a == value);
    let (bn, bd) = single_ratio(a, 100);
    lemma_single_ratio_at_most(a, 100, 1);
    let c = single_nat(steps);
    assert(c == steps);
    assert(bn * c <= steps * bd && (bn == bd ==> bn * c == steps * bd)) by (nonlinear_arith)
        requires
            bn <= 1 * bd,
            c == steps,
    ;
    lemma_single_ratio_at_most(bn * c, bd, steps);
    let (pn, pd) = single_ratio(bn * c, bd);
    assert((2 * pn + pd) / (2 * pd) <= steps) by (nonlinear_arith)
        requires
            pn <= steps * pd,
            pd > 0,
    ;
    if value == 100 {
        assert(bn == bd);
        assert((2 * pn + pd) / (2 * pd) == steps) by (nonlinear_arith)
            requires
                pn == steps * pd,
                pd > 0,
        ;
    }
    if value == 0 {
        assert(a == 0);
        assert(bn == 0);
        assert(bn * c == 0);
        assert(pn == 0 && pd == 1);
        assert((2 * pn + pd) / (2 * pd) == 0) by (nonlinear_arith)
            requires
                pn == 0,
                pd == 1,
        ;
    }
}

} // verus!
