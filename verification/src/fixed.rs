//! Fixed-point scalar arithmetic.
//!
//! A scalar is an `i64` counting units of `1/SCALE`; products and quotients
//! are truncated toward zero, and square roots round down.

use vstd::prelude::*;

verus! {

/// One in fixed-point units: a scalar `v` stands for the real number `v / SCALE`.
pub const SCALE: i64 = 65536;

/// Truncated (round-toward-zero) integer division, the semantics that
/// `checked_div` gives the signed machine integers.
pub open spec fn tdiv(x: int, d: int) -> int
    recommends
        d != 0,
{
    if x == 0 {
        0
    } else if x > 0 && d > 0 {
        x / d
    } else if x < 0 && d < 0 {
        (x * -1) / (d * -1)
    } else if x < 0 {
        ((x * -1) / d) * -1
    } else {
        (x / (d * -1)) * -1
    }
}

/// The fixed-point product: `(a * b) / SCALE`, truncated toward zero.
pub open spec fn fxmul(a: int, b: int) -> int {
    tdiv(a * b, SCALE as int)
}

/// The fixed-point quotient: `(a * SCALE) / b`, truncated toward zero.
pub open spec fn fxdiv(a: int, b: int) -> int
    recommends
        b != 0,
{
    tdiv(a * SCALE as int, b)
}

/// The square-root floor of a natural number, by the classical digit recursion.
pub open spec fn sqrt_floor(n: nat) -> nat
    decreases n,
{
    if n == 0 {
        0
    } else {
        let s = 2 * sqrt_floor(n / 4);
        if (s + 1) * (s + 1) <= n {
            s + 1
        } else {
            s
        }
    }
}

/// The fixed-point square root of a non-negative scalar rounds down:
/// it is the largest `r` with `r * r <= x * SCALE`.
pub open spec fn fxsqrt(x: int) -> int
    recommends
        x >= 0,
{
    sqrt_floor((x * SCALE as int) as nat) as int
}

/// Truncated division never grows the magnitude of the dividend.
pub proof fn lemma_tdiv_mag(x: int, d: int, m: int)
    requires
        d != 0,
        -m <= x <= m,
    ensures
        -m <= tdiv(x, d) <= m,
{
    if x == 0 {
    } else if x > 0 && d > 0 {
        assert(x / d <= x && x / d >= 0) by (nonlinear_arith)
            requires
                x > 0,
                d >= 1,
        ;
    } else if x < 0 && d < 0 {
        assert((x * -1) / (d * -1) <= x * -1 && (x * -1) / (d * -1) >= 0) by (nonlinear_arith)
            requires
                x < 0,
                d < 0,
        ;
    } else if x < 0 {
        assert((x * -1) / d <= x * -1 && (x * -1) / d >= 0) by (nonlinear_arith)
            requires
                x < 0,
                d >= 1,
        ;
    } else {
        assert(x / (d * -1) <= x && x / (d * -1) >= 0) by (nonlinear_arith)
            requires
                x > 0,
                d < 0,
        ;
    }
}

/// Dividing by a positive `d` shrinks a bound `m` on the dividend to `m / d`.
pub proof fn lemma_tdiv_shrink(x: int, d: int, m: int)
    requires
        d >= 1,
        -m <= x <= m,
        0 <= m,
    ensures
        -(m / d) <= tdiv(x, d) <= m / d,
{
    if x == 0 {
        assert(m / d >= 0) by (nonlinear_arith)
            requires
                m >= 0,
                d >= 1,
        ;
    } else if x > 0 {
        assert(x / d <= m / d && x / d >= 0) by (nonlinear_arith)
            requires
                0 < x <= m,
                d >= 1,
        ;
    } else {
        assert((x * -1) / d <= m / d && (x * -1) / d >= 0) by (nonlinear_arith)
            requires
                x < 0,
                -m <= x,
                d >= 1,
        ;
    }
}

/// Truncated division keeps the sign of a non-negative dividend.
pub proof fn lemma_tdiv_nonneg(x: int, d: int)
    requires
        x >= 0,
        d >= 1,
    ensures
        0 <= tdiv(x, d) <= x,
{
    lemma_tdiv_mag(x, d, x);
    if x > 0 {
        assert(x / d >= 0) by (nonlinear_arith)
            requires
                x > 0,
                d >= 1,
        ;
    }
}

/// Negating the dividend negates a truncated quotient.
pub proof fn lemma_tdiv_neg(x: int, d: int)
    requires
        d != 0,
    ensures
        tdiv(-x, d) == -tdiv(x, d),
{
}

/// A bound on each factor bounds a fixed-point product.
pub proof fn lemma_fxmul_bound(a: int, b: int, ma: int, mb: int)
    requires
        -ma <= a <= ma,
        -mb <= b <= mb,
        0 <= ma,
        0 <= mb,
    ensures
        -((ma * mb) / SCALE as int) <= fxmul(a, b) <= (ma * mb) / SCALE as int,
{
    assert(-(ma * mb) <= a * b <= ma * mb) by (nonlinear_arith)
        requires
            -ma <= a <= ma,
            -mb <= b <= mb,
            0 <= ma,
            0 <= mb,
    ;
    assert(ma * mb >= 0) by (nonlinear_arith)
        requires
            0 <= ma,
            0 <= mb,
    ;
    lemma_tdiv_shrink(a * b, SCALE as int, ma * mb);
}

/// The product of two scalars in `[0, SCALE]` stays in `[0, SCALE]` and
/// under either factor: attenuation never adds energy.
pub proof fn lemma_fxmul_unit(a: int, b: int)
    requires
        0 <= a <= SCALE as int,
        0 <= b <= SCALE as int,
    ensures
        0 <= fxmul(a, b) <= a,
        fxmul(a, b) <= b,
{
    assert(a * b >= 0 && a * b <= a * SCALE as int && a * b <= b * SCALE as int)
        by (nonlinear_arith)
        requires
            0 <= a <= SCALE as int,
            0 <= b <= SCALE as int,
    ;
    lemma_tdiv_nonneg(a * b, SCALE as int);
    assert((a * SCALE as int) / SCALE as int == a) by (nonlinear_arith);
    assert((b * SCALE as int) / SCALE as int == b) by (nonlinear_arith);
    if a * b > 0 {
        assert((a * b) / SCALE as int <= (a * SCALE as int) / SCALE as int) by (nonlinear_arith)
            requires
                0 <= a * b <= a * SCALE as int,
        ;
        assert((a * b) / SCALE as int <= (b * SCALE as int) / SCALE as int) by (nonlinear_arith)
            requires
                0 <= a * b <= b * SCALE as int,
        ;
    }
}

/// A dividend within `m` times the divisor gives a quotient within `m`.
pub proof fn lemma_tdiv_ratio(x: int, d: int, m: int)
    requires
        d >= 1,
        0 <= m,
        -(m * d) <= x <= m * d,
    ensures
        -m <= tdiv(x, d) <= m,
{
    if x == 0 {
    } else if x > 0 {
        assert(x / d <= m && x / d >= 0) by (nonlinear_arith)
            requires
                0 < x <= m * d,
                d >= 1,
        ;
    } else {
        assert((x * -1) / d <= m && (x * -1) / d >= 0) by (nonlinear_arith)
            requires
                x < 0,
                -(m * d) <= x,
                d >= 1,
        ;
    }
}

/// A dividend of at least `k` times the divisor gives a quotient of at
/// least `k`.
pub proof fn lemma_tdiv_lower(x: int, d: int, k: int)
    requires
        d >= 1,
        0 <= k,
        k * d <= x,
    ensures
        k <= tdiv(x, d),
{
    if x == 0 {
        assert(k * d >= k) by (nonlinear_arith)
            requires
                d >= 1,
                k >= 0,
        ;
    } else if x > 0 {
        assert(k <= x / d) by (nonlinear_arith)
            requires
                0 < x,
                k * d <= x,
                d >= 1,
                0 <= k,
        ;
    } else {
        assert(k * d >= 0) by (nonlinear_arith)
            requires
                d >= 1,
                k >= 0,
        ;
    }
}

/// A fixed-point quotient undoes a fixed-point product from above: the
/// free path recovered from a sampled distance never leaves the interval.
pub proof fn lemma_fxdiv_fxmul(x: int, l: int, hd: int)
    requires
        l >= 1,
        x >= 0,
        0 <= hd <= fxmul(x, l),
    ensures
        0 <= fxdiv(hd, l) <= x,
{
    assert(x * l >= 0) by (nonlinear_arith)
        requires
            x >= 0,
            l >= 1,
    ;
    lemma_tdiv_nonneg(x * l, SCALE as int);
    assert(tdiv(x * l, SCALE as int) == (x * l) / SCALE as int);
    assert(((x * l) / SCALE as int) * SCALE as int <= x * l) by (nonlinear_arith)
        requires
            x * l >= 0,
    ;
    assert(hd * SCALE as int <= ((x * l) / SCALE as int) * SCALE as int) by (nonlinear_arith)
        requires
            0 <= hd <= (x * l) / SCALE as int,
    ;
    assert(hd * SCALE as int >= 0);
    lemma_tdiv_nonneg(hd * SCALE as int, l);
    assert((hd * SCALE as int) / l <= x) by (nonlinear_arith)
        requires
            0 <= hd * SCALE as int <= x * l,
            l >= 1,
            x >= 0,
    ;
}

/// The square-root floor brackets its argument between consecutive squares.
pub proof fn lemma_sqrt_floor(n: nat)
    ensures
        sqrt_floor(n) * sqrt_floor(n) <= n,
        n < (sqrt_floor(n) + 1) * (sqrt_floor(n) + 1),
    decreases n,
{
    if n == 0 {
        assert(sqrt_floor(n) == 0);
        assert((sqrt_floor(n) + 1) * (sqrt_floor(n) + 1) == 1) by (nonlinear_arith)
            requires
                sqrt_floor(n) == 0,
        ;
    } else {
        let q = n / 4;
        lemma_sqrt_floor(q);
        let s0 = sqrt_floor(q);
        let s = 2 * s0;
        assert(4 * q <= n && n < 4 * q + 4);
        assert(s * s == 4 * (s0 * s0)) by (nonlinear_arith)
            requires
                s == 2 * s0,
        ;
        assert((s + 2) * (s + 2) == 4 * ((s0 + 1) * (s0 + 1))) by (nonlinear_arith)
            requires
                s == 2 * s0,
        ;
        assert(s * s <= n);
        assert(n < (s + 2) * (s + 2));
        if (s + 1) * (s + 1) <= n {
            assert(sqrt_floor(n) == s + 1);
            assert(sqrt_floor(n) * sqrt_floor(n) <= n);
            assert(n < (sqrt_floor(n) + 1) * (sqrt_floor(n) + 1));
        } else {
            assert(sqrt_floor(n) == s);
            assert(sqrt_floor(n) * sqrt_floor(n) <= n);
            assert(n < (sqrt_floor(n) + 1) * (sqrt_floor(n) + 1));
        }
    }
}

/// Square-root floors are ordered as their arguments are.
pub proof fn lemma_sqrt_floor_bound(n: nat, m: nat)
    requires
        n <= m * m,
    ensures
        sqrt_floor(n) <= m,
{
    lemma_sqrt_floor(n);
    let r = sqrt_floor(n);
    if r > m {
        assert(r * r > m * m) by (nonlinear_arith)
            requires
                r > m,
        ;
    }
}

/// Multiplies two fixed-point scalars, truncating toward zero.
pub fn mul_fx(a: i64, b: i64) -> (r: i64)
    requires
        i64::MIN as int <= fxmul(a as int, b as int) <= i64::MAX as int,
    ensures
        r as int == fxmul(a as int, b as int),
{
    proof {
        assert((a as int) * (b as int) <= 0x8000_0000_0000_0000 * 0x8000_0000_0000_0000
            && (a as int) * (b as int) >= -(0x8000_0000_0000_0000 * 0x8000_0000_0000_0000))
            by (nonlinear_arith)
            requires
                -0x8000_0000_0000_0000 <= a as int <= 0x8000_0000_0000_0000,
                -0x8000_0000_0000_0000 <= b as int <= 0x8000_0000_0000_0000,
        ;
    }
    let p: i128 = (a as i128) * (b as i128);
    proof {
        lemma_tdiv_mag(p as int, SCALE as int, 0x8000_0000_0000_0000int * 0x8000_0000_0000_0000);
    }
    let q: i128 = p.checked_div(SCALE as i128).unwrap();
    q as i64
}

/// Divides two fixed-point scalars, truncating toward zero.
pub fn div_fx(a: i64, b: i64) -> (r: i64)
    requires
        b != 0,
        i64::MIN as int <= fxdiv(a as int, b as int) <= i64::MAX as int,
    ensures
        r as int == fxdiv(a as int, b as int),
{
    let p: i128 = (a as i128) * (SCALE as i128);
    proof {
        lemma_tdiv_mag(p as int, b as int, 0x8000_0000_0000_0000int * 0x10000);
    }
    let q: i128 = p.checked_div(b as i128).unwrap();
    q as i64
}

/// The square-root floor of a machine natural, by the digit recursion.
pub fn isqrt(n: u128) -> (r: u128)
    requires
        n < 0x4000_0000_0000_0000_0000_0000_0000_0000,
    ensures
        r as nat == sqrt_floor(n as nat),
    decreases n,
{
    if n == 0 {
        0
    } else {
        proof {
            lemma_sqrt_floor((n as nat) / 4);
            assert(((n as nat) / 4) < 0x4000_0000_0000_0000 * 0x4000_0000_0000_0000)
                by (nonlinear_arith)
                requires
                    n < 0x4000_0000_0000_0000_0000_0000_0000_0000,
            ;
            lemma_sqrt_floor_bound((n as nat) / 4, 0x4000_0000_0000_0000);
        }
        let s: u128 = 2 * isqrt(n / 4);
        let sp: u128 = s + 1;
        proof {
            assert(sp * sp < 0x8000_0000_0000_0000_0000_0000_0000_0000) by (nonlinear_arith)
                requires
                    0 < sp <= 0x8000_0000_0000_0001,
            ;
        }
        if sp * sp <= n {
            sp
        } else {
            s
        }
    }
}

/// The fixed-point square root of a non-negative scalar, rounded down.
pub fn sqrt_fx(x: i64) -> (r: i64)
    requires
        0 <= x <= 0x4000_0000_0000_0000,
    ensures
        r as int == fxsqrt(x as int),
        0 <= r,
        r as int * r as int <= x as int * SCALE as int,
{
    let n: u128 = (x as u128) * (SCALE as u128);
    proof {
        lemma_sqrt_floor(n as nat);
        assert(n as int == (x as int) * 65536);
        assert(n as int <= 0x4000_0000_0000_0000int * 65536);
        assert(0x4000_0000_0000_0000int * 65536 <= 0x80_0000_0000int * 0x80_0000_0000)
            by (nonlinear_arith);
        lemma_sqrt_floor_bound(n as nat, 0x80_0000_0000);
    }
    let r = isqrt(n);
    r as i64
}

} // verus!
