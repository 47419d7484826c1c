//! Exact arithmetic on `c * t^3 / d^3` for 64-bit `t <= d` and 32-bit `c`,
//! with no number wider than 128 bits: the quotient and the remainder's
//! base-`d` digits.
use vstd::prelude::*;
use vstd::arithmetic::div_mod::{lemma_fundamental_div_mod, lemma_mod_pos_bound};
use vstd::arithmetic::mul::lemma_mul_is_commutative;

verus! {

/// `x / d` and `x % d`.
fn div_rem(x: u128, d: u128) -> (qr: (u128, u128))
    requires
        d > 0,
    ensures
        x == qr.0 * d + qr.1,
        qr.1 < d,
{
    proof {
        lemma_fundamental_div_mod(x as int, d as int);
        lemma_mod_pos_bound(x as int, d as int);
        lemma_mul_is_commutative(d as int, (x / d) as int);
    }
    (x / d, x % d)
}

/// The value of three base-`d` digits.
pub open spec fn digits3(d: int, z2: int, z1: int, z0: int) -> int {
    z2 * d * d + z1 * d + z0
}

pub proof fn lemma_digits3_bound(d: int, z2: int, z1: int, z0: int)
    requires
        d > 0,
        0 <= z2 < d,
        0 <= z1 < d,
        0 <= z0 < d,
    ensures
        0 <= digits3(d, z2, z1, z0) < d * d * d,
        digits3(d, z2, z1, z0) == 0 <==> (z2 == 0 && z1 == 0 && z0 == 0),
{
    assert(0 <= digits3(d, z2, z1, z0) <= d * d * d - 1) by (nonlinear_arith)
        requires
            d > 0,
            0 <= z2 <= d - 1,
            0 <= z1 <= d - 1,
            0 <= z0 <= d - 1,
    ;
    if digits3(d, z2, z1, z0) == 0 {
        assert(z2 * d * d >= 0 && z1 * d >= 0) by (nonlinear_arith)
            requires
                d > 0,
                z2 >= 0,
                z1 >= 0,
        ;
        assert(z2 == 0) by (nonlinear_arith)
            requires
                d > 0,
                z2 >= 0,
                z2 * d * d == 0,
        ;
        assert(z1 == 0) by (nonlinear_arith)
            requires
                d > 0,
                z1 >= 0,
                z1 * d == 0,
        ;
    }
}

proof fn lemma_cube_below(t: int, d: int)
    requires
        0 <= t <= d,
    ensures
        t * t * t <= d * d * d,
{
    assert(t * t <= d * d) by (nonlinear_arith)
        requires
            0 <= t <= d,
    ;
    assert(t * t * t <= d * d * d) by (nonlinear_arith)
        requires
            0 <= t <= d,
            t * t <= d * d,
    ;
}

/// `c * t^3 = q * d^3 + r` with `0 <= r < d^3`, `q <= c`, and `r` given by
/// its three base-`d` digits.
pub fn cube_quotient(c: u128, t: u128, d: u128) -> (res: (u128, u128, u128, u128))
    requires
        c < 0x1_0000_0000,
        0 <= t <= d,
        0 < d < 0x1_0000_0000_0000_0000,
    ensures
        c * (t * t * t) == res.0 * (d * d * d) + digits3(d as int, res.1 as int, res.2 as int, res.3 as int),
        res.0 <= c,
        res.1 < d,
        res.2 < d,
        res.3 < d,
{
    // c*t = q1*d + r1
    assert(c * t < 0x1_0000_0000 * 0x1_0000_0000_0000_0000) by (nonlinear_arith)
        requires
            c < 0x1_0000_0000,
            0 <= t < 0x1_0000_0000_0000_0000,
    ;
    let (q1, r1) = div_rem(c * t, d);
    assert(q1 <= c) by (nonlinear_arith)
        requires
            c * t == q1 * d + r1,
            0 <= r1,
            0 <= t <= d,
            0 <= c,
            d > 0,
    ;
    // r1*t = q2*d + r2, so c*t^2 = (q1*t + q2)*d + r2
    assert(r1 * t < 0x1_0000_0000_0000_0000 * 0x1_0000_0000_0000_0000) by (nonlinear_arith)
        requires
            0 <= r1 < 0x1_0000_0000_0000_0000,
            0 <= t < 0x1_0000_0000_0000_0000,
    ;
    let (q2, r2) = div_rem(r1 * t, d);
    assert(q2 <= t) by (nonlinear_arith)
        requires
            r1 * t == q2 * d + r2,
            0 <= r2,
            0 <= r1 < d,
            0 <= t,
    ;
    assert(q1 * t <= 0x1_0000_0000 * 0x1_0000_0000_0000_0000) by (nonlinear_arith)
        requires
            q1 <= 0x1_0000_0000,
            0 <= t < 0x1_0000_0000_0000_0000,
    ;
    let big2: u128 = q1 * t + q2;
    // big2 = q3*d + r3, so c*t^2 = q3*d^2 + r3*d + r2
    let (q3, r3) = div_rem(big2, d);
    proof {
        assert(c * t * t == big2 * d + r2) by (nonlinear_arith)
            requires
                c * t == q1 * d + r1,
                r1 * t == q2 * d + r2,
                big2 == q1 * t + q2,
        ;
        assert(c * t * t <= c * d * d) by (nonlinear_arith)
            requires
                0 <= t <= d,
                0 <= c,
        ;
        assert(c * t * t == q3 * (d * d) + r3 * d + r2) by (nonlinear_arith)
            requires
                c * t * t == big2 * d + r2,
                big2 == q3 * d + r3,
        ;
        assert(q3 <= c) by (nonlinear_arith)
            requires
                c * t * t == q3 * (d * d) + r3 * d + r2,
                c * t * t <= c * d * d,
                0 <= r2,
                0 <= r3,
                d > 0,
                0 <= c,
        ;
    }
    // c*t^3 = q3*t*d^2 + r3*t*d + r2*t
    assert(q3 * t < 0x1_0000_0001 * 0x1_0000_0000_0000_0000) by (nonlinear_arith)
        requires
            q3 <= 0x1_0000_0000,
            0 <= t < 0x1_0000_0000_0000_0000,
    ;
    let (a1, a0) = div_rem(q3 * t, d);
    assert(r3 * t < 0x1_0000_0000_0000_0000 * 0x1_0000_0000_0000_0000) by (nonlinear_arith)
        requires
            0 <= r3 < 0x1_0000_0000_0000_0000,
            0 <= t < 0x1_0000_0000_0000_0000,
    ;
    let (b1, b0) = div_rem(r3 * t, d);
    assert(r2 * t < 0x1_0000_0000_0000_0000 * 0x1_0000_0000_0000_0000) by (nonlinear_arith)
        requires
            0 <= r2 < 0x1_0000_0000_0000_0000,
            0 <= t < 0x1_0000_0000_0000_0000,
    ;
    let (e1, e0) = div_rem(r2 * t, d);
    proof {
        assert(b1 + 1 <= d && e1 + 1 <= d && a1 <= q3) by (nonlinear_arith)
            requires
                r3 * t == b1 * d + b0,
                r2 * t == e1 * d + e0,
                q3 * t == a1 * d + a0,
                0 <= b0,
                0 <= e0,
                0 <= a0,
                0 <= r3 < d,
                0 <= r2 < d,
                0 <= t <= d,
                0 <= q3,
        ;
    }
    // normalise: z1 = b0 + e1, z2 = a0 + b1 + carry
    let (c1, z1) = div_rem(b0 + e1, d);
    assert(c1 <= 1) by (nonlinear_arith)
        requires
            b0 + e1 == c1 * d + z1,
            0 <= z1,
            b0 < d,
            e1 + 1 <= d,
    ;
    let (c2, z2) = div_rem(a0 + b1 + c1, d);
    proof {
        assert(c2 <= 1) by (nonlinear_arith)
            requires
                a0 + b1 + c1 == c2 * d + z2,
                0 <= z2,
                a0 < d,
                b1 + 1 <= d,
                c1 <= 1,
        ;
        let dd = d as int;
        let tt = t as int;
        let s1: int = c * tt * tt;
        assert(c * (tt * tt * tt) == s1 * tt) by (nonlinear_arith)
            requires
                s1 == c * tt * tt,
        ;
        assert(s1 * tt == big2 * tt * dd + r2 * tt) by (nonlinear_arith)
            requires
                s1 == big2 * dd + r2,
        ;
        assert(big2 * tt * dd == q3 * tt * (dd * dd) + r3 * tt * dd) by (nonlinear_arith)
            requires
                big2 == q3 * dd + r3,
        ;
        assert(q3 * tt * (dd * dd) == a1 * (dd * dd * dd) + a0 * (dd * dd)) by (nonlinear_arith)
            requires
                q3 * tt == a1 * dd + a0,
        ;
        assert(r3 * tt * dd == b1 * (dd * dd) + b0 * dd) by (nonlinear_arith)
            requires
                r3 * tt == b1 * dd + b0,
        ;
        assert(r2 * tt == e1 * dd + e0);
        assert((b0 + e1) * dd == c1 * (dd * dd) + z1 * dd) by (nonlinear_arith)
            requires
                b0 + e1 == c1 * dd + z1,
        ;
        assert((a0 + b1 + c1) * (dd * dd) == c2 * (dd * dd * dd) + z2 * (dd * dd)) by (nonlinear_arith)
            requires
                a0 + b1 + c1 == c2 * dd + z2,
        ;
        assert(a0 * (dd * dd) + b1 * (dd * dd) + c1 * (dd * dd) == (a0 + b1 + c1) * (dd * dd)) by (nonlinear_arith);
        assert(b0 * dd + e1 * dd == (b0 + e1) * dd) by (nonlinear_arith);
        assert(z2 * (dd * dd) == z2 * dd * dd) by (nonlinear_arith);
        assert(a1 * (dd * dd * dd) + c2 * (dd * dd * dd) == (a1 + c2) * (dd * dd * dd)) by (nonlinear_arith);
        assert(c * (t * t * t) == (a1 + c2) * (dd * dd * dd) + digits3(dd, z2 as int, z1 as int, e0 as int));
        lemma_digits3_bound(dd, z2 as int, z1 as int, e0 as int);
        lemma_cube_below(tt, dd);
        let big_d: int = dd * dd * dd;
        let big_t: int = tt * tt * tt;
        let q: int = (a1 + c2) as int;
        assert(c * big_t <= c * big_d) by (nonlinear_arith)
            requires
                big_t <= big_d,
                0 <= c,
        ;
        assert(q * big_d <= c * big_d);
        assert(big_d > 0) by (nonlinear_arith)
            requires
                dd > 0,
                big_d == dd * dd * dd,
        ;
        assert(q <= c) by (nonlinear_arith)
            requires
                q * big_d <= c * big_d,
                big_d > 0,
        ;
    }
    (a1 + c2, z2, z1, e0)
}

/// Compares twice the three-digit number `z2 z1 z0` (base `d`) with `d^3`:
/// `-1`, `0` or `1` as it is smaller, equal or larger.
pub fn compare_double(z2: u128, z1: u128, z0: u128, d: u128) -> (s: i8)
    requires
        0 < d < 0x1_0000_0000_0000_0000,
        z2 < d,
        z1 < d,
        z0 < d,
    ensures
        s == (if 2 * digits3(d as int, z2 as int, z1 as int, z0 as int) < d * d * d {
            -1int
        } else if 2 * digits3(d as int, z2 as int, z1 as int, z0 as int) == d * d * d {
            0int
        } else {
            1int
        }),
{
    let (k0, w0) = div_rem(2 * z0, d);
    assert(k0 <= 1) by (nonlinear_arith)
        requires
            2 * z0 == k0 * d + w0,
            0 <= w0,
            z0 < d,
    ;
    let (k1, w1) = div_rem(2 * z1 + k0, d);
    assert(k1 <= 1) by (nonlinear_arith)
        requires
            2 * z1 + k0 == k1 * d + w1,
            0 <= w1,
            z1 < d,
            k0 <= 1,
    ;
    let (k2, w2) = div_rem(2 * z2 + k1, d);
    proof {
        let dd = d as int;
        assert(k2 <= 1) by (nonlinear_arith)
            requires
                2 * z2 + k1 == k2 * d + w2,
                0 <= w2,
                z2 < d,
                k1 <= 1,
        ;
        assert(2 * digits3(dd, z2 as int, z1 as int, z0 as int) == k2 * (dd * dd * dd) + digits3(
            dd,
            w2 as int,
            w1 as int,
            w0 as int,
        )) by (nonlinear_arith)
            requires
                2 * z0 == k0 * d + w0,
                2 * z1 + k0 == k1 * d + w1,
                2 * z2 + k1 == k2 * d + w2,
                dd == d,
        ;
        lemma_digits3_bound(dd, w2 as int, w1 as int, w0 as int);
    }
    proof {
        let dd = d as int;
        let big_d: int = dd * dd * dd;
        assert(d * d * d == big_d);
        let w: int = digits3(dd, w2 as int, w1 as int, w0 as int);
        if k2 == 0 {
            assert(k2 * big_d == 0) by (nonlinear_arith)
                requires
                    k2 == 0,
            ;
        } else {
            assert(k2 * big_d == big_d) by (nonlinear_arith)
                requires
                    k2 == 1,
            ;
        }
        assert(2 * digits3(dd, z2 as int, z1 as int, z0 as int) == k2 * big_d + w);
    }
    if k2 == 0 {
        -1
    } else if w2 == 0 && w1 == 0 && w0 == 0 {
        0
    } else {
        1
    }
}

} // verus!
