//! Margin arithmetic of the slide animation: where a hidden window sits, how
//! often frames are drawn, and where the window is at a given moment of a
//! cubic ease-out animation.
use vstd::prelude::*;
use vstd::arithmetic::div_mod::{
    lemma_div_is_ordered, lemma_fundamental_div_mod, lemma_fundamental_div_mod_converse_div,
};
use crate::cubic::{compare_double, cube_quotient, digits3, lemma_digits3_bound};

verus! {

/// `x` cubed.
pub open spec fn cube(x: int) -> int {
    x * x * x
}

/// `n / d` rounded to the nearest integer, halves away from zero (`d > 0`).
pub open spec fn round_half_away(n: int, d: int) -> int {
    if n >= 0 {
        (2 * n + d) / (2 * d)
    } else {
        -((-2 * n + d) / (2 * d))
    }
}

/// The bottom margin of a cubic ease-out animation from `from` to `to` that
/// lasts `duration` milliseconds, `elapsed` milliseconds after it started:
/// `from + (to - from) * (1 - (1 - p)^3)` with `p = min(elapsed / duration, 1)`,
/// rounded to the nearest pixel.
pub open spec fn eased_margin_spec(from: int, to: int, elapsed: int, duration: int) -> int {
    if elapsed >= duration {
        to
    } else {
        let d3 = cube(duration);
        let t3 = cube(duration - elapsed);
        round_half_away(from * t3 + to * (d3 - t3), d3)
    }
}

/// The margin that places a window of the given height, plus the padding,
/// just below the bottom edge of the screen.
pub open spec fn hidden_margin_spec(height: int, padding: int) -> int {
    -((if height >= 1 { height } else { 1 }) + padding)
}

/// The hidden margin fits in an `i32`.
pub open spec fn hidden_margin_fits(height: i32, padding: i32) -> bool {
    (if height >= 1 { height as int } else { 1int }) + padding <= i32::MAX
}

/// Milliseconds between two animation frames at `fps` frames per second,
/// never less than one.
pub open spec fn frame_interval_spec(fps: int) -> int {
    if 1000int / fps >= 1 { 1000int / fps } else { 1 }
}

/// Margin of a hidden window: `-(max(height, 1) + padding)`.
pub fn hidden_bottom_margin(height: i32, padding: i32) -> (m: i32)
    requires
        hidden_margin_fits(height, padding),
    ensures
        m == hidden_margin_spec(height as int, padding as int),
{
    let h: i32 = if height >= 1 { height } else { 1 };
    -(h + padding)
}

/// Interval between two animation frames: `max(1000 / fps, 1)` milliseconds.
pub fn frame_interval_ms(fps: u64) -> (ms: u64)
    requires
        fps > 0,
    ensures
        ms == frame_interval_spec(fps as int),
        ms >= 1,
{
    let per_frame: u64 = 1000 / fps;
    if per_frame >= 1 {
        per_frame
    } else {
        1
    }
}

/// The height a window has been given, the larger of the window's and its
/// content box's allocation, or `None` when neither has been allocated yet
/// (the caller then measures the content's natural height).
pub fn allocated_height(window_height: i32, container_height: i32) -> (h: Option<i32>)
    ensures
        h == (if window_height >= container_height {
            if window_height > 0 { Some(window_height) } else { None::<i32> }
        } else {
            if container_height > 0 { Some(container_height) } else { None::<i32> }
        }),
{
    let m: i32 = if window_height >= container_height { window_height } else { container_height };
    if m > 0 {
        Some(m)
    } else {
        None
    }
}

proof fn lemma_floor_half_between(m: int, d: int, lo: int, hi: int)
    requires
        d > 0,
        lo * d <= m <= hi * d,
    ensures
        lo <= (2 * m + d) / (2 * d) <= hi,
{
    let q = (2 * m + d) / (2 * d);
    let r = (2 * m + d) % (2 * d);
    lemma_fundamental_div_mod(2 * m + d, 2 * d);
    assert(0 <= r < 2 * d);
    assert(lo <= q) by (nonlinear_arith)
        requires
            d > 0,
            lo * d <= m,
            2 * m + d == 2 * d * q + r,
            r < 2 * d,
    ;
    assert(q <= hi) by (nonlinear_arith)
        requires
            d > 0,
            m <= hi * d,
            2 * m + d == 2 * d * q + r,
            0 <= r,
    ;
}

/// Rounding a value that lies between `lo * d` and `hi * d` gives a value
/// between `lo` and `hi`.
pub proof fn lemma_round_between(n: int, d: int, lo: int, hi: int)
    requires
        d > 0,
        lo * d <= n <= hi * d,
    ensures
        lo <= round_half_away(n, d) <= hi,
{
    if n >= 0 {
        lemma_floor_half_between(n, d, lo, hi);
    } else {
        assert((-hi) * d <= -n <= (-lo) * d) by (nonlinear_arith)
            requires
                lo * d <= n <= hi * d,
        ;
        lemma_floor_half_between(-n, d, -hi, -lo);
    }
}

/// Rounding is monotone.
pub proof fn lemma_round_monotone(n1: int, n2: int, d: int)
    requires
        d > 0,
        n1 <= n2,
    ensures
        round_half_away(n1, d) <= round_half_away(n2, d),
{
    if n1 >= 0 {
        lemma_div_is_ordered(2 * n1 + d, 2 * n2 + d, 2 * d);
    } else if n2 < 0 {
        lemma_div_is_ordered(-2 * n2 + d, -2 * n1 + d, 2 * d);
    } else {
        lemma_div_is_ordered(0, -2 * n1 + d, 2 * d);
        lemma_div_is_ordered(0, 2 * n2 + d, 2 * d);
        assert(0int / (2 * d) == 0);
    }
}

proof fn lemma_cube_le(x: int, y: int)
    requires
        0 <= x <= y,
    ensures
        0 <= cube(x) <= cube(y),
        x * x <= y * y,
{
    assert(0 <= x * x <= y * y) by (nonlinear_arith)
        requires
            0 <= x <= y,
    ;
    assert(0 <= x * x * x <= y * y * y) by (nonlinear_arith)
        requires
            0 <= x <= y,
            0 <= x * x <= y * y,
    ;
}

proof fn lemma_mix_between(from: int, to: int, t3: int, d3: int, lo: int, hi: int)
    requires
        0 <= t3 <= d3,
        lo <= from <= hi,
        lo <= to <= hi,
    ensures
        lo * d3 <= from * t3 + to * (d3 - t3) <= hi * d3,
{
    assert(lo * d3 <= from * t3 + to * (d3 - t3) <= hi * d3) by (nonlinear_arith)
        requires
            0 <= t3 <= d3,
            lo <= from <= hi,
            lo <= to <= hi,
    ;
}

/// Every frame of an animation lies between its start and its end.
pub proof fn lemma_eased_between(from: int, to: int, elapsed: int, duration: int)
    requires
        0 <= elapsed,
        0 <= duration,
    ensures
        from <= to ==> from <= eased_margin_spec(from, to, elapsed, duration) <= to,
        to <= from ==> to <= eased_margin_spec(from, to, elapsed, duration) <= from,
{
    if elapsed < duration {
        let d3 = cube(duration);
        let t3 = cube(duration - elapsed);
        lemma_cube_le(duration - elapsed, duration);
        assert(d3 > 0) by (nonlinear_arith)
            requires
                duration > 0,
                d3 == duration * duration * duration,
        ;
        let lo = if from <= to { from } else { to };
        let hi = if from <= to { to } else { from };
        lemma_mix_between(from, to, t3, d3, lo, hi);
        lemma_round_between(from * t3 + to * (d3 - t3), d3, lo, hi);
    }
}

/// An animation starts where it was asked to start.
pub proof fn lemma_eased_starts_at_from(from: int, to: int, duration: int)
    requires
        duration > 0,
    ensures
        eased_margin_spec(from, to, 0, duration) == from,
{
    let d3 = cube(duration);
    assert(d3 > 0) by (nonlinear_arith)
        requires
            duration > 0,
            d3 == duration * duration * duration,
    ;
    assert(from * d3 + to * (d3 - d3) == from * d3) by (nonlinear_arith);
    lemma_round_between(from * d3, d3, from, from);
}

/// An animation never moves backwards: later frames are at least as close to
/// the end as earlier ones.
pub proof fn lemma_eased_monotone(from: int, to: int, e1: int, e2: int, duration: int)
    requires
        0 <= e1 <= e2,
        0 <= duration,
    ensures
        from <= to ==> eased_margin_spec(from, to, e1, duration) <= eased_margin_spec(
            from,
            to,
            e2,
            duration,
        ),
        to <= from ==> eased_margin_spec(from, to, e1, duration) >= eased_margin_spec(
            from,
            to,
            e2,
            duration,
        ),
{
    lemma_eased_between(from, to, e1, duration);
    lemma_eased_between(from, to, e2, duration);
    if e2 < duration {
        let d3 = cube(duration);
        let t1 = cube(duration - e1);
        let t2 = cube(duration - e2);
        lemma_cube_le(duration - e2, duration - e1);
        lemma_cube_le(duration - e1, duration);
        assert(d3 > 0) by (nonlinear_arith)
            requires
                duration > 0,
                d3 == duration * duration * duration,
        ;
        let n1 = from * t1 + to * (d3 - t1);
        let n2 = from * t2 + to * (d3 - t2);
        if from <= to {
            assert(n1 <= n2) by (nonlinear_arith)
                requires
                    from <= to,
                    t2 <= t1,
                    n1 == from * t1 + to * (d3 - t1),
                    n2 == from * t2 + to * (d3 - t2),
            ;
            lemma_round_monotone(n1, n2, d3);
        } else {
            assert(n2 <= n1) by (nonlinear_arith)
                requires
                    to <= from,
                    t2 <= t1,
                    n1 == from * t1 + to * (d3 - t1),
                    n2 == from * t2 + to * (d3 - t2),
            ;
            lemma_round_monotone(n2, n1, d3);
        }
    }
}

proof fn lemma_round_parts(lo: int, q: int, rn: int, big_d: int)
    requires
        big_d > 0,
        0 <= rn < big_d,
        q >= 0,
    ensures
        round_half_away(lo * big_d + q * big_d + rn, big_d) == lo + q + (if lo + q >= 0 {
            if 2 * rn >= big_d { 1int } else { 0int }
        } else {
            if 2 * rn > big_d { 1int } else { 0int }
        }),
{
    let n = lo * big_d + q * big_d + rn;
    let k = lo + q;
    assert(n == k * big_d + rn) by (nonlinear_arith)
        requires
            n == lo * big_d + q * big_d + rn,
            k == lo + q,
    ;
    if k >= 0 {
        assert(n >= 0) by (nonlinear_arith)
            requires
                n == k * big_d + rn,
                k >= 0,
                rn >= 0,
                big_d > 0,
        ;
        assert(2 * n + big_d == k * (2 * big_d) + (2 * rn + big_d)) by (nonlinear_arith)
            requires
                n == k * big_d + rn,
        ;
        if 2 * rn >= big_d {
            assert(2 * n + big_d == (k + 1) * (2 * big_d) + (2 * rn - big_d)) by (nonlinear_arith)
                requires
                    2 * n + big_d == k * (2 * big_d) + (2 * rn + big_d),
            ;
            lemma_fundamental_div_mod_converse_div(2 * n + big_d, 2 * big_d, k + 1, 2 * rn - big_d);
        } else {
            lemma_fundamental_div_mod_converse_div(2 * n + big_d, 2 * big_d, k, 2 * rn + big_d);
        }
    } else {
        assert(n < 0) by (nonlinear_arith)
            requires
                n == k * big_d + rn,
                k <= -1,
                rn < big_d,
                big_d > 0,
        ;
        assert(-2 * n + big_d == (-k) * (2 * big_d) + (big_d - 2 * rn)) by (nonlinear_arith)
            requires
                n == k * big_d + rn,
        ;
        if 2 * rn > big_d {
            assert(-2 * n + big_d == (-(k + 1)) * (2 * big_d) + (3 * big_d - 2 * rn)) by (nonlinear_arith)
                requires
                    -2 * n + big_d == (-k) * (2 * big_d) + (big_d - 2 * rn),
            ;
            lemma_fundamental_div_mod_converse_div(-2 * n + big_d, 2 * big_d, -(k + 1), 3 * big_d - 2 * rn);
        } else {
            lemma_fundamental_div_mod_converse_div(-2 * n + big_d, 2 * big_d, -k, big_d - 2 * rn);
        }
    }
}

/// The margin of the frame drawn `elapsed_ms` after an animation from `from`
/// to `to` lasting `duration_ms` started (cubic ease-out, rounded to the
/// nearest pixel, halves away from zero), computed exactly for every length.
pub fn eased_margin(from: i32, to: i32, elapsed_ms: u64, duration_ms: u64) -> (m: i32)
    ensures
        m == eased_margin_spec(from as int, to as int, elapsed_ms as int, duration_ms as int),
{
    if elapsed_ms >= duration_ms {
        return to;
    }
    let d: u128 = duration_ms as u128;
    let t: u128 = (duration_ms - elapsed_ms) as u128;
    let rising = from <= to;
    let lo: i32 = if rising { from } else { to };
    let c: u128 = if rising {
        (to as i64 - from as i64) as u128
    } else {
        (from as i64 - to as i64) as u128
    };
    // c * t^3 = z3 * d^3 + R, R written in base d as (z2, z1, z0)
    let (z3, z2, z1, z0) = cube_quotient(c, t, d);
    let rem_zero = z2 == 0 && z1 == 0 && z0 == 0;
    // sign of 2R - d^3
    let s = compare_double(z2, z1, z0, d);
    proof {
        let dd = d as int;
        let tt = t as int;
        let big_d = dd * dd * dd;
        let big_t = tt * tt * tt;
        let r = digits3(dd, z2 as int, z1 as int, z0 as int);
        lemma_digits3_bound(dd, z2 as int, z1 as int, z0 as int);
        lemma_cube_le(tt, dd);
        assert(big_t <= big_d) by (nonlinear_arith)
            requires
                0 <= tt <= dd,
                big_t == tt * tt * tt,
                big_d == dd * dd * dd,
        ;
        if !rem_zero {
            assert(z3 < c) by (nonlinear_arith)
                requires
                    c * big_t == z3 * big_d + r,
                    r > 0,
                    0 <= big_t <= big_d,
                    z3 >= 0,
                    c >= 0,
            ;
        }
    }
    // c * (d^3 - t^3) or c * t^3 as q * d^3 + rn, and the sign of 2rn - d^3
    let (q, order): (u128, i8) = if !rising {
        (z3, s)
    } else if rem_zero {
        (c - z3, -1)
    } else {
        (c - z3 - 1, -s)
    };
    let k: i64 = lo as i64 + q as i64;
    let bump: i64 = if k >= 0 {
        if order >= 0 { 1 } else { 0 }
    } else {
        if order > 0 { 1 } else { 0 }
    };
    proof {
        let dd = d as int;
        let big_d = dd * dd * dd;
        let tt = t as int;
        let big_t = tt * tt * tt;
        let r = digits3(dd, z2 as int, z1 as int, z0 as int);
        lemma_digits3_bound(dd, z2 as int, z1 as int, z0 as int);
        lemma_cube_le(tt, dd);
        assert(big_d > 0) by (nonlinear_arith)
            requires
                dd > 0,
                big_d == dd * dd * dd,
        ;
        let n = from as int * big_t + to as int * (big_d - big_t);
        let rn: int = if !rising { r } else if rem_zero { 0 } else { big_d - r };
        if rising {
            assert(n == lo * big_d + (c * big_d - c * big_t)) by (nonlinear_arith)
                requires
                    n == from as int * big_t + to as int * (big_d - big_t),
                    lo == from,
                    c == to - from,
            ;
            assert(c * big_t == z3 * big_d + r);
            assert(n == lo * big_d + q * big_d + rn) by (nonlinear_arith)
                requires
                    n == lo * big_d + (c * big_d - z3 * big_d - r),
                    rem_zero ==> r == 0 && q == c - z3,
                    !rem_zero ==> q == c - z3 - 1,
                    rn == (if rem_zero { 0 } else { big_d - r }),
            ;
        } else {
            assert(n == lo * big_d + c * big_t) by (nonlinear_arith)
                requires
                    n == from as int * big_t + to as int * (big_d - big_t),
                    lo == to,
                    c == from - to,
            ;
            assert(n == lo * big_d + q * big_d + rn);
        }
        assert(0 <= rn < big_d);
        assert(order == (if 2 * rn < big_d { -1int } else if 2 * rn == big_d { 0int } else { 1int }));
        lemma_round_parts(lo as int, q as int, rn, big_d);
        lemma_eased_between(from as int, to as int, elapsed_ms as int, duration_ms as int);
    }
    (k + bump) as i32
}

} // verus!
