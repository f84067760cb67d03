//! The path of the marker.
//!
//! The marker swings about the centre of the surface: across with the sine
//! of the phase, down with the product of the sine and the cosine of half
//! the phase. The phase advances by one radian per second of elapsed time,
//! that is by one milliradian per millisecond. Angles are whole
//! milliradians and wave values are thousandths, so the whole path is
//! integer arithmetic.

use vstd::prelude::*;

verus! {

/// Milliradians in a quarter turn, with pi taken as 3.142.
pub const QUARTER_TURN: u64 = 1571;

/// Milliradians in half a turn.
pub const HALF_TURN: u64 = 3142;

/// Milliradians in a full turn: the period of [`sine_milli`].
pub const FULL_TURN: u64 = 6284;

/// The value that stands for 1 in a wave.
pub const UNIT: u64 = 1000;

/// The positive arch of the sine wave over `0 <= p <= 3142`, half a turn,
/// in thousandths: Bhaskara's rational approximation
/// `16 p (H - p) / (5 H^2 - 4 p (H - p))` with `H = 3142`, times 1000 and
/// rounded down.
pub open spec fn arch(p: int) -> int {
    let q = p * (3142 - p);
    (16000 * q) / (49360820 - 4 * q)
}

/// The sine of `angle` milliradians, in thousandths.
pub open spec fn sine_milli(angle: int) -> int {
    let p = angle % 6284;
    if p < 3142 {
        arch(p)
    } else {
        -arch(p - 3142)
    }
}

/// The cosine of `angle` milliradians, in thousandths: the sine a quarter
/// turn ahead.
pub open spec fn cosine_milli(angle: int) -> int {
    sine_milli(angle + 1571)
}

/// How far the marker swings from the centre: a quarter of the shorter side.
pub open spec fn amplitude(width: int, height: int) -> int {
    if width <= height {
        width / 4
    } else {
        height / 4
    }
}

/// `amp * num / den`, rounded toward zero.
pub open spec fn scaled(amp: int, num: int, den: int) -> int {
    if num >= 0 {
        (amp * num) / den
    } else {
        -((amp * (-num)) / den)
    }
}

/// Column of the marker's centre after `t` milliseconds on a surface of
/// `width` by `height` pixels.
pub open spec fn marker_x(t: int, width: int, height: int) -> int {
    width / 2 + scaled(amplitude(width, height), sine_milli(t), 1000)
}

/// Row of the marker's centre after `t` milliseconds.
pub open spec fn marker_y(t: int, width: int, height: int) -> int {
    height / 2 + scaled(
        amplitude(width, height),
        sine_milli(t / 2) * cosine_milli(t / 2),
        1000000,
    )
}

proof fn lemma_arch_product(p: int)
    by (nonlinear_arith)
    requires
        0 <= p <= 3142,
    ensures
        0 <= p * (3142 - p),
        4 * (p * (3142 - p)) <= 9872164,
{
    assert((3142 - 2 * p) * (3142 - 2 * p) >= 0);
    assert((3142 - 2 * p) * (3142 - 2 * p) == 9872164 - 4 * (p * (3142 - p)));
}

proof fn lemma_quotient_bounds(n: int, d: int, k: int)
    by (nonlinear_arith)
    requires
        0 <= n,
        0 < d,
        0 <= k,
        n <= k * d,
    ensures
        0 <= n / d <= k,
{
}

/// The arch stays between 0 and 1.
pub proof fn lemma_arch_bounded(p: int)
    requires
        0 <= p <= 3142,
    ensures
        0 <= arch(p) <= 1000,
{
    lemma_arch_product(p);
    let q = p * (3142 - p);
    lemma_quotient_bounds(16000 * q, 49360820 - 4 * q, 1000);
}

/// The sine stays between -1 and 1.
pub proof fn lemma_sine_bounded(angle: int)
    ensures
        -1000 <= sine_milli(angle) <= 1000,
{
    let p = angle % 6284;
    if p < 3142 {
        lemma_arch_bounded(p);
    } else {
        lemma_arch_bounded(p - 3142);
    }
}

/// The sine repeats after a full turn.
pub proof fn lemma_sine_periodic(angle: int)
    ensures
        sine_milli(angle + 6284) == sine_milli(angle),
{
}

proof fn lemma_product_bounded(a: int, b: int)
    by (nonlinear_arith)
    requires
        -1000 <= a <= 1000,
        -1000 <= b <= 1000,
    ensures
        -1000000 <= a * b <= 1000000,
{
}

proof fn lemma_scaled_bounded(amp: int, num: int, den: int)
    requires
        0 <= amp,
        0 < den,
        -den <= num <= den,
    ensures
        -amp <= scaled(amp, num, den) <= amp,
{
    if num >= 0 {
        assert(0 <= amp * num <= amp * den) by (nonlinear_arith)
            requires
                0 <= amp,
                0 <= num <= den,
        ;
        lemma_quotient_bounds(amp * num, den, amp);
    } else {
        assert(0 <= amp * (-num) <= amp * den) by (nonlinear_arith)
            requires
                0 <= amp,
                0 <= -num <= den,
        ;
        lemma_quotient_bounds(amp * (-num), den, amp);
    }
}

/// At every elapsed time the marker's centre lies on the surface.
pub proof fn lemma_marker_on_surface(t: int, width: int, height: int)
    requires
        0 <= t,
        0 < width,
        0 < height,
    ensures
        0 <= marker_x(t, width, height) < width,
        0 <= marker_y(t, width, height) < height,
{
    let amp = amplitude(width, height);
    lemma_sine_bounded(t);
    lemma_sine_bounded(t / 2);
    lemma_sine_bounded(t / 2 + 1571);
    lemma_product_bounded(sine_milli(t / 2), cosine_milli(t / 2));
    lemma_scaled_bounded(amp, sine_milli(t), 1000);
    lemma_scaled_bounded(amp, sine_milli(t / 2) * cosine_milli(t / 2), 1000000);
}

/// The marker starts at the centre of the surface.
pub proof fn lemma_marker_starts_at_centre(width: int, height: int)
    ensures
        marker_x(0, width, height) == width / 2,
        marker_y(0, width, height) == height / 2,
{
    let amp = amplitude(width, height);
    assert(arch(0) == 0);
    assert(sine_milli(0) == 0);
    assert(sine_milli(0) * cosine_milli(0) == 0);
    assert(amp * 0 == 0);
}

/// Half a turn later the sine has the same size and the other sign.
pub proof fn lemma_sine_half_turn(angle: int)
    ensures
        sine_milli(angle + 3142) == -sine_milli(angle),
{
}

/// The marker's path repeats with every full turn of the phase.
pub proof fn lemma_marker_periodic(t: int, width: int, height: int)
    ensures
        marker_x(t + 6284, width, height) == marker_x(t, width, height),
        marker_y(t + 6284, width, height) == marker_y(t, width, height),
{
    let h = t / 2;
    assert((t + 6284) / 2 == h + 3142);
    lemma_sine_periodic(t);
    lemma_sine_half_turn(h);
    lemma_sine_half_turn(h + 1571);
    assert(cosine_milli(h + 3142) == -cosine_milli(h));
    assert((-sine_milli(h)) * (-cosine_milli(h)) == sine_milli(h) * cosine_milli(h))
        by (nonlinear_arith);
}

proof fn lemma_quotient_brackets(n: int, d: int)
    by (nonlinear_arith)
    requires
        0 <= n,
        0 < d,
    ensures
        (n / d) * d <= n < (n / d + 1) * d,
{
}

proof fn lemma_quotients_close(n1: int, d1: int, a1: int, n2: int, d2: int, a2: int, delta: int)
    by (nonlinear_arith)
    requires
        39488656 <= d2,
        0 <= delta <= 3142,
        n2 - n1 == 16000 * delta,
        d1 - d2 == 4 * delta,
        0 <= a1 <= 1000,
        0 <= a2,
        n1 < (a1 + 1) * d1,
        a2 * d2 <= n2,
    ensures
        a2 - a1 <= 2,
{
    if a2 - a1 >= 3 {
        assert((a1 + 1) * d1 == (a1 + 1) * d2 + 4 * (a1 + 1) * delta);
        assert((a2 - a1 - 1) * d2 >= 2 * d2);
        assert((4 * (a1 + 1) + 16000) * delta <= 20004 * 3142);
        assert(a2 * d2 == (a1 + 1) * d2 + (a2 - a1 - 1) * d2);
    }
}

/// From one milliradian to the next the arch changes by at most two
/// thousandths.
proof fn lemma_arch_gradual(p: int)
    requires
        0 <= p < 3142,
    ensures
        -2 <= arch(p + 1) - arch(p) <= 2,
{
    let q1 = p * (3142 - p);
    let q2 = (p + 1) * (3142 - (p + 1));
    lemma_arch_product(p);
    lemma_arch_product(p + 1);
    lemma_arch_bounded(p);
    lemma_arch_bounded(p + 1);
    assert(q2 - q1 == 3141 - 2 * p) by (nonlinear_arith)
        requires
            q1 == p * (3142 - p),
            q2 == (p + 1) * (3142 - (p + 1)),
    ;
    let n1 = 16000 * q1;
    let d1 = 49360820 - 4 * q1;
    let n2 = 16000 * q2;
    let d2 = 49360820 - 4 * q2;
    lemma_quotient_brackets(n1, d1);
    lemma_quotient_brackets(n2, d2);
    if q2 >= q1 {
        lemma_quotients_close(n1, d1, arch(p), n2, d2, arch(p + 1), q2 - q1);
        assert(arch(p + 1) >= arch(p)) by (nonlinear_arith)
            requires
                0 < d2 <= d1,
                0 <= n1 <= n2,
                arch(p) * d1 <= n1,
                n2 < (arch(p + 1) + 1) * d2,
                0 <= arch(p),
                0 <= arch(p + 1),
        {
            if arch(p + 1) < arch(p) {
                assert((arch(p + 1) + 1) * d2 <= arch(p) * d2);
                assert(arch(p) * d2 <= arch(p) * d1);
            }
        }
    } else {
        lemma_quotients_close(n2, d2, arch(p + 1), n1, d1, arch(p), q1 - q2);
        assert(arch(p) >= arch(p + 1)) by (nonlinear_arith)
            requires
                0 < d1 <= d2,
                0 <= n2 <= n1,
                arch(p + 1) * d2 <= n2,
                n1 < (arch(p) + 1) * d1,
                0 <= arch(p),
                0 <= arch(p + 1),
        {
            if arch(p) < arch(p + 1) {
                assert((arch(p) + 1) * d1 <= arch(p + 1) * d1);
                assert(arch(p + 1) * d1 <= arch(p + 1) * d2);
            }
        }
    }
}

/// From one milliradian to the next the sine changes by at most two
/// thousandths: the wave has no jumps.
pub proof fn lemma_sine_gradual(angle: int)
    ensures
        -2 <= sine_milli(angle + 1) - sine_milli(angle) <= 2,
{
    let p = angle % 6284;
    if p < 3142 {
        lemma_arch_gradual(p);
    } else {
        lemma_arch_gradual(p - 3142);
    }
    assert(arch(0) == 0);
    assert(arch(3142) == 0);
}

proof fn lemma_scaled_gradual(amp: int, a: int, b: int, den: int, step: int)
    requires
        0 <= amp,
        0 < den,
        0 <= step,
        -step <= b - a <= step,
    ensures
        -((amp * step) / den + 1) <= scaled(amp, b, den) - scaled(amp, a, den) <= (amp * step)
            / den + 1,
{
    assert(-(amp * step) <= amp * b - amp * a <= amp * step) by (nonlinear_arith)
        requires
            0 <= amp,
            -step <= b - a <= step,
    ;
    assert(amp * (-a) == -(amp * a) && amp * (-b) == -(amp * b)) by (nonlinear_arith);
    assert(0 <= amp * step) by (nonlinear_arith)
        requires
            0 <= amp,
            0 <= step,
    ;
    assert(a >= 0 ==> amp * a >= 0) by (nonlinear_arith)
        requires
            0 <= amp,
    ;
    assert(a < 0 ==> amp * a <= 0) by (nonlinear_arith)
        requires
            0 <= amp,
    ;
    assert(b >= 0 ==> amp * b >= 0) by (nonlinear_arith)
        requires
            0 <= amp,
    ;
    assert(b < 0 ==> amp * b <= 0) by (nonlinear_arith)
        requires
            0 <= amp,
    ;
    lemma_truncations_close(amp * a, amp * b, amp * step, den);
}

/// Two numbers that are at most `gap` apart: their quotients by `den`,
/// rounded toward zero, are at most `gap / den + 1` apart.
proof fn lemma_truncations_close(x: int, y: int, gap: int, den: int)
    by (nonlinear_arith)
    requires
        0 < den,
        0 <= gap,
        -gap <= y - x <= gap,
    ensures
        ({
            let tx = if x >= 0 { x / den } else { -((-x) / den) };
            let ty = if y >= 0 { y / den } else { -((-y) / den) };
            -(gap / den + 1) <= ty - tx <= gap / den + 1
        }),
{
    let ax = if x >= 0 { x } else { -x };
    let ay = if y >= 0 { y } else { -y };
    assert((ax / den) * den <= ax < (ax / den + 1) * den);
    assert((ay / den) * den <= ay < (ay / den + 1) * den);
    assert((gap / den) * den <= gap < (gap / den + 1) * den);
}

proof fn lemma_products_close(s1: int, c1: int, s2: int, c2: int)
    by (nonlinear_arith)
    requires
        -1000 <= c1 <= 1000,
        -1000 <= s2 <= 1000,
        -2 <= s2 - s1 <= 2,
        -2 <= c2 - c1 <= 2,
    ensures
        -4000 <= s2 * c2 - s1 * c1 <= 4000,
{
    assert(s2 * c2 - s1 * c1 == s2 * (c2 - c1) + c1 * (s2 - s1));
    assert(-2000 <= s2 * (c2 - c1) <= 2000);
    assert(-2000 <= c1 * (s2 - s1) <= 2000);
}

/// The marker moves gradually: from one millisecond to the next by at
/// most one pixel more than a 500th of its amplitude across, and a 250th
/// of it down.
pub proof fn lemma_marker_moves_gradually(t: int, width: int, height: int)
    requires
        0 <= t,
        0 < width,
        0 < height,
    ensures
        ({
            let amp = amplitude(width, height);
            let dx = marker_x(t + 1, width, height) - marker_x(t, width, height);
            let dy = marker_y(t + 1, width, height) - marker_y(t, width, height);
            &&& -(amp / 500 + 1) <= dx <= amp / 500 + 1
            &&& -(amp / 250 + 1) <= dy <= amp / 250 + 1
        }),
{
    let amp = amplitude(width, height);
    lemma_sine_gradual(t);
    lemma_scaled_gradual(amp, sine_milli(t), sine_milli(t + 1), 1000, 2);
    assert((amp * 2) / 1000 == amp / 500);
    let h = t / 2;
    let before = sine_milli(h) * cosine_milli(h);
    if (t + 1) / 2 == h {
        lemma_scaled_gradual(amp, before, before, 1000000, 0);
        assert(amp * 0 == 0);
    } else {
        assert((t + 1) / 2 == h + 1);
        let after = sine_milli(h + 1) * cosine_milli(h + 1);
        lemma_sine_gradual(h);
        lemma_sine_gradual(h + 1571);
        lemma_sine_bounded(h + 1);
        lemma_sine_bounded(h + 1571);
        lemma_products_close(
            sine_milli(h),
            cosine_milli(h),
            sine_milli(h + 1),
            cosine_milli(h + 1),
        );
        lemma_scaled_gradual(amp, before, after, 1000000, 4000);
        assert((amp * 4000) / 1000000 == amp / 250);
    }
}

fn arch_value(p: u64) -> (v: u64)
    requires
        p <= HALF_TURN,
    ensures
        v == arch(p as int),
        v <= 1000,
{
    proof {
        lemma_arch_product(p as int);
        lemma_arch_bounded(p as int);
    }
    let q: u64 = p * (HALF_TURN - p);
    (16000 * q) / (49360820 - 4 * q)
}

/// The sine of `angle` milliradians, in thousandths.
pub fn sine(angle: u64) -> (s: i64)
    ensures
        s == sine_milli(angle as int),
        -1000 <= s <= 1000,
{
    let p: u64 = angle % FULL_TURN;
    if p < HALF_TURN {
        arch_value(p) as i64
    } else {
        -(arch_value(p - HALF_TURN) as i64)
    }
}

/// The cosine of `angle` milliradians, in thousandths.
pub fn cosine(angle: u64) -> (c: i64)
    ensures
        c == cosine_milli(angle as int),
        -1000 <= c <= 1000,
{
    let reduced: u64 = angle % FULL_TURN;
    assert((reduced + 1571) % 6284 == (angle + 1571) % 6284);
    sine(reduced + QUARTER_TURN)
}

fn scale(amp: u64, num: i64, den: u64) -> (r: i64)
    requires
        amp <= 0x4000_0000,
        0 < den <= 1000000,
        -den <= num <= den,
    ensures
        r == scaled(amp as int, num as int, den as int),
        -amp <= r <= amp,
{
    proof {
        lemma_scaled_bounded(amp as int, num as int, den as int);
    }
    if num >= 0 {
        let n: u64 = num as u64;
        assert(amp * n <= 0x4000_0000 * 1000000) by (nonlinear_arith)
            requires
                amp <= 0x4000_0000,
                n <= 1000000,
        ;
        ((amp * n) / den) as i64
    } else {
        let n: u64 = (-num) as u64;
        assert(amp * n <= 0x4000_0000 * 1000000) by (nonlinear_arith)
            requires
                amp <= 0x4000_0000,
                n <= 1000000,
        ;
        -(((amp * n) / den) as i64)
    }
}

/// Where the marker's centre is after `elapsed_ms` milliseconds, as
/// `(column, row)` on a surface of `width` by `height` pixels.
pub fn marker_position(elapsed_ms: u64, width: u32, height: u32) -> (pos: (u32, u32))
    requires
        width > 0,
        height > 0,
    ensures
        pos.0 == marker_x(elapsed_ms as int, width as int, height as int),
        pos.1 == marker_y(elapsed_ms as int, width as int, height as int),
        pos.0 < width,
        pos.1 < height,
{
    proof {
        lemma_marker_on_surface(elapsed_ms as int, width as int, height as int);
    }
    let shorter: u32 = if width <= height { width } else { height };
    let amp: u64 = (shorter / 4) as u64;
    let s: i64 = sine(elapsed_ms);
    let half: u64 = elapsed_ms / 2;
    let hs: i64 = sine(half);
    let hc: i64 = cosine(half);
    proof {
        lemma_product_bounded(hs as int, hc as int);
    }
    let dx: i64 = scale(amp, s, UNIT);
    let dy: i64 = scale(amp, hs * hc, UNIT * UNIT);
    let x: i64 = (width / 2) as i64 + dx;
    let y: i64 = (height / 2) as i64 + dy;
    (x as u32, y as u32)
}

} // verus!
