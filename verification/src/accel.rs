//! Piecewise-linear pointer acceleration.
//!
//! A curve is an ordered table of control points `(threshold, factor)`.
//! The speed of a sample is the integer square root of `dx*dx + dy*dy`;
//! inside the half-open segment between two control points the factor is
//! interpolated linearly, and outside every segment motion passes through
//! unscaled. Factors are carried in thousandths so the table and the
//! interpolation stay integral.

use vstd::prelude::*;
use crate::math::{is_floor_sqrt, spec_isqrt, lemma_isqrt_exists, lemma_isqrt_is, isqrt};
use vstd::arithmetic::div_mod::{
    lemma_div_pos_is_pos, lemma_div_is_ordered, lemma_div_multiples_vanish,
    lemma_div_nonincreasing,
};
use vstd::arithmetic::mul::{lemma_mul_inequality, lemma_mul_is_commutative, lemma_mul_nonnegative};

verus! {

/// One control point of an acceleration curve: at speed `threshold`
/// (device-native units) the curve scales motion by `factor_milli`
/// thousandths.
#[derive(Clone, Copy, Debug, PartialEq, Eq, Structural)]
pub struct CurvePoint {
    pub threshold: u32,
    pub factor_milli: u32,
}

/// Thresholds strictly increase along the table.
pub open spec fn strictly_increasing(points: Seq<CurvePoint>) -> bool {
    forall|i: int, j: int|
        0 <= i < j < points.len() ==> points[i].threshold < points[j].threshold
}

/// Linear interpolation between `p` and `q` at `speed`, in thousandths,
/// the scaled fraction truncated toward zero.
pub open spec fn interp_milli(p: CurvePoint, q: CurvePoint, speed: int) -> int {
    if q.factor_milli >= p.factor_milli {
        p.factor_milli + (speed - p.threshold) * (q.factor_milli - p.factor_milli) / (
        q.threshold - p.threshold)
    } else {
        p.factor_milli - (speed - p.threshold) * (p.factor_milli - q.factor_milli) / (
        q.threshold - p.threshold)
    }
}

/// The factor, in thousandths, that a curve applies at `speed`:
/// interpolation inside the first segment whose half-open span holds
/// `speed`, and one (no scaling) outside every segment.
pub open spec fn curve_factor_milli(points: Seq<CurvePoint>, speed: int) -> int
    decreases points.len(),
{
    if points.len() < 2 {
        1000
    } else if points[0].threshold <= speed < points[1].threshold {
        interp_milli(points[0], points[1], speed)
    } else {
        curve_factor_milli(points.drop_first(), speed)
    }
}

/// A truncated fraction `ds / dt` of `df` is between zero and `df`.
proof fn lemma_scaled_fraction_bounds(ds: int, df: int, dt: int)
    requires
        0 <= ds <= dt,
        0 < dt,
        0 <= df,
    ensures
        0 <= ds * df / dt <= df,
{
    lemma_mul_nonnegative(ds, df);
    lemma_div_pos_is_pos(ds * df, dt);
    lemma_mul_inequality(ds, dt, df);
    lemma_div_is_ordered(ds * df, dt * df, dt);
    lemma_mul_is_commutative(dt, df);
    lemma_div_multiples_vanish(df, dt);
}

/// Interpolation stays between the two control factors, so in
/// particular within the range of a `u32`.
pub proof fn lemma_interp_milli_bounds(p: CurvePoint, q: CurvePoint, speed: int)
    requires
        p.threshold < q.threshold,
        p.threshold <= speed < q.threshold,
    ensures
        0 <= interp_milli(p, q, speed) <= 0xffff_ffff,
        q.factor_milli >= p.factor_milli ==> p.factor_milli <= interp_milli(p, q, speed)
            <= q.factor_milli,
        q.factor_milli < p.factor_milli ==> q.factor_milli <= interp_milli(p, q, speed)
            <= p.factor_milli,
{
    let ds = speed - p.threshold;
    let dt = q.threshold - p.threshold;
    if q.factor_milli >= p.factor_milli {
        lemma_scaled_fraction_bounds(ds, q.factor_milli - p.factor_milli, dt);
    } else {
        lemma_scaled_fraction_bounds(ds, p.factor_milli - q.factor_milli, dt);
    }
}

/// An acceleration curve: an ordered table of control points.
pub struct AccelCurve {
    pub points: Vec<CurvePoint>,
}

impl AccelCurve {
    /// The table is well formed: thresholds strictly increase.
    pub open spec fn wf(&self) -> bool {
        strictly_increasing(self.points@)
    }

    /// The factor the curve applies at `speed`, in thousandths.
    pub fn factor_milli(&self, speed: u32) -> (f: u64)
        requires
            self.wf(),
        ensures
            f == curve_factor_milli(self.points@, speed as int),
            f <= 0xffff_ffff,
    {
        let n: usize = self.points.len();
        let mut i: usize = 0;
        proof {
            assert(self.points@.skip(0) =~= self.points@);
        }
        while i + 1 < n
            invariant
                self.wf(),
                n == self.points@.len(),
                n == 0 ==> i == 0,
                n > 0 ==> i < n,
                curve_factor_milli(self.points@, speed as int) == curve_factor_milli(
                    self.points@.skip(i as int), speed as int),
            decreases n - i,
        {
            let p = self.points[i];
            let q = self.points[i + 1];
            let ghost tail = self.points@.skip(i as int);
            proof {
                assert(tail[0] == self.points@[i as int]);
                assert(tail[1] == self.points@[i as int + 1]);
            }
            if p.threshold <= speed && speed < q.threshold {
                proof {
                    assert(p.threshold < q.threshold);
                    assert(curve_factor_milli(tail, speed as int) == interp_milli(p, q,
                        speed as int));
                    lemma_interp_milli_bounds(p, q, speed as int);
                }
                let dt: u64 = (q.threshold - p.threshold) as u64;
                let ds: u64 = (speed - p.threshold) as u64;
                if q.factor_milli >= p.factor_milli {
                    let df: u64 = (q.factor_milli - p.factor_milli) as u64;
                    assert(ds * df <= 0xffff_ffff * 0xffff_ffff) by (nonlinear_arith)
                        requires
                            ds <= 0xffff_ffff,
                            df <= 0xffff_ffff,
                    ;
                    return p.factor_milli as u64 + ds * df / dt;
                } else {
                    let df: u64 = (p.factor_milli - q.factor_milli) as u64;
                    assert(ds * df <= 0xffff_ffff * 0xffff_ffff) by (nonlinear_arith)
                        requires
                            ds <= 0xffff_ffff,
                            df <= 0xffff_ffff,
                    ;
                    let part: u64 = ds * df / dt;
                    proof {
                        lemma_scaled_fraction_bounds(ds as int, df as int, dt as int);
                    }
                    return p.factor_milli as u64 - part;
                }
            }
            proof {
                assert(tail.drop_first() =~= self.points@.skip(i as int + 1));
            }
            i = i + 1;
        }
        proof {
            if n > 0 {
                assert(self.points@.skip(i as int).len() < 2);
            } else {
                assert(self.points@.skip(0).len() < 2);
            }
        }
        1000
    }
}

/// A motion delta scaled by `factor_milli` thousandths, the scaled
/// magnitude truncated toward zero.
pub open spec fn spec_scale_milli(d: int, factor_milli: int) -> int {
    if d >= 0 {
        d * factor_milli / 1000
    } else {
        -((-d) * factor_milli / 1000)
    }
}

/// The speed of a motion sample: the integer square root of
/// `dx*dx + dy*dy`.
pub open spec fn spec_speed(dx: int, dy: int) -> int {
    spec_isqrt((dx * dx + dy * dy) as nat) as int
}

/// What `accelerate` returns: both deltas scaled by the curve factor at
/// the sample's speed.
pub open spec fn spec_accelerate(points: Seq<CurvePoint>, dx: int, dy: int) -> (int, int) {
    let f = curve_factor_milli(points, spec_speed(dx, dy));
    (spec_scale_milli(dx, f), spec_scale_milli(dy, f))
}

/// Scale one axis delta by a factor in thousandths.
fn scale_milli(d: i16, factor_milli: u64) -> (r: i64)
    requires
        factor_milli <= 0xffff_ffff,
    ensures
        r == spec_scale_milli(d as int, factor_milli as int),
{
    let mag: u64 = if d >= 0 {
        d as u64
    } else {
        (-(d as i64)) as u64
    };
    assert(mag * factor_milli <= 0x8000 * 0xffff_ffffu64) by (nonlinear_arith)
        requires
            mag <= 0x8000,
            factor_milli <= 0xffff_ffff,
    ;
    let scaled: u64 = mag * factor_milli / 1000;
    proof {
        lemma_div_nonincreasing((mag * factor_milli) as int, 1000);
        lemma_div_pos_is_pos((mag * factor_milli) as int, 1000);
    }
    if d >= 0 {
        scaled as i64
    } else {
        -(scaled as i64)
    }
}

impl AccelCurve {
    /// Accelerate one relative-motion sample: scale both deltas by the
    /// curve factor at their combined speed.
    pub fn accelerate(&self, dx: i16, dy: i16) -> (r: (i64, i64))
        requires
            self.wf(),
        ensures
            r.0 == spec_accelerate(self.points@, dx as int, dy as int).0,
            r.1 == spec_accelerate(self.points@, dx as int, dy as int).1,
    {
        assert((dx as i64) * (dx as i64) <= 0x4000_0000 && (dx as i64) * (dx as i64) >= 0)
            by (nonlinear_arith)
            requires
                -0x8000 <= dx as i64 <= 0x7fff,
        ;
        assert((dy as i64) * (dy as i64) <= 0x4000_0000 && (dy as i64) * (dy as i64) >= 0)
            by (nonlinear_arith)
            requires
                -0x8000 <= dy as i64 <= 0x7fff,
        ;
        let xs: i64 = (dx as i64) * (dx as i64);
        let ys: i64 = (dy as i64) * (dy as i64);
        let sq: u32 = (xs + ys) as u32;
        let speed: u32 = isqrt(sq);
        let f: u64 = self.factor_milli(speed);
        proof {
            assert(sq as nat == (dx as int * dx as int + dy as int * dy as int) as nat);
            assert(speed as int == spec_speed(dx as int, dy as int));
        }
        (scale_milli(dx, f), scale_milli(dy, f))
    }
}

/// The control points of the curve the device ships with: speeds 7, 15,
/// 40 and 128 map to factors of 1.0, 1.5, 4.0 and 4.0.
pub open spec fn default_points() -> Seq<CurvePoint> {
    seq![
        CurvePoint { threshold: 7, factor_milli: 1000 },
        CurvePoint { threshold: 15, factor_milli: 1500 },
        CurvePoint { threshold: 40, factor_milli: 4000 },
        CurvePoint { threshold: 128, factor_milli: 4000 },
    ]
}

/// The default table is well formed.
pub proof fn lemma_default_points_wf()
    ensures
        strictly_increasing(default_points()),
{
    let pts = default_points();
    assert forall|i: int, j: int| 0 <= i < j < pts.len() implies pts[i].threshold
        < pts[j].threshold by {
        assert(pts[0].threshold == 7);
        assert(pts[1].threshold == 15);
        assert(pts[2].threshold == 40);
        assert(pts[3].threshold == 128);
    }
}

impl Default for AccelCurve {
    /// The curve the device ships with.
    fn default() -> (c: AccelCurve)
        ensures
            c.points@ == default_points(),
            c.wf(),
    {
        let mut points: Vec<CurvePoint> = Vec::new();
        points.push(CurvePoint { threshold: 7, factor_milli: 1000 });
        points.push(CurvePoint { threshold: 15, factor_milli: 1500 });
        points.push(CurvePoint { threshold: 40, factor_milli: 4000 });
        points.push(CurvePoint { threshold: 128, factor_milli: 4000 });
        proof {
            assert(points@ =~= default_points());
            lemma_default_points_wf();
        }
        AccelCurve { points }
    }
}

/// Dropping the first control point keeps the table well formed.
proof fn lemma_tail_strictly_increasing(points: Seq<CurvePoint>)
    requires
        strictly_increasing(points),
        points.len() >= 1,
    ensures
        strictly_increasing(points.drop_first()),
{
    let tail = points.drop_first();
    assert forall|i: int, j: int| 0 <= i < j < tail.len() implies tail[i].threshold
        < tail[j].threshold by {
        assert(tail[i] == points[i + 1]);
        assert(tail[j] == points[j + 1]);
    }
}

/// Law: below the first breakpoint the curve applies no scaling.
pub proof fn lemma_factor_below_first(points: Seq<CurvePoint>, speed: int)
    requires
        strictly_increasing(points),
        points.len() == 0 || speed < points[0].threshold,
    ensures
        curve_factor_milli(points, speed) == 1000,
    decreases points.len(),
{
    if points.len() >= 2 {
        assert(points[0].threshold < points[1].threshold);
        lemma_tail_strictly_increasing(points);
        assert(points.drop_first()[0] == points[1]);
        lemma_factor_below_first(points.drop_first(), speed);
    }
}

/// Law: at or beyond the last breakpoint the curve applies no scaling.
pub proof fn lemma_factor_beyond_last(points: Seq<CurvePoint>, speed: int)
    requires
        strictly_increasing(points),
        points.len() == 0 || speed >= points.last().threshold,
    ensures
        curve_factor_milli(points, speed) == 1000,
    decreases points.len(),
{
    if points.len() >= 2 {
        assert(points[1].threshold <= points.last().threshold);
        lemma_tail_strictly_increasing(points);
        let tail = points.drop_first();
        assert(tail.last() == points.last());
        lemma_factor_beyond_last(tail, speed);
    }
}

/// Law: at every breakpoint but the last, the factor is exactly that
/// breakpoint's table factor (the interpolation fraction is zero).
pub proof fn lemma_factor_at_breakpoint(points: Seq<CurvePoint>, i: int)
    requires
        strictly_increasing(points),
        0 <= i < points.len() - 1,
    ensures
        curve_factor_milli(points, points[i].threshold as int) == points[i].factor_milli,
    decreases i,
{
    let speed = points[i].threshold as int;
    if i == 0 {
        let p = points[0];
        let q = points[1];
        assert(p.threshold < q.threshold);
        assert((speed - p.threshold) * (q.factor_milli - p.factor_milli) == 0);
        assert((speed - p.threshold) * (p.factor_milli - q.factor_milli) == 0);
        assert(0int / (q.threshold - p.threshold) == 0) by {
            lemma_div_pos_is_pos(0, q.threshold - p.threshold);
            lemma_div_nonincreasing(0, q.threshold - p.threshold);
        }
        assert(curve_factor_milli(points, speed) == interp_milli(p, q, speed));
    } else {
        assert(points[1].threshold <= points[i].threshold);
        lemma_tail_strictly_increasing(points);
        let tail = points.drop_first();
        assert(tail[i - 1] == points[i]);
        lemma_factor_at_breakpoint(tail, i - 1);
    }
}

/// Law: a factor of one leaves a delta unchanged.
pub proof fn lemma_scale_identity(d: int)
    ensures
        spec_scale_milli(d, 1000) == d,
{
    if d >= 0 {
        lemma_mul_is_commutative(d, 1000);
        lemma_div_multiples_vanish(d, 1000);
    } else {
        lemma_mul_is_commutative(-d, 1000);
        lemma_div_multiples_vanish(-d, 1000);
    }
}

/// Law: motion slower than the first default breakpoint (squared speed
/// under 49) passes through unscaled.
pub proof fn lemma_slow_motion_unscaled(dx: int, dy: int)
    requires
        dx * dx + dy * dy < 49,
    ensures
        spec_accelerate(default_points(), dx, dy) == (dx, dy),
{
    assert(dx * dx >= 0 && dy * dy >= 0) by (nonlinear_arith);
    let n = (dx * dx + dy * dy) as nat;
    lemma_isqrt_exists(n);
    let speed = spec_isqrt(n);
    assert(speed < 7) by (nonlinear_arith)
        requires
            speed * speed <= n < 49,
    ;
    lemma_default_points_wf();
    lemma_factor_below_first(default_points(), speed as int);
    lemma_scale_identity(dx);
    lemma_scale_identity(dy);
}

/// Law: motion at or past the end of the default curve (speed 128 and
/// up) passes through unscaled - the documented fallback, not the last
/// table factor.
pub proof fn lemma_fast_motion_unscaled(dx: int, dy: int)
    requires
        dx * dx + dy * dy >= 16384,
    ensures
        spec_accelerate(default_points(), dx, dy) == (dx, dy),
{
    assert(dx * dx >= 0 && dy * dy >= 0) by (nonlinear_arith);
    let n = (dx * dx + dy * dy) as nat;
    lemma_isqrt_exists(n);
    let speed = spec_isqrt(n);
    assert(speed >= 128) by (nonlinear_arith)
        requires
            n < (speed + 1) * (speed + 1),
            n >= 16384,
    ;
    lemma_default_points_wf();
    assert(default_points().last().threshold == 128);
    lemma_factor_beyond_last(default_points(), speed as int);
    lemma_scale_identity(dx);
    lemma_scale_identity(dy);
}

/// Law: a sample whose speed lands exactly on an interior default
/// breakpoint is scaled by that breakpoint's table factor, with no
/// interpolation.
pub proof fn lemma_breakpoint_speed_scales_by_table(dx: int, dy: int)
    requires
        dx * dx + dy * dy == 225 || dx * dx + dy * dy == 1600,
    ensures
        dx * dx + dy * dy == 225 ==> spec_accelerate(default_points(), dx, dy) == (
        spec_scale_milli(dx, 1500), spec_scale_milli(dy, 1500)),
        dx * dx + dy * dy == 1600 ==> spec_accelerate(default_points(), dx, dy) == (
        spec_scale_milli(dx, 4000), spec_scale_milli(dy, 4000)),
{
    lemma_default_breakpoint_factors();
    if dx * dx + dy * dy == 225 {
        assert(is_floor_sqrt(225, 15)) by (nonlinear_arith);
        lemma_isqrt_is(225, 15);
    } else {
        assert(is_floor_sqrt(1600, 40)) by (nonlinear_arith);
        lemma_isqrt_is(1600, 40);
    }
}

/// Law: at the default breakpoints 7, 15 and 40 the factor is exactly
/// the table's entry.
pub proof fn lemma_default_breakpoint_factors()
    ensures
        curve_factor_milli(default_points(), 7) == 1000,
        curve_factor_milli(default_points(), 15) == 1500,
        curve_factor_milli(default_points(), 40) == 4000,
{
    lemma_default_points_wf();
    lemma_factor_at_breakpoint(default_points(), 0);
    lemma_factor_at_breakpoint(default_points(), 1);
    lemma_factor_at_breakpoint(default_points(), 2);
}

} // verus!
