//! The curve evaluator: from a temperature and a curve to a duty cycle.
//!
//! A curve is a sequence of points whose temperatures strictly increase and
//! whose duty cycles are percentages. The evaluator owns no state: its result
//! is a function of the temperature, the curve and the policy.

use vstd::prelude::*;
use crate::config::{Mode, Point};
use crate::error::ConfigError;

verus! {

/// Every point asks for at most 100 percent.
pub open spec fn duties_in_range(points: Seq<Point>) -> bool {
    forall|i: int| 0 <= i < points.len() ==> (#[trigger] points[i]).pwm <= 100
}

/// Each point is hotter than all points before it.
pub open spec fn strictly_ascending(points: Seq<Point>) -> bool {
    forall|i: int, j: int|
        0 <= i < j < points.len() ==> (#[trigger] points[i]).temp < (#[trigger] points[j]).temp
}

/// Each point asks for at least as much as all points before it.
pub open spec fn duties_non_decreasing(points: Seq<Point>) -> bool {
    forall|i: int, j: int|
        0 <= i < j < points.len() ==> (#[trigger] points[i]).pwm <= (#[trigger] points[j]).pwm
}

/// What is wrong with the points of a curve, if anything: a duty cycle out
/// of range first, then the order of the temperatures. No point at all is
/// no fault of the points.
pub open spec fn shape_fault(points: Seq<Point>) -> Option<ConfigError> {
    if !duties_in_range(points) {
        Some(ConfigError::DutyOutOfRange)
    } else if !strictly_ascending(points) {
        Some(ConfigError::UnorderedCurve)
    } else {
        None
    }
}

/// What is wrong with a curve, if anything: emptiness first, then a duty
/// cycle out of range, then the order of the temperatures.
pub open spec fn curve_fault(points: Seq<Point>) -> Option<ConfigError> {
    if points.len() == 0 {
        Some(ConfigError::EmptyCurve)
    } else {
        shape_fault(points)
    }
}

/// A curve that the evaluator accepts.
pub open spec fn well_formed(points: Seq<Point>) -> bool {
    curve_fault(points) is None
}

/// The index of the last point that is not hotter than `temp`, and 0 where
/// every point is hotter.
pub open spec fn stage(points: Seq<Point>, temp: int) -> int
    decreases points.len(),
{
    if points.len() <= 1 {
        0
    } else if points.last().temp <= temp {
        points.len() - 1
    } else {
        stage(points.drop_last(), temp)
    }
}

/// The step function: the duty cycle of the stage that `temp` has reached.
pub open spec fn ladder(points: Seq<Point>, temp: int) -> int {
    points[stage(points, temp)].pwm as int
}

/// The duty cycle at `temp` on the straight line from `lo` to `hi`, rounded down.
pub open spec fn interpolate(lo: Point, hi: Point, temp: int) -> int {
    lo.pwm + ((temp - lo.temp) * (hi.pwm - lo.pwm)) / (hi.temp - lo.temp)
}

/// The piecewise-linear function: flat up to the first point and from the
/// last point on, a straight line between two neighbours.
pub open spec fn trapezoid(points: Seq<Point>, temp: int) -> int {
    if temp <= points[0].temp {
        points[0].pwm as int
    } else if temp >= points.last().temp {
        points.last().pwm as int
    } else {
        let k = stage(points, temp);
        interpolate(points[k], points[k + 1], temp)
    }
}

/// The duty cycle that `policy` derives from `temp`. `Auto` derives none:
/// under it the hardware decides.
pub open spec fn target(points: Seq<Point>, temp: int, policy: Mode) -> int {
    match policy {
        Mode::Ladder => ladder(points, temp),
        Mode::Trapezoidal => trapezoid(points, temp),
        Mode::Auto => arbitrary(),
    }
}

/// On a non-empty curve the stage is the index of one of its points.
pub proof fn lemma_stage_in_bounds(points: Seq<Point>, temp: int)
    requires
        points.len() > 0,
    ensures
        0 <= stage(points, temp) < points.len(),
    decreases points.len(),
{
    if points.len() > 1 && points.last().temp > temp {
        lemma_stage_in_bounds(points.drop_last(), temp);
    }
}

/// On an ascending curve the stage is the one index `k` whose point is not
/// hotter than `temp` (or which is 0) while the next point, if any, is hotter.
pub proof fn lemma_stage_unique(points: Seq<Point>, temp: int, k: int)
    requires
        strictly_ascending(points),
        0 <= k < points.len(),
        k > 0 ==> points[k].temp <= temp,
        k + 1 < points.len() ==> temp < points[k + 1].temp,
    ensures
        stage(points, temp) == k,
    decreases points.len(),
{
    if points.len() > 1 {
        let n = points.len() - 1;
        if points.last().temp <= temp {
            if k < n {
                assert(points[k + 1].temp <= points[n].temp);
            }
        } else {
            let front = points.drop_last();
            assert(strictly_ascending(front)) by {
                assert forall|i: int, j: int| 0 <= i < j < front.len() implies (#[trigger] front[i]).temp
                    < (#[trigger] front[j]).temp by {
                    assert(points[i].temp < points[j].temp);
                }
            }
            lemma_stage_unique(front, temp, k);
        }
    }
}

/// What the stage of an ascending curve satisfies.
pub proof fn lemma_stage_brackets(points: Seq<Point>, temp: int)
    requires
        points.len() > 0,
        strictly_ascending(points),
    ensures
        0 <= stage(points, temp) < points.len(),
        points[0].temp <= temp ==> points[stage(points, temp)].temp <= temp,
        temp < points[0].temp ==> stage(points, temp) == 0,
        stage(points, temp) + 1 < points.len() ==> temp < points[stage(points, temp) + 1].temp,
    decreases points.len(),
{
    if points.len() > 1 {
        if points.last().temp > temp {
            let front = points.drop_last();
            assert(strictly_ascending(front)) by {
                assert forall|i: int, j: int| 0 <= i < j < front.len() implies (#[trigger] front[i]).temp
                    < (#[trigger] front[j]).temp by {
                    assert(points[i].temp < points[j].temp);
                }
            }
            lemma_stage_brackets(front, temp);
            let k = stage(front, temp);
            assert(front[k] == points[k]);
            assert(front[0] == points[0]);
            if k + 1 < front.len() {
                assert(front[k + 1] == points[k + 1]);
            }
        } else {
            assert(points[0].temp < points[points.len() - 1].temp);
        }
    }
}

/// Tells whether a curve can be evaluated, and if not, why.
pub fn check_curve(points: &Vec<Point>) -> (r: Result<(), ConfigError>)
    ensures
        r == match curve_fault(points@) {
            Some(e) => Err::<(), ConfigError>(e),
            None => Ok(()),
        },
{
    if points.len() == 0 {
        return Err(ConfigError::EmptyCurve);
    }
    check_shape(points)
}

/// Tells whether the points of a curve are in order and within range, and
/// if not, why. No point at all passes.
pub fn check_shape(points: &Vec<Point>) -> (r: Result<(), ConfigError>)
    ensures
        r == match shape_fault(points@) {
            Some(e) => Err::<(), ConfigError>(e),
            None => Ok(()),
        },
{
    let n = points.len();
    if n == 0 {
        return Ok(());
    }
    let mut i: usize = 0;
    while i < n
        invariant
            n == points.len(),
            i <= n,
            forall|a: int| 0 <= a < i ==> (#[trigger] points@[a]).pwm <= 100,
        decreases n - i,
    {
        if points[i].pwm > 100 {
            return Err(ConfigError::DutyOutOfRange);
        }
        i += 1;
    }
    let mut j: usize = 1;
    while j < n
        invariant
            n == points.len(),
            1 <= j <= n,
            duties_in_range(points@),
            forall|a: int, b: int|
                0 <= a < b < j ==> (#[trigger] points@[a]).temp < (#[trigger] points@[b]).temp,
        decreases n - j,
    {
        if points[j - 1].temp >= points[j].temp {
            return Err(ConfigError::UnorderedCurve);
        }
        assert forall|a: int, b: int| 0 <= a < b < j + 1 implies (#[trigger] points@[a]).temp < (
        #[trigger] points@[b]).temp by {
            if b == j && a < j - 1 {
                assert(points@[a].temp < points@[j - 1].temp);
            }
        }
        j += 1;
    }
    Ok(())
}

/// The stage of `temp` on an ascending curve, found from the cold end.
fn locate(curve: &Vec<Point>, temp: usize) -> (k: usize)
    requires
        curve@.len() > 0,
        strictly_ascending(curve@),
    ensures
        k == stage(curve@, temp as int),
        k < curve@.len(),
{
    let last = curve.len() - 1;
    let mut k: usize = 0;
    while k < last && curve[k + 1].temp <= temp
        invariant
            last == curve@.len() - 1,
            k <= last,
            k > 0 ==> curve@[k as int].temp <= temp,
        decreases last - k,
    {
        k += 1;
    }
    proof {
        lemma_stage_unique(curve@, temp as int, k as int);
    }
    k
}

/// Rounding a negative quotient down is rounding its positive twin up.
proof fn lemma_floor_of_negative(n: int, s: int)
    by (nonlinear_arith)
    requires
        n >= 0,
        s > 0,
    ensures
        (-n) / s == -((n + s - 1) / s),
{
}

/// A share of `d` taken over fewer than `s` of `s` steps stays within `d`.
proof fn lemma_share_bounds(a: int, d: int, s: int)
    by (nonlinear_arith)
    requires
        0 <= a < s,
        0 <= d,
    ensures
        0 <= a * d,
        0 <= (a * d) / s <= d,
        (a * d + s - 1) / s <= d,
        a * (-d) == -(a * d),
{
}

/// The duty cycle between two neighbouring points, computed without leaving
/// the unsigned integers.
fn blend(lo: Point, hi: Point, temp: usize) -> (p: usize)
    requires
        lo.temp <= temp < hi.temp,
        lo.pwm <= 100,
        hi.pwm <= 100,
    ensures
        p == interpolate(lo, hi, temp as int),
        p <= 100,
{
    let run: u128 = (temp - lo.temp) as u128;
    let span: u128 = (hi.temp - lo.temp) as u128;
    if hi.pwm >= lo.pwm {
        let rise: u128 = (hi.pwm - lo.pwm) as u128;
        proof {
            lemma_share_bounds(run as int, rise as int, span as int);
            assert(run * rise <= u128::MAX) by (nonlinear_arith)
                requires
                    run <= usize::MAX,
                    rise <= 100,
            ;
        }
        let gain: u128 = run * rise / span;
        lo.pwm + gain as usize
    } else {
        let fall: u128 = (lo.pwm - hi.pwm) as u128;
        proof {
            lemma_share_bounds(run as int, fall as int, span as int);
            lemma_floor_of_negative(run as int * fall as int, span as int);
            assert(run * fall <= 100 * usize::MAX) by (nonlinear_arith)
                requires
                    run <= usize::MAX,
                    fall <= 100,
            ;
        }
        let loss: u128 = (run * fall + span - 1) / span;
        lo.pwm - loss as usize
    }
}

/// The duty cycle for `temp` on `curve` under `policy`.
///
/// An empty curve is refused with `EmptyCurve`, a duty cycle above 100 with
/// `DutyOutOfRange`, temperatures that do not strictly increase with
/// `UnorderedCurve`. Any other curve is taken as it is: where its duty cycles
/// fall with rising temperature, so does the result.
///
/// `Auto` is no policy of the evaluator: under it the fan is handed to the
/// hardware and no duty cycle is computed.
pub fn evaluate(temp: usize, curve: &Vec<Point>, policy: Mode) -> (r: Result<usize, ConfigError>)
    requires
        !(policy is Auto),
    ensures
        curve_fault(curve@) matches Some(e) ==> r == Err::<usize, ConfigError>(e),
        curve_fault(curve@) is None ==> (r matches Ok(p) && p == target(curve@, temp as int, policy)
            && p <= 100),
{
    match check_curve(curve) {
        Err(e) => {
            return Err(e);
        },
        Ok(_) => {},
    }
    let k = locate(curve, temp);
    match policy {
        Mode::Trapezoidal => {
            proof {
                lemma_stage_brackets(curve@, temp as int);
            }
            if temp <= curve[0].temp {
                Ok(curve[0].pwm)
            } else if temp >= curve[curve.len() - 1].temp {
                Ok(curve[curve.len() - 1].pwm)
            } else {
                Ok(blend(curve[k], curve[k + 1], temp))
            }
        },
        _ => Ok(curve[k].pwm),
    }
}

/// The step function never invents a value: on a non-empty curve its result
/// is the duty cycle of one of the points.
pub proof fn lemma_ladder_takes_a_point(points: Seq<Point>, temp: int)
    requires
        points.len() > 0,
    ensures
        exists|i: int| 0 <= i < points.len() && ladder(points, temp) == (#[trigger] points[i]).pwm,
{
    lemma_stage_in_bounds(points, temp);
    let k = stage(points, temp);
    assert(ladder(points, temp) == points[k].pwm);
}

/// Below the first point the step function holds the first point's duty
/// cycle: the fan never drops under the floor of the curve.
pub proof fn lemma_ladder_floor(points: Seq<Point>, temp: int)
    requires
        points.len() > 0,
        strictly_ascending(points),
        temp < points[0].temp,
    ensures
        ladder(points, temp) == points[0].pwm,
{
    lemma_stage_brackets(points, temp);
}

/// At the temperature of a point the piecewise-linear function returns that
/// point's duty cycle exactly.
pub proof fn lemma_trapezoid_meets_points(points: Seq<Point>, i: int)
    requires
        strictly_ascending(points),
        0 <= i < points.len(),
    ensures
        trapezoid(points, points[i].temp as int) == points[i].pwm,
{
    let temp = points[i].temp as int;
    if i + 1 < points.len() {
        assert(points[i].temp < points[i + 1].temp);
    }
    lemma_stage_unique(points, temp, i);
    if i > 0 {
        assert(points[0].temp < points[i].temp);
        if i + 1 < points.len() {
            let d = points[i + 1].pwm - points[i].pwm;
            let s = points[i + 1].temp - points[i].temp;
            assert((0 * d) / s == 0) by (nonlinear_arith)
                requires
                    s > 0,
            ;
        }
    }
}

/// Rounding down keeps the order of two shares of the same rise.
proof fn lemma_share_monotone(a: int, b: int, d: int, s: int)
    by (nonlinear_arith)
    requires
        0 <= a <= b,
        0 <= d,
        0 < s,
    ensures
        (a * d) / s <= (b * d) / s,
{
}

/// On a curve whose duty cycles do not fall, the piecewise-linear function
/// stays between the duty cycle of the stage and that of the next point.
proof fn lemma_trapezoid_within_stage(points: Seq<Point>, temp: int)
    requires
        points.len() > 0,
        strictly_ascending(points),
        duties_non_decreasing(points),
    ensures
        points[stage(points, temp)].pwm <= trapezoid(points, temp),
        stage(points, temp) + 1 < points.len() ==> trapezoid(points, temp) <= points[stage(
            points,
            temp,
        ) + 1].pwm,
        stage(points, temp) + 1 >= points.len() ==> trapezoid(points, temp) == points.last().pwm,
{
    lemma_stage_brackets(points, temp);
    let k = stage(points, temp);
    if temp <= points[0].temp {
        lemma_stage_unique(points, temp, 0);
        if points.len() > 1 {
            assert(points[0].pwm <= points[1].pwm);
        }
    } else if k + 1 < points.len() {
        assert(points[k].pwm <= points[k + 1].pwm);
        lemma_share_bounds(
            temp - points[k].temp,
            points[k + 1].pwm - points[k].pwm,
            points[k + 1].temp - points[k].temp,
        );
    }
}

/// On a curve whose duty cycles do not fall with rising temperature, the
/// step function does not fall either.
pub proof fn lemma_ladder_monotone(points: Seq<Point>, cooler: int, hotter: int)
    requires
        points.len() > 0,
        strictly_ascending(points),
        duties_non_decreasing(points),
        cooler <= hotter,
    ensures
        ladder(points, cooler) <= ladder(points, hotter),
{
    lemma_stage_brackets(points, cooler);
    lemma_stage_brackets(points, hotter);
    let k1 = stage(points, cooler);
    let k2 = stage(points, hotter);
    if k1 > k2 {
        assert(points[k1].temp <= cooler);
        if k2 + 1 < k1 {
            assert(points[k2 + 1].temp < points[k1].temp);
        }
        assert(false);
    } else if k1 < k2 {
        assert(points[k1].pwm <= points[k2].pwm);
    }
}

/// On a curve whose duty cycles do not fall with rising temperature, the
/// piecewise-linear function does not fall either: a hotter reading never
/// asks for less.
pub proof fn lemma_trapezoid_monotone(points: Seq<Point>, cooler: int, hotter: int)
    requires
        points.len() > 0,
        strictly_ascending(points),
        duties_non_decreasing(points),
        cooler <= hotter,
    ensures
        trapezoid(points, cooler) <= trapezoid(points, hotter),
{
    lemma_stage_brackets(points, cooler);
    lemma_stage_brackets(points, hotter);
    lemma_trapezoid_within_stage(points, cooler);
    lemma_trapezoid_within_stage(points, hotter);
    let k1 = stage(points, cooler);
    let k2 = stage(points, hotter);
    if k1 > k2 {
        assert(points[k1].temp <= cooler);
        if k2 + 1 < k1 {
            assert(points[k2 + 1].temp < points[k1].temp);
        }
        assert(false);
    } else if k1 < k2 {
        if k1 + 1 < k2 {
            assert(points[k1 + 1].pwm <= points[k2].pwm);
        }
    } else if points[0].temp < cooler && k1 + 1 < points.len() {
        lemma_share_monotone(
            cooler - points[k1].temp,
            hotter - points[k1].temp,
            points[k1 + 1].pwm - points[k1].pwm,
            points[k1 + 1].temp - points[k1].temp,
        );
    } else if cooler <= points[0].temp {
        lemma_stage_unique(points, cooler, 0);
    }
}

} // verus!
