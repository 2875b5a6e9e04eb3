//! Pan and zoom of the visible domain: 1-D ranges of fixed-point coordinates.

use vstd::arithmetic::div_mod::{lemma_div_multiples_vanish, lemma_fundamental_div_mod};
use vstd::prelude::*;

verus! {

/// Fixed-point coordinate that stands for 1.0.
pub const COORD_ONE: i64 = 4294967296;

/// Smallest width a range may take (about 1e-5 in real units); narrower
/// ranges are refused so that the field does not collapse.
pub const MAX_ZOOM_DELTA: i64 = 42950;

/// A rational factor `num / den`, used to scale ranges.
#[derive(Clone, Copy, Debug, PartialEq, Eq, Structural)]
pub struct Factor {
    pub num: i64,
    pub den: i64,
}

pub open spec fn in_i64(x: int) -> bool {
    i64::MIN <= x <= i64::MAX
}

/// `x` and `-x` both fit in `i128`.
pub open spec fn in_i128(x: int) -> bool {
    -(i128::MAX as int) <= x <= i128::MAX
}

pub open spec fn pair_in_i64(p: (int, int)) -> bool {
    in_i64(p.0) && in_i64(p.1)
}

/// The range as a pair of mathematical integers.
pub open spec fn pair_int(r: (i64, i64)) -> (int, int) {
    (r.0 as int, r.1 as int)
}

pub open spec fn to_pair(p: (int, int)) -> (i64, i64) {
    (p.0 as i64, p.1 as i64)
}

/// `Some(p)` when both ends fit in `i64`, else `None`.
pub open spec fn fit_pair(p: (int, int)) -> Option<(i64, i64)> {
    if pair_in_i64(p) {
        Some(to_pair(p))
    } else {
        None
    }
}

/// Division rounded toward negative infinity.
pub open spec fn floor_div(a: int, b: int) -> int {
    if b > 0 {
        a / b
    } else {
        (-a) / (-b)
    }
}

pub open spec fn shifted(r: (int, int), d: int) -> (int, int) {
    (r.0 + d, r.1 + d)
}

pub open spec fn scaled_coord(x: int, f: Factor) -> int {
    floor_div(x * f.num, f.den as int)
}

pub open spec fn scaled(r: (int, int), f: Factor) -> (int, int) {
    (scaled_coord(r.0, f), scaled_coord(r.1, f))
}

/// The range scaled by `f` around the point `c`.
pub open spec fn zoomed(r: (int, int), f: Factor, c: int) -> (int, int) {
    shifted(scaled(shifted(r, -c), f), c)
}

/// Every intermediate range of a zoom around `c` fits in `i64`.
pub open spec fn zoom_fits(r: (int, int), f: Factor, c: int) -> bool {
    &&& f.den != 0
    &&& in_i64(-c)
    &&& pair_in_i64(shifted(r, -c))
    &&& pair_in_i64(scaled(shifted(r, -c), f))
    &&& pair_in_i64(zoomed(r, f, c))
}

pub open spec fn zoom_spec(x: (i64, i64), y: (i64, i64), f: Factor, focus: (int, int)) -> Option<
    ((i64, i64), (i64, i64)),
> {
    if zoom_fits(pair_int(x), f, focus.0) && zoom_fits(pair_int(y), f, focus.1) {
        Some((to_pair(zoomed(pair_int(x), f, focus.0)), to_pair(zoomed(pair_int(y), f, focus.1))))
    } else {
        None
    }
}

/// The absolute point at relative position `rel` (fixed-point, 0 to `COORD_ONE`)
/// of the range `r`.
pub open spec fn relative_point(r: (int, int), rel: int) -> int {
    rel * (r.1 - r.0) / (COORD_ONE as int) + r.0
}

pub open spec fn zoom_relative_spec(
    x: (i64, i64),
    y: (i64, i64),
    f: Factor,
    rel: (i64, i64),
) -> Option<((i64, i64), (i64, i64))> {
    let fx = relative_point(pair_int(x), rel.0 as int);
    let fy = relative_point(pair_int(y), rel.1 as int);
    if in_i64(fx) && in_i64(fy) {
        zoom_spec(x, y, f, (fx, fy))
    } else {
        None
    }
}

/// The reciprocal of a factor.
pub open spec fn inverse(f: Factor) -> Factor {
    Factor { num: f.den, den: f.num }
}

pub open spec fn map_spec(v: int, from: (int, int), to: (int, int)) -> int {
    floor_div((v - from.0) * (to.1 - to.0), from.1 - from.0) + to.0
}

/// Division rounded toward negative infinity, on `i128`.
pub(crate) fn div_floor(a: i128, b: i128) -> (q: i128)
    requires
        b != 0,
        a != i128::MIN,
        b != i128::MIN,
    ensures
        q == floor_div(a as int, b as int),
{
    let (n, d): (i128, i128) = if b > 0 {
        (a, b)
    } else {
        (-a, -b)
    };
    proof {
        let ni = n as int;
        let di = d as int;
        assert(di >= 1);
        if ni >= 0 {
            assert(0 <= ni / di <= ni) by (nonlinear_arith)
                requires
                    ni >= 0,
                    di >= 1,
            ;
        } else {
            assert(ni <= ni / di < 0) by (nonlinear_arith)
                requires
                    ni < 0,
                    di >= 1,
            ;
        }
    }
    match n.checked_div_euclid(d) {
        Some(q) => q,
        None => 0,
    }
}

/// Converts an `i128` to `i64` when it fits.
pub(crate) fn narrow(x: i128) -> (r: Option<i64>)
    ensures
        r == (if in_i64(x as int) {
            Some(x as i64)
        } else {
            None
        }),
{
    if i64::MIN as i128 <= x && x <= i64::MAX as i128 {
        Some(x as i64)
    } else {
        None
    }
}

/// Maps `input` linearly from `input_range` onto `output_range`.
///
/// `None` when `input_range` is empty or a value leaves the integer types.
pub fn map(input: i64, input_range: (i64, i64), output_range: (i64, i64)) -> (r: Option<i64>)
    ensures
        r == (if input_range.1 != input_range.0 && in_i128(
            (input - input_range.0) * (output_range.1 - output_range.0),
        ) && in_i64(map_spec(input as int, pair_int(input_range), pair_int(output_range))) {
            Some(map_spec(input as int, pair_int(input_range), pair_int(output_range)) as i64)
        } else {
            None
        }),
{
    if input_range.1 == input_range.0 {
        return None;
    }
    let a: i128 = input as i128 - input_range.0 as i128;
    let b: i128 = output_range.1 as i128 - output_range.0 as i128;
    let w: i128 = input_range.1 as i128 - input_range.0 as i128;
    match a.checked_mul(b) {
        None => None,
        Some(p) => {
            if p == i128::MIN {
                return None;
            }
            let q = div_floor(p, w);
            match q.checked_add(output_range.0 as i128) {
                None => None,
                Some(v) => narrow(v),
            }
        },
    }
}

/// Translates both ends of `range` by `offset`.
///
/// `None` when an end leaves `i64`.
pub fn shift(range: (i64, i64), offset: i64) -> (r: Option<(i64, i64)>)
    ensures
        r == fit_pair(shifted(pair_int(range), offset as int)),
{
    match (range.0.checked_add(offset), range.1.checked_add(offset)) {
        (Some(a), Some(b)) => Some((a, b)),
        _ => None,
    }
}

fn scale_coord(x: i64, factor: Factor) -> (r: Option<i64>)
    requires
        factor.den != 0,
    ensures
        r == (if in_i64(scaled_coord(x as int, factor)) {
            Some(scaled_coord(x as int, factor) as i64)
        } else {
            None
        }),
{
    let ghost xi = x as int;
    let ghost ni = factor.num as int;
    assert(-0x4000_0000_0000_0000_0000_0000_0000_0000 <= xi * ni <= 0x4000_0000_0000_0000_0000_0000_0000_0000)
        by (nonlinear_arith)
        requires
            -0x8000_0000_0000_0000 <= xi <= 0x7fff_ffff_ffff_ffff,
            -0x8000_0000_0000_0000 <= ni <= 0x7fff_ffff_ffff_ffff,
    ;
    let p: i128 = x as i128 * factor.num as i128;
    narrow(div_floor(p, factor.den as i128))
}

/// Multiplies both ends of `range` by `factor`, rounding toward negative
/// infinity: a scale around zero.
///
/// `None` when the factor has a zero denominator or an end leaves `i64`.
pub fn scale(range: (i64, i64), factor: Factor) -> (r: Option<(i64, i64)>)
    ensures
        r == (if factor.den != 0 {
            fit_pair(scaled(pair_int(range), factor))
        } else {
            None
        }),
{
    if factor.den == 0 {
        return None;
    }
    match (scale_coord(range.0, factor), scale_coord(range.1, factor)) {
        (Some(a), Some(b)) => Some((a, b)),
        _ => None,
    }
}

fn zoom_axis(range: (i64, i64), factor: Factor, focus: i64) -> (r: Option<(i64, i64)>)
    ensures
        r == (if zoom_fits(pair_int(range), factor, focus as int) {
            Some(to_pair(zoomed(pair_int(range), factor, focus as int)))
        } else {
            None
        }),
{
    if focus == i64::MIN {
        return None;
    }
    let translated = match shift(range, -focus) {
        Some(t) => t,
        None => return None,
    };
    let scaled = match scale(translated, factor) {
        Some(t) => t,
        None => return None,
    };
    shift(scaled, focus)
}

/// Zooms both ranges by `zoom_factor` around the point `zoom_focus`:
/// translate the focus to the origin, scale, translate back.
///
/// `None` when a step leaves `i64` or the factor has a zero denominator.
pub fn zoom(
    x_range: (i64, i64),
    y_range: (i64, i64),
    zoom_factor: Factor,
    zoom_focus: (i64, i64),
) -> (r: Option<((i64, i64), (i64, i64))>)
    ensures
        r == zoom_spec(x_range, y_range, zoom_factor, pair_int(zoom_focus)),
{
    match (zoom_axis(x_range, zoom_factor, zoom_focus.0), zoom_axis(y_range, zoom_factor, zoom_focus.1)) {
        (Some(x), Some(y)) => Some((x, y)),
        _ => None,
    }
}

/// The absolute coordinate at relative position `rel` of `range`.
fn focus_point(range: (i64, i64), rel: i64) -> (r: Option<i64>)
    ensures
        r == (if in_i64(relative_point(pair_int(range), rel as int)) {
            Some(relative_point(pair_int(range), rel as int) as i64)
        } else {
            None
        }),
{
    let w: i128 = range.1 as i128 - range.0 as i128;
    let ghost wi = w as int;
    let ghost ri = rel as int;
    assert(-0x7fff_ffff_ffff_ffff_8000_0000_0000_0000 <= ri * wi <= 0x7fff_ffff_ffff_ffff_8000_0000_0000_0000)
        by (nonlinear_arith)
        requires
            -0x8000_0000_0000_0000 <= ri <= 0x7fff_ffff_ffff_ffff,
            -0xffff_ffff_ffff_ffff <= wi <= 0xffff_ffff_ffff_ffff,
    ;
    let p: i128 = rel as i128 * w;
    let q = div_floor(p, COORD_ONE as i128);
    assert(-0x8000_0000_0000_0000_0000_0000 <= q <= 0x8000_0000_0000_0000_0000_0000) by {
        let pi = p as int;
        assert(q == pi / 0x1_0000_0000);
        assert(-0x8000_0000_0000_0000_0000_0000 <= pi / 0x1_0000_0000 <= 0x8000_0000_0000_0000_0000_0000)
            by (nonlinear_arith)
            requires
                -0x8000_0000_0000_0000_0000_0000_0000_0000 <= pi <= 0x8000_0000_0000_0000_0000_0000_0000_0000,
        ;
    }
    narrow(q + range.0 as i128)
}

/// Zooms both ranges by `zoom_factor` around a focus given relative to the
/// ranges (fixed-point, `0` is the lower end and `COORD_ONE` the upper end).
pub fn zoom_relative(
    x_range: (i64, i64),
    y_range: (i64, i64),
    zoom_factor: Factor,
    zoom_focus: (i64, i64),
) -> (r: Option<((i64, i64), (i64, i64))>)
    ensures
        r == zoom_relative_spec(x_range, y_range, zoom_factor, zoom_focus),
{
    match (focus_point(x_range, zoom_focus.0), focus_point(y_range, zoom_focus.1)) {
        (Some(fx), Some(fy)) => zoom(x_range, y_range, zoom_factor, (fx, fy)),
        _ => None,
    }
}

/// One pan step: the width of `range` divided by `factor`, rounded toward
/// negative infinity.
///
/// `None` when `factor` is zero or the step leaves `i64`.
pub fn get_shift_speed(range: (i64, i64), factor: u32) -> (r: Option<i64>)
    ensures
        r == (if factor > 0 && in_i64(floor_div(range.1 - range.0, factor as int)) {
            Some(floor_div(range.1 - range.0, factor as int) as i64)
        } else {
            None
        }),
{
    if factor == 0 {
        return None;
    }
    let w: i128 = range.1 as i128 - range.0 as i128;
    narrow(div_floor(w, factor as i128))
}

proof fn lemma_floor_div_exact(a: int, b: int, k: int)
    requires
        b != 0,
        a == k * b,
    ensures
        floor_div(a, b) == k,
{
    if b > 0 {
        lemma_div_multiples_vanish(k, b);
        assert(b * k == k * b) by (nonlinear_arith);
    } else {
        lemma_div_multiples_vanish(k, -b);
        assert(-a == (-b) * k) by (nonlinear_arith)
            requires
                a == k * b,
        ;
    }
}

/// Shifting a range by `d` and then by `-d` gives the range back, whenever
/// the first shift succeeds.
pub proof fn lemma_shift_round_trip(range: (i64, i64), d: i64)
    requires
        d != i64::MIN,
        fit_pair(shifted(pair_int(range), d as int)) is Some,
    ensures
        fit_pair(
            shifted(pair_int(fit_pair(shifted(pair_int(range), d as int))->Some_0), -d),
        ) == Some(range),
{
}

/// Scaling a range by `f` and then by `1 / f` gives the range back, whenever
/// the first scale is exact (no rounding) and succeeds; with an integer
/// factor (`den == 1`) it is always exact.
pub proof fn lemma_scale_round_trip(range: (i64, i64), f: Factor)
    requires
        f.num != 0,
        f.den != 0,
        (range.0 * f.num) % (f.den as int) == 0,
        (range.1 * f.num) % (f.den as int) == 0,
        fit_pair(scaled(pair_int(range), f)) is Some,
    ensures
        fit_pair(scaled(pair_int(fit_pair(scaled(pair_int(range), f))->Some_0), inverse(f)))
            == Some(range),
{
    let d = f.den as int;
    let n = f.num as int;
    let s = fit_pair(scaled(pair_int(range), f))->Some_0;
    let x0 = range.0 as int;
    let x1 = range.1 as int;
    lemma_fundamental_div_mod(x0 * n, d);
    lemma_fundamental_div_mod(x1 * n, d);
    let k0 = (x0 * n) / d;
    let k1 = (x1 * n) / d;
    assert(x0 * n == k0 * d) by (nonlinear_arith)
        requires
            x0 * n == d * k0,
    ;
    assert(x1 * n == k1 * d) by (nonlinear_arith)
        requires
            x1 * n == d * k1,
    ;
    lemma_floor_div_exact(x0 * n, d, k0);
    lemma_floor_div_exact(x1 * n, d, k1);
    assert(s.0 as int == k0);
    assert(s.1 as int == k1);
    assert(k0 * d == x0 * n);
    lemma_floor_div_exact(k0 * d, n, x0);
    lemma_floor_div_exact(k1 * d, n, x1);
}

/// Zooming by a factor of one changes neither range, wherever the focus
/// lies within the ranges.
pub proof fn lemma_zoom_relative_identity(x_range: (i64, i64), y_range: (i64, i64), rel: (i64, i64))
    requires
        i64::MIN < x_range.0 <= x_range.1,
        i64::MIN < y_range.0 <= y_range.1,
        in_i64(x_range.1 - x_range.0),
        in_i64(y_range.1 - y_range.0),
        0 <= rel.0 <= COORD_ONE,
        0 <= rel.1 <= COORD_ONE,
    ensures
        zoom_relative_spec(x_range, y_range, Factor { num: 1, den: 1 }, rel) == Some(
            (x_range, y_range),
        ),
{
    let one = Factor { num: 1, den: 1 };
    let fx = relative_point(pair_int(x_range), rel.0 as int);
    let fy = relative_point(pair_int(y_range), rel.1 as int);
    lemma_relative_point_within(pair_int(x_range), rel.0 as int);
    lemma_relative_point_within(pair_int(y_range), rel.1 as int);
    lemma_unit_scale(shifted(pair_int(x_range), -fx));
    lemma_unit_scale(shifted(pair_int(y_range), -fy));
    assert(zoomed(pair_int(x_range), one, fx) == pair_int(x_range));
    assert(zoomed(pair_int(y_range), one, fy) == pair_int(y_range));
}

proof fn lemma_unit_scale(r: (int, int))
    ensures
        scaled(r, Factor { num: 1, den: 1 }) == r,
{
    assert(r.0 * 1 == r.0);
    assert(r.1 * 1 == r.1);
    assert(r.0 / 1 == r.0);
    assert(r.1 / 1 == r.1);
}

proof fn lemma_relative_point_within(r: (int, int), rel: int)
    requires
        r.0 <= r.1,
        0 <= rel <= COORD_ONE,
    ensures
        r.0 <= relative_point(r, rel) <= r.1,
{
    let w = r.1 - r.0;
    let one = COORD_ONE as int;
    assert(0 <= rel * w <= one * w) by (nonlinear_arith)
        requires
            0 <= rel <= one,
            w >= 0,
    ;
    assert(0 <= (rel * w) / one <= w) by (nonlinear_arith)
        requires
            0 <= rel * w <= one * w,
            one > 0,
    ;
}

} // verus!
