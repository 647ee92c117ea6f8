use crate::limits::Limits;
use crate::point::Point;
use vstd::prelude::*;

verus! {

/// One coordinate scaled from a range of extent `old_span` to the range `[new_min, new_max]`:
/// `v * new_span / old_span`, rounded down. A zero `old_span` maps to the midpoint of the new
/// range (rounded down) instead.
pub open spec fn scale_coord(v: int, old_span: int, new_min: int, new_max: int) -> int {
    if old_span == 0 {
        (new_min + new_max) / 2
    } else {
        (v * (new_max - new_min)) / old_span
    }
}

/// One coordinate carried from `[old_min, old_max]` into `[new_min, new_max]`: shifted by
/// `-old_min`, scaled, then shifted by `+new_min`. A zero old span maps to the midpoint.
pub open spec fn place_coord(v: int, old_min: int, old_max: int, new_min: int, new_max: int) -> int {
    if old_max == old_min {
        (new_min + new_max) / 2
    } else {
        new_min + scale_coord(v - old_min, old_max - old_min, new_min, new_max)
    }
}

/// `num / den` rounded down, for a positive `den`.
fn floor_div(num: i128, den: i128) -> (r: i128)
    requires
        0 < den <= 0x1_0000_0000_0000_0000,
        -0x1_0000_0000_0000_0000_0000 <= num <= 0x1_0000_0000_0000_0000_0000,
    ensures
        r == num / den,
{
    if num >= 0 {
        num / den
    } else {
        let q = (-num + den - 1) / den;
        proof {
            let a: int = -(num as int);
            let dd: int = den as int;
            let qq: int = (a + dd - 1) / dd;
            assert(qq * dd <= a + dd - 1 < qq * dd + dd) by (nonlinear_arith)
                requires
                    qq == (a + dd - 1) / dd,
                    dd > 0,
            ;
            assert((-qq) * dd <= num < (-qq) * dd + dd) by (nonlinear_arith)
                requires
                    qq * dd <= a + dd - 1 < qq * dd + dd,
                    a == -(num as int),
                    dd > 0,
            ;
            vstd::arithmetic::div_mod::lemma_fundamental_div_mod_converse(
                num as int,
                dd,
                -qq,
                num - (-qq) * dd,
            );
        }
        -q
    }
}

/// Scales one coordinate; see [`scale_coord`]. The result must fit in `i32`.
pub fn scale_value(v: i32, old_span: i64, new_min: i32, new_max: i32) -> (r: i32)
    requires
        0 <= old_span <= u32::MAX,
        new_min <= new_max,
        i32::MIN <= scale_coord(v as int, old_span as int, new_min as int, new_max as int)
            <= i32::MAX,
    ensures
        r == scale_coord(v as int, old_span as int, new_min as int, new_max as int),
{
    if old_span == 0 {
        floor_div(new_min as i128 + new_max as i128, 2) as i32
    } else {
        let ns = new_max as i64 - new_min as i64;
        proof {
            assert(-0x1_0000_0000_0000_0000 <= v * ns <= 0x1_0000_0000_0000_0000) by (nonlinear_arith)
                requires
                    i32::MIN <= v <= i32::MAX,
                    0 <= ns <= u32::MAX,
            ;
        }
        floor_div(v as i128 * ns as i128, old_span as i128) as i32
    }
}

/// Places one coordinate; see [`place_coord`]. `v` must lie in `[old_min, old_max]`.
pub fn place_value(v: i32, old_min: i32, old_max: i32, new_min: i32, new_max: i32) -> (r: i32)
    requires
        old_min <= v <= old_max,
        new_min <= new_max,
    ensures
        r == place_coord(v as int, old_min as int, old_max as int, new_min as int, new_max as int),
        new_min <= r <= new_max,
{
    if old_max == old_min {
        floor_div(new_min as i128 + new_max as i128, 2) as i32
    } else {
        let os = old_max as i64 - old_min as i64;
        let ns = new_max as i64 - new_min as i64;
        let d = v as i64 - old_min as i64;
        proof {
            let d = d as int;
            let os = os as int;
            let ns = ns as int;
            assert(0 <= d * ns <= os * ns) by (nonlinear_arith)
                requires
                    0 <= d <= os,
                    0 <= ns,
            ;
            assert(os * ns <= 0x1_0000_0000 * 0x1_0000_0000) by (nonlinear_arith)
                requires
                    0 <= os <= 0x1_0000_0000,
                    0 <= ns <= 0x1_0000_0000,
            ;
            assert(0 <= (d * ns) / os <= (os * ns) / os) by (nonlinear_arith)
                requires
                    0 <= d * ns <= os * ns,
                    0 < os,
            ;
            assert((os * ns) / os == ns) by (nonlinear_arith)
                requires
                    0 < os,
            ;
        }
        let q = (d as i128 * ns as i128) / os as i128;
        (new_min as i128 + q) as i32
    }
}

/// A point scaled per axis from the extent of `old` to the range of `new`.
pub open spec fn scaled_point(p: Point<i32>, old: Limits, new: Limits) -> Point<int> {
    Point {
        x: scale_coord(p.x as int, old.hi().x - old.lo().x, new.lo().x as int, new.hi().x as int),
        y: scale_coord(p.y as int, old.hi().y - old.lo().y, new.lo().y as int, new.hi().y as int),
    }
}

/// A point carried per axis from the box `[olo, ohi]` into the box `new`.
pub open spec fn placed_point(p: Point<i32>, olo: Point<i32>, ohi: Point<i32>, new: Limits) -> Point<
    i32,
> {
    Point {
        x: place_coord(
            p.x as int,
            olo.x as int,
            ohi.x as int,
            new.lo().x as int,
            new.hi().x as int,
        ) as i32,
        y: place_coord(
            p.y as int,
            olo.y as int,
            ohi.y as int,
            new.lo().y as int,
            new.hi().y as int,
        ) as i32,
    }
}

/// Whether a scaled point fits in `i32` on both axes.
pub open spec fn scaled_fits(p: Point<i32>, old: Limits, new: Limits) -> bool {
    let s = scaled_point(p, old, new);
    i32::MIN <= s.x <= i32::MAX && i32::MIN <= s.y <= i32::MAX
}

/// Whether `p + amount` fits in `i32` on both axes.
pub open spec fn shift_fits(p: Point<i32>, amount: Point<i32>) -> bool {
    i32::MIN <= p.x + amount.x <= i32::MAX && i32::MIN <= p.y + amount.y <= i32::MAX
}

impl Point<i32> {
    /// Carries the point from the box `old_limits` into the box `new_limits`: shift by
    /// `-old.min`, scale, shift by `+new.min`. The point must lie in `old_limits`.
    pub fn place(self, old_limits: &Limits, new_limits: &Limits) -> (r: Point<i32>)
        requires
            old_limits.contains_spec(self),
        ensures
            r == placed_point(self, old_limits.lo(), old_limits.hi(), *new_limits),
            new_limits.contains_spec(r),
    {
        let omin = *old_limits.min();
        let omax = *old_limits.max();
        let nmin = *new_limits.min();
        let nmax = *new_limits.max();
        let x = place_value(self.x, omin.x, omax.x, nmin.x, nmax.x);
        let y = place_value(self.y, omin.y, omax.y, nmin.y, nmax.y);
        Point { x, y }
    }

}

/// Geometry that can be scaled from one box's extent to another's.
pub trait Scalable: Sized {
    /// The scaled values fit their types.
    spec fn scale_req(&self, old: Limits, new: Limits) -> bool;

    /// The value scaled from the extent of `old` to the range of `new`.
    spec fn scale_spec(&self, old: Limits, new: Limits) -> Self;

    fn scale_to(self, old_limits: &Limits, new_limits: &Limits) -> (r: Self)
        requires
            self.scale_req(*old_limits, *new_limits),
        ensures
            r == self.scale_spec(*old_limits, *new_limits),
    ;
}

/// Geometry that can be translated.
pub trait Shiftable: Sized {
    /// The translated values fit their types.
    spec fn shift_req(&self, amount: Point<i32>) -> bool;

    /// The value translated by `amount`.
    spec fn shift_spec(&self, amount: Point<i32>) -> Self;

    fn shift_by(self, amount: Point<i32>) -> (r: Self)
        requires
            self.shift_req(amount),
        ensures
            r == self.shift_spec(amount),
    ;
}

impl Scalable for Point<i32> {
    open spec fn scale_req(&self, old: Limits, new: Limits) -> bool {
        scaled_fits(*self, old, new)
    }

    /// Each coordinate scaled by `new_span / old_span` of its axis (no translation); an axis
    /// of zero old span maps to the midpoint of the new range.
    open spec fn scale_spec(&self, old: Limits, new: Limits) -> Point<i32> {
        Point { x: scaled_point(*self, old, new).x as i32, y: scaled_point(*self, old, new).y as i32 }
    }

    fn scale_to(self, old_limits: &Limits, new_limits: &Limits) -> (r: Point<i32>) {
        let (osx, osy) = *old_limits.span();
        let nmin = *new_limits.min();
        let nmax = *new_limits.max();
        let x = scale_value(self.x, osx, nmin.x, nmax.x);
        let y = scale_value(self.y, osy, nmin.y, nmax.y);
        Point { x, y }
    }
}

impl Shiftable for Point<i32> {
    open spec fn shift_req(&self, amount: Point<i32>) -> bool {
        shift_fits(*self, amount)
    }

    open spec fn shift_spec(&self, amount: Point<i32>) -> Point<i32> {
        Point { x: (self.x + amount.x) as i32, y: (self.y + amount.y) as i32 }
    }

    fn shift_by(self, amount: Point<i32>) -> (r: Point<i32>) {
        Point { x: self.x + amount.x, y: self.y + amount.y }
    }
}

/// Scaling one coordinate from a span `a` to a span `b` and back loses less than one step
/// of each direction: the result `w` satisfies `v*b - a - b < w*b <= v*b`.
pub proof fn lemma_scale_round_trip_coord(v: int, a: int, b: int)
    requires
        a > 0,
        b > 0,
    ensures
        ({
            let u = (v * b) / a;
            let w = (u * a) / b;
            &&& w * b <= v * b
            &&& v * b - a - b < w * b
        }),
{
    let u = (v * b) / a;
    let w = (u * a) / b;
    assert(u * a <= v * b < u * a + a) by (nonlinear_arith)
        requires
            u == (v * b) / a,
            a > 0,
    ;
    assert(w * b <= u * a < w * b + b) by (nonlinear_arith)
        requires
            w == (u * a) / b,
            b > 0,
    ;
}

/// Scaling a point from `a` to `b` and then from `b` back to `a` returns it to within one
/// rounding step per axis, on every axis where neither box has a zero span (a zero span maps
/// to a midpoint and loses the coordinate).
pub proof fn lemma_scale_round_trip(p: Point<i32>, a: Limits, b: Limits)
    requires
        a.wf(),
        b.wf(),
    ensures
        ({
            let q = scaled_point(p, a, b);
            let ax = a.hi().x - a.lo().x;
            let ay = a.hi().y - a.lo().y;
            let bx = b.hi().x - b.lo().x;
            let by = b.hi().y - b.lo().y;
            let rx = scale_coord(q.x, bx, a.lo().x as int, a.hi().x as int);
            let ry = scale_coord(q.y, by, a.lo().y as int, a.hi().y as int);
            &&& (ax > 0 && bx > 0) ==> rx * bx <= p.x * bx && p.x * bx - ax - bx < rx * bx
            &&& (ay > 0 && by > 0) ==> ry * by <= p.y * by && p.y * by - ay - by < ry * by
        }),
{
    let ax = a.hi().x - a.lo().x;
    let ay = a.hi().y - a.lo().y;
    let bx = b.hi().x - b.lo().x;
    let by = b.hi().y - b.lo().y;
    if ax > 0 && bx > 0 {
        lemma_scale_round_trip_coord(p.x as int, ax, bx);
    }
    if ay > 0 && by > 0 {
        lemma_scale_round_trip_coord(p.y as int, ay, by);
    }
}

} // verus!
