use crate::point::Point;
use vstd::prelude::*;

verus! {

/// An axis-aligned box `[min, max]`, with `min <= max` on both axes.
///
/// A zero span on an axis is allowed.
#[derive(Debug, PartialEq, Eq)]
pub struct Limits {
    min: Point<i32>,
    max: Point<i32>,
    span: (i64, i64),
}

/// Whether `min` and `max` may be the corners of a box.
pub open spec fn corners_ordered(min: Point<i32>, max: Point<i32>) -> bool {
    min.x <= max.x && min.y <= max.y
}

/// Whether `p` lies in the box `[min, max]`.
pub open spec fn in_box(min: Point<i32>, max: Point<i32>, p: Point<i32>) -> bool {
    min.x <= p.x <= max.x && min.y <= p.y <= max.y
}

/// The `i`-th of the `n + 1` evenly spaced values from `lo` to `hi`, rounded down.
pub open spec fn sample(lo: int, hi: int, n: int, i: int) -> int {
    lo + (i * (hi - lo)) / n
}

impl Limits {
    /// The lower corner.
    pub closed spec fn lo(&self) -> Point<i32> {
        self.min
    }

    /// The upper corner.
    pub closed spec fn hi(&self) -> Point<i32> {
        self.max
    }

    #[verifier::type_invariant]
    spec fn inv(&self) -> bool {
        &&& corners_ordered(self.min, self.max)
        &&& self.span.0 == self.max.x - self.min.x
        &&& self.span.1 == self.max.y - self.min.y
    }

    /// The corners are ordered; every `Limits` value that code holds is so.
    pub open spec fn wf(&self) -> bool {
        corners_ordered(self.lo(), self.hi())
    }

    /// Whether `p` lies in the box, edges included.
    pub open spec fn contains_spec(&self, p: Point<i32>) -> bool {
        in_box(self.lo(), self.hi(), p)
    }

    /// The box spanned by `min` and `max`; they must be ordered on both axes.
    pub fn new(min: Point<i32>, max: Point<i32>) -> (r: Limits)
        requires
            corners_ordered(min, max),
        ensures
            r.lo() == min,
            r.hi() == max,
            r.wf(),
    {
        Limits { min, max, span: (max.x as i64 - min.x as i64, max.y as i64 - min.y as i64) }
    }

    /// Moves the lower corner; it must stay below the upper one.
    pub fn update_min(&mut self, new_min: Point<i32>)
        requires
            corners_ordered(new_min, old(self).hi()),
        ensures
            final(self).lo() == new_min,
            final(self).hi() == old(self).hi(),
            final(self).wf(),
    {
        let max = self.max;
        *self = Limits::new(new_min, max);
    }

    /// Moves the upper corner; it must stay above the lower one.
    pub fn update_max(&mut self, new_max: Point<i32>)
        requires
            corners_ordered(old(self).lo(), new_max),
        ensures
            final(self).lo() == old(self).lo(),
            final(self).hi() == new_max,
            final(self).wf(),
    {
        let min = self.min;
        *self = Limits::new(min, new_max);
    }

    /// The extent on each axis, `max - min`.
    pub fn span(&self) -> (r: &(i64, i64))
        ensures
            r.0 == self.hi().x - self.lo().x,
            r.1 == self.hi().y - self.lo().y,
            r.0 >= 0,
            r.1 >= 0,
    {
        proof {
            use_type_invariant(self);
        }
        &self.span
    }

    pub fn min(&self) -> (r: &Point<i32>)
        ensures
            *r == self.lo(),
            self.wf(),
    {
        proof {
            use_type_invariant(self);
        }
        &self.min
    }

    pub fn max(&self) -> (r: &Point<i32>)
        ensures
            *r == self.hi(),
            self.wf(),
    {
        proof {
            use_type_invariant(self);
        }
        &self.max
    }

    /// Whether `point` lies in the box, edges included.
    pub fn contains(&self, point: Point<i32>) -> (r: bool)
        ensures
            r == self.contains_spec(point),
    {
        self.min.x <= point.x && point.x <= self.max.x && self.min.y <= point.y && point.y
            <= self.max.y
    }

    /// Whether a corner of either box lies in the other.
    pub fn intersects(&self, other: &Limits) -> (r: bool)
        ensures
            r == (in_box(self.lo(), self.hi(), other.lo()) || in_box(
                self.lo(),
                self.hi(),
                other.hi(),
            ) || in_box(self.lo(), self.hi(), Point { x: other.lo().x, y: other.hi().y })
                || in_box(self.lo(), self.hi(), Point { x: other.hi().x, y: other.lo().y })
                || in_box(other.lo(), other.hi(), self.lo()) || in_box(
                other.lo(),
                other.hi(),
                self.hi(),
            ) || in_box(other.lo(), other.hi(), Point { x: self.lo().x, y: self.hi().y })
                || in_box(other.lo(), other.hi(), Point { x: self.hi().x, y: self.lo().y })),
    {
        let a_min = self.min;
        let a_max = self.max;
        let b_min = other.min;
        let b_max = other.max;
        self.contains(b_min) || self.contains(b_max) || self.contains(Point::new(b_min.x, b_max.y))
            || self.contains(Point::new(b_max.x, b_min.y)) || other.contains(a_min)
            || other.contains(a_max) || other.contains(Point::new(a_min.x, a_max.y))
            || other.contains(Point::new(a_max.x, a_min.y))
    }

    /// Splits each axis into `n` equal sections and returns their `n + 1` boundaries,
    /// rounded down: the first list walks the x axis along the bottom edge, the second the
    /// y axis along the left edge.
    pub fn chunk(&self, n: u32) -> (r: (Vec<Point<i32>>, Vec<Point<i32>>))
        requires
            n > 0,
        ensures
            r.0@.len() == n + 1,
            r.1@.len() == n + 1,
            forall|i: int|
                0 <= i <= n ==> #[trigger] r.0@[i] == (Point {
                    x: sample(self.lo().x as int, self.hi().x as int, n as int, i) as i32,
                    y: self.lo().y,
                }),
            forall|i: int|
                0 <= i <= n ==> #[trigger] r.1@[i] == (Point {
                    x: self.lo().x,
                    y: sample(self.lo().y as int, self.hi().y as int, n as int, i) as i32,
                }),
            forall|i: int|
                0 <= i <= n ==> self.lo().x <= #[trigger] r.0@[i].x <= self.hi().x,
            forall|i: int|
                0 <= i <= n ==> self.lo().y <= #[trigger] r.1@[i].y <= self.hi().y,
    {
        proof {
            use_type_invariant(self);
        }
        let mut xs: Vec<Point<i32>> = Vec::new();
        let mut ys: Vec<Point<i32>> = Vec::new();
        let mut i: u64 = 0;
        while i <= n as u64
            invariant
                i <= n + 1,
                n > 0,
                corners_ordered(self.min, self.max),
                xs@.len() == i,
                ys@.len() == i,
                forall|k: int|
                    0 <= k < i ==> #[trigger] xs@[k] == (Point {
                        x: sample(self.min.x as int, self.max.x as int, n as int, k) as i32,
                        y: self.min.y,
                    }),
                forall|k: int|
                    0 <= k < i ==> #[trigger] ys@[k] == (Point {
                        x: self.min.x,
                        y: sample(self.min.y as int, self.max.y as int, n as int, k) as i32,
                    }),
                forall|k: int|
                    0 <= k < i ==> self.min.x <= #[trigger] xs@[k].x <= self.max.x,
                forall|k: int|
                    0 <= k < i ==> self.min.y <= #[trigger] ys@[k].y <= self.max.y,
            decreases n + 1 - i,
        {
            let sx = self.max.x as i64 - self.min.x as i64;
            let sy = self.max.y as i64 - self.min.y as i64;
            proof {
                lemma_sample_bounds(self.min.x as int, self.max.x as int, n as int, i as int);
                lemma_sample_bounds(self.min.y as int, self.max.y as int, n as int, i as int);
                assert(0 <= i * sx <= n * sx) by (nonlinear_arith)
                    requires
                        0 <= i <= n,
                        0 <= sx,
                ;
                assert(0 <= i * sy <= n * sy) by (nonlinear_arith)
                    requires
                        0 <= i <= n,
                        0 <= sy,
                ;
                assert(n * sx <= 0x1_0000_0000 * 0x1_0000_0000) by (nonlinear_arith)
                    requires
                        0 <= sx <= 0x1_0000_0000,
                        0 < n <= 0x1_0000_0000,
                ;
                assert(n * sy <= 0x1_0000_0000 * 0x1_0000_0000) by (nonlinear_arith)
                    requires
                        0 <= sy <= 0x1_0000_0000,
                        0 < n <= 0x1_0000_0000,
                ;
            }
            let px = self.min.x as i128 + (i as i128 * sx as i128) / n as i128;
            let py = self.min.y as i128 + (i as i128 * sy as i128) / n as i128;
            xs.push(Point { x: px as i32, y: self.min.y });
            ys.push(Point { x: self.min.x, y: py as i32 });
            i = i + 1;
        }
        (xs, ys)
    }
}

/// An evenly spaced sample lies between the ends.
pub proof fn lemma_sample_bounds(lo: int, hi: int, n: int, i: int)
    requires
        lo <= hi,
        0 < n,
        0 <= i <= n,
    ensures
        lo <= sample(lo, hi, n, i) <= hi,
        sample(lo, hi, n, 0) == lo,
        sample(lo, hi, n, n) == hi,
{
    let s = hi - lo;
    assert(0 <= i * s <= n * s) by (nonlinear_arith)
        requires
            0 <= i <= n,
            0 <= s,
    ;
    assert((n * s) / n == s) by (nonlinear_arith)
        requires
            0 < n,
    ;
    assert(0 * s == 0);
    assert((i * s) / n <= (n * s) / n) by (nonlinear_arith)
        requires
            0 <= i * s <= n * s,
            0 < n,
    ;
    assert(0 <= (i * s) / n) by (nonlinear_arith)
        requires
            0 <= i * s,
            0 < n,
    ;
}

/// Both corners of a box lie in it, and a point below or above it on either axis does not.
pub proof fn lemma_contains_corners(l: Limits, p: Point<i32>)
    requires
        l.wf(),
    ensures
        in_box(l.lo(), l.hi(), l.lo()),
        in_box(l.lo(), l.hi(), l.hi()),
        (p.x < l.lo().x || p.x > l.hi().x || p.y < l.lo().y || p.y > l.hi().y) ==> !in_box(
            l.lo(),
            l.hi(),
            p,
        ),
{
}

/// The least (or, with `take_max`, the greatest) x (or, with `use_y`, y) of a non-empty
/// sequence of points.
pub open spec fn extreme(s: Seq<Point<i32>>, use_y: bool, take_max: bool) -> int
    decreases s.len(),
{
    if s.len() <= 1 {
        if s.len() == 0 {
            0
        } else if use_y {
            s[0].y as int
        } else {
            s[0].x as int
        }
    } else {
        let rest = extreme(s.drop_last(), use_y, take_max);
        let v = if use_y {
            s.last().y as int
        } else {
            s.last().x as int
        };
        if take_max {
            if v > rest {
                v
            } else {
                rest
            }
        } else {
            if v < rest {
                v
            } else {
                rest
            }
        }
    }
}

/// The x (or, with `use_y`, the y) of a point.
pub open spec fn coord(p: Point<i32>, use_y: bool) -> int {
    if use_y {
        p.y as int
    } else {
        p.x as int
    }
}

/// The lower corner of the bounding box of a non-empty sequence of points.
pub open spec fn bbox_lo(s: Seq<Point<i32>>) -> Point<i32> {
    Point { x: extreme(s, false, false) as i32, y: extreme(s, true, false) as i32 }
}

/// The upper corner of the bounding box of a non-empty sequence of points.
pub open spec fn bbox_hi(s: Seq<Point<i32>>) -> Point<i32> {
    Point { x: extreme(s, false, true) as i32, y: extreme(s, true, true) as i32 }
}

/// The bounding box holds every point, and each of its sides touches one.
pub proof fn lemma_extreme(s: Seq<Point<i32>>, use_y: bool, take_max: bool)
    requires
        s.len() > 0,
    ensures
        forall|i: int|
            0 <= i < s.len() ==> if take_max {
                coord(#[trigger] s[i], use_y) <= extreme(s, use_y, take_max)
            } else {
                extreme(s, use_y, take_max) <= coord(#[trigger] s[i], use_y)
            },
        exists|i: int| 0 <= i < s.len() && extreme(s, use_y, take_max) == coord(#[trigger] s[i], use_y),
        i32::MIN <= extreme(s, use_y, take_max) <= i32::MAX,
    decreases s.len(),
{
    if s.len() > 1 {
        lemma_extreme(s.drop_last(), use_y, take_max);
        let w = choose|i: int|
            0 <= i < s.drop_last().len() && extreme(s.drop_last(), use_y, take_max) == coord(
                #[trigger] s.drop_last()[i],
                use_y,
            );
        assert(s.drop_last()[w] == s[w]);
        assert(s.last() == s[s.len() - 1]);
        assert forall|i: int| 0 <= i < s.len() - 1 implies s.drop_last()[i] == s[i] by {}
        if extreme(s, use_y, take_max) == coord(s[s.len() - 1], use_y) {
            assert(extreme(s, use_y, take_max) == coord(s[s.len() - 1], use_y));
        } else {
            assert(extreme(s, use_y, take_max) == coord(s[w], use_y));
        }
    } else {
        assert(extreme(s, use_y, take_max) == coord(s[0], use_y));
    }
}

/// A collection of points whose bounding box can be taken.
pub trait PointCollection {
    spec fn collection_points(&self) -> Seq<Point<i32>>;

    /// The smallest box that holds every point; `None` when there are none.
    fn limits(&self) -> (r: Option<Limits>)
        ensures
            self.collection_points().len() == 0 <==> r is None,
            r is Some ==> r->0.lo() == bbox_lo(self.collection_points()) && r->0.hi() == bbox_hi(
                self.collection_points(),
            ) && r->0.wf(),
    ;
}

impl PointCollection for Vec<Point<i32>> {
    open spec fn collection_points(&self) -> Seq<Point<i32>> {
        self@
    }

    fn limits(&self) -> (r: Option<Limits>) {
        if self.len() == 0 {
            return None;
        }
        let mut lo = self[0];
        let mut hi = self[0];
        let mut i: usize = 1;
        while i < self.len()
            invariant
                1 <= i <= self@.len(),
                lo == bbox_lo(self@.take(i as int)),
                hi == bbox_hi(self@.take(i as int)),
            decreases self@.len() - i,
        {
            let p = self[i];
            proof {
                let t = self@.take(i as int + 1);
                assert(t.drop_last() == self@.take(i as int));
                assert(t.last() == p);
                lemma_extreme(self@.take(i as int), false, false);
                lemma_extreme(self@.take(i as int), true, false);
                lemma_extreme(self@.take(i as int), false, true);
                lemma_extreme(self@.take(i as int), true, true);
            }
            if p.x < lo.x {
                lo.x = p.x;
            }
            if p.y < lo.y {
                lo.y = p.y;
            }
            if p.x > hi.x {
                hi.x = p.x;
            }
            if p.y > hi.y {
                hi.y = p.y;
            }
            i = i + 1;
        }
        proof {
            assert(self@.take(self@.len() as int) == self@);
            lemma_extreme(self@, false, false);
            lemma_extreme(self@, true, false);
            lemma_extreme(self@, false, true);
            lemma_extreme(self@, true, true);
            let b = choose|i: int|
                0 <= i < self@.len() && extreme(self@, false, true) == coord(#[trigger] self@[i], false);
            let d = choose|i: int|
                0 <= i < self@.len() && extreme(self@, true, true) == coord(#[trigger] self@[i], true);
            assert(lo.x <= self@[b].x);
            assert(lo.y <= self@[d].y);
        }
        Some(Limits::new(lo, hi))
    }
}

} // verus!
