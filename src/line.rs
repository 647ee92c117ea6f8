use crate::common::{Color, MaskPoints, PlotError};
use crate::limits::Limits;
use crate::point::{sat_point, to_u32_saturating, Point};
use vstd::arithmetic::div_mod::lemma_fundamental_div_mod_converse;
use vstd::prelude::*;

verus! {

/// How a line is drawn: its pattern, color and thickness in pixels.
#[derive(Debug, Clone, Copy, PartialEq, Eq)]
pub enum LineStyle {
    Solid { color: Color, thickness: u32 },
    /// Not drawn: asking for its mask reports an error.
    Dashed { color: Color, thickness: u32 },
}

impl LineStyle {
    pub open spec fn thickness_spec(self) -> u32 {
        match self {
            LineStyle::Solid { thickness, .. } => thickness,
            LineStyle::Dashed { thickness, .. } => thickness,
        }
    }

    pub open spec fn color_spec(self) -> Color {
        match self {
            LineStyle::Solid { color, .. } => color,
            LineStyle::Dashed { color, .. } => color,
        }
    }

    /// A solid white line one pixel wide.
    pub fn default() -> (r: LineStyle)
        ensures
            r == (LineStyle::Solid { color: Color { r: 255, g: 255, b: 255 }, thickness: 0 }),
    {
        LineStyle::Solid { color: Color::white(), thickness: 0 }
    }

    /// A solid white line of the given thickness.
    pub fn default_with_thickness(thickness: u32) -> (r: LineStyle)
        ensures
            r == (LineStyle::Solid { color: Color { r: 255, g: 255, b: 255 }, thickness }),
    {
        LineStyle::Solid { color: Color::white(), thickness }
    }

    pub fn thickness(&self) -> (r: u32)
        ensures
            r == self.thickness_spec(),
    {
        match self {
            LineStyle::Solid { thickness, .. } => *thickness,
            LineStyle::Dashed { thickness, .. } => *thickness,
        }
    }

    pub fn color(&self) -> (r: Color)
        ensures
            r == self.color_spec(),
    {
        match self {
            LineStyle::Solid { color, .. } => *color,
            LineStyle::Dashed { color, .. } => *color,
        }
    }
}

/// Where a line lies.
#[derive(Debug, Clone, Copy, PartialEq, Eq)]
pub enum LinePositioning {
    /// From `start` rightwards over `length` pixels.
    Horizontal { start: Point<i32>, length: i32 },
    /// From `start` upwards over `length` pixels.
    Vertical { start: Point<i32>, length: i32 },
    /// From `start` to `end`, in any direction.
    BetweenPoints { start: Point<i32>, end: Point<i32> },
}

pub open spec fn min_int(a: int, b: int) -> int {
    if a <= b {
        a
    } else {
        b
    }
}

pub open spec fn max_int(a: int, b: int) -> int {
    if a >= b {
        a
    } else {
        b
    }
}

pub open spec fn abs_int(a: int) -> int {
    if a >= 0 {
        a
    } else {
        -a
    }
}

impl LinePositioning {
    /// A horizontal or vertical line has a length of zero or more that does not run past the
    /// `i32` range.
    pub open spec fn valid(self) -> bool {
        match self {
            LinePositioning::Horizontal { start, length } => 0 <= length && start.x + length
                <= i32::MAX,
            LinePositioning::Vertical { start, length } => 0 <= length && start.y + length
                <= i32::MAX,
            LinePositioning::BetweenPoints { .. } => true,
        }
    }

    /// The two ends of the line.
    pub open spec fn ends(self) -> (Point<int>, Point<int>) {
        match self {
            LinePositioning::Horizontal { start, length } => (
                Point { x: start.x as int, y: start.y as int },
                Point { x: start.x + length, y: start.y as int },
            ),
            LinePositioning::Vertical { start, length } => (
                Point { x: start.x as int, y: start.y as int },
                Point { x: start.x as int, y: start.y + length },
            ),
            LinePositioning::BetweenPoints { start, end } => (
                Point { x: start.x as int, y: start.y as int },
                Point { x: end.x as int, y: end.y as int },
            ),
        }
    }

    /// The bounding box of the line's two ends.
    pub fn limits(&self) -> (r: Limits)
        requires
            self.valid(),
        ensures
            r.lo().x == min_int(self.ends().0.x, self.ends().1.x),
            r.lo().y == min_int(self.ends().0.y, self.ends().1.y),
            r.hi().x == max_int(self.ends().0.x, self.ends().1.x),
            r.hi().y == max_int(self.ends().0.y, self.ends().1.y),
            r.wf(),
    {
        let (a, b) = match self {
            LinePositioning::Horizontal { start, length } => (
                *start,
                Point::new(start.x + *length, start.y),
            ),
            LinePositioning::Vertical { start, length } => (
                *start,
                Point::new(start.x, start.y + *length),
            ),
            LinePositioning::BetweenPoints { start, end } => (*start, *end),
        };
        let lo = Point::new(
            if a.x <= b.x {
                a.x
            } else {
                b.x
            },
            if a.y <= b.y {
                a.y
            } else {
                b.y
            },
        );
        let hi = Point::new(
            if a.x >= b.x {
                a.x
            } else {
                b.x
            },
            if a.y >= b.y {
                a.y
            } else {
                b.y
            },
        );
        Limits::new(lo, hi)
    }
}

impl crate::scale::Shiftable for LinePositioning {
    open spec fn shift_req(&self, amount: Point<i32>) -> bool {
        match *self {
            LinePositioning::Horizontal { start, .. } => crate::scale::shift_fits(start, amount),
            LinePositioning::Vertical { start, .. } => crate::scale::shift_fits(start, amount),
            LinePositioning::BetweenPoints { start, end } => crate::scale::shift_fits(start, amount)
                && crate::scale::shift_fits(end, amount),
        }
    }

    /// The same line moved by `amount`; lengths do not change.
    open spec fn shift_spec(&self, amount: Point<i32>) -> LinePositioning {
        let mv = |p: Point<i32>| Point { x: (p.x + amount.x) as i32, y: (p.y + amount.y) as i32 };
        match *self {
            LinePositioning::Horizontal { start, length } => LinePositioning::Horizontal {
                start: mv(start),
                length,
            },
            LinePositioning::Vertical { start, length } => LinePositioning::Vertical {
                start: mv(start),
                length,
            },
            LinePositioning::BetweenPoints { start, end } => LinePositioning::BetweenPoints {
                start: mv(start),
                end: mv(end),
            },
        }
    }

    fn shift_by(self, amount: Point<i32>) -> (r: LinePositioning) {
        match self {
            LinePositioning::Horizontal { start, length } => LinePositioning::Horizontal {
                start: Point::new(start.x + amount.x, start.y + amount.y),
                length,
            },
            LinePositioning::Vertical { start, length } => LinePositioning::Vertical {
                start: Point::new(start.x + amount.x, start.y + amount.y),
                length,
            },
            LinePositioning::BetweenPoints { start, end } => LinePositioning::BetweenPoints {
                start: Point::new(start.x + amount.x, start.y + amount.y),
                end: Point::new(end.x + amount.x, end.y + amount.y),
            },
        }
    }
}

/// How far the minor coordinate has moved after `i` steps along a major axis of `major`
/// steps, when the line rises `minor <= major` over it: `i * minor / major`, rounded to the
/// nearest integer (halves round up).
pub open spec fn minor_offset(i: int, major: int, minor: int) -> int {
    if major == 0 {
        0
    } else {
        (2 * i * minor + major) / (2 * major)
    }
}

/// The ends of a segment in drawing order: the one of smaller x first, or of smaller y when
/// the x are equal. Both directions of travel thus draw the same pixels.
pub open spec fn ordered_ends(a: Point<i32>, b: Point<i32>) -> (Point<i32>, Point<i32>) {
    if a.x < b.x || (a.x == b.x && a.y <= b.y) {
        (a, b)
    } else {
        (b, a)
    }
}

/// The number of pixels of the segment from `a` to `b`, both ends included.
pub open spec fn segment_len(a: Point<i32>, b: Point<i32>) -> int {
    max_int(abs_int(b.x - a.x), abs_int(b.y - a.y)) + 1
}

/// The `i`-th pixel of the segment from `a` to `b`: one step along the major axis at a time,
/// the minor axis following the nearest whole position.
pub open spec fn segment_point(a: Point<i32>, b: Point<i32>, i: int) -> Point<int> {
    let (p, q) = ordered_ends(a, b);
    let dx = q.x - p.x;
    let ady = abs_int(q.y - p.y);
    let (mx, my) = if dx >= ady {
        (i, minor_offset(i, dx, ady))
    } else {
        (minor_offset(i, ady, dx), i)
    };
    Point {
        x: p.x + mx,
        y: if q.y >= p.y {
            p.y + my
        } else {
            p.y - my
        },
    }
}

/// `r` holds the pixels of the segment from `a` to `b` in order.
pub open spec fn is_segment(r: Seq<Point<u32>>, a: Point<i32>, b: Point<i32>) -> bool {
    &&& r.len() == segment_len(a, b)
    &&& forall|i: int|
        0 <= i < r.len() ==> #[trigger] r[i] == sat_point(
            segment_point(a, b, i).x,
            segment_point(a, b, i).y,
        )
}

/// The `idx`-th pixel of a horizontal (or vertical) line from `start` over `length` pixels,
/// repeated at every perpendicular offset from `-thickness` to `+thickness`.
pub open spec fn flat_point(
    start: Point<i32>,
    length: int,
    thickness: int,
    horizontal: bool,
    idx: int,
) -> Point<int> {
    let n = length + 1;
    let s = idx / n - thickness;
    let k = idx % n;
    if horizontal {
        Point { x: start.x + k, y: start.y + s }
    } else {
        Point { x: start.x + s, y: start.y + k }
    }
}

/// `r` holds the pixels of a thick horizontal (or vertical) line, one copy of the base line
/// per perpendicular offset, from the lowest offset up.
pub open spec fn is_flat_fill(
    r: Seq<Point<u32>>,
    start: Point<i32>,
    length: int,
    thickness: int,
    horizontal: bool,
) -> bool {
    &&& r.len() == (2 * thickness + 1) * (length + 1)
    &&& forall|i: int|
        0 <= i < r.len() ==> #[trigger] r[i] == sat_point(
            flat_point(start, length, thickness, horizontal, i).x,
            flat_point(start, length, thickness, horizontal, i).y,
        )
}

/// The pixels that a solid line of the given thickness at `pos` covers.
pub open spec fn is_line_fill(r: Seq<Point<u32>>, pos: LinePositioning, thickness: u32) -> bool {
    match pos {
        LinePositioning::Horizontal { start, length } => is_flat_fill(
            r,
            start,
            length as int,
            thickness as int,
            true,
        ),
        LinePositioning::Vertical { start, length } => is_flat_fill(
            r,
            start,
            length as int,
            thickness as int,
            false,
        ),
        LinePositioning::BetweenPoints { start, end } => is_segment(r, start, end),
    }
}

/// After `major` steps the minor offset has reached `minor`, and on the way it never leaves
/// `[0, minor]`.
pub proof fn lemma_minor_offset_bounds(i: int, major: int, minor: int)
    requires
        0 <= minor <= major,
        0 <= i <= major,
    ensures
        0 <= minor_offset(i, major, minor) <= minor,
        minor_offset(major, major, minor) == minor,
        minor_offset(0, major, minor) == 0,
{
    if major > 0 {
        let d = 2 * major;
        assert(0 <= 2 * i * minor + major <= 2 * major * minor + major) by (nonlinear_arith)
            requires
                0 <= i <= major,
                0 <= minor,
                0 < major,
        ;
        lemma_fundamental_div_mod_converse(2 * major * minor + major, d, minor, major);
        assert(2 * major * minor + major == minor * d + major) by (nonlinear_arith)
            requires
                d == 2 * major,
        ;
        assert((2 * i * minor + major) / d <= (2 * major * minor + major) / d) by (nonlinear_arith)
            requires
                2 * i * minor + major <= 2 * major * minor + major,
                0 < d,
        ;
        assert(0 <= (2 * i * minor + major) / d) by (nonlinear_arith)
            requires
                0 <= 2 * i * minor + major,
                0 < d,
        ;
        lemma_fundamental_div_mod_converse(major, d, 0, major);
        assert(2 * 0 * minor + major == major) by (nonlinear_arith);
    }
}

/// The minor offsets of every step from `0` to `major`, computed with an error accumulator.
fn minor_offsets(major: u64, minor: u64) -> (r: Vec<u64>)
    requires
        minor <= major <= u32::MAX,
    ensures
        r@.len() == major + 1,
        forall|i: int| 0 <= i <= major ==> #[trigger] r@[i] == minor_offset(i, major as int, minor as int),
        forall|i: int| 0 <= i <= major ==> #[trigger] r@[i] <= minor,
{
    let mut r: Vec<u64> = Vec::new();
    if major == 0 {
        r.push(0);
        return r;
    }
    // e == 2 * i * minor + major - 2 * major * k, kept in [0, 2 * major)
    let mut e: u64 = major;
    let mut k: u64 = 0;
    let mut i: u64 = 0;
    let ghost im: int = 0;
    let ghost mk: int = 0;
    proof {
        assert(0 * minor == 0) by (nonlinear_arith);
        assert(major * 0 == 0) by (nonlinear_arith);
    }
    while i <= major
        invariant
            0 < major <= u32::MAX,
            minor <= major,
            i <= major + 1,
            k <= i,
            r@.len() == i,
            im == i * minor,
            mk == major * k,
            e + 2 * mk == 2 * im + major,
            0 <= e < 2 * major,
            forall|j: int| 0 <= j < i ==> #[trigger] r@[j] == minor_offset(j, major as int, minor as int),
            forall|j: int| 0 <= j < i ==> #[trigger] r@[j] <= minor,
        decreases major + 1 - i,
    {
        proof {
            assert(k * (2 * major) == 2 * mk) by (nonlinear_arith)
                requires
                    mk == major * k,
            ;
            assert(2 * i * minor == 2 * im) by (nonlinear_arith)
                requires
                    im == i * minor,
            ;
            lemma_fundamental_div_mod_converse(2 * im + major, 2 * major, k as int, e as int);
            lemma_minor_offset_bounds(i as int, major as int, minor as int);
        }
        r.push(k);
        e = e + 2 * minor;
        proof {
            assert((i + 1) * minor == im + minor) by (nonlinear_arith)
                requires
                    im == i * minor,
            ;
            im = im + minor;
        }
        if e >= 2 * major {
            e = e - 2 * major;
            proof {
                assert(major * (k + 1) == mk + major) by (nonlinear_arith)
                    requires
                        mk == major * k,
                ;
                mk = mk + major;
            }
            k = k + 1;
        }
        i = i + 1;
    }
    r
}

/// The pixels of the segment from `a` to `b`, both ends included, in drawing order.
pub fn segment_pixels(a: Point<i32>, b: Point<i32>) -> (r: Vec<Point<u32>>)
    ensures
        is_segment(r@, a, b),
{
    let (p, q) = if a.x < b.x || (a.x == b.x && a.y <= b.y) {
        (a, b)
    } else {
        (b, a)
    };
    let dx: u64 = (q.x as i64 - p.x as i64) as u64;
    let dyi: i64 = q.y as i64 - p.y as i64;
    let ady: u64 = if dyi >= 0 {
        dyi as u64
    } else {
        (-dyi) as u64
    };
    let up = dyi >= 0;
    let mut r: Vec<Point<u32>> = Vec::new();
    if dx >= ady {
        let offs = minor_offsets(dx, ady);
        let mut i: u64 = 0;
        while i <= dx
            invariant
                (p, q) == ordered_ends(a, b),
                dx == q.x - p.x,
                ady == abs_int(q.y - p.y),
                up == (q.y >= p.y),
                dx >= ady,
                dx <= u32::MAX,
                i <= dx + 1,
                offs@.len() == dx + 1,
                forall|j: int| 0 <= j <= dx ==> #[trigger] offs@[j] == minor_offset(j, dx as int, ady as int),
                forall|j: int| 0 <= j <= dx ==> #[trigger] offs@[j] <= ady,
                r@.len() == i,
                forall|j: int|
                    0 <= j < i ==> #[trigger] r@[j] == sat_point(
                        segment_point(a, b, j).x,
                        segment_point(a, b, j).y,
                    ),
            decreases dx + 1 - i,
        {
            let k = offs[i as usize];
            let x = p.x as i64 + i as i64;
            let y = if up {
                p.y as i64 + k as i64
            } else {
                p.y as i64 - k as i64
            };
            proof {
                let sp = segment_point(a, b, i as int);
                assert(sp.x == x && sp.y == y);
            }
            r.push(Point { x: to_u32_saturating(x), y: to_u32_saturating(y) });
            i = i + 1;
        }
    } else {
        let offs = minor_offsets(ady, dx);
        let mut i: u64 = 0;
        while i <= ady
            invariant
                (p, q) == ordered_ends(a, b),
                dx == q.x - p.x,
                ady == abs_int(q.y - p.y),
                up == (q.y >= p.y),
                dx < ady,
                ady <= u32::MAX,
                i <= ady + 1,
                offs@.len() == ady + 1,
                forall|j: int| 0 <= j <= ady ==> #[trigger] offs@[j] == minor_offset(j, ady as int, dx as int),
                forall|j: int| 0 <= j <= ady ==> #[trigger] offs@[j] <= dx,
                r@.len() == i,
                forall|j: int|
                    0 <= j < i ==> #[trigger] r@[j] == sat_point(
                        segment_point(a, b, j).x,
                        segment_point(a, b, j).y,
                    ),
            decreases ady + 1 - i,
        {
            let k = offs[i as usize];
            let x = p.x as i64 + k as i64;
            let y = if up {
                p.y as i64 + i as i64
            } else {
                p.y as i64 - i as i64
            };
            proof {
                let sp = segment_point(a, b, i as int);
                assert(sp.x == x && sp.y == y);
            }
            r.push(Point { x: to_u32_saturating(x), y: to_u32_saturating(y) });
            i = i + 1;
        }
    }
    r
}

/// The pixels of a horizontal (or vertical) line from `start` over `length` pixels, repeated
/// at every perpendicular offset from `-thickness` to `+thickness`.
pub fn flat_pixels(start: Point<i32>, length: i32, thickness: u32, horizontal: bool) -> (r: Vec<
    Point<u32>,
>)
    requires
        length >= 0,
    ensures
        is_flat_fill(r@, start, length as int, thickness as int, horizontal),
{
    let n: u64 = length as u64 + 1;
    let copies: u64 = 2 * thickness as u64 + 1;
    let mut r: Vec<Point<u32>> = Vec::new();
    let mut si: u64 = 0;
    proof {
        assert(0 * n == 0) by (nonlinear_arith);
    }
    while si < copies
        invariant
            n == length + 1,
            copies == 2 * thickness + 1,
            si <= copies,
            r@.len() == si * n,
            forall|i: int|
                0 <= i < r@.len() ==> #[trigger] r@[i] == sat_point(
                    flat_point(start, length as int, thickness as int, horizontal, i).x,
                    flat_point(start, length as int, thickness as int, horizontal, i).y,
                ),
        decreases copies - si,
    {
        let mut k: u64 = 0;
        while k < n
            invariant
                n == length + 1,
                copies == 2 * thickness + 1,
                si < copies,
                k <= n,
                r@.len() == si * n + k,
                forall|i: int|
                    0 <= i < r@.len() ==> #[trigger] r@[i] == sat_point(
                        flat_point(start, length as int, thickness as int, horizontal, i).x,
                        flat_point(start, length as int, thickness as int, horizontal, i).y,
                    ),
            decreases n - k,
        {
            proof {
                lemma_fundamental_div_mod_converse(si * n + k, n as int, si as int, k as int);
            }
            let s: i64 = si as i64 - thickness as i64;
            let x: i64;
            let y: i64;
            if horizontal {
                x = start.x as i64 + k as i64;
                y = start.y as i64 + s;
            } else {
                x = start.x as i64 + s;
                y = start.y as i64 + k as i64;
            }
            r.push(Point { x: to_u32_saturating(x), y: to_u32_saturating(y) });
            k = k + 1;
        }
        proof {
            assert((si + 1) * n == si * n + n) by (nonlinear_arith);
        }
        si = si + 1;
    }
    r
}

/// A line: where it lies and how it is drawn.
#[derive(Debug, Clone, Copy, PartialEq, Eq)]
pub struct Line {
    pub style: LineStyle,
    pub positioning: LinePositioning,
}

impl Line {
    pub fn new(positioning: LinePositioning, style: LineStyle) -> (r: Line)
        ensures
            r.positioning == positioning,
            r.style == style,
    {
        Line { style, positioning }
    }

    /// A line in the default style.
    pub fn default(positioning: LinePositioning) -> (r: Line)
        ensures
            r.positioning == positioning,
            r.style == (LineStyle::Solid { color: Color { r: 255, g: 255, b: 255 }, thickness: 0 }),
    {
        Line { style: LineStyle::default(), positioning }
    }

    pub fn style(&self) -> (r: &LineStyle)
        ensures
            *r == self.style,
    {
        &self.style
    }

    /// The bounding box of the line's ends.
    pub fn limits(&self) -> (r: Limits)
        requires
            self.positioning.valid(),
        ensures
            r.lo().x == min_int(self.positioning.ends().0.x, self.positioning.ends().1.x),
            r.lo().y == min_int(self.positioning.ends().0.y, self.positioning.ends().1.y),
            r.hi().x == max_int(self.positioning.ends().0.x, self.positioning.ends().1.x),
            r.hi().y == max_int(self.positioning.ends().0.y, self.positioning.ends().1.y),
            r.wf(),
    {
        self.positioning.limits()
    }

    /// The box that the line covers with its thickness: its ends' box widened by the
    /// thickness on every side.
    pub fn drawable_limits(&self) -> (r: Limits)
        requires
            self.positioning.valid(),
            ({
                let t = self.style.thickness_spec() as int;
                let (a, b) = self.positioning.ends();
                &&& min_int(a.x, b.x) - t >= i32::MIN
                &&& min_int(a.y, b.y) - t >= i32::MIN
                &&& max_int(a.x, b.x) + t <= i32::MAX
                &&& max_int(a.y, b.y) + t <= i32::MAX
            }),
        ensures
            ({
                let t = self.style.thickness_spec() as int;
                let (a, b) = self.positioning.ends();
                &&& r.lo().x == min_int(a.x, b.x) - t
                &&& r.lo().y == min_int(a.y, b.y) - t
                &&& r.hi().x == max_int(a.x, b.x) + t
                &&& r.hi().y == max_int(a.y, b.y) + t
            }),
    {
        let l = self.limits();
        let t = self.style.thickness() as i64;
        let lo = *l.min();
        let hi = *l.max();
        Limits::new(
            Point::new((lo.x as i64 - t) as i32, (lo.y as i64 - t) as i32),
            Point::new((hi.x as i64 + t) as i32, (hi.y as i64 + t) as i32),
        )
    }

    /// The pixels of the line itself, without thickness.
    pub fn full_drawable_points(&self) -> (r: Vec<Point<u32>>)
        requires
            self.positioning.valid(),
        ensures
            is_line_fill(r@, self.positioning, 0),
    {
        match self.positioning {
            LinePositioning::Horizontal { start, length } => flat_pixels(start, length, 0, true),
            LinePositioning::Vertical { start, length } => flat_pixels(start, length, 0, false),
            LinePositioning::BetweenPoints { start, end } => segment_pixels(start, end),
        }
    }

    /// The line's mask: for a solid line, the pixels it covers in its color; thickness widens
    /// horizontal and vertical lines on both sides. A dashed line is an error.
    pub fn get_mask(&self) -> (r: Result<Vec<MaskPoints>, PlotError>)
        requires
            self.positioning.valid(),
        ensures
            match self.style {
                LineStyle::Dashed { .. } => r == Err::<Vec<MaskPoints>, PlotError>(
                    PlotError::DashedLineUnsupported,
                ),
                LineStyle::Solid { color, thickness } => r is Ok && r->Ok_0@.len() == 1
                    && r->Ok_0@[0].color == color && is_line_fill(
                    r->Ok_0@[0].points@,
                    self.positioning,
                    thickness,
                ),
            },
    {
        match self.style {
            LineStyle::Dashed { .. } => Err(PlotError::DashedLineUnsupported),
            LineStyle::Solid { color, thickness } => {
                let points = match self.positioning {
                    LinePositioning::Horizontal { start, length } => flat_pixels(
                        start,
                        length,
                        thickness,
                        true,
                    ),
                    LinePositioning::Vertical { start, length } => flat_pixels(
                        start,
                        length,
                        thickness,
                        false,
                    ),
                    LinePositioning::BetweenPoints { start, end } => segment_pixels(start, end),
                };
                let mut masks: Vec<MaskPoints> = Vec::new();
                masks.push(MaskPoints { points, color });
                Ok(masks)
            },
        }
    }
}

/// A segment drawn from `a` to `b` and one drawn from `b` to `a` are the same pixels in the
/// same order, and their first and last pixels are the two ends.
pub proof fn lemma_segment_symmetric(a: Point<i32>, b: Point<i32>)
    ensures
        segment_len(a, b) == segment_len(b, a),
        forall|i: int| #[trigger] segment_point(a, b, i) == segment_point(b, a, i),
        ({
            let first = segment_point(a, b, 0);
            let last = segment_point(a, b, segment_len(a, b) - 1);
            let pa = Point { x: a.x as int, y: a.y as int };
            let pb = Point { x: b.x as int, y: b.y as int };
            (first == pa && last == pb) || (first == pb && last == pa)
        }),
{
    let (p, q) = ordered_ends(a, b);
    assert(ordered_ends(a, b) == ordered_ends(b, a));
    let dx = q.x - p.x;
    let ady = abs_int(q.y - p.y);
    let n = segment_len(a, b) - 1;
    assert(n == if dx >= ady { dx } else { ady });
    let pp = Point { x: p.x as int, y: p.y as int };
    let qq = Point { x: q.x as int, y: q.y as int };
    if dx >= ady {
        lemma_minor_offset_bounds(dx, dx, ady);
        lemma_minor_offset_bounds(0, dx, ady);
        assert(segment_point(a, b, 0) == pp);
        assert(segment_point(a, b, n) == qq);
    } else {
        lemma_minor_offset_bounds(ady, ady, dx);
        lemma_minor_offset_bounds(0, ady, dx);
        assert(segment_point(a, b, 0) == pp);
        assert(segment_point(a, b, n) == qq);
    }
}

} // verus!
