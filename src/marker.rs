use crate::common::{Color, MaskPoints};
use crate::limits::Limits;
use crate::point::{is_rect_fill, rect_pixel, sat_point, Point};
use vstd::arithmetic::div_mod::lemma_fundamental_div_mod_converse;
use vstd::prelude::*;

verus! {

/// The glyph drawn at each data point; `size` is its radius in pixels.
#[derive(Debug, Clone, Copy, PartialEq, Eq)]
pub enum MarkerStyle {
    FilledSquare { size: u32, color: Color },
    HollowSquare { size: u32, color: Color },
    FilledCircle { size: u32, color: Color },
    HollowCircle { size: u32, color: Color },
}

impl MarkerStyle {
    pub open spec fn size_spec(self) -> u32 {
        match self {
            MarkerStyle::FilledSquare { size, .. } => size,
            MarkerStyle::HollowSquare { size, .. } => size,
            MarkerStyle::FilledCircle { size, .. } => size,
            MarkerStyle::HollowCircle { size, .. } => size,
        }
    }

    pub open spec fn color_spec(self) -> Color {
        match self {
            MarkerStyle::FilledSquare { color, .. } => color,
            MarkerStyle::HollowSquare { color, .. } => color,
            MarkerStyle::FilledCircle { color, .. } => color,
            MarkerStyle::HollowCircle { color, .. } => color,
        }
    }

    /// A single white pixel.
    pub fn default() -> (r: MarkerStyle)
        ensures
            r == (MarkerStyle::FilledSquare { size: 0, color: Color { r: 255, g: 255, b: 255 } }),
    {
        MarkerStyle::FilledSquare { size: 0, color: Color::white() }
    }

    /// A white filled square of the given radius.
    pub fn default_with_size(size: u32) -> (r: MarkerStyle)
        ensures
            r == (MarkerStyle::FilledSquare { size, color: Color { r: 255, g: 255, b: 255 } }),
    {
        MarkerStyle::FilledSquare { size, color: Color::white() }
    }

    pub fn size(&self) -> (r: u32)
        ensures
            r == self.size_spec(),
    {
        match self {
            MarkerStyle::FilledSquare { size, .. } => *size,
            MarkerStyle::HollowSquare { size, .. } => *size,
            MarkerStyle::FilledCircle { size, .. } => *size,
            MarkerStyle::HollowCircle { size, .. } => *size,
        }
    }

    pub fn color(&self) -> (r: Color)
        ensures
            r == self.color_spec(),
    {
        match self {
            MarkerStyle::FilledSquare { color, .. } => *color,
            MarkerStyle::HollowSquare { color, .. } => *color,
            MarkerStyle::FilledCircle { color, .. } => *color,
            MarkerStyle::HollowCircle { color, .. } => *color,
        }
    }
}

/// A marker of some style centred on a point.
#[derive(Debug, Clone, Copy, PartialEq, Eq)]
pub struct Marker {
    pub style: MarkerStyle,
    pub center: Point<i32>,
}

/// `v` clamped to `[-r, r]`.
pub open spec fn clamp_offset(v: int, r: int) -> int {
    if v < -r {
        -r
    } else if v > r {
        r
    } else {
        v
    }
}

/// The `j`-th step of a quarter arc of radius `r`, clamped to the marker's box.
pub open spec fn arc_step(arc: Seq<Point<i32>>, r: int, j: int) -> Point<int> {
    Point { x: clamp_offset(arc[j].x as int, r), y: clamp_offset(arc[j].y as int, r) }
}

/// The `t`-th of the four mirror images (`t` in `0..4`) of the `j`-th arc step around `c`.
pub open spec fn mirrored(c: Point<i32>, arc: Seq<Point<i32>>, r: int, j: int, t: int) -> Point<
    int,
> {
    let s = arc_step(arc, r, j);
    let dx = if t % 2 == 0 {
        s.x
    } else {
        -s.x
    };
    let dy = if t < 2 {
        s.y
    } else {
        -s.y
    };
    Point { x: c.x + dx, y: c.y + dy }
}

/// The column that joins the two mirror images of the `j`-th arc step on one side of `c`
/// (`left` picks the side), from its lower end to its upper end.
pub open spec fn column_ends(c: Point<i32>, arc: Seq<Point<i32>>, r: int, j: int, left: bool) -> (
    Point<i32>,
    Point<i32>,
) {
    let s = arc_step(arc, r, j);
    let x = if left {
        c.x - s.x
    } else {
        c.x + s.x
    };
    (Point { x: x as i32, y: (c.y - s.y) as i32 }, Point { x: x as i32, y: (c.y + s.y) as i32 })
}

/// Whether a marker of radius `size` around `c` stays inside the `i32` range.
pub open spec fn marker_fits(c: Point<i32>, size: int) -> bool {
    i32::MIN <= c.x - size && c.x + size <= i32::MAX && i32::MIN <= c.y - size && c.y + size
        <= i32::MAX
}

/// Whether `p` is one of the pixels of `masks`.
pub open spec fn covers(masks: Seq<MaskPoints>, p: Point<u32>) -> bool {
    exists|i: int, k: int|
        0 <= i < masks.len() && 0 <= k < masks[i].points@.len() && #[trigger] masks[i].points@[k]
            == p
}

/// The masks of a marker at `c` of the given style, for the quarter arc `arc` (circles only).
pub open spec fn is_marker_mask(
    masks: Seq<MaskPoints>,
    style: MarkerStyle,
    c: Point<i32>,
    arc: Seq<Point<i32>>,
) -> bool {
    let r = style.size_spec() as int;
    let lo = Point { x: (c.x - r) as i32, y: (c.y - r) as i32 };
    let hi = Point { x: (c.x + r) as i32, y: (c.y + r) as i32 };
    &&& forall|i: int| 0 <= i < masks.len() ==> (#[trigger] masks[i]).color == style.color_spec()
    &&& match style {
        MarkerStyle::FilledSquare { .. } => masks.len() == 1 && is_rect_fill(
            masks[0].points@,
            lo,
            hi,
        ),
        MarkerStyle::HollowSquare { .. } => {
            &&& masks.len() == 4
            &&& is_rect_fill(masks[0].points@, Point { x: lo.x, y: hi.y }, hi)
            &&& is_rect_fill(masks[1].points@, lo, Point { x: hi.x, y: lo.y })
            &&& is_rect_fill(masks[2].points@, Point { x: hi.x, y: lo.y }, hi)
            &&& is_rect_fill(masks[3].points@, lo, Point { x: lo.x, y: hi.y })
        },
        MarkerStyle::FilledCircle { .. } => {
            &&& masks.len() == 2 * arc.len()
            &&& forall|j: int|
                0 <= j < arc.len() ==> {
                    &&& is_rect_fill(
                        (#[trigger] masks[2 * j]).points@,
                        column_ends(c, arc, r, j, false).0,
                        column_ends(c, arc, r, j, false).1,
                    )
                    &&& is_rect_fill(
                        masks[2 * j + 1].points@,
                        column_ends(c, arc, r, j, true).0,
                        column_ends(c, arc, r, j, true).1,
                    )
                }
        },
        MarkerStyle::HollowCircle { .. } => {
            &&& masks.len() == 1
            &&& masks[0].points@.len() == 4 * arc.len()
            &&& forall|j: int, t: int|
                0 <= j < arc.len() && 0 <= t < 4 ==> #[trigger] masks[0].points@[4 * j + t]
                    == sat_point(mirrored(c, arc, r, j, t).x, mirrored(c, arc, r, j, t).y)
        },
    }
}

fn clamp_to(v: i32, r: u32) -> (o: i64)
    ensures
        o == clamp_offset(v as int, r as int),
{
    let v = v as i64;
    let r = r as i64;
    if v < -r {
        -r
    } else if v > r {
        r
    } else {
        v
    }
}

fn single_mask(points: Vec<Point<u32>>, color: Color) -> (r: Vec<MaskPoints>)
    ensures
        r@.len() == 1,
        r@[0].points@ == points@,
        r@[0].color == color,
{
    let mut r: Vec<MaskPoints> = Vec::new();
    r.push(MaskPoints { points, color });
    r
}

impl Marker {
    pub fn new(center: Point<i32>, style: MarkerStyle) -> (r: Marker)
        ensures
            r.center == center,
            r.style == style,
    {
        Marker { center, style }
    }

    /// The box `[center - size, center + size]`.
    pub fn limits(&self) -> (r: Limits)
        requires
            marker_fits(self.center, self.style.size_spec() as int),
        ensures
            r.lo() == (Point {
                x: (self.center.x - self.style.size_spec()) as i32,
                y: (self.center.y - self.style.size_spec()) as i32,
            }),
            r.hi() == (Point {
                x: (self.center.x + self.style.size_spec()) as i32,
                y: (self.center.y + self.style.size_spec()) as i32,
            }),
    {
        let s = self.style.size() as i64;
        let c = self.center;
        Limits::new(
            Point::new((c.x as i64 - s) as i32, (c.y as i64 - s) as i32),
            Point::new((c.x as i64 + s) as i32, (c.y as i64 + s) as i32),
        )
    }

    pub fn style(&self) -> (r: &MarkerStyle)
        ensures
            *r == self.style,
    {
        &self.style
    }

    pub fn center(&self) -> (r: &Point<i32>)
        ensures
            *r == self.center,
    {
        &self.center
    }

    /// The marker's masks. A filled square covers its whole box, a hollow one the four edges
    /// (top, bottom, right, left). Circles follow the quarter arc `arc` of steps `(dx, dy)`,
    /// each clamped to `[-size, size]`: a hollow circle mirrors every step into the four
    /// quadrants; a filled one joins the mirror images above and below the centre by a column
    /// on each side. Squares ignore `arc`.
    pub fn get_mask(&self, arc: &Vec<Point<i32>>) -> (r: Vec<MaskPoints>)
        requires
            marker_fits(self.center, self.style.size_spec() as int),
        ensures
            is_marker_mask(r@, self.style, self.center, arc@),
    {
        let size = self.style.size();
        let color = self.style.color();
        let c = self.center;
        let s = size as i64;
        let lo = Point::new((c.x as i64 - s) as i32, (c.y as i64 - s) as i32);
        let hi = Point::new((c.x as i64 + s) as i32, (c.y as i64 + s) as i32);
        match self.style {
            MarkerStyle::FilledSquare { .. } => single_mask(Point::range(&lo, &hi), color),
            MarkerStyle::HollowSquare { .. } => {
                let mut masks: Vec<MaskPoints> = Vec::new();
                masks.push(
                    MaskPoints { points: Point::range(&Point::new(lo.x, hi.y), &hi), color },
                );
                masks.push(
                    MaskPoints { points: Point::range(&lo, &Point::new(hi.x, lo.y)), color },
                );
                masks.push(
                    MaskPoints { points: Point::range(&Point::new(hi.x, lo.y), &hi), color },
                );
                masks.push(
                    MaskPoints { points: Point::range(&lo, &Point::new(lo.x, hi.y)), color },
                );
                masks
            },
            MarkerStyle::FilledCircle { .. } => {
                let mut masks: Vec<MaskPoints> = Vec::new();
                let mut j: usize = 0;
                while j < arc.len()
                    invariant
                        j <= arc@.len(),
                        masks@.len() == 2 * j,
                        size == self.style.size_spec(),
                        color == self.style.color_spec(),
                        marker_fits(c, size as int),
                        c == self.center,
                        self.style is FilledCircle,
                        forall|i: int| 0 <= i < masks@.len() ==> (#[trigger] masks@[i]).color == color,
                        forall|jj: int|
                            0 <= jj < j ==> {
                                &&& is_rect_fill(
                                    (#[trigger] masks@[2 * jj]).points@,
                                    column_ends(c, arc@, size as int, jj, false).0,
                                    column_ends(c, arc@, size as int, jj, false).1,
                                )
                                &&& is_rect_fill(
                                    masks@[2 * jj + 1].points@,
                                    column_ends(c, arc@, size as int, jj, true).0,
                                    column_ends(c, arc@, size as int, jj, true).1,
                                )
                            },
                    decreases arc@.len() - j,
                {
                    let dx = clamp_to(arc[j].x, size);
                    let dy = clamp_to(arc[j].y, size);
                    let right_lo = Point::new((c.x as i64 + dx) as i32, (c.y as i64 - dy) as i32);
                    let right_hi = Point::new((c.x as i64 + dx) as i32, (c.y as i64 + dy) as i32);
                    let left_lo = Point::new((c.x as i64 - dx) as i32, (c.y as i64 - dy) as i32);
                    let left_hi = Point::new((c.x as i64 - dx) as i32, (c.y as i64 + dy) as i32);
                    let right = Point::range(&right_lo, &right_hi);
                    let left = Point::range(&left_lo, &left_hi);
                    proof {
                        assert((right_lo, right_hi) == column_ends(c, arc@, size as int, j as int, false));
                        assert((left_lo, left_hi) == column_ends(c, arc@, size as int, j as int, true));
                    }
                    let ghost before = masks@;
                    masks.push(MaskPoints { points: right, color });
                    masks.push(MaskPoints { points: left, color });
                    proof {
                        assert(2 * (j + 1) == 2 * j + 2);
                        assert forall|jj: int| 0 <= jj < j + 1 implies {
                            &&& is_rect_fill(
                                (#[trigger] masks@[2 * jj]).points@,
                                column_ends(c, arc@, size as int, jj, false).0,
                                column_ends(c, arc@, size as int, jj, false).1,
                            )
                            &&& is_rect_fill(
                                masks@[2 * jj + 1].points@,
                                column_ends(c, arc@, size as int, jj, true).0,
                                column_ends(c, arc@, size as int, jj, true).1,
                            )
                        } by {
                            if jj < j {
                                assert(masks@[2 * jj] == before[2 * jj]);
                                assert(masks@[2 * jj + 1] == before[2 * jj + 1]);
                            }
                        }
                    }
                    j = j + 1;
                }
                masks
            },
            MarkerStyle::HollowCircle { .. } => {
                let mut points: Vec<Point<u32>> = Vec::new();
                let mut j: usize = 0;
                while j < arc.len()
                    invariant
                        j <= arc@.len(),
                        points@.len() == 4 * j,
                        size == self.style.size_spec(),
                        marker_fits(c, size as int),
                        c == self.center,
                        forall|jj: int, t: int|
                            0 <= jj < j && 0 <= t < 4 ==> #[trigger] points@[4 * jj + t]
                                == sat_point(
                                mirrored(c, arc@, size as int, jj, t).x,
                                mirrored(c, arc@, size as int, jj, t).y,
                            ),
                    decreases arc@.len() - j,
                {
                    let dx = clamp_to(arc[j].x, size);
                    let dy = clamp_to(arc[j].y, size);
                    let cx = c.x as i64;
                    let cy = c.y as i64;
                    points.push(Point::new(cx + dx, cy + dy).to_pixel());
                    points.push(Point::new(cx - dx, cy + dy).to_pixel());
                    points.push(Point::new(cx + dx, cy - dy).to_pixel());
                    points.push(Point::new(cx - dx, cy - dy).to_pixel());
                    proof {
                        assert forall|jj: int, t: int|
                            0 <= jj < j + 1 && 0 <= t < 4 implies #[trigger] points@[4 * jj + t]
                                == sat_point(
                                mirrored(c, arc@, size as int, jj, t).x,
                                mirrored(c, arc@, size as int, jj, t).y,
                            ) by {
                            if jj < j {
                                assert(4 * jj + t < 4 * j);
                            } else {
                                assert(jj == j);
                            }
                        }
                    }
                    j = j + 1;
                }
                single_mask(points, color)
            },
        }
    }
}

/// A filled circle covers every pixel of the hollow circle of the same radius, centre and
/// arc, and also the centre, which the hollow one leaves out: so it is a strict superset.
/// The arc must be a true quarter arc of radius `r >= 1`: steps in `[0, r]` on both axes,
/// never the centre itself, and one of them the top `(0, r)`.
pub proof fn lemma_filled_circle_covers_hollow(
    c: Point<i32>,
    r: u32,
    color: Color,
    arc: Seq<Point<i32>>,
    filled: Seq<MaskPoints>,
    hollow: Seq<MaskPoints>,
)
    requires
        r >= 1,
        0 <= c.x - r,
        0 <= c.y - r,
        c.x + r <= i32::MAX,
        c.y + r <= i32::MAX,
        forall|j: int|
            0 <= j < arc.len() ==> 0 <= (#[trigger] arc[j]).x <= r && 0 <= arc[j].y <= r && !(
            arc[j].x == 0 && arc[j].y == 0),
        exists|j: int| 0 <= j < arc.len() && #[trigger] arc[j] == (Point::<i32> { x: 0, y: r as i32 }),
        is_marker_mask(filled, MarkerStyle::FilledCircle { size: r, color }, c, arc),
        is_marker_mask(hollow, MarkerStyle::HollowCircle { size: r, color }, c, arc),
    ensures
        forall|p: Point<u32>| covers(hollow, p) ==> covers(filled, p),
        covers(filled, Point { x: c.x as u32, y: c.y as u32 }),
        !covers(hollow, Point { x: c.x as u32, y: c.y as u32 }),
{
    let ri = r as int;
    assert forall|p: Point<u32>| covers(hollow, p) implies covers(filled, p) by {
        let (i, k) = choose|i: int, k: int|
            0 <= i < hollow.len() && 0 <= k < hollow[i].points@.len() && #[trigger] hollow[i].points@[k]
                == p;
        assert(i == 0);
        let j = k / 4;
        let t = k % 4;
        assert(k == 4 * j + t);
        let m = mirrored(c, arc, ri, j, t);
        assert(hollow[0].points@[4 * j + t] == sat_point(m.x, m.y));
        let s = arc_step(arc, ri, j);
        assert(s.x == arc[j].x && s.y == arc[j].y);
        let left = t % 2 == 1;
        let mi = if left {
            2 * j + 1
        } else {
            2 * j
        };
        assert(0 <= j < arc.len());
        assert(filled[2 * j].color == color);
        let (f, g) = column_ends(c, arc, ri, j, left);
        assert(is_rect_fill(filled[mi].points@, f, g));
        let fs = sat_point(f.x as int, f.y as int);
        let gs = sat_point(g.x as int, g.y as int);
        assert(fs.x == f.x && fs.y == f.y && gs.x == g.x && gs.y == g.y);
        let h = 2 * s.y + 1;
        assert(gs.y - fs.y + 1 == h);
        assert(1 * h == h) by (nonlinear_arith);
        assert(filled[mi].points@.len() == h);
        let kk = if t < 2 {
            2 * s.y
        } else {
            0
        };
        lemma_fundamental_div_mod_converse(kk, h, 0, kk);
        assert(rect_pixel(fs, h, kk) == p);
        assert(filled[mi].points@[kk] == p);
    }
    let j0 = choose|j: int| 0 <= j < arc.len() && #[trigger] arc[j] == (Point::<i32> { x: 0, y: r as i32 });
    assert(filled[2 * j0].color == color);
    let (f, g) = column_ends(c, arc, ri, j0, false);
    assert(is_rect_fill(filled[2 * j0].points@, f, g));
    let fs = sat_point(f.x as int, f.y as int);
    let gs = sat_point(g.x as int, g.y as int);
    assert(fs.x == f.x && fs.y == f.y && gs.x == g.x && gs.y == g.y);
    let h = 2 * ri + 1;
    assert(gs.y - fs.y + 1 == h);
    assert(1 * h == h) by (nonlinear_arith);
    lemma_fundamental_div_mod_converse(ri, h, 0, ri);
    assert(rect_pixel(fs, h, ri) == (Point { x: c.x as u32, y: c.y as u32 }));
    assert(filled[2 * j0].points@[ri] == (Point { x: c.x as u32, y: c.y as u32 }));
    if covers(hollow, Point { x: c.x as u32, y: c.y as u32 }) {
        let (i, k) = choose|i: int, k: int|
            0 <= i < hollow.len() && 0 <= k < hollow[i].points@.len() && #[trigger] hollow[i].points@[k]
                == (Point { x: c.x as u32, y: c.y as u32 });
        let j = k / 4;
        let t = k % 4;
        assert(k == 4 * j + t);
        assert(hollow[0].points@[4 * j + t] == sat_point(
            mirrored(c, arc, ri, j, t).x,
            mirrored(c, arc, ri, j, t).y,
        ));
        assert(arc_step(arc, ri, j).x == arc[j].x && arc_step(arc, ri, j).y == arc[j].y);
    }
}

} // verus!
