use crate::common::{MaskPoints, PlotError};
use crate::limits::Limits;
use crate::line::{is_line_fill, Line, LinePositioning, LineStyle};
use crate::point::Point;
use crate::glyphs::{bitmap_height, bitmap_width, glyph_fits};
use crate::grid_lines::NUM_GRID_SECTIONS;
use crate::limits::sample;
use crate::numfmt::{num_str, Decimal};
use crate::point::sat_u32;
use crate::text::{Label, Text, TextPositioning, TextStyle};
use vstd::prelude::*;

verus! {

/// Which axes are drawn, and in what line style.
#[derive(Debug, Clone, Copy, PartialEq, Eq)]
pub enum AxesPositioning {
    XOnly(LineStyle),
    YOnly(LineStyle),
    XY(LineStyle),
}

impl AxesPositioning {
    pub open spec fn line_style(self) -> LineStyle {
        match self {
            AxesPositioning::XOnly(ls) => ls,
            AxesPositioning::YOnly(ls) => ls,
            AxesPositioning::XY(ls) => ls,
        }
    }

    pub fn line_style_exec(&self) -> (r: LineStyle)
        ensures
            r == self.line_style(),
    {
        match self {
            AxesPositioning::XOnly(ls) => *ls,
            AxesPositioning::YOnly(ls) => *ls,
            AxesPositioning::XY(ls) => *ls,
        }
    }

    pub fn is_xy(&self) -> (r: bool)
        ensures
            r == self is XY,
    {
        matches!(self, AxesPositioning::XY(_))
    }

    pub open spec fn has_x(self) -> bool {
        !(self is YOnly)
    }

    pub open spec fn has_y(self) -> bool {
        !(self is XOnly)
    }
}

/// Axes of a graph, with the style of their tick labels.
#[derive(Debug, Clone, Copy, PartialEq, Eq)]
pub struct Axes {
    pub positioning: AxesPositioning,
    pub style: TextStyle,
}

/// The x axis along the bottom of the box `[lo, hi]`, pushed down by the line's thickness so that it stays
/// outside the box.
pub open spec fn x_axis_line(lo: Point<i32>, hi: Point<i32>, t: int) -> LinePositioning {
    LinePositioning::Horizontal {
        start: Point { x: lo.x, y: (lo.y - t) as i32 },
        length: (hi.x - lo.x) as i32,
    }
}

/// The y axis along the left of the box `[lo, hi]`, pushed left by the line's thickness.
pub open spec fn y_axis_line(lo: Point<i32>, hi: Point<i32>, t: int) -> LinePositioning {
    LinePositioning::Vertical {
        start: Point { x: (lo.x - t) as i32, y: lo.y },
        length: (hi.y - lo.y) as i32,
    }
}

/// The lines that axes at `pos` draw around the box `[lo, hi]`: the x axis first.
pub open spec fn axis_lines(pos: AxesPositioning, lo: Point<i32>, hi: Point<i32>) -> Seq<
    LinePositioning,
> {
    let t = pos.line_style().thickness_spec() as int;
    match pos {
        AxesPositioning::XOnly(_) => seq![x_axis_line(lo, hi, t)],
        AxesPositioning::YOnly(_) => seq![y_axis_line(lo, hi, t)],
        AxesPositioning::XY(_) => seq![x_axis_line(lo, hi, t), y_axis_line(lo, hi, t)],
    }
}

/// The box `[lo, hi]` is ordered, and with the line thickness `t` it leaves every axis
/// inside the `i32` range.
pub open spec fn axes_fit(lo: Point<i32>, hi: Point<i32>, t: int) -> bool {
    &&& lo.x <= hi.x
    &&& lo.y <= hi.y
    &&& hi.x - lo.x <= i32::MAX
    &&& hi.y - lo.y <= i32::MAX
    &&& lo.x - t >= i32::MIN
    &&& lo.y - t >= i32::MIN
}

/// `masks` draws `lines` in `style`, one mask per line, in order.
pub open spec fn draws_lines(masks: Seq<MaskPoints>, lines: Seq<LinePositioning>, style: LineStyle) -> bool {
    &&& masks.len() == lines.len()
    &&& forall|i: int|
        0 <= i < lines.len() ==> {
            &&& (#[trigger] masks[i]).color == style.color_spec()
            &&& is_line_fill(masks[i].points@, lines[i], style.thickness_spec())
        }
}

/// The mask of one line, which must be solid.
pub fn solid_line_mask(pos: LinePositioning, style: LineStyle) -> (r: MaskPoints)
    requires
        pos.valid(),
        style is Solid,
    ensures
        r.color == style.color_spec(),
        is_line_fill(r.points@, pos, style.thickness_spec()),
{
    let mut masks = match Line::new(pos, style).get_mask() {
        Ok(m) => m,
        Err(_) => Vec::new(),
    };
    masks.pop().unwrap()
}

impl Axes {
    pub fn new(positioning: AxesPositioning, style: TextStyle) -> (r: Axes)
        ensures
            r.positioning == positioning,
            r.style == style,
    {
        Axes { positioning, style }
    }

    pub fn positioning(&self) -> (r: &AxesPositioning)
        ensures
            *r == self.positioning,
    {
        &self.positioning
    }

    pub fn style(&self) -> (r: &TextStyle)
        ensures
            *r == self.style,
    {
        &self.style
    }

    /// The axis lines at the lower and left edges of `limits`, each moved outwards by its
    /// thickness so that it never covers the data. A dashed style is an error.
    pub fn get_mask(&self, limits: &Limits) -> (r: Result<Vec<MaskPoints>, PlotError>)
        requires
            axes_fit(limits.lo(), limits.hi(), self.positioning.line_style().thickness_spec() as int),
        ensures
            self.positioning.line_style() is Dashed ==> r == Err::<Vec<MaskPoints>, PlotError>(
                PlotError::DashedLineUnsupported,
            ),
            self.positioning.line_style() is Solid ==> r is Ok && draws_lines(
                r->Ok_0@,
                axis_lines(self.positioning, limits.lo(), limits.hi()),
                self.positioning.line_style(),
            ),
    {
        let ls = match self.positioning {
            AxesPositioning::XOnly(ls) => ls,
            AxesPositioning::YOnly(ls) => ls,
            AxesPositioning::XY(ls) => ls,
        };
        if let LineStyle::Dashed { .. } = ls {
            return Err(PlotError::DashedLineUnsupported);
        }
        let t = ls.thickness() as i64;
        let min = *limits.min();
        let max = *limits.max();
        let x_line = LinePositioning::Horizontal {
            start: Point::new(min.x, (min.y as i64 - t) as i32),
            length: (max.x as i64 - min.x as i64) as i32,
        };
        let y_line = LinePositioning::Vertical {
            start: Point::new((min.x as i64 - t) as i32, min.y),
            length: (max.y as i64 - min.y as i64) as i32,
        };
        let mut masks: Vec<MaskPoints> = Vec::new();
        match self.positioning {
            AxesPositioning::XOnly(_) => {
                masks.push(solid_line_mask(x_line, ls));
            },
            AxesPositioning::YOnly(_) => {
                masks.push(solid_line_mask(y_line, ls));
            },
            AxesPositioning::XY(_) => {
                masks.push(solid_line_mask(x_line, ls));
                masks.push(solid_line_mask(y_line, ls));
            },
        }
        proof {
            let lines = axis_lines(self.positioning, limits.lo(), limits.hi());
            assert(lines.len() == masks@.len());
        }
        Ok(masks)
    }
}

/// The value at the `i`-th of ten section boundaries from `lo` to `hi`, where coordinates
/// stand for values with `dec` decimals: `(lo + i * (hi - lo) / 10) * 10^-dec` exactly.
pub open spec fn tick_value(lo: int, hi: int, i: int, dec: u8) -> Decimal {
    Decimal { mantissa: (10 * lo + i * (hi - lo)) as i64, decimals: (dec + 1) as u32 }
}

/// How many significant figures tick labels show.
pub const LABEL_SIG_FIGS: usize = 3;

/// A tick label of any value fits a pixel coordinate in width.
proof fn lemma_label_width_fits(style: TextStyle)
    requires
        glyph_fits(style),
    ensures
        (LABEL_SIG_FIGS + 80) * bitmap_width(style) <= u32::MAX,
{
    assert((LABEL_SIG_FIGS + 80) * bitmap_width(style) <= 83 * 0x100_0000) by (nonlinear_arith)
        requires
            LABEL_SIG_FIGS == 3,
            0 <= bitmap_width(style) <= 0x100_0000,
    ;
}

/// The width and height of the text of a label that shows `v`.
pub open spec fn label_size(v: Decimal, style: TextStyle) -> (int, int) {
    (num_str(v, LABEL_SIG_FIGS as int).len() * bitmap_width(style), bitmap_height(style))
}

/// Whether two boxes, each given by its centre and size, meet: a corner of one lies in the
/// other.
pub open spec fn centered_boxes_meet(a: Point<int>, asz: (int, int), b: Point<int>, bsz: (int, int)) -> bool {
    let alo = Point { x: a.x - asz.0 / 2, y: a.y - asz.1 / 2 };
    let ahi = Point { x: alo.x + asz.0, y: alo.y + asz.1 };
    let blo = Point { x: b.x - bsz.0 / 2, y: b.y - bsz.1 / 2 };
    let bhi = Point { x: blo.x + bsz.0, y: blo.y + bsz.1 };
    corner_in(alo, ahi, blo, bhi) || corner_in(blo, bhi, alo, ahi)
}

/// Whether a corner of the box `[blo, bhi]` lies in `[alo, ahi]`.
pub open spec fn corner_in(alo: Point<int>, ahi: Point<int>, blo: Point<int>, bhi: Point<int>) -> bool {
    let inside = |p: Point<int>| alo.x <= p.x <= ahi.x && alo.y <= p.y <= ahi.y;
    inside(blo) || inside(bhi) || inside(Point { x: blo.x, y: bhi.y }) || inside(
        Point { x: bhi.x, y: blo.y },
    )
}

/// The centre of the `i`-th x label before any shift: under the canvas tick, below the axis
/// by twice its thickness and half the text's height.
pub open spec fn x_label_center(c: Limits, t: int, i: int, h: int) -> Point<int> {
    Point {
        x: sample(c.lo().x as int, c.hi().x as int, NUM_GRID_SECTIONS as int, i),
        y: c.lo().y - 2 * t - h / 2,
    }
}

/// The centre of the `i`-th y label: left of the axis by twice its thickness and half the
/// text's width, level with the canvas tick.
pub open spec fn y_label_center(c: Limits, t: int, i: int, w: int) -> Point<int> {
    Point {
        x: c.lo().x - 2 * t - w / 2,
        y: sample(c.lo().y as int, c.hi().y as int, NUM_GRID_SECTIONS as int, i),
    }
}

/// How far the x labels move down: by the overlap of the first x label with the first y
/// label, when both exist and their boxes meet.
pub open spec fn x_label_shift(pos: AxesPositioning, c: Limits, g: Limits, style: TextStyle, dec: u8) -> int {
    let t = pos.line_style().thickness_spec() as int;
    let xv = tick_value(g.lo().x as int, g.hi().x as int, 0, dec);
    let yv = tick_value(g.lo().y as int, g.hi().y as int, 0, dec);
    let xs = label_size(xv, style);
    let ys = label_size(yv, style);
    let xc = x_label_center(c, t, 0, xs.1);
    let yc = y_label_center(c, t, 0, ys.0);
    if pos is XY && centered_boxes_meet(xc, xs, yc, ys) {
        (xc.y - xs.1 / 2 + xs.1) - (yc.y - ys.1 / 2) + 1
    } else {
        0
    }
}

/// `l` is a centred label showing `v` at `center`, its coordinates narrowed to pixels.
pub open spec fn is_tick_label(l: Label, v: Decimal, center: Point<int>, style: TextStyle) -> bool {
    &&& l.txt.wf()
    &&& l.txt.style == style
    &&& l.txt.spells(num_str(v, LABEL_SIG_FIGS as int))
    &&& l.pos == TextPositioning::Centered(Point { x: sat_u32(center.x), y: sat_u32(center.y) })
}

impl Axes {
    /// The tick labels of the axes: for each axis drawn, one label per section boundary of
    /// the data box `graph_limits` (whose coordinates stand for values with `dec` decimals),
    /// showing the boundary's value, centred just outside the
    /// axis at the matching boundary of `canvas_limits`. The x labels come first.
    pub open spec fn are_labels(&self, labels: Seq<Label>, c: Limits, g: Limits, dec: u8) -> bool {
        let n = NUM_GRID_SECTIONS as int + 1;
        let t = self.positioning.line_style().thickness_spec() as int;
        let nx = if self.positioning.has_x() {
            n
        } else {
            0
        };
        let shift = x_label_shift(self.positioning, c, g, self.style, dec);
        &&& labels.len() == nx + if self.positioning.has_y() {
            n
        } else {
            0
        }
        &&& forall|i: int|
            0 <= i < nx ==> {
                let v = tick_value(g.lo().x as int, g.hi().x as int, i, dec);
                let ctr = x_label_center(c, t, i, label_size(v, self.style).1);
                is_tick_label(
                    #[trigger] labels[i],
                    v,
                    Point { x: ctr.x, y: ctr.y - shift },
                    self.style,
                )
            }
        &&& forall|i: int|
            0 <= i < labels.len() - nx ==> {
                let v = tick_value(g.lo().y as int, g.hi().y as int, i, dec);
                is_tick_label(
                    #[trigger] labels[nx + i],
                    v,
                    y_label_center(c, t, i, label_size(v, self.style).0),
                    self.style,
                )
            }
    }

    /// The tick labels; see [`Axes::are_labels`].
    pub fn get_labels(&self, canvas_limits: &Limits, graph_limits: &Limits, dec: u8) -> (r: Vec<Label>)
        requires
            glyph_fits(self.style),
            canvas_limits.wf(),
            graph_limits.wf(),
            0 <= canvas_limits.lo().x,
            0 <= canvas_limits.lo().y,
            canvas_limits.hi().x <= 0x4000_0000,
            canvas_limits.hi().y <= 0x4000_0000,
            self.positioning.line_style().thickness_spec() <= 0x4000_0000,
        ensures
            self.are_labels(r@, *canvas_limits, *graph_limits, dec),
            forall|i: int| 0 <= i < r@.len() ==> (#[trigger] r@[i]).txt.wf(),
    {
        let t = self.positioning.line_style_exec().thickness() as i64;
        let (cx, cy) = canvas_limits.chunk(NUM_GRID_SECTIONS);
        let glo = *graph_limits.min();
        let ghi = *graph_limits.max();
        let clo = *canvas_limits.min();
        let has_x = !matches!(self.positioning, AxesPositioning::YOnly(_));
        let has_y = !matches!(self.positioning, AxesPositioning::XOnly(_));
        let shift = self.label_shift(canvas_limits, graph_limits, dec);
        let mut labels: Vec<Label> = Vec::new();
        if has_x {
            let mut i: u32 = 0;
            while i <= NUM_GRID_SECTIONS
                invariant
                    glyph_fits(self.style),
                    t == self.positioning.line_style().thickness_spec(),
                    t <= 0x4000_0000,
                    glo == graph_limits.lo(),
                    ghi == graph_limits.hi(),
                    clo == canvas_limits.lo(),
                    0 <= clo.x,
                    0 <= clo.y <= 0x4000_0000,
                    canvas_limits.wf(),
                    graph_limits.wf(),
                    shift == x_label_shift(self.positioning, *canvas_limits, *graph_limits, self.style, dec),
                    -0x1_0000_0000_0000 <= shift <= 0x1_0000_0000_0000,
                    cx@.len() == NUM_GRID_SECTIONS + 1,
                    forall|k: int|
                        0 <= k <= NUM_GRID_SECTIONS ==> #[trigger] cx@[k] == (Point {
                            x: sample(
                                canvas_limits.lo().x as int,
                                canvas_limits.hi().x as int,
                                NUM_GRID_SECTIONS as int,
                                k,
                            ) as i32,
                            y: canvas_limits.lo().y,
                        }),
                    forall|k: int|
                        0 <= k <= NUM_GRID_SECTIONS ==> canvas_limits.lo().x <= #[trigger] cx@[k].x
                            <= canvas_limits.hi().x,
                    i <= NUM_GRID_SECTIONS + 1,
                    labels@.len() == i,
                    forall|k: int| 0 <= k < labels@.len() ==> (#[trigger] labels@[k]).txt.wf(),
                    forall|k: int|
                        0 <= k < i ==> {
                            let v = tick_value(glo.x as int, ghi.x as int, k, dec);
                            let ctr = x_label_center(
                                *canvas_limits,
                                t as int,
                                k,
                                label_size(v, self.style).1,
                            );
                            is_tick_label(
                                #[trigger] labels@[k],
                                v,
                                Point { x: ctr.x, y: ctr.y - shift },
                                self.style,
                            )
                        },
                decreases NUM_GRID_SECTIONS + 1 - i,
            {
                proof {
                    let sp = ghi.x - glo.x;
                    assert(0 <= i * sp <= 10 * 0x1_0000_0000) by (nonlinear_arith)
                        requires
                            0 <= i <= 10,
                            0 <= sp <= 0x1_0000_0000,
                    ;
                }
                let v = Decimal::new(
                    10 * glo.x as i64 + i as i64 * (ghi.x as i64 - glo.x as i64),
                    dec as u32 + 1,
                );
                proof {
                    lemma_label_width_fits(self.style);
                }
                let txt = Text::from_number(v, LABEL_SIG_FIGS, self.style);
                let cxx = cx[i as usize].x as i64;
                let cyy = clo.y as i64 - 2 * t - txt.height as i64 / 2 - shift;
                let c = Point::new(
                    crate::point::to_u32_saturating(cxx),
                    crate::point::to_u32_saturating(cyy),
                );
                let ghost before = labels@;
                let ghost vv = tick_value(glo.x as int, ghi.x as int, i as int, dec);
                labels.push(Label::new(txt, TextPositioning::Centered(c)));
                proof {
                    assert(v == vv);
                    crate::limits::lemma_sample_bounds(
                        canvas_limits.lo().x as int,
                        canvas_limits.hi().x as int,
                        NUM_GRID_SECTIONS as int,
                        i as int,
                    );
                    let ctr = x_label_center(*canvas_limits, t as int, i as int, label_size(vv, self.style).1);
                    assert(ctr.x == cxx);
                    assert(ctr.y - shift == cyy);
                    assert(is_tick_label(labels@[i as int], vv, Point { x: ctr.x, y: ctr.y - shift }, self.style));
                    assert forall|k: int| 0 <= k < i ==> #[trigger] labels@[k] == before[k] by {}
                    assert forall|k: int| 0 <= k < labels@.len() implies (#[trigger] labels@[k]).txt.wf() by {
                        if k < i {
                            assert(labels@[k] == before[k]);
                        }
                    }
                }
                i = i + 1;
            }
        }
        let ghost nx = labels@.len() as int;
        let ghost xl = labels@;
        if has_y {
            let mut i: u32 = 0;
            while i <= NUM_GRID_SECTIONS
                invariant
                    glyph_fits(self.style),
                    t == self.positioning.line_style().thickness_spec(),
                    t <= 0x4000_0000,
                    glo == graph_limits.lo(),
                    ghi == graph_limits.hi(),
                    clo == canvas_limits.lo(),
                    0 <= clo.x <= 0x4000_0000,
                    0 <= clo.y,
                    canvas_limits.wf(),
                    graph_limits.wf(),
                    cy@.len() == NUM_GRID_SECTIONS + 1,
                    forall|k: int|
                        0 <= k <= NUM_GRID_SECTIONS ==> #[trigger] cy@[k] == (Point {
                            x: canvas_limits.lo().x,
                            y: sample(
                                canvas_limits.lo().y as int,
                                canvas_limits.hi().y as int,
                                NUM_GRID_SECTIONS as int,
                                k,
                            ) as i32,
                        }),
                    forall|k: int|
                        0 <= k <= NUM_GRID_SECTIONS ==> canvas_limits.lo().y <= #[trigger] cy@[k].y
                            <= canvas_limits.hi().y,
                    i <= NUM_GRID_SECTIONS + 1,
                    labels@.len() == nx + i,
                    forall|k: int| 0 <= k < labels@.len() ==> (#[trigger] labels@[k]).txt.wf(),
                    nx == xl.len(),
                    forall|k: int| 0 <= k < nx ==> #[trigger] labels@[k] == xl[k],
                    forall|k: int|
                        0 <= k < i ==> {
                            let v = tick_value(glo.y as int, ghi.y as int, k, dec);
                            is_tick_label(
                                #[trigger] labels@[nx + k],
                                v,
                                y_label_center(*canvas_limits, t as int, k, label_size(v, self.style).0),
                                self.style,
                            )
                        },
                decreases NUM_GRID_SECTIONS + 1 - i,
            {
                proof {
                    let sp = ghi.y - glo.y;
                    assert(0 <= i * sp <= 10 * 0x1_0000_0000) by (nonlinear_arith)
                        requires
                            0 <= i <= 10,
                            0 <= sp <= 0x1_0000_0000,
                    ;
                }
                let v = Decimal::new(
                    10 * glo.y as i64 + i as i64 * (ghi.y as i64 - glo.y as i64),
                    dec as u32 + 1,
                );
                proof {
                    lemma_label_width_fits(self.style);
                }
                let txt = Text::from_number(v, LABEL_SIG_FIGS, self.style);
                proof {
                    assert(txt.width <= u32::MAX);
                }
                let cxx = clo.x as i64 - 2 * t - txt.width as i64 / 2;
                let c = Point::new(
                    crate::point::to_u32_saturating(cxx),
                    crate::point::to_u32_saturating(cy[i as usize].y as i64),
                );
                let ghost before = labels@;
                let ghost vv = tick_value(glo.y as int, ghi.y as int, i as int, dec);
                labels.push(Label::new(txt, TextPositioning::Centered(c)));
                proof {
                    assert(v == vv);
                    crate::limits::lemma_sample_bounds(
                        canvas_limits.lo().y as int,
                        canvas_limits.hi().y as int,
                        NUM_GRID_SECTIONS as int,
                        i as int,
                    );
                    let ctr = y_label_center(*canvas_limits, t as int, i as int, label_size(vv, self.style).0);
                    assert(txt.width == label_size(vv, self.style).0);
                    assert(ctr.x == cxx);
                    assert(ctr.y == cy@[i as int].y);
                    assert(is_tick_label(labels@[nx + i], vv, ctr, self.style));
                    assert forall|k: int| 0 <= k < nx + i ==> #[trigger] labels@[k] == before[k] by {}
                    assert forall|k: int| 0 <= k < labels@.len() implies (#[trigger] labels@[k]).txt.wf() by {
                        if k < nx + i {
                            assert(labels@[k] == before[k]);
                        }
                    }
                }
                i = i + 1;
            }
        }
        labels
    }
}

fn inside_box(lo_x: i64, lo_y: i64, hi_x: i64, hi_y: i64, px: i64, py: i64) -> (r: bool)
    ensures
        r == (lo_x <= px <= hi_x && lo_y <= py <= hi_y),
{
    lo_x <= px && px <= hi_x && lo_y <= py && py <= hi_y
}

fn corner_in_exec(a: (i64, i64, i64, i64), b: (i64, i64, i64, i64)) -> (r: bool)
    ensures
        r == corner_in(
            Point { x: a.0 as int, y: a.1 as int },
            Point { x: a.2 as int, y: a.3 as int },
            Point { x: b.0 as int, y: b.1 as int },
            Point { x: b.2 as int, y: b.3 as int },
        ),
{
    inside_box(a.0, a.1, a.2, a.3, b.0, b.1) || inside_box(a.0, a.1, a.2, a.3, b.2, b.3)
        || inside_box(a.0, a.1, a.2, a.3, b.0, b.3) || inside_box(a.0, a.1, a.2, a.3, b.2, b.1)
}

impl Axes {
    /// How far the x labels move down; see [`x_label_shift`].
    fn label_shift(&self, canvas_limits: &Limits, graph_limits: &Limits, dec: u8) -> (r: i64)
        requires
            glyph_fits(self.style),
            canvas_limits.wf(),
            graph_limits.wf(),
            0 <= canvas_limits.lo().x,
            0 <= canvas_limits.lo().y,
            canvas_limits.hi().x <= 0x4000_0000,
            canvas_limits.hi().y <= 0x4000_0000,
            self.positioning.line_style().thickness_spec() <= 0x4000_0000,
        ensures
            r == x_label_shift(self.positioning, *canvas_limits, *graph_limits, self.style, dec),
            -0x1_0000_0000_0000 <= r <= 0x1_0000_0000_0000,
    {
        if !self.positioning.is_xy() {
            return 0;
        }
        let t = self.positioning.line_style_exec().thickness() as i64;
        let glo = *graph_limits.min();
        let ghi = *graph_limits.max();
        let clo = *canvas_limits.min();
        let chi = *canvas_limits.max();
        let xv = Decimal::new(10 * glo.x as i64, dec as u32 + 1);
        let yv = Decimal::new(10 * glo.y as i64, dec as u32 + 1);
        proof {
            assert(0 * (ghi.x - glo.x) == 0);
            assert(0 * (ghi.y - glo.y) == 0);
            assert(xv == tick_value(glo.x as int, ghi.x as int, 0, dec));
            assert(yv == tick_value(glo.y as int, ghi.y as int, 0, dec));
            crate::limits::lemma_sample_bounds(clo.x as int, chi.x as int, NUM_GRID_SECTIONS as int, 0);
            crate::limits::lemma_sample_bounds(clo.y as int, chi.y as int, NUM_GRID_SECTIONS as int, 0);
        }
        let xs = crate::numfmt::num_to_str(xv, LABEL_SIG_FIGS);
        let ys = crate::numfmt::num_to_str(yv, LABEL_SIG_FIGS);
        let bw = (crate::glyphs::CHAR_WIDTH * self.style.scale + 2 * self.style.padding) as i64;
        let bh = (crate::glyphs::CHAR_HEIGHT * self.style.scale + 2 * self.style.padding) as i64;
        proof {
            assert(xs@.len() * bw <= 83 * 0x100_0000) by (nonlinear_arith)
                requires
                    xs@.len() <= 83,
                    0 <= bw <= 0x100_0000,
            ;
            assert(ys@.len() * bw <= 83 * 0x100_0000) by (nonlinear_arith)
                requires
                    ys@.len() <= 83,
                    0 <= bw <= 0x100_0000,
            ;
            assert(0 <= xs@.len() * bw) by (nonlinear_arith)
                requires
                    0 <= bw,
            ;
            assert(0 <= ys@.len() * bw) by (nonlinear_arith)
                requires
                    0 <= bw,
            ;
        }
        let xw = xs.len() as i64 * bw;
        let yw = ys.len() as i64 * bw;
        let xcx = clo.x as i64;
        let xcy = clo.y as i64 - 2 * t - bh / 2;
        let ycx = clo.x as i64 - 2 * t - yw / 2;
        let ycy = clo.y as i64;
        let a = (xcx - xw / 2, xcy - bh / 2, xcx - xw / 2 + xw, xcy - bh / 2 + bh);
        let b = (ycx - yw / 2, ycy - bh / 2, ycx - yw / 2 + yw, ycy - bh / 2 + bh);
        if corner_in_exec(a, b) || corner_in_exec(b, a) {
            (xcy - bh / 2 + bh) - (ycy - bh / 2) + 1
        } else {
            0
        }
    }
}

} // verus!
