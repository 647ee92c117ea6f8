use crate::common::{Color, MaskPoints, PlotError};
use crate::graph::{flatten, graph_hi, graph_lo, kept_points, Graph};
use crate::limits::Limits;
use crate::point::Point;
use crate::series::Series;
use crate::glyphs::{glyph_fits, style_fits};
use crate::text::Label;
use vstd::prelude::*;

verus! {

/// Canvases are at most this many pixels wide or high, so that every coordinate and every
/// inset stays well inside the `i32` range.
pub const MAX_CANVAS_SIDE: u32 = 0x4000_0000;

/// The index in a top-down, row-major buffer of the pixel `p` of a bottom-up canvas.
pub open spec fn pixel_index(width: int, height: int, p: Point<u32>) -> int {
    (height - 1 - p.y) * width + p.x
}

/// Whether `p` lies on a `width` by `height` canvas.
pub open spec fn on_canvas(width: int, height: int, p: Point<u32>) -> bool {
    p.x < width && p.y < height
}

/// The buffer after painting `p` in color `c`; a pixel off the canvas changes nothing.
pub open spec fn paint_pixel(px: Seq<Color>, width: int, height: int, p: Point<u32>, c: Color) -> Seq<
    Color,
> {
    if on_canvas(width, height, p) {
        px.update(pixel_index(width, height, p), c)
    } else {
        px
    }
}

/// The buffer after painting `points` in order, all in color `c`.
pub open spec fn paint_points(
    px: Seq<Color>,
    width: int,
    height: int,
    points: Seq<Point<u32>>,
    c: Color,
) -> Seq<Color>
    decreases points.len(),
{
    if points.len() == 0 {
        px
    } else {
        paint_pixel(
            paint_points(px, width, height, points.drop_last(), c),
            width,
            height,
            points.last(),
            c,
        )
    }
}

/// The buffer after painting `masks` in order.
pub open spec fn paint_masks(px: Seq<Color>, width: int, height: int, masks: Seq<MaskPoints>) -> Seq<
    Color,
>
    decreases masks.len(),
{
    if masks.len() == 0 {
        px
    } else {
        let before = paint_masks(px, width, height, masks.drop_last());
        paint_points(before, width, height, masks.last().points@, masks.last().color)
    }
}

/// The bytes of a buffer: red, green and blue of each pixel in turn.
pub open spec fn rgb_bytes(px: Seq<Color>) -> Seq<u8>
    decreases px.len(),
{
    if px.len() == 0 {
        Seq::empty()
    } else {
        let c = px.last();
        rgb_bytes(px.drop_last()) + seq![c.r, c.g, c.b]
    }
}

/// A pixel buffer, bottom-up: `(0, 0)` is the lower-left pixel. It is stored top-down, row
/// by row.
#[derive(Debug)]
pub struct Canvas {
    pixels: Vec<Color>,
    width: u32,
    height: u32,
}

impl Canvas {
    /// The pixels, top row first.
    pub closed spec fn pixels_view(&self) -> Seq<Color> {
        self.pixels@
    }

    pub closed spec fn width_spec(&self) -> u32 {
        self.width
    }

    pub closed spec fn height_spec(&self) -> u32 {
        self.height
    }

    /// The buffer has one entry per pixel.
    pub open spec fn wf(&self) -> bool {
        &&& 1 <= self.width_spec() <= MAX_CANVAS_SIDE
        &&& 1 <= self.height_spec() <= MAX_CANVAS_SIDE
        &&& self.width_spec() * self.height_spec() <= usize::MAX
        &&& self.pixels_view().len() == self.width_spec() * self.height_spec()
    }

    /// A canvas of the given size filled with `background`. Each side must be at least one
    /// pixel and at most [`MAX_CANVAS_SIDE`], and the whole must fit in memory.
    pub fn new(width: u32, height: u32, background: Color) -> (r: Canvas)
        requires
            1 <= width <= MAX_CANVAS_SIDE,
            1 <= height <= MAX_CANVAS_SIDE,
            width * height <= usize::MAX,
        ensures
            r.wf(),
            r.width_spec() == width,
            r.height_spec() == height,
            r.pixels_view() == Seq::new((width * height) as nat, |i: int| background),
    {
        let n: usize = (width as usize) * (height as usize);
        let mut pixels: Vec<Color> = Vec::new();
        let mut i: usize = 0;
        while i < n
            invariant
                i <= n,
                pixels@ == Seq::new(i as nat, |k: int| background),
            decreases n - i,
        {
            pixels.push(background);
            i = i + 1;
            proof {
                assert(pixels@ =~= Seq::new(i as nat, |k: int| background));
            }
        }
        Canvas { pixels, width, height }
    }

    pub fn width(&self) -> (r: u32)
        ensures
            r == self.width_spec(),
    {
        self.width
    }

    pub fn height(&self) -> (r: u32)
        ensures
            r == self.height_spec(),
    {
        self.height
    }

    /// Paints one pixel; `(0, 0)` is the lower-left corner. A point off the canvas is
    /// dropped silently.
    pub fn set_pixel(&mut self, point: &Point<u32>, color: &Color)
        requires
            old(self).wf(),
        ensures
            final(self).wf(),
            final(self).width_spec() == old(self).width_spec(),
            final(self).height_spec() == old(self).height_spec(),
            final(self).pixels_view() == paint_pixel(
                old(self).pixels_view(),
                old(self).width_spec() as int,
                old(self).height_spec() as int,
                *point,
                *color,
            ),
    {
        if point.x < self.width && point.y < self.height {
            let row = (self.height - 1 - point.y) as usize;
            proof {
                assert(row * self.width + point.x < self.width * self.height) by (nonlinear_arith)
                    requires
                        row < self.height,
                        point.x < self.width,
                ;
            }
            let idx = row * (self.width as usize) + point.x as usize;
            self.pixels.set(idx, *color);
        }
    }

    /// Paints every point in order, all in one color.
    pub fn set_pixels(&mut self, points: &[Point<u32>], color: &Color)
        requires
            old(self).wf(),
        ensures
            final(self).wf(),
            final(self).width_spec() == old(self).width_spec(),
            final(self).height_spec() == old(self).height_spec(),
            final(self).pixels_view() == paint_points(
                old(self).pixels_view(),
                old(self).width_spec() as int,
                old(self).height_spec() as int,
                points@,
                *color,
            ),
    {
        let mut i: usize = 0;
        while i < points.len()
            invariant
                i <= points@.len(),
                self.wf(),
                self.width_spec() == old(self).width_spec(),
                self.height_spec() == old(self).height_spec(),
                self.pixels_view() == paint_points(
                    old(self).pixels_view(),
                    old(self).width_spec() as int,
                    old(self).height_spec() as int,
                    points@.take(i as int),
                    *color,
                ),
            decreases points@.len() - i,
        {
            proof {
                let t = points@.take(i as int + 1);
                assert(t.drop_last() == points@.take(i as int));
                assert(t.last() == points@[i as int]);
            }
            self.set_pixel(&points[i], color);
            i = i + 1;
        }
        proof {
            assert(points@.take(points@.len() as int) == points@);
        }
    }

    /// Paints every mask in order.
    pub fn paint(&mut self, masks: &Vec<MaskPoints>)
        requires
            old(self).wf(),
        ensures
            final(self).wf(),
            final(self).width_spec() == old(self).width_spec(),
            final(self).height_spec() == old(self).height_spec(),
            final(self).pixels_view() == paint_masks(
                old(self).pixels_view(),
                old(self).width_spec() as int,
                old(self).height_spec() as int,
                masks@,
            ),
    {
        let mut i: usize = 0;
        while i < masks.len()
            invariant
                i <= masks@.len(),
                self.wf(),
                self.width_spec() == old(self).width_spec(),
                self.height_spec() == old(self).height_spec(),
                self.pixels_view() == paint_masks(
                    old(self).pixels_view(),
                    old(self).width_spec() as int,
                    old(self).height_spec() as int,
                    masks@.take(i as int),
                ),
            decreases masks@.len() - i,
        {
            proof {
                let t = masks@.take(i as int + 1);
                assert(t.drop_last() == masks@.take(i as int));
                assert(t.last() == masks@[i as int]);
            }
            self.set_pixels(masks[i].points.as_slice(), &masks[i].color);
            i = i + 1;
        }
        proof {
            assert(masks@.take(masks@.len() as int) == masks@);
        }
    }

    /// The pixels as bytes, top row first, left to right: red, green, blue for each.
    pub fn get_bytes(&self) -> (r: Vec<u8>)
        requires
            self.wf(),
        ensures
            r@ == rgb_bytes(self.pixels_view()),
            r@.len() == 3 * self.width_spec() * self.height_spec(),
    {
        let mut bytes: Vec<u8> = Vec::new();
        let mut i: usize = 0;
        while i < self.pixels.len()
            invariant
                i <= self.pixels@.len(),
                bytes@ == rgb_bytes(self.pixels@.take(i as int)),
                bytes@.len() == 3 * i,
            decreases self.pixels@.len() - i,
        {
            let c = self.pixels[i];
            bytes.push(c.r);
            bytes.push(c.g);
            bytes.push(c.b);
            proof {
                let t = self.pixels@.take(i as int + 1);
                assert(t.drop_last() == self.pixels@.take(i as int));
                assert(t.last() == c);
                assert(bytes@ == rgb_bytes(self.pixels@.take(i as int)) + seq![c.r, c.g, c.b]);
            }
            i = i + 1;
        }
        proof {
            assert(self.pixels@.take(self.pixels@.len() as int) == self.pixels@);
            assert(3 * (self.width * self.height) == 3 * self.width * self.height) by (nonlinear_arith);
        }
        bytes
    }
}

/// The margin around a canvas's drawing area.
#[derive(Debug, Clone, Copy, PartialEq, Eq)]
pub enum BufferType {
    NoMargin,
    Uniform(u32),
    TopBottom(u32, u32),
    LeftRight(u32, u32),
    TopBottomLeftRight(u32, u32, u32, u32),
}

/// The margin on each side, in pixels.
#[derive(Debug, Clone, Copy, PartialEq, Eq)]
pub struct CanvasBuffer {
    pub left: u32,
    pub top: u32,
    pub right: u32,
    pub bottom: u32,
}

impl CanvasBuffer {
    /// The margins that a buffer type gives.
    pub open spec fn new_spec(buffer_type: BufferType) -> CanvasBuffer {
        match buffer_type {
                BufferType::NoMargin => CanvasBuffer { left: 0, top: 0, right: 0, bottom: 0 },
                BufferType::Uniform(x) => CanvasBuffer { left: x, top: x, right: x, bottom: x },
                BufferType::TopBottom(t, b) => CanvasBuffer { left: 0, top: t, right: 0, bottom: b },
                BufferType::LeftRight(l, r) => CanvasBuffer { left: l, top: 0, right: r, bottom: 0 },
                BufferType::TopBottomLeftRight(t, b, l, r) => CanvasBuffer {
                    left: l,
                    top: t,
                    right: r,
                    bottom: b,
                },
        }
    }

    pub fn new(buffer_type: BufferType) -> (r: CanvasBuffer)
        ensures
            r == Self::new_spec(buffer_type),
    {
        match buffer_type {
            BufferType::NoMargin => CanvasBuffer { left: 0, top: 0, right: 0, bottom: 0 },
            BufferType::Uniform(x) => CanvasBuffer { left: x, top: x, right: x, bottom: x },
            BufferType::TopBottom(t, b) => CanvasBuffer { left: 0, top: t, right: 0, bottom: b },
            BufferType::LeftRight(l, r) => CanvasBuffer { left: l, top: 0, right: r, bottom: 0 },
            BufferType::TopBottomLeftRight(t, b, l, r) => CanvasBuffer {
                left: l,
                top: t,
                right: r,
                bottom: b,
            },
        }
    }
}

/// The largest marker radius among `series`; zero when there are none.
pub open spec fn max_marker(series: Seq<Series>) -> int
    decreases series.len(),
{
    if series.len() == 0 {
        0
    } else {
        let rest = max_marker(series.drop_last());
        let s = series.last().marker_style.size_spec() as int;
        if s > rest {
            s
        } else {
            rest
        }
    }
}

/// The thickness of a graph's axes; zero without axes.
pub open spec fn axes_thickness(g: Graph) -> int {
    match g.axes {
        None => 0,
        Some(a) => a.positioning.line_style().thickness_spec() as int,
    }
}

/// `masks` is the masks of `labels` laid end to end: each label's characters in order.
pub open spec fn labels_masks_ok(labels: Seq<Label>, masks: Seq<MaskPoints>) -> bool
    decreases labels.len(),
{
    if labels.len() == 0 {
        masks.len() == 0
    } else {
        let l = labels.last();
        let n = l.txt.chars@.len() as int;
        let k = masks.len() - n;
        &&& 0 <= k
        &&& labels_masks_ok(labels.drop_last(), masks.subrange(0, k))
        &&& forall|j: int|
            0 <= j < n ==> l.txt.chars@[j].is_mask_at(
                #[trigger] masks[k + j],
                l.char_lower_left(j),
                l.txt.style.color,
            )
    }
}

/// A scaled graph passes every check that drawing makes: everything fits `i32`
/// ([`Graph::drawable`]), no line is dashed and axes or grid lines have points
/// ([`Graph::mask_ok`]), and with axes the label style renders and the graph's box lies in
/// `[0, 2^30]` on both axes, the axis thickness too.
pub open spec fn scaled_ok(g: Graph) -> bool {
    let lo = graph_lo(g.points(), g.graph_limits);
    let hi = graph_hi(g.points(), g.graph_limits);
    &&& g.drawable()
    &&& g.mask_ok()
    &&& g.axes is Some ==> {
        &&& glyph_fits(g.axes->0.style)
        &&& lo.x >= 0 && lo.y >= 0 && hi.x <= 0x4000_0000 && hi.y <= 0x4000_0000
        &&& g.axes->0.positioning.line_style().thickness_spec() <= 0x4000_0000
    }
}

/// A canvas with a margin, at most one graph, and labels drawn over it.
#[derive(Debug)]
pub struct TerminalCanvas {
    pub canvas: Canvas,
    pub buffer: CanvasBuffer,
    pub graph: Option<Graph>,
    pub labels: Vec<Label>,
}

impl TerminalCanvas {
    /// The buffer is well formed and every label's text is rendered.
    pub open spec fn wf(&self) -> bool {
        &&& self.canvas.wf()
        &&& forall|i: int| 0 <= i < self.labels@.len() ==> (#[trigger] self.labels@[i]).txt.wf()
    }

    /// How far the drawing area keeps from the margin on every side, so that neither markers
    /// nor axes are clipped: the larger of the largest marker and twice the axis thickness.
    pub open spec fn inset(&self) -> int {
        match self.graph {
            None => 0,
            Some(g) => {
                let m = max_marker(g.data@);
                let a = 2 * axes_thickness(g);
                if m > a {
                    m
                } else {
                    a
                }
            },
        }
    }

    /// The lower-left corner of the drawing area.
    pub open spec fn area_lo(&self) -> Point<int> {
        Point {
            x: self.buffer.left + self.inset(),
            y: self.buffer.bottom + self.inset(),
        }
    }

    /// The upper-right corner of the drawing area.
    pub open spec fn area_hi(&self) -> Point<int> {
        Point {
            x: self.canvas.width_spec() - 1 - self.buffer.right - self.inset(),
            y: self.canvas.height_spec() - 1 - self.buffer.top - self.inset(),
        }
    }

    /// Some of the canvas is left to draw in.
    pub open spec fn area_ok(&self) -> bool {
        self.area_lo().x < self.area_hi().x && self.area_lo().y < self.area_hi().y
    }

    /// The error that names the canvas's size, margins and inset.
    pub open spec fn too_small_error(&self) -> PlotError {
        PlotError::CanvasTooSmall {
            width: self.canvas.width_spec(),
            height: self.canvas.height_spec(),
            left: self.buffer.left,
            right: self.buffer.right,
            top: self.buffer.top,
            bottom: self.buffer.bottom,
            inset: if self.inset() > u32::MAX {
                u32::MAX
            } else {
                self.inset() as u32
            },
        }
    }

    /// A blank canvas of the given size, with no margin.
    pub fn new(width: u32, height: u32, background: Color) -> (r: TerminalCanvas)
        requires
            1 <= width <= MAX_CANVAS_SIDE,
            1 <= height <= MAX_CANVAS_SIDE,
            width * height <= usize::MAX,
        ensures
            r.wf(),
            r.canvas.width_spec() == width,
            r.canvas.height_spec() == height,
            r.canvas.pixels_view() == Seq::new((width * height) as nat, |i: int| background),
            r.buffer == (CanvasBuffer { left: 0, top: 0, right: 0, bottom: 0 }),
            r.graph is None,
            r.labels@.len() == 0,
    {
        TerminalCanvas {
            canvas: Canvas::new(width, height, background),
            buffer: CanvasBuffer::new(BufferType::NoMargin),
            graph: None,
            labels: Vec::new(),
        }
    }

    pub fn with_buffer(self, buffer_type: BufferType) -> (r: TerminalCanvas)
        ensures
            r.buffer == CanvasBuffer::new_spec(buffer_type),
            r.canvas == self.canvas,
            r.graph == self.graph,
            r.labels@ == self.labels@,
    {
        TerminalCanvas { buffer: CanvasBuffer::new(buffer_type), ..self }
    }

    /// Sets the graph to draw; it must have at least one series.
    pub fn with_graph(self, graph: Graph) -> (r: TerminalCanvas)
        requires
            graph.data@.len() > 0,
        ensures
            r.graph == Some(graph),
            r.canvas == self.canvas,
            r.buffer == self.buffer,
            r.labels@ == self.labels@,
    {
        TerminalCanvas { graph: Some(graph), ..self }
    }

    /// Adds a label, drawn over everything else.
    pub fn with_label(self, label: Label) -> (r: TerminalCanvas)
        ensures
            r.labels@ == self.labels@.push(label),
            r.canvas == self.canvas,
            r.buffer == self.buffer,
            r.graph == self.graph,
    {
        let mut labels = self.labels;
        labels.push(label);
        TerminalCanvas { labels, ..self }
    }

    /// The pixels as bytes; see [`Canvas::get_bytes`].
    pub fn get_bytes(&self) -> (r: Vec<u8>)
        requires
            self.canvas.wf(),
        ensures
            r@ == rgb_bytes(self.canvas.pixels_view()),
    {
        self.canvas.get_bytes()
    }

    /// The drawing area: the canvas less the margin, less the inset on every side. An error
    /// when nothing would be left of it.
    pub fn get_drawable_limits(&self) -> (r: Result<Limits, PlotError>)
        requires
            self.canvas.wf(),
        ensures
            r is Ok <==> self.area_ok(),
            r is Ok ==> r->Ok_0.lo().x == self.area_lo().x && r->Ok_0.lo().y == self.area_lo().y
                && r->Ok_0.hi().x == self.area_hi().x && r->Ok_0.hi().y == self.area_hi().y
                && r->Ok_0.wf(),
            r is Err ==> r->Err_0 == self.too_small_error(),
    {
        let inset: i64 = match &self.graph {
            None => 0,
            Some(g) => {
                let m = largest_marker(g);
                let a = 2 * match g.axes {
                    None => 0,
                    Some(ax) => ax.positioning.line_style_exec().thickness() as i64,
                };
                if m > a {
                    m
                } else {
                    a
                }
            },
        };
        let w = self.canvas.width() as i64;
        let h = self.canvas.height() as i64;
        let lo_x = self.buffer.left as i64 + inset;
        let lo_y = self.buffer.bottom as i64 + inset;
        let hi_x = w - 1 - self.buffer.right as i64 - inset;
        let hi_y = h - 1 - self.buffer.top as i64 - inset;
        if lo_x >= hi_x || lo_y >= hi_y {
            return Err(
                PlotError::CanvasTooSmall {
                    width: self.canvas.width(),
                    height: self.canvas.height(),
                    left: self.buffer.left,
                    right: self.buffer.right,
                    top: self.buffer.top,
                    bottom: self.buffer.bottom,
                    inset: if inset > u32::MAX as i64 {
                        u32::MAX
                    } else {
                        inset as u32
                    },
                },
            );
        }
        Ok(Limits::new(Point::new(lo_x as i32, lo_y as i32), Point::new(hi_x as i32, hi_y as i32)))
    }

    /// `l` is the drawing area.
    pub open spec fn is_area(&self, l: Limits) -> bool {
        l.lo().x == self.area_lo().x && l.lo().y == self.area_lo().y && l.hi().x
            == self.area_hi().x && l.hi().y == self.area_hi().y
    }

    /// Drawing succeeds: the area is left, and the graph, if any, has ordered explicit limits,
    /// keeps a point, and once scaled into the area passes every check (see [`scaled_ok`]).
    pub open spec fn draw_ok(&self) -> bool {
        &&& self.area_ok()
        &&& self.graph is Some ==> {
            let g0 = self.graph->0;
            &&& g0.limits_valid()
            &&& flatten(kept_points(g0)).len() > 0
            &&& forall|g: Graph, l: Limits|
                self.is_area(l) && #[trigger] g0.is_scaled(g, l) ==> scaled_ok(g)
        }
    }

    /// The scaled graph `g` and its masks `gm`, and the labels `ls` and their masks `lm`,
    /// painted in that order over this canvas give `px`: the graph scaled into the drawing
    /// area, its axis labels, then the canvas's own labels, which nothing covers.
    pub open spec fn drawn_as(&self, px: Seq<Color>, gm: Seq<MaskPoints>, ls: Seq<Label>, lm: Seq<MaskPoints>) -> bool {
        let w = self.canvas.width_spec() as int;
        let h = self.canvas.height_spec() as int;
        &&& px == paint_masks(paint_masks(self.canvas.pixels_view(), w, h, gm), w, h, lm)
        &&& labels_masks_ok(ls, lm)
        &&& self.labels@.len() <= ls.len()
        &&& ls.subrange(ls.len() - self.labels@.len(), ls.len() as int) == self.labels@
        &&& self.graph is None ==> gm.len() == 0 && ls == self.labels@
        &&& self.graph is Some ==> exists|g: Graph, l: Limits|
            l.lo().x == self.area_lo().x && l.lo().y == self.area_lo().y && l.hi().x
                == self.area_hi().x && l.hi().y == self.area_hi().y && #[trigger] self.graph->0.is_scaled(
                g,
                l,
            ) && g.is_graph_mask(gm) && self.axis_labels_ok(g, ls)
    }

    /// The labels before the canvas's own are the tick labels of the scaled graph `g`'s axes
    /// (none without axes), placed on `g`'s limits and showing the values of the unscaled
    /// graph's limits.
    pub open spec fn axis_labels_ok(&self, g: Graph, ls: Seq<Label>) -> bool {
        let axis_part = ls.subrange(0, ls.len() - self.labels@.len());
        &&& g.axes is None ==> axis_part.len() == 0
        &&& g.axes is Some ==> exists|cl: Limits, dl: Limits|
            cl.lo() == graph_lo(g.points(), g.graph_limits) && cl.hi() == graph_hi(
                g.points(),
                g.graph_limits,
            ) && dl.lo() == graph_lo(self.graph->0.points(), self.graph->0.graph_limits) && dl.hi()
                == graph_hi(self.graph->0.points(), self.graph->0.graph_limits)
                && #[trigger] g.axes->0.are_labels(axis_part, cl, dl, g.decimals)
    }

    /// Draws everything: the graph scaled into the drawing area (see
    /// [`TerminalCanvas::get_drawable_limits`]), then its axis labels, then the canvas's
    /// labels. Pixels off the canvas are dropped. A canvas too small for its margin and inset
    /// is an error, as is a graph that cannot be drawn.
    #[verifier::rlimit(60)]
    pub fn draw(self) -> (r: Result<TerminalCanvas, PlotError>)
        requires
            self.wf(),
        ensures
            !self.area_ok() ==> r == Err::<TerminalCanvas, PlotError>(self.too_small_error()),
            self.draw_ok() ==> r is Ok,
            r is Ok ==> self.area_ok() && (self.graph is Some ==> self.graph->0.limits_valid()
                && flatten(kept_points(self.graph->0)).len() > 0),
            self.area_ok() && self.graph is Some && !self.graph->0.limits_valid() ==> r == Err::<
                TerminalCanvas,
                PlotError,
            >(PlotError::CoordinateOutOfRange),
            self.area_ok() && self.graph is Some && self.graph->0.limits_valid()
                && self.graph->0.points().len() == 0 ==> r == Err::<TerminalCanvas, PlotError>(
                PlotError::EmptyGraph,
            ),
            self.area_ok() && self.graph is Some && self.graph->0.limits_valid()
                && self.graph->0.points().len() > 0 && flatten(kept_points(self.graph->0)).len()
                == 0 ==> r == Err::<TerminalCanvas, PlotError>(PlotError::NoPointsInLimits),
            self.area_ok() && self.graph is Some && self.graph->0.limits_valid() && flatten(
                kept_points(self.graph->0),
            ).len() > 0 && (forall|g: Graph, l: Limits|
                self.is_area(l) && #[trigger] self.graph->0.is_scaled(g, l) ==> !g.drawable())
                ==> r == Err::<TerminalCanvas, PlotError>(PlotError::CoordinateOutOfRange),
            r is Ok ==> {
                let c = r->Ok_0;
                &&& c.wf()
                &&& c.canvas.width_spec() == self.canvas.width_spec()
                &&& c.canvas.height_spec() == self.canvas.height_spec()
                &&& c.buffer == self.buffer
                &&& c.graph is None
                &&& c.labels@.len() == 0
                &&& exists|gm: Seq<MaskPoints>, ls: Seq<Label>, lm: Seq<MaskPoints>|
                    #[trigger] self.drawn_as(c.canvas.pixels_view(), gm, ls, lm)
            },
    {
        let lim = match self.get_drawable_limits() {
            Ok(l) => l,
            Err(e) => {
                return Err(e);
            },
        };
        let ghost this = self;
        let TerminalCanvas { mut canvas, buffer, graph, mut labels } = self;
        let ghost px0 = canvas.pixels_view();
        let ghost w = canvas.width_spec() as int;
        let ghost h = canvas.height_spec() as int;
        let mut gm: Vec<MaskPoints> = Vec::new();
        let mut all_labels: Vec<Label> = Vec::new();
        let ghost mut scaled_g: Graph = arbitrary();
        let ghost mut cl_g: Limits = arbitrary();
        let ghost mut dl_g: Limits = arbitrary();
        match graph {
            None => {},
            Some(g) => {
                if !g.limits_are_valid() {
                    return Err(PlotError::CoordinateOutOfRange);
                }
                let data_limits = g.limits();
                let ghost g0 = g;
                let scaled = match g.scale(&lim) {
                    Ok(s) => s,
                    Err(e) => {
                        return Err(e);
                    },
                };
                if !scaled.check_drawable() {
                    return Err(PlotError::CoordinateOutOfRange);
                }
                gm = match scaled.get_mask() {
                    Ok(m) => m,
                    Err(e) => {
                        return Err(e);
                    },
                };
                proof {
                    scaled_g = scaled;
                    assert(g0.is_scaled(scaled_g, lim));
                }
                if let Some(ax) = scaled.axes {
                    if let Some(cl) = scaled.limits() {
                        if let Some(dl) = data_limits {
                            proof {
                                cl_g = cl;
                                dl_g = dl;
                            }
                            let clo = *cl.min();
                            let chi = *cl.max();
                            let t = ax.positioning.line_style_exec().thickness();
                            if !style_fits(&ax.style) || clo.x < 0 || clo.y < 0 || chi.x > 0x4000_0000
                                || chi.y > 0x4000_0000 || t > 0x4000_0000 {
                                return Err(PlotError::CoordinateOutOfRange);
                            }
                            all_labels = ax.get_labels(&cl, &dl, scaled.decimals);
                            proof {
                                assert(ax.are_labels(all_labels@, cl, dl, scaled.decimals));
                            }
                        }
                    }
                }
            },
        }
        let ghost axis_part = all_labels@;
        let ghost own = labels@;
        while labels.len() > 0
            invariant
                all_labels@ == axis_part + own.subrange(0, own.len() - labels@.len()),
                labels@ == own.subrange(own.len() - labels@.len(), own.len() as int),
                labels@.len() <= own.len(),
                forall|i: int| 0 <= i < axis_part.len() ==> (#[trigger] axis_part[i]).txt.wf(),
                forall|i: int| 0 <= i < own.len() ==> (#[trigger] own[i]).txt.wf(),
            decreases labels@.len(),
        {
            let l = labels.remove(0);
            all_labels.push(l);
            proof {
                assert(all_labels@ =~= axis_part + own.subrange(0, own.len() - labels@.len()));
                assert(labels@ =~= own.subrange(own.len() - labels@.len(), own.len() as int));
            }
        }
        canvas.paint(&gm);
        let mut lm: Vec<MaskPoints> = Vec::new();
        let mut i: usize = 0;
        while i < all_labels.len()
            invariant
                i <= all_labels@.len(),
                all_labels@ == axis_part + own,
                forall|k: int| 0 <= k < all_labels@.len() ==> (#[trigger] all_labels@[k]).txt.wf(),
                labels_masks_ok(all_labels@.take(i as int), lm@),
            decreases all_labels@.len() - i,
        {
            let mut m = all_labels[i].get_mask();
            let ghost before = lm@;
            let ghost mv = m@;
            lm.append(&mut m);
            proof {
                let t = all_labels@.take(i as int + 1);
                assert(t.drop_last() == all_labels@.take(i as int));
                assert(t.last() == all_labels@[i as int]);
                assert(lm@.subrange(0, before.len() as int) == before);
                assert forall|j: int| 0 <= j < mv.len() implies #[trigger] lm@[before.len() + j] == mv[j] by {}
            }
            i = i + 1;
        }
        proof {
            assert(all_labels@.take(all_labels@.len() as int) == all_labels@);
            assert(own.subrange(0, own.len() as int) == own);
        }
        canvas.paint(&lm);
        proof {
            let ls = all_labels@;
            assert(ls.subrange(ls.len() - own.len(), ls.len() as int) =~= own);
            if this.graph is Some {
                assert(scaled_g.is_graph_mask(gm@));
                assert(ls.subrange(0, ls.len() - own.len()) =~= axis_part);
                if scaled_g.axes is Some {
                    assert(scaled_g.axes->0.are_labels(axis_part, cl_g, dl_g, scaled_g.decimals));
                }
                assert(this.axis_labels_ok(scaled_g, ls));
            } else {
                assert(axis_part.len() == 0);
                assert(ls =~= own);
            }
            assert(this.drawn_as(canvas.pixels_view(), gm@, ls, lm@));
            assert(exists|gm2: Seq<MaskPoints>, ls2: Seq<Label>, lm2: Seq<MaskPoints>|
                #[trigger] this.drawn_as(canvas.pixels_view(), gm2, ls2, lm2));
        }
        let result = TerminalCanvas { canvas, buffer, graph: None, labels: Vec::new() };
        proof {
            assert(result.wf());
            assert(result.canvas.pixels_view() == canvas.pixels_view());
            assert(exists|gm2: Seq<MaskPoints>, ls2: Seq<Label>, lm2: Seq<MaskPoints>|
                #[trigger] this.drawn_as(result.canvas.pixels_view(), gm2, ls2, lm2));
        }
        Ok(result)
    }
}

/// A canvas whose width (or height), less its margins, is smaller than twice its graph's
/// largest marker leaves nothing to draw in, and drawing it reports that error.
pub proof fn lemma_large_marker_leaves_no_area(c: TerminalCanvas)
    requires
        c.graph is Some,
        2 * max_marker(c.graph->0.data@) > c.canvas.width_spec() - c.buffer.left - c.buffer.right
            || 2 * max_marker(c.graph->0.data@) > c.canvas.height_spec() - c.buffer.top
            - c.buffer.bottom,
    ensures
        !c.area_ok(),
{
}

/// The largest marker radius of a graph's series.
fn largest_marker(g: &Graph) -> (r: i64)
    ensures
        r == max_marker(g.data@),
        0 <= r <= u32::MAX,
{
    let mut m: i64 = 0;
    let mut i: usize = 0;
    while i < g.data.len()
        invariant
            i <= g.data@.len(),
            m == max_marker(g.data@.take(i as int)),
            0 <= m <= u32::MAX,
        decreases g.data@.len() - i,
    {
        let s = g.data[i].marker_style.size() as i64;
        proof {
            let t = g.data@.take(i as int + 1);
            assert(t.drop_last() == g.data@.take(i as int));
            assert(t.last() == g.data@[i as int]);
        }
        if s > m {
            m = s;
        }
        i = i + 1;
    }
    proof {
        assert(g.data@.take(g.data@.len() as int) == g.data@);
    }
    m
}

} // verus!
