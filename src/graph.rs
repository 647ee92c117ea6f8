use crate::axes::{axes_fit, draws_lines, axis_lines, Axes};
use crate::common::{MaskPoints, PlotError};
use crate::graph_limits::GraphLimits;
use crate::grid_lines::GridLines;
use crate::limits::{bbox_hi, bbox_lo, in_box, lemma_extreme, coord, Limits, PointCollection};
use crate::point::Point;
use crate::scale::placed_point;
use crate::series::{marker_mask_count, segment_count, Series};
use vstd::prelude::*;

verus! {

/// Several data series drawn together, with optional axes, grid lines and explicit axis
/// limits.
#[derive(Debug, Clone)]
pub struct Graph {
    pub data: Vec<Series>,
    pub graph_limits: Option<GraphLimits>,
    pub axes: Option<Axes>,
    pub grid_lines: Option<GridLines>,
    /// The coordinates stand for values with this many decimals: a coordinate `v` is the
    /// value `v * 10^-decimals`. It only affects what tick labels show.
    pub decimals: u8,
}

/// The point lists of a sequence of series.
pub open spec fn series_points(s: Seq<Series>) -> Seq<Seq<Point<i32>>> {
    s.map_values(|x: Series| x.data@)
}

/// The point lists laid end to end.
pub open spec fn flatten(s: Seq<Seq<Point<i32>>>) -> Seq<Point<i32>>
    decreases s.len(),
{
    if s.len() == 0 {
        Seq::empty()
    } else {
        flatten(s.drop_last()) + s.last()
    }
}

/// Explicit limits, when given, replace the data's box on their axes.
pub open spec fn override_lo(lo: Point<i32>, gl: Option<GraphLimits>) -> Point<i32> {
    match gl {
        None => lo,
        Some(GraphLimits::XOnly { min, .. }) => Point { x: min, y: lo.y },
        Some(GraphLimits::YOnly { min, .. }) => Point { x: lo.x, y: min },
        Some(GraphLimits::XY { min, .. }) => min,
    }
}

pub open spec fn override_hi(hi: Point<i32>, gl: Option<GraphLimits>) -> Point<i32> {
    match gl {
        None => hi,
        Some(GraphLimits::XOnly { max, .. }) => Point { x: max, y: hi.y },
        Some(GraphLimits::YOnly { max, .. }) => Point { x: hi.x, y: max },
        Some(GraphLimits::XY { max, .. }) => max,
    }
}

/// The lower corner of a graph's limits over the points `pts`.
pub open spec fn graph_lo(pts: Seq<Point<i32>>, gl: Option<GraphLimits>) -> Point<i32> {
    override_lo(bbox_lo(pts), gl)
}

/// The upper corner of a graph's limits over the points `pts`.
pub open spec fn graph_hi(pts: Seq<Point<i32>>, gl: Option<GraphLimits>) -> Point<i32> {
    override_hi(bbox_hi(pts), gl)
}

/// The points of each series that scaling keeps: all of them without explicit limits, else
/// those inside the graph's limits.
pub open spec fn kept_points(g: Graph) -> Seq<Seq<Point<i32>>> {
    let pts = flatten(series_points(g.data@));
    let lo = graph_lo(pts, g.graph_limits);
    let hi = graph_hi(pts, g.graph_limits);
    if g.graph_limits is Some {
        series_points(g.data@).map_values(
            |s: Seq<Point<i32>>| s.filter(|p: Point<i32>| in_box(lo, hi, p)),
        )
    } else {
        series_points(g.data@)
    }
}

/// How many masks a series produces.
pub open spec fn series_mask_len(s: Series) -> int {
    let n = s.data@.len() as int;
    n * marker_mask_count(s.marker_style, s.arc@.len() as int) + segment_count(s.line_style, n)
}

/// `masks` is the masks of `series` laid end to end, series by series.
pub open spec fn series_masks_ok(series: Seq<Series>, masks: Seq<MaskPoints>) -> bool
    decreases series.len(),
{
    if series.len() == 0 {
        masks.len() == 0
    } else {
        let k = masks.len() - series_mask_len(series.last());
        &&& 0 <= k
        &&& series_masks_ok(series.drop_last(), masks.subrange(0, k))
        &&& series.last().is_mask(masks.subrange(k, masks.len() as int))
    }
}

proof fn lemma_flatten_push(s: Seq<Seq<Point<i32>>>, x: Seq<Point<i32>>)
    ensures
        flatten(s.push(x)) == flatten(s) + x,
{
    assert(s.push(x).drop_last() == s);
}

/// Every point of a series is a point of the flattened list.
proof fn lemma_flatten_member(s: Seq<Seq<Point<i32>>>, i: int, k: int)
    requires
        0 <= i < s.len(),
        0 <= k < s[i].len(),
    ensures
        flatten(s).contains(s[i][k]),
    decreases s.len(),
{
    if i == s.len() - 1 {
        let f = flatten(s.drop_last());
        assert((f + s.last())[f.len() + k] == s[i][k]);
    } else {
        lemma_flatten_member(s.drop_last(), i, k);
        let f = flatten(s.drop_last());
        let w = choose|w: int| 0 <= w < f.len() && f[w] == s[i][k];
        assert((f + s.last())[w] == s[i][k]);
    }
}

/// The box of a non-empty point list, with explicit limits applied, holds every point that
/// the limits' own box would keep.
proof fn lemma_kept_within(g: Graph, i: int, k: int)
    requires
        0 <= i < g.data@.len(),
        0 <= k < kept_points(g)[i].len(),
    ensures
        ({
            let kp = flatten(kept_points(g));
            in_box(
                graph_lo(kp, g.graph_limits),
                graph_hi(kp, g.graph_limits),
                kept_points(g)[i][k],
            )
        }),
{
    let kept = kept_points(g);
    let kp = flatten(kept);
    let p = kept[i][k];
    lemma_flatten_member(kept, i, k);
    lemma_extreme(kp, false, false);
    lemma_extreme(kp, true, false);
    lemma_extreme(kp, false, true);
    lemma_extreme(kp, true, true);
    let w = choose|w: int| 0 <= w < kp.len() && kp[w] == p;
    assert(coord(kp[w], false) == p.x && coord(kp[w], true) == p.y);
    if g.graph_limits is Some {
        let pts = flatten(series_points(g.data@));
        let lo = graph_lo(pts, g.graph_limits);
        let hi = graph_hi(pts, g.graph_limits);
        let pred = |q: Point<i32>| in_box(lo, hi, q);
        let s = series_points(g.data@)[i];
        assert(kept[i] == s.filter(pred));
        s.lemma_filter_pred(pred, k);
    }
}

/// A flattened list is empty exactly when every list in it is.
proof fn lemma_flatten_empty(s: Seq<Seq<Point<i32>>>)
    ensures
        flatten(s).len() == 0 <==> forall|i: int| 0 <= i < s.len() ==> (#[trigger] s[i]).len() == 0,
    decreases s.len(),
{
    if s.len() > 0 {
        lemma_flatten_empty(s.drop_last());
        assert forall|i: int| 0 <= i < s.len() - 1 implies s.drop_last()[i] == s[i] by {}
        if flatten(s).len() == 0 {
            assert forall|i: int| 0 <= i < s.len() implies (#[trigger] s[i]).len() == 0 by {
                if i < s.len() - 1 {
                    assert(s.drop_last()[i] == s[i]);
                }
            }
        }
    }
}

/// Without points, scaling keeps none.
proof fn lemma_no_points_none_kept(g: Graph)
    requires
        g.points().len() == 0,
    ensures
        flatten(kept_points(g)).len() == 0,
{
    let sp = series_points(g.data@);
    lemma_flatten_empty(sp);
    lemma_flatten_empty(kept_points(g));
    if g.graph_limits is Some {
        let pts = flatten(sp);
        let lo = graph_lo(pts, g.graph_limits);
        let hi = graph_hi(pts, g.graph_limits);
        let pred = |p: Point<i32>| in_box(lo, hi, p);
        assert forall|i: int| 0 <= i < kept_points(g).len() implies (#[trigger] kept_points(
            g,
        )[i]).len() == 0 by {
            assert(sp[i].len() == 0);
            sp[i].lemma_filter_len(pred);
        }
    }
}

impl Graph {
    /// The explicit limits, if any, are ordered.
    pub open spec fn limits_valid(&self) -> bool {
        match self.graph_limits {
            None => true,
            Some(gl) => gl.valid(),
        }
    }

    /// All points of all series, series by series.
    pub open spec fn points(&self) -> Seq<Point<i32>> {
        flatten(series_points(self.data@))
    }

    pub fn new() -> (r: Graph)
        ensures
            r.data@.len() == 0,
            r.graph_limits is None,
            r.axes is None,
            r.grid_lines is None,
    {
        Graph { data: Vec::new(), graph_limits: None, axes: None, grid_lines: None, decimals: 0 }
    }

    pub fn with_series(self, series: Series) -> (r: Graph)
        ensures
            r.data@ == self.data@.push(series),
            r.graph_limits == self.graph_limits,
            r.axes == self.axes,
            r.grid_lines == self.grid_lines,
    {
        let mut data = self.data;
        data.push(series);
        Graph { data, ..self }
    }

    /// Says that coordinates stand for values with `decimals` decimals.
    pub fn with_decimals(self, decimals: u8) -> (r: Graph)
        ensures
            r.data@ == self.data@,
            r.graph_limits == self.graph_limits,
            r.axes == self.axes,
            r.grid_lines == self.grid_lines,
            r.decimals == decimals,
    {
        Graph { decimals, ..self }
    }

    pub fn with_axes(self, axes: Axes) -> (r: Graph)
        ensures
            r.data@ == self.data@,
            r.graph_limits == self.graph_limits,
            r.axes == Some(axes),
            r.grid_lines == self.grid_lines,
    {
        Graph { axes: Some(axes), ..self }
    }

    pub fn with_grid_lines(self, grid_lines: GridLines) -> (r: Graph)
        ensures
            r.data@ == self.data@,
            r.graph_limits == self.graph_limits,
            r.axes == self.axes,
            r.grid_lines == Some(grid_lines),
    {
        Graph { grid_lines: Some(grid_lines), ..self }
    }

    /// Fixes the x axis to `[min, max]`, keeping an explicit y range if there is one.
    pub fn with_x_limits(self, min: i32, max: i32) -> (r: Graph)
        requires
            min <= max,
            self.limits_valid(),
        ensures
            r.data@ == self.data@,
            r.axes == self.axes,
            r.grid_lines == self.grid_lines,
            r.limits_valid(),
            r.graph_limits == Some(
                match self.graph_limits {
                    None => GraphLimits::XOnly { min, max },
                    Some(GraphLimits::XOnly { .. }) => GraphLimits::XOnly { min, max },
                    Some(GraphLimits::YOnly { min: y_min, max: y_max }) => GraphLimits::XY {
                        min: Point { x: min, y: y_min },
                        max: Point { x: max, y: y_max },
                    },
                    Some(GraphLimits::XY { min: lo, max: hi }) => GraphLimits::XY {
                        min: Point { x: min, y: lo.y },
                        max: Point { x: max, y: hi.y },
                    },
                },
            ),
    {
        let gl = match self.graph_limits {
            None => GraphLimits::XOnly { min, max },
            Some(GraphLimits::XOnly { .. }) => GraphLimits::XOnly { min, max },
            Some(GraphLimits::YOnly { min: y_min, max: y_max }) => GraphLimits::XY {
                min: Point::new(min, y_min),
                max: Point::new(max, y_max),
            },
            Some(GraphLimits::XY { min: lo, max: hi }) => GraphLimits::XY {
                min: Point::new(min, lo.y),
                max: Point::new(max, hi.y),
            },
        };
        Graph { graph_limits: Some(gl), ..self }
    }

    /// Fixes the y axis to `[min, max]`, keeping an explicit x range if there is one.
    pub fn with_y_limits(self, min: i32, max: i32) -> (r: Graph)
        requires
            min <= max,
            self.limits_valid(),
        ensures
            r.data@ == self.data@,
            r.axes == self.axes,
            r.grid_lines == self.grid_lines,
            r.limits_valid(),
            r.graph_limits == Some(
                match self.graph_limits {
                    None => GraphLimits::YOnly { min, max },
                    Some(GraphLimits::YOnly { .. }) => GraphLimits::YOnly { min, max },
                    Some(GraphLimits::XOnly { min: x_min, max: x_max }) => GraphLimits::XY {
                        min: Point { x: x_min, y: min },
                        max: Point { x: x_max, y: max },
                    },
                    Some(GraphLimits::XY { min: lo, max: hi }) => GraphLimits::XY {
                        min: Point { x: lo.x, y: min },
                        max: Point { x: hi.x, y: max },
                    },
                },
            ),
    {
        let gl = match self.graph_limits {
            None => GraphLimits::YOnly { min, max },
            Some(GraphLimits::YOnly { .. }) => GraphLimits::YOnly { min, max },
            Some(GraphLimits::XOnly { min: x_min, max: x_max }) => GraphLimits::XY {
                min: Point::new(x_min, min),
                max: Point::new(x_max, max),
            },
            Some(GraphLimits::XY { min: lo, max: hi }) => GraphLimits::XY {
                min: Point::new(lo.x, min),
                max: Point::new(hi.x, max),
            },
        };
        Graph { graph_limits: Some(gl), ..self }
    }

    pub fn data(&self) -> (r: &[Series])
        ensures
            r@ == self.data@,
    {
        self.data.as_slice()
    }

    pub fn axes(&self) -> (r: Option<Axes>)
        ensures
            r == self.axes,
    {
        self.axes
    }

    /// Every point of every series, in order.
    pub fn all_points(&self) -> (r: Vec<Point<i32>>)
        ensures
            r@ == self.points(),
    {
        let mut v: Vec<Point<i32>> = Vec::new();
        let mut i: usize = 0;
        while i < self.data.len()
            invariant
                i <= self.data@.len(),
                v@ == flatten(series_points(self.data@.take(i as int))),
            decreases self.data@.len() - i,
        {
            let s = &self.data[i];
            let mut k: usize = 0;
            while k < s.data.len()
                invariant
                    i < self.data@.len(),
                    *s == self.data@[i as int],
                    k <= s.data@.len(),
                    v@ == flatten(series_points(self.data@.take(i as int))) + s.data@.take(
                        k as int,
                    ),
                decreases s.data@.len() - k,
            {
                v.push(s.data[k]);
                proof {
                    assert(s.data@.take(k as int + 1) == s.data@.take(k as int).push(
                        s.data@[k as int],
                    ));
                }
                k = k + 1;
            }
            proof {
                assert(s.data@.take(s.data@.len() as int) == s.data@);
                let t = self.data@.take(i as int + 1);
                assert(series_points(t) == series_points(self.data@.take(i as int)).push(
                    s.data@,
                ));
                lemma_flatten_push(series_points(self.data@.take(i as int)), s.data@);
            }
            i = i + 1;
        }
        proof {
            assert(self.data@.take(self.data@.len() as int) == self.data@);
        }
        v
    }

    /// The box that holds every point, with explicit limits replacing it on their axes;
    /// `None` when there are no points.
    pub fn limits(&self) -> (r: Option<Limits>)
        requires
            self.limits_valid(),
        ensures
            r is None <==> self.points().len() == 0,
            r is Some ==> r->0.lo() == graph_lo(self.points(), self.graph_limits) && r->0.hi()
                == graph_hi(self.points(), self.graph_limits) && r->0.wf(),
    {
        let pts = self.all_points();
        let lim = pts.limits();
        match lim {
            None => None,
            Some(l) => {
                let lo = *l.min();
                let hi = *l.max();
                match self.graph_limits {
                    None => Some(l),
                    Some(GraphLimits::XOnly { min, max }) => Some(
                        Limits::new(Point::new(min, lo.y), Point::new(max, hi.y)),
                    ),
                    Some(GraphLimits::YOnly { min, max }) => Some(
                        Limits::new(Point::new(lo.x, min), Point::new(hi.x, max)),
                    ),
                    Some(GraphLimits::XY { min, max }) => Some(Limits::new(min, max)),
                }
            },
        }
    }
    /// `g` is this graph scaled into `new`: the kept points of each series carried from the
    /// graph's recomputed limits into `new`, the explicit limits likewise, styling unchanged.
    pub open spec fn is_scaled(&self, g: Graph, new: Limits) -> bool {
        let kept = kept_points(*self);
        let kp = flatten(kept);
        let lo = graph_lo(kp, self.graph_limits);
        let hi = graph_hi(kp, self.graph_limits);
        &&& g.data@.len() == self.data@.len()
        &&& g.axes == self.axes
        &&& g.grid_lines == self.grid_lines
        &&& g.decimals == self.decimals
        &&& g.graph_limits == match self.graph_limits {
            None => None,
            Some(gl) => Some(gl.placed(lo, hi, new)),
        }
        &&& forall|i: int|
            0 <= i < self.data@.len() ==> {
                &&& (#[trigger] g.data@[i]).marker_style == self.data@[i].marker_style
                &&& g.data@[i].line_style == self.data@[i].line_style
                &&& g.data@[i].arc@ == self.data@[i].arc@
                &&& g.data@[i].data@.len() == kept[i].len()
                &&& forall|k: int|
                    0 <= k < kept[i].len() ==> #[trigger] g.data@[i].data@[k] == placed_point(
                        kept[i][k],
                        lo,
                        hi,
                        new,
                    )
                &&& forall|k: int|
                    0 <= k < kept[i].len() ==> new.contains_spec(#[trigger] g.data@[i].data@[k])
            }
    }

    /// The points that lie outside the graph's explicit limits, which scaling drops.
    pub fn points_outside_limits(&self) -> (r: Vec<Point<i32>>)
        requires
            self.limits_valid(),
        ensures
            self.graph_limits is None ==> r@.len() == 0,
            self.graph_limits is Some && self.points().len() > 0 ==> r@ == self.points().filter(
                |p: Point<i32>|
                    !in_box(
                        graph_lo(self.points(), self.graph_limits),
                        graph_hi(self.points(), self.graph_limits),
                        p,
                    ),
            ),
    {
        let mut out: Vec<Point<i32>> = Vec::new();
        if self.graph_limits.is_none() {
            return out;
        }
        let lim = match self.limits() {
            None => {
                return out;
            },
            Some(l) => l,
        };
        let pts = self.all_points();
        let mut i: usize = 0;
        while i < pts.len()
            invariant
                i <= pts@.len(),
                pts@ == self.points(),
                lim.lo() == graph_lo(self.points(), self.graph_limits),
                lim.hi() == graph_hi(self.points(), self.graph_limits),
                out@ == pts@.take(i as int).filter(|p: Point<i32>| !in_box(lim.lo(), lim.hi(), p)),
            decreases pts@.len() - i,
        {
            let p = pts[i];
            proof {
                let t = pts@.take(i as int + 1);
                assert(t.drop_last() == pts@.take(i as int));
                assert(t.last() == p);
                reveal(Seq::filter);
            }
            if !lim.contains(p) {
                out.push(p);
            }
            i = i + 1;
        }
        proof {
            assert(pts@.take(pts@.len() as int) == pts@);
        }
        out
    }

    /// Scales the graph into `new_limits`. With explicit limits, points outside the graph's
    /// limits are dropped first and the limits are taken again from what is left. Then every
    /// point, and the explicit limits, are shifted by `-old.min`, scaled, and shifted by
    /// `+new.min`. An empty graph, or one whose limits exclude every point, is an error.
    pub fn scale(self, new_limits: &Limits) -> (r: Result<Graph, PlotError>)
        requires
            self.limits_valid(),
        ensures
            self.points().len() == 0 ==> r == Err::<Graph, PlotError>(PlotError::EmptyGraph),
            self.points().len() > 0 && flatten(kept_points(self)).len() == 0 ==> r == Err::<
                Graph,
                PlotError,
            >(PlotError::NoPointsInLimits),
            flatten(kept_points(self)).len() > 0 ==> r is Ok && self.is_scaled(
                r->Ok_0,
                *new_limits,
            ),
    {
        let old = match self.limits() {
            None => {
                proof {
                    lemma_no_points_none_kept(self);
                }
                return Err(PlotError::EmptyGraph);
            },
            Some(l) => l,
        };
        let ghost kept_spec = kept_points(self);
        let mut kept: Vec<Series> = Vec::new();
        let filtering = self.graph_limits.is_some();
        let mut i: usize = 0;
        while i < self.data.len()
            invariant
                i <= self.data@.len(),
                filtering == self.graph_limits is Some,
                kept_spec == kept_points(self),
                old.lo() == graph_lo(self.points(), self.graph_limits),
                old.hi() == graph_hi(self.points(), self.graph_limits),
                kept@.len() == i,
                forall|j: int|
                    0 <= j < i ==> {
                        &&& (#[trigger] kept@[j]).data@ == kept_spec[j]
                        &&& kept@[j].marker_style == self.data@[j].marker_style
                        &&& kept@[j].line_style == self.data@[j].line_style
                        &&& kept@[j].arc@ == self.data@[j].arc@
                    },
            decreases self.data@.len() - i,
        {
            let s = &self.data[i];
            let pts = if filtering {
                s.points_within(&old)
            } else {
                crate::series::clone_points(&s.data)
            };
            proof {
                if filtering {
                    let lo = graph_lo(self.points(), self.graph_limits);
                    let hi = graph_hi(self.points(), self.graph_limits);
                    let pred1 = |p: Point<i32>| old.contains_spec(p);
                    let pred2 = |p: Point<i32>| in_box(lo, hi, p);
                    assert(pred1 =~= pred2);
                    assert(pts@ == s.data@.filter(pred2));
                }
                assert(series_points(self.data@)[i as int] == s.data@);
            }
            kept.push(s.clone_with(pts));
            i = i + 1;
        }
        let g2 = Graph {
            data: kept,
            graph_limits: self.graph_limits,
            axes: self.axes,
            grid_lines: self.grid_lines,
            decimals: self.decimals,
        };
        proof {
            assert(series_points(g2.data@) == kept_spec);
        }
        let old2 = match g2.limits() {
            None => {
                return Err(PlotError::NoPointsInLimits);
            },
            Some(l) => l,
        };
        let mut placed: Vec<Series> = Vec::new();
        let mut j: usize = 0;
        while j < g2.data.len()
            invariant
                j <= g2.data@.len(),
                g2.data@.len() == self.data@.len(),
                series_points(g2.data@) == kept_points(self),
                g2.graph_limits == self.graph_limits,
                old2.lo() == graph_lo(flatten(kept_points(self)), self.graph_limits),
                old2.hi() == graph_hi(flatten(kept_points(self)), self.graph_limits),
                forall|jj: int|
                    0 <= jj < g2.data@.len() ==> {
                        &&& (#[trigger] g2.data@[jj]).marker_style == self.data@[jj].marker_style
                        &&& g2.data@[jj].line_style == self.data@[jj].line_style
                        &&& g2.data@[jj].arc@ == self.data@[jj].arc@
                    },
                placed@.len() == j,
                forall|jj: int|
                    0 <= jj < j ==> {
                        let kept = kept_points(self);
                        &&& (#[trigger] placed@[jj]).marker_style == self.data@[jj].marker_style
                        &&& placed@[jj].line_style == self.data@[jj].line_style
                        &&& placed@[jj].arc@ == self.data@[jj].arc@
                        &&& placed@[jj].data@.len() == kept[jj].len()
                        &&& forall|k: int|
                            0 <= k < kept[jj].len() ==> #[trigger] placed@[jj].data@[k]
                                == placed_point(kept[jj][k], old2.lo(), old2.hi(), *new_limits)
                        &&& forall|k: int|
                            0 <= k < kept[jj].len() ==> new_limits.contains_spec(
                                #[trigger] placed@[jj].data@[k],
                            )
                    },
            decreases g2.data@.len() - j,
        {
            let s = &g2.data[j];
            proof {
                assert(s.data@ == kept_points(self)[j as int]);
                assert forall|k: int| 0 <= k < s.data@.len() implies old2.contains_spec(
                    #[trigger] s.data@[k],
                ) by {
                    lemma_kept_within(self, j as int, k);
                }
            }
            placed.push(s.place(&old2, new_limits));
            j = j + 1;
        }
        let graph_limits = match self.graph_limits {
            None => None,
            Some(gl) => Some(gl.place(&old2, new_limits)),
        };
        Ok(
            Graph {
                data: placed,
                graph_limits,
                axes: self.axes,
                grid_lines: self.grid_lines,
                decimals: self.decimals,
            },
        )
    }

    /// Axes and grid lines need points to stand around and a solid line style.
    pub open spec fn decor_ok(&self) -> bool {
        &&& self.axes is Some ==> self.points().len() > 0 && self.axes->0.positioning.line_style() is Solid
        &&& self.grid_lines is Some ==> self.points().len() > 0
            && self.grid_lines->0.line_style() is Solid
    }

    /// Asking for the graph's mask succeeds.
    pub open spec fn mask_ok(&self) -> bool {
        &&& self.decor_ok()
        &&& forall|i: int| 0 <= i < self.data@.len() ==> !(#[trigger] self.data@[i]).mask_fails()
    }

    /// Everything that drawing needs fits in the `i32` range.
    pub open spec fn drawable(&self) -> bool {
        let lo = graph_lo(self.points(), self.graph_limits);
        let hi = graph_hi(self.points(), self.graph_limits);
        &&& self.limits_valid()
        &&& forall|i: int| 0 <= i < self.data@.len() ==> (#[trigger] self.data@[i]).markers_fit()
        &&& (self.axes is Some && self.points().len() > 0) ==> axes_fit(
            lo,
            hi,
            self.axes->0.positioning.line_style().thickness_spec() as int,
        )
        &&& (self.grid_lines is Some && self.points().len() > 0) ==> axes_fit(lo, hi, 0)
    }

    /// `masks` is the graph's mask: the axes, then the grid lines, then every series in
    /// order, so that data paints over both.
    pub open spec fn is_graph_mask(&self, masks: Seq<MaskPoints>) -> bool {
        let lo = graph_lo(self.points(), self.graph_limits);
        let hi = graph_hi(self.points(), self.graph_limits);
        let a = match self.axes {
            None => 0,
            Some(ax) => axis_lines(ax.positioning, lo, hi).len() as int,
        };
        let g = match self.grid_lines {
            None => 0,
            Some(gr) => gr.lines(lo, hi).len() as int,
        };
        &&& a + g <= masks.len()
        &&& self.axes is Some ==> draws_lines(
            masks.subrange(0, a),
            axis_lines(self.axes->0.positioning, lo, hi),
            self.axes->0.positioning.line_style(),
        )
        &&& self.grid_lines is Some ==> draws_lines(
            masks.subrange(a, a + g),
            self.grid_lines->0.lines(lo, hi),
            self.grid_lines->0.line_style(),
        )
        &&& series_masks_ok(self.data@, masks.subrange(a + g, masks.len() as int))
    }

    /// The graph's mask: axes, then grid lines, then every series, each over the graph's
    /// limits. Fails on a dashed line, or on axes or grid lines without points.
    pub fn get_mask(&self) -> (r: Result<Vec<MaskPoints>, PlotError>)
        requires
            self.drawable(),
        ensures
            r is Ok <==> self.mask_ok(),
            r is Ok ==> self.is_graph_mask(r->Ok_0@),
    {
        let mut masks: Vec<MaskPoints> = Vec::new();
        let lim = if self.axes.is_some() || self.grid_lines.is_some() {
            self.limits()
        } else {
            None
        };
        let ghost lo = graph_lo(self.points(), self.graph_limits);
        let ghost hi = graph_hi(self.points(), self.graph_limits);
        if let Some(ax) = self.axes {
            match &lim {
                None => {
                    return Err(PlotError::EmptyGraph);
                },
                Some(l) => {
                    match ax.get_mask(l) {
                        Ok(mut am) => {
                            masks.append(&mut am);
                        },
                        Err(e) => {
                            return Err(e);
                        },
                    }
                },
            }
        }
        let ghost a = masks@.len() as int;
        proof {
            if self.axes is Some {
                assert(a == axis_lines(self.axes->0.positioning, lo, hi).len());
                assert(masks@.subrange(0, a) == masks@);
                assert(draws_lines(
                    masks@.subrange(0, a),
                    axis_lines(self.axes->0.positioning, lo, hi),
                    self.axes->0.positioning.line_style(),
                ));
            } else {
                assert(a == 0);
            }
        }
        let ghost axes_part = masks@;
        if let Some(gr) = self.grid_lines {
            match &lim {
                None => {
                    return Err(PlotError::EmptyGraph);
                },
                Some(l) => {
                    match gr.get_mask(l) {
                        Ok(mut gm) => {
                            let ghost before = masks@;
                            let ghost gmv = gm@;
                            masks.append(&mut gm);
                            proof {
                                assert(masks@.subrange(0, a) == before);
                                assert(masks@.subrange(a, masks@.len() as int) == gmv);
                            }
                        },
                        Err(e) => {
                            return Err(e);
                        },
                    }
                },
            }
        }
        let base = masks.len();
        let ghost decor = masks@;
        let mut i: usize = 0;
        while i < self.data.len()
            invariant
                i <= self.data@.len(),
                self.drawable(),
                base == decor.len(),
                masks@.subrange(0, base as int) == decor,
                base <= masks@.len(),
                forall|k: int| 0 <= k < i ==> !(#[trigger] self.data@[k]).mask_fails(),
                series_masks_ok(
                    self.data@.take(i as int),
                    masks@.subrange(base as int, masks@.len() as int),
                ),
            decreases self.data@.len() - i,
        {
            let s = &self.data[i];
            match s.get_mask() {
                Ok(mut sm) => {
                    let ghost before = masks@;
                    let ghost smv = sm@;
                    masks.append(&mut sm);
                    proof {
                        let t = self.data@.take(i as int + 1);
                        assert(t.drop_last() == self.data@.take(i as int));
                        assert(t.last() == *s);
                        let tail = masks@.subrange(base as int, masks@.len() as int);
                        let k = tail.len() - series_mask_len(*s);
                        assert(k == before.len() - base);
                        assert(tail.subrange(0, k) == before.subrange(
                            base as int,
                            before.len() as int,
                        ));
                        assert(tail.subrange(k, tail.len() as int) == smv);
                        assert(masks@.subrange(0, base as int) == before.subrange(0, base as int));
                    }
                },
                Err(e) => {
                    return Err(e);
                },
            }
            i = i + 1;
        }
        proof {
            assert(self.data@.take(self.data@.len() as int) == self.data@);
            assert(decor.subrange(0, a) == axes_part.subrange(0, a));
            assert(masks@.subrange(0, a) == decor.subrange(0, a));
            assert(masks@.subrange(a, base as int) == decor.subrange(a, base as int));
        }
        Ok(masks)
    }

    /// Whether everything that drawing needs fits; see [`Graph::drawable`].
    pub fn check_drawable(&self) -> (r: bool)
        ensures
            r == self.drawable(),
    {
        let valid = match self.graph_limits {
            None => true,
            Some(GraphLimits::XOnly { min, max }) => min <= max,
            Some(GraphLimits::YOnly { min, max }) => min <= max,
            Some(GraphLimits::XY { min, max }) => min.x <= max.x && min.y <= max.y,
        };
        if !valid {
            return false;
        }
        let mut i: usize = 0;
        while i < self.data.len()
            invariant
                i <= self.data@.len(),
                forall|k: int| 0 <= k < i ==> (#[trigger] self.data@[k]).markers_fit(),
            decreases self.data@.len() - i,
        {
            let s = &self.data[i];
            let size = s.marker_style.size() as i64;
            let mut j: usize = 0;
            while j < s.data.len()
                invariant
                    i < self.data@.len(),
                    *s == self.data@[i as int],
                    size == s.marker_style.size_spec(),
                    j <= s.data@.len(),
                    forall|k: int|
                        0 <= k < j ==> crate::marker::marker_fits(
                            #[trigger] s.data@[k],
                            size as int,
                        ),
                decreases s.data@.len() - j,
            {
                let c = s.data[j];
                if !(c.x as i64 - size >= i32::MIN as i64 && c.x as i64 + size <= i32::MAX as i64
                    && c.y as i64 - size >= i32::MIN as i64 && c.y as i64 + size
                    <= i32::MAX as i64) {
                    return false;
                }
                j = j + 1;
            }
            i = i + 1;
        }
        if self.axes.is_none() && self.grid_lines.is_none() {
            return true;
        }
        match self.limits() {
            None => true,
            Some(l) => {
                let lo = *l.min();
                let hi = *l.max();
                let span_ok = hi.x as i64 - lo.x as i64 <= i32::MAX as i64 && hi.y as i64
                    - lo.y as i64 <= i32::MAX as i64;
                let axes_ok = match self.axes {
                    None => true,
                    Some(ax) => {
                        let t = ax.positioning.line_style_exec().thickness() as i64;
                        span_ok && lo.x as i64 - t >= i32::MIN as i64 && lo.y as i64 - t
                            >= i32::MIN as i64
                    },
                };
                let grid_ok = match self.grid_lines {
                    None => true,
                    Some(_) => span_ok,
                };
                axes_ok && grid_ok
            },
        }
    }

    /// Whether the explicit limits, if any, are ordered.
    pub fn limits_are_valid(&self) -> (r: bool)
        ensures
            r == self.limits_valid(),
    {
        match self.graph_limits {
            None => true,
            Some(GraphLimits::XOnly { min, max }) => min <= max,
            Some(GraphLimits::YOnly { min, max }) => min <= max,
            Some(GraphLimits::XY { min, max }) => min.x <= max.x && min.y <= max.y,
        }
    }
}

} // verus!
