use crate::common::{Color, MaskPoints, PlotError};
use crate::limits::Limits;
use crate::line::{is_segment, Line, LinePositioning, LineStyle};
use crate::marker::{is_marker_mask, marker_fits, Marker, MarkerStyle};
use crate::point::Point;
use crate::scale::placed_point;
use vstd::prelude::*;

verus! {

/// One data set: its points in order, the marker drawn at each, and, when a line style is
/// set, the line that joins consecutive points.
///
/// `arc` is the quarter arc that circle markers follow, as steps `(dx, dy)` from the centre;
/// square markers ignore it.
#[derive(Debug, Clone)]
pub struct Series {
    pub data: Vec<Point<i32>>,
    pub marker_style: MarkerStyle,
    pub line_style: Option<LineStyle>,
    pub arc: Vec<Point<i32>>,
}

/// How many masks one marker of `style` produces for a quarter arc of `arc_len` steps.
pub open spec fn marker_mask_count(style: MarkerStyle, arc_len: int) -> int {
    match style {
        MarkerStyle::FilledSquare { .. } => 1,
        MarkerStyle::HollowSquare { .. } => 4,
        MarkerStyle::FilledCircle { .. } => 2 * arc_len,
        MarkerStyle::HollowCircle { .. } => 1,
    }
}

/// How many line segments join `n` points: `n - 1` with a line style, none without.
pub open spec fn segment_count(line_style: Option<LineStyle>, n: int) -> int {
    if line_style is Some && n > 0 {
        n - 1
    } else {
        0
    }
}

impl Series {
    /// Every marker stays inside the `i32` range.
    pub open spec fn markers_fit(&self) -> bool {
        forall|i: int|
            0 <= i < self.data@.len() ==> marker_fits(
                #[trigger] self.data@[i],
                self.marker_style.size_spec() as int,
            )
    }

    /// Asking for the mask fails: a dashed line would have to join two points.
    pub open spec fn mask_fails(&self) -> bool {
        self.line_style matches Some(LineStyle::Dashed { .. }) && self.data@.len() >= 2
    }

    /// `masks` is this series' mask: each point's marker masks, point by point, then one
    /// segment per consecutive pair of points when a line style is set.
    pub open spec fn is_mask(&self, masks: Seq<MaskPoints>) -> bool {
        let n = self.data@.len() as int;
        let m = marker_mask_count(self.marker_style, self.arc@.len() as int);
        &&& masks.len() == n * m + segment_count(self.line_style, n)
        &&& forall|i: int|
            0 <= i < n ==> is_marker_mask(
                #[trigger] masks.subrange(i * m, i * m + m),
                self.marker_style,
                self.data@[i],
                self.arc@,
            )
        &&& forall|i: int|
            0 <= i < segment_count(self.line_style, n) ==> {
                &&& (#[trigger] masks[n * m + i]).color == self.line_style->0.color_spec()
                &&& is_segment(masks[n * m + i].points@, self.data@[i], self.data@[i + 1])
            }
    }

    /// A series of the given points, drawn with the default marker and no line. It must
    /// have at least one point.
    pub fn new(data: &[Point<i32>]) -> (r: Series)
        requires
            data@.len() > 0,
        ensures
            r.data@ == data@,
            r.marker_style == (MarkerStyle::FilledSquare { size: 0, color: Color { r: 255, g: 255, b: 255 } }),
            r.line_style is None,
            r.arc@.len() == 0,
    {
        let mut v: Vec<Point<i32>> = Vec::new();
        let mut i: usize = 0;
        while i < data.len()
            invariant
                i <= data@.len(),
                v@ == data@.take(i as int),
            decreases data@.len() - i,
        {
            v.push(data[i]);
            proof {
                assert(data@.take(i as int + 1) == data@.take(i as int).push(data@[i as int]));
            }
            i = i + 1;
        }
        proof {
            assert(data@.take(data@.len() as int) == data@);
        }
        Series {
            data: v,
            marker_style: MarkerStyle::default(),
            line_style: None,
            arc: Vec::new(),
        }
    }

    pub fn data(&self) -> (r: &[Point<i32>])
        ensures
            r@ == self.data@,
    {
        self.data.as_slice()
    }

    pub fn marker_style(&self) -> (r: &MarkerStyle)
        ensures
            *r == self.marker_style,
    {
        &self.marker_style
    }

    pub fn line_style(&self) -> (r: &Option<LineStyle>)
        ensures
            *r == self.line_style,
    {
        &self.line_style
    }

    pub fn with_marker_style(self, marker_style: MarkerStyle) -> (r: Series)
        ensures
            r.data@ == self.data@,
            r.marker_style == marker_style,
            r.line_style == self.line_style,
            r.arc@ == self.arc@,
    {
        Series { marker_style, ..self }
    }

    pub fn with_line_style(self, line_style: LineStyle) -> (r: Series)
        ensures
            r.data@ == self.data@,
            r.marker_style == self.marker_style,
            r.line_style == Some(line_style),
            r.arc@ == self.arc@,
    {
        Series { line_style: Some(line_style), ..self }
    }

    /// Sets the quarter arc that circle markers follow.
    pub fn with_arc(self, arc: Vec<Point<i32>>) -> (r: Series)
        ensures
            r.data@ == self.data@,
            r.marker_style == self.marker_style,
            r.line_style == self.line_style,
            r.arc@ == arc@,
    {
        Series { arc, ..self }
    }

    /// The same styling over other points.
    pub fn clone_with(&self, data: Vec<Point<i32>>) -> (r: Series)
        ensures
            r.data@ == data@,
            r.marker_style == self.marker_style,
            r.line_style == self.line_style,
            r.arc@ == self.arc@,
    {
        Series {
            data,
            marker_style: self.marker_style,
            line_style: self.line_style,
            arc: clone_points(&self.arc),
        }
    }

    /// The points that lie within `limits`, in order.
    pub fn points_within(&self, limits: &Limits) -> (r: Vec<Point<i32>>)
        ensures
            r@ == self.data@.filter(|p: Point<i32>| limits.contains_spec(p)),
    {
        let mut v: Vec<Point<i32>> = Vec::new();
        let mut i: usize = 0;
        while i < self.data.len()
            invariant
                i <= self.data@.len(),
                v@ == self.data@.take(i as int).filter(|p: Point<i32>| limits.contains_spec(p)),
            decreases self.data@.len() - i,
        {
            let p = self.data[i];
            proof {
                let t = self.data@.take(i as int + 1);
                assert(t.drop_last() == self.data@.take(i as int));
                assert(t.last() == p);
                reveal(Seq::filter);
            }
            if limits.contains(p) {
                v.push(p);
            }
            i = i + 1;
        }
        proof {
            assert(self.data@.take(self.data@.len() as int) == self.data@);
        }
        v
    }

    /// Every point carried from the box `old_limits` into `new_limits`; the points must lie
    /// in `old_limits`.
    pub fn place(&self, old_limits: &Limits, new_limits: &Limits) -> (r: Series)
        requires
            forall|i: int|
                0 <= i < self.data@.len() ==> old_limits.contains_spec(#[trigger] self.data@[i]),
        ensures
            r.data@.len() == self.data@.len(),
            forall|i: int|
                0 <= i < self.data@.len() ==> #[trigger] r.data@[i] == placed_point(
                    self.data@[i],
                    old_limits.lo(),
                    old_limits.hi(),
                    *new_limits,
                ),
            forall|i: int|
                0 <= i < self.data@.len() ==> new_limits.contains_spec(#[trigger] r.data@[i]),
            r.marker_style == self.marker_style,
            r.line_style == self.line_style,
            r.arc@ == self.arc@,
    {
        let mut v: Vec<Point<i32>> = Vec::new();
        let mut i: usize = 0;
        while i < self.data.len()
            invariant
                i <= self.data@.len(),
                v@.len() == i,
                forall|k: int|
                    0 <= k < self.data@.len() ==> old_limits.contains_spec(#[trigger] self.data@[k]),
                forall|k: int|
                    0 <= k < i ==> #[trigger] v@[k] == placed_point(
                        self.data@[k],
                        old_limits.lo(),
                        old_limits.hi(),
                        *new_limits,
                    ),
                forall|k: int| 0 <= k < i ==> new_limits.contains_spec(#[trigger] v@[k]),
            decreases self.data@.len() - i,
        {
            v.push(self.data[i].place(old_limits, new_limits));
            i = i + 1;
        }
        self.clone_with(v)
    }

    /// The series' masks: the marker masks of every point in order, then, when a line style
    /// is set, one segment per consecutive pair of points. A dashed line is an error.
    pub fn get_mask(&self) -> (r: Result<Vec<MaskPoints>, PlotError>)
        requires
            self.markers_fit(),
        ensures
            r is Err <==> self.mask_fails(),
            r is Err ==> r == Err::<Vec<MaskPoints>, PlotError>(PlotError::DashedLineUnsupported),
            r is Ok ==> self.is_mask(r->Ok_0@),
    {
        let n = self.data.len();
        if n >= 2 {
            if let Some(LineStyle::Dashed { .. }) = self.line_style {
                return Err(PlotError::DashedLineUnsupported);
            }
        }
        let ghost m = marker_mask_count(self.marker_style, self.arc@.len() as int);
        let mut masks: Vec<MaskPoints> = Vec::new();
        let mut i: usize = 0;
        proof {
            assert(0 * m == 0) by (nonlinear_arith);
        }
        while i < n
            invariant
                n == self.data@.len(),
                i <= n,
                self.markers_fit(),
                m == marker_mask_count(self.marker_style, self.arc@.len() as int),
                m >= 0,
                masks@.len() == i * m,
                forall|ii: int|
                    0 <= ii < i ==> is_marker_mask(
                        #[trigger] masks@.subrange(ii * m, ii * m + m),
                        self.marker_style,
                        self.data@[ii],
                        self.arc@,
                    ),
            decreases n - i,
        {
            let marker = Marker::new(self.data[i], self.marker_style);
            let mut mm = marker.get_mask(&self.arc);
            proof {
                assert(mm@.len() == m);
            }
            let ghost before = masks@;
            let ghost mmv = mm@;
            masks.append(&mut mm);
            proof {
                assert((i + 1) * m == i * m + m) by (nonlinear_arith);
                assert forall|ii: int| 0 <= ii < i + 1 implies is_marker_mask(
                    #[trigger] masks@.subrange(ii * m, ii * m + m),
                    self.marker_style,
                    self.data@[ii],
                    self.arc@,
                ) by {
                    if ii < i {
                        assert(ii * m + m <= i * m) by (nonlinear_arith)
                            requires
                                ii < i,
                                m >= 0,
                        ;
                        assert(0 <= ii * m) by (nonlinear_arith)
                            requires
                                0 <= ii,
                                m >= 0,
                        ;
                        assert(masks@.subrange(ii * m, ii * m + m) == before.subrange(
                            ii * m,
                            ii * m + m,
                        ));
                    } else {
                        assert(masks@.subrange(ii * m, ii * m + m) == mmv);
                    }
                }
            }
            i = i + 1;
        }
        let ghost base = masks@;
        if let Some(ls) = self.line_style {
            if n > 0 {
                let mut j: usize = 0;
                while j + 1 < n
                    invariant
                        n == self.data@.len(),
                        n > 0,
                        j + 1 <= n,
                        self.line_style == Some(ls),
                        ls is Solid || n < 2,
                        masks@.len() == n * m + j,
                        masks@.subrange(0, n * m) == base,
                        base.len() == n * m,
                        m == marker_mask_count(self.marker_style, self.arc@.len() as int),
                        m >= 0,
                        forall|ii: int|
                            0 <= ii < n ==> is_marker_mask(
                                #[trigger] masks@.subrange(ii * m, ii * m + m),
                                self.marker_style,
                                self.data@[ii],
                                self.arc@,
                            ),
                        forall|k: int|
                            0 <= k < j ==> {
                                &&& (#[trigger] masks@[n * m + k]).color == ls.color_spec()
                                &&& is_segment(
                                    masks@[n * m + k].points@,
                                    self.data@[k],
                                    self.data@[k + 1],
                                )
                            },
                    decreases n - j,
                {
                    let pos = LinePositioning::BetweenPoints {
                        start: self.data[j],
                        end: self.data[j + 1],
                    };
                    let lm = Line::new(pos, ls).get_mask();
                    match lm {
                        Ok(mut v) => {
                            let ghost before = masks@;
                            masks.append(&mut v);
                            proof {
                                assert(masks@.subrange(0, n * m) == before.subrange(0, n * m));
                                assert forall|ii: int| 0 <= ii < n implies is_marker_mask(
                                    #[trigger] masks@.subrange(ii * m, ii * m + m),
                                    self.marker_style,
                                    self.data@[ii],
                                    self.arc@,
                                ) by {
                                    assert(ii * m + m <= n * m) by (nonlinear_arith)
                                        requires
                                            ii < n,
                                            m >= 0,
                                    ;
                                    assert(0 <= ii * m) by (nonlinear_arith)
                                        requires
                                            0 <= ii,
                                            m >= 0,
                                    ;
                                    assert(masks@.subrange(ii * m, ii * m + m) == before.subrange(
                                        ii * m,
                                        ii * m + m,
                                    ));
                                }
                            }
                        },
                        Err(e) => {
                            return Err(e);
                        },
                    }
                    j = j + 1;
                }
            }
        }
        Ok(masks)
    }
}

/// A copy of a list of points.
pub fn clone_points(v: &Vec<Point<i32>>) -> (r: Vec<Point<i32>>)
    ensures
        r@ == v@,
{
    let mut r: Vec<Point<i32>> = Vec::new();
    let mut i: usize = 0;
    while i < v.len()
        invariant
            i <= v@.len(),
            r@ == v@.take(i as int),
        decreases v@.len() - i,
    {
        r.push(v[i]);
        proof {
            assert(v@.take(i as int + 1) == v@.take(i as int).push(v@[i as int]));
        }
        i = i + 1;
    }
    proof {
        assert(v@.take(v@.len() as int) == v@);
    }
    r
}

} // verus!
