use crate::axes::{draws_lines, solid_line_mask};
use crate::common::{MaskPoints, PlotError};
use crate::limits::{sample, Limits};
use crate::line::{LinePositioning, LineStyle};
use crate::point::Point;
use vstd::prelude::*;

verus! {

/// How many equal sections grid lines and tick labels split each axis into.
pub const NUM_GRID_SECTIONS: u32 = 10;

/// Grid lines across a graph: horizontal ones (`XOnly`), vertical ones (`YOnly`), or both.
#[derive(Debug, Clone, Copy, PartialEq, Eq)]
pub enum GridLines {
    XOnly(LineStyle),
    YOnly(LineStyle),
    XY(LineStyle),
}

/// The `i`-th horizontal grid line of the box `[lo, hi]`: across the full width, at the `i`-th section
/// boundary of the y axis.
pub open spec fn horizontal_grid_line(lo: Point<i32>, hi: Point<i32>, i: int) -> LinePositioning {
    LinePositioning::Horizontal {
        start: Point {
            x: lo.x,
            y: sample(lo.y as int, hi.y as int, NUM_GRID_SECTIONS as int, i) as i32,
        },
        length: (hi.x - lo.x) as i32,
    }
}

/// The `i`-th vertical grid line of the box `[lo, hi]`: across the full height, at the `i`-th section
/// boundary of the x axis.
pub open spec fn vertical_grid_line(lo: Point<i32>, hi: Point<i32>, i: int) -> LinePositioning {
    LinePositioning::Vertical {
        start: Point {
            x: sample(lo.x as int, hi.x as int, NUM_GRID_SECTIONS as int, i) as i32,
            y: lo.y,
        },
        length: (hi.y - lo.y) as i32,
    }
}

impl GridLines {
    pub open spec fn line_style(self) -> LineStyle {
        match self {
            GridLines::XOnly(ls) => ls,
            GridLines::YOnly(ls) => ls,
            GridLines::XY(ls) => ls,
        }
    }

    /// The lines drawn over the box `[lo, hi]`, boundary by boundary from the lower one; with both kinds,
    /// the horizontal line of each boundary comes before the vertical one.
    pub open spec fn lines(self, lo: Point<i32>, hi: Point<i32>) -> Seq<LinePositioning> {
        let n = NUM_GRID_SECTIONS as int + 1;
        match self {
            GridLines::XOnly(_) => Seq::new(n as nat, |i: int| horizontal_grid_line(lo, hi, i)),
            GridLines::YOnly(_) => Seq::new(n as nat, |i: int| vertical_grid_line(lo, hi, i)),
            GridLines::XY(_) => Seq::new(
                (2 * n) as nat,
                |k: int|
                    if k % 2 == 0 {
                        horizontal_grid_line(lo, hi, k / 2)
                    } else {
                        vertical_grid_line(lo, hi, k / 2)
                    },
            ),
        }
    }

    /// One full-span line at every section boundary (eleven per direction), independent of
    /// any axes. A dashed style is an error.
    pub fn get_mask(&self, limits: &Limits) -> (r: Result<Vec<MaskPoints>, PlotError>)
        requires
            limits.wf(),
            limits.hi().x - limits.lo().x <= i32::MAX,
            limits.hi().y - limits.lo().y <= i32::MAX,
        ensures
            self.line_style() is Dashed ==> r == Err::<Vec<MaskPoints>, PlotError>(
                PlotError::DashedLineUnsupported,
            ),
            self.line_style() is Solid ==> r is Ok && draws_lines(
                r->Ok_0@,
                self.lines(limits.lo(), limits.hi()),
                self.line_style(),
            ),
    {
        let ls = match self {
            GridLines::XOnly(ls) => *ls,
            GridLines::YOnly(ls) => *ls,
            GridLines::XY(ls) => *ls,
        };
        if let LineStyle::Dashed { .. } = ls {
            return Err(PlotError::DashedLineUnsupported);
        }
        let (xs, ys) = limits.chunk(NUM_GRID_SECTIONS);
        let min = *limits.min();
        let max = *limits.max();
        let span_x = (max.x as i64 - min.x as i64) as i32;
        let span_y = (max.y as i64 - min.y as i64) as i32;
        let ghost lines = self.lines(limits.lo(), limits.hi());
        let mut masks: Vec<MaskPoints> = Vec::new();
        let mut i: usize = 0;
        while i <= NUM_GRID_SECTIONS as usize
            invariant
                i <= NUM_GRID_SECTIONS + 1,
                ls == self.line_style(),
                ls is Solid,
                lines == self.lines(limits.lo(), limits.hi()),
                xs@.len() == NUM_GRID_SECTIONS + 1,
                ys@.len() == NUM_GRID_SECTIONS + 1,
                forall|k: int|
                    0 <= k <= NUM_GRID_SECTIONS ==> #[trigger] xs@[k] == (Point {
                        x: sample(
                            limits.lo().x as int,
                            limits.hi().x as int,
                            NUM_GRID_SECTIONS as int,
                            k,
                        ) as i32,
                        y: limits.lo().y,
                    }),
                forall|k: int|
                    0 <= k <= NUM_GRID_SECTIONS ==> #[trigger] ys@[k] == (Point {
                        x: limits.lo().x,
                        y: sample(
                            limits.lo().y as int,
                            limits.hi().y as int,
                            NUM_GRID_SECTIONS as int,
                            k,
                        ) as i32,
                    }),
                limits.wf(),
                min == limits.lo(),
                max == limits.hi(),
                span_x == limits.hi().x - limits.lo().x,
                span_y == limits.hi().y - limits.lo().y,
                masks@.len() == if self is XY {
                    2 * i
                } else {
                    i as int
                },
                forall|k: int|
                    0 <= k < masks@.len() ==> {
                        &&& (#[trigger] masks@[k]).color == ls.color_spec()
                        &&& crate::line::is_line_fill(masks@[k].points@, lines[k], ls.thickness_spec())
                    },
            decreases NUM_GRID_SECTIONS + 1 - i,
        {
            let horizontal = LinePositioning::Horizontal {
                start: Point::new(min.x, ys[i].y),
                length: span_x,
            };
            let vertical = LinePositioning::Vertical {
                start: Point::new(xs[i].x, min.y),
                length: span_y,
            };
            proof {
                assert(horizontal == horizontal_grid_line(limits.lo(), limits.hi(), i as int));
                assert(vertical == vertical_grid_line(limits.lo(), limits.hi(), i as int));
            }
            match self {
                GridLines::XOnly(_) => {
                    masks.push(solid_line_mask(horizontal, ls));
                },
                GridLines::YOnly(_) => {
                    masks.push(solid_line_mask(vertical, ls));
                },
                GridLines::XY(_) => {
                    masks.push(solid_line_mask(horizontal, ls));
                    masks.push(solid_line_mask(vertical, ls));
                    proof {
                        assert((2 * i) % 2 == 0 && (2 * i) / 2 == i) by (nonlinear_arith);
                        assert((2 * i + 1) % 2 == 1 && (2 * i + 1) / 2 == i) by (nonlinear_arith);
                    }
                },
            }
            i = i + 1;
        }
        Ok(masks)
    }
}

} // verus!
