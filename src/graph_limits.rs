use crate::limits::{in_box, Limits};
use crate::point::Point;
use crate::scale::{place_coord, scale_coord, scale_value, shift_fits, Scalable, Shiftable};
use vstd::prelude::*;

verus! {

/// Explicit axis limits for a graph, replacing those that its data would give.
#[derive(Debug, Clone, Copy, PartialEq, Eq)]
pub enum GraphLimits {
    XOnly { min: i32, max: i32 },
    YOnly { min: i32, max: i32 },
    XY { min: Point<i32>, max: Point<i32> },
}

/// `v` scaled along the x (or, with `use_y`, the y) axis from `old` to `new`.
pub open spec fn scale_axis(v: int, old: Limits, new: Limits, use_y: bool) -> int {
    if use_y {
        scale_coord(v, old.hi().y - old.lo().y, new.lo().y as int, new.hi().y as int)
    } else {
        scale_coord(v, old.hi().x - old.lo().x, new.lo().x as int, new.hi().x as int)
    }
}

/// `v` carried along the x (or, with `use_y`, the y) axis from the box `[olo, ohi]` into
/// `new`.
pub open spec fn place_axis(v: int, olo: Point<i32>, ohi: Point<i32>, new: Limits, use_y: bool) -> int {
    if use_y {
        place_coord(v, olo.y as int, ohi.y as int, new.lo().y as int, new.hi().y as int)
    } else {
        place_coord(v, olo.x as int, ohi.x as int, new.lo().x as int, new.hi().x as int)
    }
}

pub open spec fn fits_i32(v: int) -> bool {
    i32::MIN <= v <= i32::MAX
}

fn scale_on(v: i32, old: &Limits, new: &Limits, use_y: bool) -> (r: i32)
    requires
        fits_i32(scale_axis(v as int, *old, *new, use_y)),
    ensures
        r == scale_axis(v as int, *old, *new, use_y),
{
    let (osx, osy) = *old.span();
    let nmin = *new.min();
    let nmax = *new.max();
    if use_y {
        scale_value(v, osy, nmin.y, nmax.y)
    } else {
        scale_value(v, osx, nmin.x, nmax.x)
    }
}

fn place_on(v: i32, old: &Limits, new: &Limits, use_y: bool) -> (r: i32)
    requires
        if use_y {
            old.lo().y <= v <= old.hi().y
        } else {
            old.lo().x <= v <= old.hi().x
        },
    ensures
        r == place_axis(v as int, old.lo(), old.hi(), *new, use_y),
{
    let omin = *old.min();
    let omax = *old.max();
    let nmin = *new.min();
    let nmax = *new.max();
    if use_y {
        crate::scale::place_value(v, omin.y, omax.y, nmin.y, nmax.y)
    } else {
        crate::scale::place_value(v, omin.x, omax.x, nmin.x, nmax.x)
    }
}

impl GraphLimits {
    /// The limits given are ordered.
    pub open spec fn valid(self) -> bool {
        match self {
            GraphLimits::XOnly { min, max } => min <= max,
            GraphLimits::YOnly { min, max } => min <= max,
            GraphLimits::XY { min, max } => min.x <= max.x && min.y <= max.y,
        }
    }

    /// Every value, once scaled from `old` to `new`, fits in `i32`.
    pub open spec fn scale_fits(self, old: Limits, new: Limits) -> bool {
        match self {
            GraphLimits::XOnly { min, max } => fits_i32(scale_axis(min as int, old, new, false))
                && fits_i32(scale_axis(max as int, old, new, false)),
            GraphLimits::YOnly { min, max } => fits_i32(scale_axis(min as int, old, new, true))
                && fits_i32(scale_axis(max as int, old, new, true)),
            GraphLimits::XY { min, max } => fits_i32(scale_axis(min.x as int, old, new, false))
                && fits_i32(scale_axis(max.x as int, old, new, false)) && fits_i32(
                scale_axis(min.y as int, old, new, true),
            ) && fits_i32(scale_axis(max.y as int, old, new, true)),
        }
    }

    /// Every value scaled from `old` to `new`, axis by axis.
    pub open spec fn scaled(self, old: Limits, new: Limits) -> GraphLimits {
        match self {
            GraphLimits::XOnly { min, max } => GraphLimits::XOnly {
                min: scale_axis(min as int, old, new, false) as i32,
                max: scale_axis(max as int, old, new, false) as i32,
            },
            GraphLimits::YOnly { min, max } => GraphLimits::YOnly {
                min: scale_axis(min as int, old, new, true) as i32,
                max: scale_axis(max as int, old, new, true) as i32,
            },
            GraphLimits::XY { min, max } => GraphLimits::XY {
                min: Point {
                    x: scale_axis(min.x as int, old, new, false) as i32,
                    y: scale_axis(min.y as int, old, new, true) as i32,
                },
                max: Point {
                    x: scale_axis(max.x as int, old, new, false) as i32,
                    y: scale_axis(max.y as int, old, new, true) as i32,
                },
            },
        }
    }

    /// Every value lies within the box `[olo, ohi]` on its own axis.
    pub open spec fn within(self, olo: Point<i32>, ohi: Point<i32>) -> bool {
        match self {
            GraphLimits::XOnly { min, max } => olo.x <= min <= ohi.x && olo.x <= max <= ohi.x,
            GraphLimits::YOnly { min, max } => olo.y <= min <= ohi.y && olo.y <= max <= ohi.y,
            GraphLimits::XY { min, max } => in_box(olo, ohi, min) && in_box(olo, ohi, max),
        }
    }

    /// Every value carried from the box `[olo, ohi]` into `new`, axis by axis.
    pub open spec fn placed(self, olo: Point<i32>, ohi: Point<i32>, new: Limits) -> GraphLimits {
        match self {
            GraphLimits::XOnly { min, max } => GraphLimits::XOnly {
                min: place_axis(min as int, olo, ohi, new, false) as i32,
                max: place_axis(max as int, olo, ohi, new, false) as i32,
            },
            GraphLimits::YOnly { min, max } => GraphLimits::YOnly {
                min: place_axis(min as int, olo, ohi, new, true) as i32,
                max: place_axis(max as int, olo, ohi, new, true) as i32,
            },
            GraphLimits::XY { min, max } => GraphLimits::XY {
                min: Point {
                    x: place_axis(min.x as int, olo, ohi, new, false) as i32,
                    y: place_axis(min.y as int, olo, ohi, new, true) as i32,
                },
                max: Point {
                    x: place_axis(max.x as int, olo, ohi, new, false) as i32,
                    y: place_axis(max.y as int, olo, ohi, new, true) as i32,
                },
            },
        }
    }

    /// Shifting by `amount` keeps every value in `i32`.
    pub open spec fn shift_ok(self, amount: Point<i32>) -> bool {
        match self {
            GraphLimits::XOnly { min, max } => fits_i32(min + amount.x) && fits_i32(
                max + amount.x,
            ),
            GraphLimits::YOnly { min, max } => fits_i32(min + amount.y) && fits_i32(
                max + amount.y,
            ),
            GraphLimits::XY { min, max } => shift_fits(min, amount) && shift_fits(max, amount),
        }
    }

    /// Every value shifted by `amount` along its own axis.
    pub open spec fn shifted(self, amount: Point<i32>) -> GraphLimits {
        match self {
            GraphLimits::XOnly { min, max } => GraphLimits::XOnly {
                min: (min + amount.x) as i32,
                max: (max + amount.x) as i32,
            },
            GraphLimits::YOnly { min, max } => GraphLimits::YOnly {
                min: (min + amount.y) as i32,
                max: (max + amount.y) as i32,
            },
            GraphLimits::XY { min, max } => GraphLimits::XY {
                min: Point { x: (min.x + amount.x) as i32, y: (min.y + amount.y) as i32 },
                max: Point { x: (max.x + amount.x) as i32, y: (max.y + amount.y) as i32 },
            },
        }
    }

    /// Carries every value from the box `old_limits` into `new_limits` on its own axis:
    /// shift by `-old.min`, scale, shift by `+new.min`.
    pub fn place(self, old_limits: &Limits, new_limits: &Limits) -> (r: GraphLimits)
        requires
            self.within(old_limits.lo(), old_limits.hi()),
        ensures
            r == self.placed(old_limits.lo(), old_limits.hi(), *new_limits),
    {
        match self {
            GraphLimits::XOnly { min, max } => GraphLimits::XOnly {
                min: place_on(min, old_limits, new_limits, false),
                max: place_on(max, old_limits, new_limits, false),
            },
            GraphLimits::YOnly { min, max } => GraphLimits::YOnly {
                min: place_on(min, old_limits, new_limits, true),
                max: place_on(max, old_limits, new_limits, true),
            },
            GraphLimits::XY { min, max } => GraphLimits::XY {
                min: Point {
                    x: place_on(min.x, old_limits, new_limits, false),
                    y: place_on(min.y, old_limits, new_limits, true),
                },
                max: Point {
                    x: place_on(max.x, old_limits, new_limits, false),
                    y: place_on(max.y, old_limits, new_limits, true),
                },
            },
        }
    }

}

impl Scalable for GraphLimits {
    open spec fn scale_req(&self, old: Limits, new: Limits) -> bool {
        self.scale_fits(old, new)
    }

    open spec fn scale_spec(&self, old: Limits, new: Limits) -> GraphLimits {
        self.scaled(old, new)
    }

    /// Scales every value by `new_span / old_span` on its own axis (no translation); an axis
    /// whose old span is zero maps to the midpoint of the new range.
    fn scale_to(self, old_limits: &Limits, new_limits: &Limits) -> (r: GraphLimits)
    {
        match self {
            GraphLimits::XOnly { min, max } => GraphLimits::XOnly {
                min: scale_on(min, old_limits, new_limits, false),
                max: scale_on(max, old_limits, new_limits, false),
            },
            GraphLimits::YOnly { min, max } => GraphLimits::YOnly {
                min: scale_on(min, old_limits, new_limits, true),
                max: scale_on(max, old_limits, new_limits, true),
            },
            GraphLimits::XY { min, max } => GraphLimits::XY {
                min: Point {
                    x: scale_on(min.x, old_limits, new_limits, false),
                    y: scale_on(min.y, old_limits, new_limits, true),
                },
                max: Point {
                    x: scale_on(max.x, old_limits, new_limits, false),
                    y: scale_on(max.y, old_limits, new_limits, true),
                },
            },
        }
    }

}

impl Shiftable for GraphLimits {
    open spec fn shift_req(&self, amount: Point<i32>) -> bool {
        self.shift_ok(amount)
    }

    open spec fn shift_spec(&self, amount: Point<i32>) -> GraphLimits {
        self.shifted(amount)
    }

    /// Translates every value by `amount` along its own axis.
    fn shift_by(self, amount: Point<i32>) -> (r: GraphLimits)
    {
        match self {
            GraphLimits::XOnly { min, max } => GraphLimits::XOnly {
                min: min + amount.x,
                max: max + amount.x,
            },
            GraphLimits::YOnly { min, max } => GraphLimits::YOnly {
                min: min + amount.y,
                max: max + amount.y,
            },
            GraphLimits::XY { min, max } => GraphLimits::XY {
                min: Point { x: min.x + amount.x, y: min.y + amount.y },
                max: Point { x: max.x + amount.x, y: max.y + amount.y },
            },
        }
    }
}

} // verus!
