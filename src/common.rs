use crate::point::Point;
use vstd::prelude::*;

verus! {

/// A 24-bit RGB color.
#[derive(Debug, Clone, Copy, PartialEq, Eq)]
pub struct Color {
    pub r: u8,
    pub g: u8,
    pub b: u8,
}

impl Color {
    pub fn new(r: u8, g: u8, b: u8) -> (c: Color)
        ensures
            c.r == r,
            c.g == g,
            c.b == b,
    {
        Color { r, g, b }
    }

    pub fn black() -> (c: Color)
        ensures
            c == (Color { r: 0, g: 0, b: 0 }),
    {
        Color { r: 0, g: 0, b: 0 }
    }

    pub fn white() -> (c: Color)
        ensures
            c == (Color { r: 255, g: 255, b: 255 }),
    {
        Color { r: 255, g: 255, b: 255 }
    }
}

/// What a rasterizer produces: a set of pixels painted in one flat color.
#[derive(Debug, Clone)]
pub struct MaskPoints {
    pub points: Vec<Point<u32>>,
    pub color: Color,
}

/// The errors that drawing can report.
#[derive(Debug, Clone, Copy, PartialEq, Eq)]
pub enum PlotError {
    /// Dashed lines are not drawn; asking for one fails instead of drawing a solid line.
    DashedLineUnsupported,
    /// A graph with no points cannot be scaled onto a canvas.
    EmptyGraph,
    /// No point of the graph lies inside its explicit axis limits.
    NoPointsInLimits,
    /// After margins and insets nothing is left of the canvas to draw in.
    CanvasTooSmall {
        width: u32,
        height: u32,
        left: u32,
        right: u32,
        top: u32,
        bottom: u32,
        inset: u32,
    },
    /// A coordinate does not fit the range that drawing needs.
    CoordinateOutOfRange,
}

} // verus!
