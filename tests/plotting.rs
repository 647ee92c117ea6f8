use termplt::canvas::{BufferType, TerminalCanvas};
use termplt::common::{Color, PlotError};
use termplt::graph::Graph;
use termplt::line::{segment_pixels, Line, LinePositioning, LineStyle};
use termplt::marker::{Marker, MarkerStyle};
use termplt::point::Point;
use termplt::scale::Shiftable;
use termplt::series::Series;

fn quarter_arc(radius: u32) -> Vec<Point<i32>> {
    let r = radius as f64;
    let step = (1.0 / r).atan();
    let mut arc = Vec::new();
    let mut angle: f64 = 0.0;
    let end = std::f64::consts::FRAC_PI_2;
    loop {
        let a = if angle > end { end } else { angle };
        arc.push(Point::new(
            (r * a.cos()).round() as i32,
            (r * a.sin()).round() as i32,
        ));
        if a >= end {
            break;
        }
        angle += step;
    }
    arc
}

fn white() -> Color {
    Color::new(255, 255, 255)
}

#[test]
fn segment_is_same_both_ways_and_holds_its_ends() {
    let cases = [
        (Point::new(0, 0), Point::new(7, 3)),
        (Point::new(2, 9), Point::new(5, 0)),
        (Point::new(3, 14), Point::new(3, 4)),
        (Point::new(1, 1), Point::new(9, 9)),
        (Point::new(4, 4), Point::new(4, 4)),
    ];
    for (a, b) in cases {
        let mut ab = segment_pixels(a, b);
        let mut ba = segment_pixels(b, a);
        for w in ab.windows(2) {
            assert_ne!(w[0], w[1]);
        }
        ab.sort_by_key(|p| (p.x, p.y));
        ba.sort_by_key(|p| (p.x, p.y));
        assert_eq!(ab, ba);
        assert!(ab.contains(&a.to_pixel()));
        assert!(ab.contains(&b.to_pixel()));
    }
}

#[test]
fn segment_steps_along_major_axis() {
    let px = segment_pixels(Point::new(0, 0), Point::new(4, 2));
    assert_eq!(
        px,
        vec![
            Point::new(0u32, 0u32),
            Point::new(1, 1),
            Point::new(2, 1),
            Point::new(3, 2),
            Point::new(4, 2)
        ]
    );
}

#[test]
fn thick_horizontal_line_repeats_at_each_offset() {
    let line = Line::new(
        LinePositioning::Horizontal { start: Point::new(2, 5), length: 3 },
        LineStyle::Solid { color: white(), thickness: 1 },
    );
    let masks = line.get_mask().unwrap();
    assert_eq!(masks.len(), 1);
    assert_eq!(masks[0].points.len(), 12);
    assert_eq!(masks[0].points[0], Point::new(2u32, 4u32));
    assert_eq!(masks[0].points[11], Point::new(5u32, 6u32));
}

#[test]
fn dashed_line_is_an_error() {
    let line = Line::new(
        LinePositioning::Vertical { start: Point::new(0, 0), length: 3 },
        LineStyle::Dashed { color: white(), thickness: 0 },
    );
    assert_eq!(line.get_mask().unwrap_err(), PlotError::DashedLineUnsupported);
}

#[test]
fn filled_circle_strictly_covers_hollow_circle() {
    for r in 1..6 {
        let arc = quarter_arc(r);
        let c = Point::new(20, 20);
        let filled = Marker::new(c, MarkerStyle::FilledCircle { size: r, color: white() }).get_mask(&arc);
        let hollow = Marker::new(c, MarkerStyle::HollowCircle { size: r, color: white() }).get_mask(&arc);
        let f: Vec<Point<u32>> = filled.iter().flat_map(|m| m.points.clone()).collect();
        let h: Vec<Point<u32>> = hollow.iter().flat_map(|m| m.points.clone()).collect();
        for p in &h {
            assert!(f.contains(p));
        }
        assert!(f.contains(&Point::new(20, 20)));
        assert!(!h.contains(&Point::new(20, 20)));
    }
}

#[test]
fn hollow_square_has_four_edges() {
    let masks = Marker::new(Point::new(5, 5), MarkerStyle::HollowSquare { size: 1, color: white() })
        .get_mask(&Vec::new());
    assert_eq!(masks.len(), 4);
    assert_eq!(masks[0].points, vec![Point::new(4u32, 6u32), Point::new(5, 6), Point::new(6, 6)]);
    let filled = Marker::new(Point::new(5, 5), MarkerStyle::FilledSquare { size: 1, color: white() })
        .get_mask(&Vec::new());
    assert_eq!(filled[0].points.len(), 9);
}

#[test]
fn series_mask_counts_segments() {
    let pts = [Point::new(0, 0), Point::new(3, 1), Point::new(5, 5), Point::new(9, 2)];
    let plain = Series::new(&pts);
    assert_eq!(plain.get_mask().unwrap().len(), 4);
    let lined = Series::new(&pts).with_line_style(LineStyle::Solid { color: white(), thickness: 0 });
    assert_eq!(lined.get_mask().unwrap().len(), 4 + 3);
    let single = Series::new(&pts[..1]).with_line_style(LineStyle::Solid { color: white(), thickness: 0 });
    assert_eq!(single.get_mask().unwrap().len(), 1);
    let dashed = Series::new(&pts).with_line_style(LineStyle::Dashed { color: white(), thickness: 0 });
    assert_eq!(dashed.get_mask().unwrap_err(), PlotError::DashedLineUnsupported);
}

#[test]
fn empty_graph() {
    let g = Graph::new();
    assert!(g.limits().is_none());
}

#[test]
fn add_single_series_with_single_point() {
    let g = Graph::new().with_series(Series::new(&vec![Point::new(0, 0)]));

    let limits = g.limits();
    assert!(limits.is_some());
    assert_eq!(
        limits.unwrap(),
        termplt::limits::Limits::new(Point::new(0, 0), Point::new(0, 0))
    );
}

#[test]
fn add_single_series_with_multiple_points() {
    let g = Graph::new().with_series(Series::new(&vec![
        Point::new(0, -5),
        Point::new(10, 0),
        Point::new(-1, 15),
    ]));

    let limits = g.limits();
    assert!(limits.is_some());
    assert_eq!(
        limits.unwrap(),
        termplt::limits::Limits::new(Point::new(-1, -5), Point::new(10, 15))
    );
}

#[test]
fn add_multiple_series_with_single_points() {
    let g = Graph::new()
        .with_series(Series::new(&vec![Point::new(0, -5)]))
        .with_series(Series::new(&vec![Point::new(10, 0)]))
        .with_series(Series::new(&vec![Point::new(-1, 15)]));

    let limits = g.limits();
    assert!(limits.is_some());
    assert_eq!(
        limits.unwrap(),
        termplt::limits::Limits::new(Point::new(-1, -5), Point::new(10, 15))
    );
}

#[test]
fn add_multiple_series_with_multiple_points() {
    let g = Graph::new()
        .with_series(Series::new(&vec![
            Point::new(10, -5),
            Point::new(0, -50),
            Point::new(-1, -1),
        ]))
        .with_series(Series::new(&vec![Point::new(-20, 0), Point::new(0, -5)]))
        .with_series(Series::new(&vec![
            Point::new(-1, 50),
            Point::new(2, -5),
            Point::new(3, -5),
            Point::new(100, -5),
        ]));

    let limits = g.limits();
    assert!(limits.is_some());
    assert_eq!(
        limits.unwrap(),
        termplt::limits::Limits::new(Point::new(-20, -50), Point::new(100, 50))
    );
}

#[test]
fn explicit_limits_drop_outside_points() {
    let g = Graph::new()
        .with_series(Series::new(&[Point::new(0, 0), Point::new(5, 5), Point::new(20, 3)]))
        .with_x_limits(0, 10);
    let outside = g.points_outside_limits();
    assert_eq!(outside, vec![Point::new(20, 3)]);
    let box_ = termplt::limits::Limits::new(Point::new(0, 0), Point::new(100, 50));
    let scaled = g.scale(&box_).unwrap();
    assert_eq!(scaled.data[0].data, vec![Point::new(0, 0), Point::new(50, 50)]);
    let none_left = Graph::new()
        .with_series(Series::new(&[Point::new(20, 3)]))
        .with_x_limits(0, 10);
    assert_eq!(none_left.scale(&box_).unwrap_err(), PlotError::NoPointsInLimits);
    assert_eq!(Graph::new().scale(&box_).unwrap_err(), PlotError::EmptyGraph);
}

#[test]
fn single_series() {
    let points = (0..=5).map(|x| Point::new(x, x)).collect::<Vec<Point<_>>>();
    TerminalCanvas::new(100, 100, Color::black())
        .with_buffer(BufferType::Uniform(5))
        .with_graph(Graph::new().with_series(Series::new(&points)))
        .draw()
        .unwrap();
}

#[test]
fn two_points_land_on_the_corners() {
    let g = Graph::new().with_series(
        Series::new(&[Point::new(0, 0), Point::new(5, 5)])
            .with_marker_style(MarkerStyle::FilledSquare { size: 0, color: white() }),
    );
    let c = TerminalCanvas::new(100, 100, Color::black())
        .with_buffer(BufferType::NoMargin)
        .with_graph(g)
        .draw()
        .unwrap();
    let bytes = c.get_bytes();
    assert_eq!(bytes.len(), 3 * 100 * 100);
    let lit: Vec<usize> = (0..100 * 100).filter(|i| bytes[3 * i] != 0).collect();
    // (0, 0) is the bottom-left pixel, the first of the last row; (99, 99) ends the top row
    assert_eq!(lit, vec![99, 99 * 100]);
}

#[test]
fn too_small_canvas_is_an_error() {
    let g = Graph::new().with_series(
        Series::new(&[Point::new(0, 0), Point::new(5, 5)])
            .with_marker_style(MarkerStyle::FilledSquare { size: 5, color: white() }),
    );
    let c = TerminalCanvas::new(20, 20, Color::black())
        .with_buffer(BufferType::Uniform(5))
        .with_graph(g);
    assert!(c.get_drawable_limits().is_err());
    let err = c.draw().unwrap_err();
    assert_eq!(
        err,
        PlotError::CanvasTooSmall { width: 20, height: 20, left: 5, right: 5, top: 5, bottom: 5, inset: 5 }
    );
}

#[test]
fn drawable_limits_inset_by_marker_and_axes() {
    let g = Graph::new()
        .with_series(Series::new(&[Point::new(0, 0), Point::new(5, 5)])
            .with_marker_style(MarkerStyle::FilledSquare { size: 2, color: white() }))
        .with_axes(termplt::axes::Axes::new(
            termplt::axes::AxesPositioning::XY(LineStyle::Solid { color: white(), thickness: 3 }),
            termplt::text::TextStyle::with_color(white()),
        ));
    let c = TerminalCanvas::new(100, 80, Color::black())
        .with_buffer(BufferType::Uniform(10))
        .with_graph(g);
    let l = c.get_drawable_limits().unwrap();
    assert_eq!(*l.min(), Point::new(16, 16));
    assert_eq!(*l.max(), Point::new(83, 63));
    c.draw().unwrap();
}

#[test]
fn margins_per_side() {
    assert_eq!(
        termplt::canvas::CanvasBuffer::new(BufferType::TopBottomLeftRight(1, 2, 3, 4)),
        termplt::canvas::CanvasBuffer { left: 3, top: 1, right: 4, bottom: 2 }
    );
}

#[test]
fn line_limits_widen_by_thickness() {
    let line = Line::new(
        LinePositioning::BetweenPoints { start: Point::new(10, 2), end: Point::new(4, 8) },
        LineStyle::Solid { color: white(), thickness: 2 },
    );
    let l = line.limits();
    assert_eq!((*l.min(), *l.max()), (Point::new(4, 2), Point::new(10, 8)));
    let d = line.drawable_limits();
    assert_eq!((*d.min(), *d.max()), (Point::new(2, 0), Point::new(12, 10)));
}

#[test]
fn shifted_line_keeps_its_length() {
    let pos = LinePositioning::Horizontal { start: Point::new(1, 2), length: 7 };
    assert_eq!(
        pos.shift_by(Point::new(10, -2)),
        LinePositioning::Horizontal { start: Point::new(11, 0), length: 7 }
    );
}
