use termplt::graph_limits::GraphLimits;
use termplt::limits::Limits;
use termplt::point::Point;
use termplt::scale::{Scalable, Shiftable};

fn old_limits(x_min: i32, y_min: i32, x_max: i32, y_max: i32) -> Limits {
    Limits::new(Point::new(x_min, y_min), Point::new(x_max, y_max))
}

fn new_limits(x_min: i32, y_min: i32, x_max: i32, y_max: i32) -> Limits {
    Limits::new(Point::new(x_min, y_min), Point::new(x_max, y_max))
}

#[test]
fn scale_to_x_only_normal() {
    let gl = GraphLimits::XOnly { min: 2, max: 8 };
    let old = old_limits(0, 0, 10, 10);
    let new = new_limits(0, 0, 100, 100);

    let scaled = gl.scale_to(&old, &new);
    match scaled {
        GraphLimits::XOnly { min, max } => {
            assert_eq!(min, 20);
            assert_eq!(max, 80);
        }
        _ => panic!("Expected XOnly variant"),
    }
}

#[test]
fn scale_to_y_only_normal() {
    let gl = GraphLimits::YOnly { min: 2, max: 8 };
    let old = old_limits(0, 0, 10, 10);
    let new = new_limits(0, 0, 100, 100);

    let scaled = gl.scale_to(&old, &new);
    match scaled {
        GraphLimits::YOnly { min, max } => {
            assert_eq!(min, 20);
            assert_eq!(max, 80);
        }
        _ => panic!("Expected YOnly variant"),
    }
}

#[test]
fn scale_to_xy_normal() {
    let gl = GraphLimits::XY {
        min: Point::new(2, 3),
        max: Point::new(8, 7),
    };
    let old = old_limits(0, 0, 10, 10);
    let new = new_limits(0, 0, 100, 100);

    let scaled = gl.scale_to(&old, &new);
    match scaled {
        GraphLimits::XY { min, max } => {
            assert_eq!(min.x, 20);
            assert_eq!(min.y, 30);
            assert_eq!(max.x, 80);
            assert_eq!(max.y, 70);
        }
        _ => panic!("Expected XY variant"),
    }
}

#[test]
fn scale_to_x_only_zero_x_span_maps_to_midpoint() {
    let gl = GraphLimits::XOnly { min: 5, max: 5 };
    let old = old_limits(5, 0, 5, 10);
    let new = new_limits(0, 0, 100, 100);

    let scaled = gl.scale_to(&old, &new);
    match scaled {
        GraphLimits::XOnly { min, max } => {
            assert_eq!(min, 50, "Zero x-span XOnly min should map to midpoint");
            assert_eq!(max, 50, "Zero x-span XOnly max should map to midpoint");
        }
        _ => panic!("Expected XOnly variant"),
    }
}

#[test]
fn scale_to_y_only_zero_y_span_maps_to_midpoint() {
    let gl = GraphLimits::YOnly { min: 5, max: 5 };
    let old = old_limits(0, 5, 10, 5);
    let new = new_limits(0, 0, 100, 100);

    let scaled = gl.scale_to(&old, &new);
    match scaled {
        GraphLimits::YOnly { min, max } => {
            assert_eq!(min, 50, "Zero y-span YOnly min should map to midpoint");
            assert_eq!(max, 50, "Zero y-span YOnly max should map to midpoint");
        }
        _ => panic!("Expected YOnly variant"),
    }
}

#[test]
fn scale_to_xy_zero_both_spans_maps_to_midpoints() {
    let gl = GraphLimits::XY {
        min: Point::new(5, 5),
        max: Point::new(5, 5),
    };
    let old = old_limits(5, 5, 5, 5);
    let new = new_limits(0, 0, 100, 100);

    let scaled = gl.scale_to(&old, &new);
    match scaled {
        GraphLimits::XY { min, max } => {
            assert_eq!(min.x, 50, "Zero x-span XY min.x should map to midpoint");
            assert_eq!(min.y, 50, "Zero y-span XY min.y should map to midpoint");
            assert_eq!(max.x, 50, "Zero x-span XY max.x should map to midpoint");
            assert_eq!(max.y, 50, "Zero y-span XY max.y should map to midpoint");
        }
        _ => panic!("Expected XY variant"),
    }
}

#[test]
fn shift_by_x_only() {
    let gl = GraphLimits::XOnly { min: 2, max: 8 };
    let shifted = gl.shift_by(Point::new(10, 5));
    match shifted {
        GraphLimits::XOnly { min, max } => {
            assert_eq!(min, 12);
            assert_eq!(max, 18);
        }
        _ => panic!("Expected XOnly variant"),
    }
}

#[test]
fn shift_by_y_only() {
    let gl = GraphLimits::YOnly { min: 2, max: 8 };
    let shifted = gl.shift_by(Point::new(10, 5));
    match shifted {
        GraphLimits::YOnly { min, max } => {
            assert_eq!(min, 7);
            assert_eq!(max, 13);
        }
        _ => panic!("Expected YOnly variant"),
    }
}

#[test]
fn shift_by_xy() {
    let gl = GraphLimits::XY {
        min: Point::new(2, 3),
        max: Point::new(8, 7),
    };
    let shifted = gl.shift_by(Point::new(10, 5));
    match shifted {
        GraphLimits::XY { min, max } => {
            assert_eq!(min, Point::new(12, 8));
            assert_eq!(max, Point::new(18, 12));
        }
        _ => panic!("Expected XY variant"),
    }
}

#[test]
fn scale_then_scale_back_is_within_one_step() {
    let a = old_limits(0, 0, 7, 13);
    let b = new_limits(0, 0, 100, 30);
    for x in 0..=7 {
        for y in 0..=13 {
            let p = Point::new(x, y);
            let q = p.scale_to(&a, &b).scale_to(&b, &a);
            assert!(q.x <= p.x && (p.x - q.x) * 100 < 7 + 100);
            assert!(q.y <= p.y && (p.y - q.y) * 30 < 13 + 30);
        }
    }
}

#[test]
fn scale_of_negative_coordinate_rounds_down() {
    let a = old_limits(0, 0, 3, 3);
    let b = new_limits(0, 0, 10, 10);
    assert_eq!(Point::new(-1, 1).scale_to(&a, &b), Point::new(-4, 3));
}

#[test]
fn place_carries_box_onto_box() {
    let a = old_limits(-10, 100, 10, 200);
    let b = new_limits(5, 5, 45, 25);
    assert_eq!(Point::new(-10, 100).place(&a, &b), Point::new(5, 5));
    assert_eq!(Point::new(10, 200).place(&a, &b), Point::new(45, 25));
    assert_eq!(Point::new(0, 150).place(&a, &b), Point::new(25, 15));
}
