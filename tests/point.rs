use termplt::limits::{Limits, PointCollection};
use termplt::point::{IntConvertable, Point, UIntConvertable};

#[test]
fn add_point_to_point() {
    let p1 = Point { x: 10.0, y: 15.5 };
    let p2 = Point { x: 5.5, y: 7.5 };

    let p3 = p1 + p2;
    assert_eq!(p3.x, 15.5);
    assert_eq!(p3.y, 23.0);
}

#[test]
fn subtract_point_from_point() {
    let p1 = Point { x: 10.0, y: 15.5 };
    let p2 = Point { x: 5.5, y: 7.5 };

    let p3 = p1 - p2;
    assert_eq!(p3.x, 4.5);
    assert_eq!(p3.y, 8.0);
}

#[test]
fn add_f32_to_point() {
    let p1 = Point { x: 10.0, y: 15.5 };
    let x = 15.5;

    let p2 = p1 + x;
    assert_eq!(p2.x, 25.5);
    assert_eq!(p2.y, 31.0);
}

#[test]
fn subtract_f32_from_point() {
    let p1 = Point { x: 10.0, y: 15.5 };
    let x = 15.5;

    let p2 = p1 - x;
    assert_eq!(p2.x, -5.5);
    assert_eq!(p2.y, 0.0);
}

#[test]
fn multiply_point_by_f32() {
    let p1 = Point { x: 10.0, y: 15.5 };
    let x = 3.0;

    let p2 = p1 * x;
    assert_eq!(p2.x, 30.0);
    assert_eq!(p2.y, 46.5);
}

#[test]
fn divide_point_by_f32() {
    let p1 = Point { x: 10.0, y: 15.0 };
    let x = 5.0;

    let p2 = p1 / x;
    assert_eq!(p2.x, 2.0);
    assert_eq!(p2.y, 3.0);
}

#[test]
fn point_collection_limits_empty() {
    let p: Vec<Point<i32>> = vec![];
    assert_eq!(p.limits(), None);
}

#[test]
fn point_collection_limits_single() {
    let limits = vec![Point { x: 10, y: 20 }].limits();
    assert!(limits.is_some());
    assert_eq!(
        limits.unwrap(),
        Limits::new(Point::new(10, 20), Point::new(10, 20))
    );
}

#[test]
fn point_collection_limits_multiple_1() {
    let p1 = Point { x: 0, y: 0 };
    let p2 = Point { x: 10, y: 20 };
    let limits = vec![p1, p2].limits();

    assert!(limits.is_some());
    assert_eq!(
        limits.unwrap(),
        Limits::new(Point::new(0, 0), Point::new(10, 20))
    );
}

#[test]
fn point_collection_limits_multiple_2() {
    let p1 = Point { x: -5, y: 50 };
    let p2 = Point { x: 10, y: -20 };
    let p3 = Point { x: 100, y: 20 };
    let limits = vec![p1, p2, p3].limits();

    assert!(limits.is_some());
    assert_eq!(
        limits.unwrap(),
        Limits::new(Point::new(-5, -20), Point::new(100, 50))
    );
}

#[test]
fn integer_points_add_exactly() {
    let p = Point::new(3, -4) + Point::new(10, 20);
    assert_eq!(p, Point::new(13, 16));
    assert_eq!(Point::new(9, 6) / 3, Point::new(3, 2));
}

#[test]
fn narrowing_to_pixels_saturates() {
    assert_eq!(Point::new(-5i32, 7).to_pixel(), Point::new(0u32, 7u32));
    assert_eq!(termplt::point::to_u32_saturating(-1), 0);
    assert_eq!(termplt::point::to_u32_saturating(5_000_000_000), u32::MAX);
    assert_eq!(termplt::point::to_i32_saturating(-5_000_000_000), i32::MIN);
    assert_eq!(termplt::point::to_i32_saturating(42), 42);
}

#[test]
fn range_fills_rectangle_column_by_column() {
    let r = Point::range(&Point::new(1, 2), &Point::new(2, 3));
    assert_eq!(
        r,
        vec![
            Point::new(1u32, 2u32),
            Point::new(1, 3),
            Point::new(2, 2),
            Point::new(2, 3)
        ]
    );
    assert!(Point::range(&Point::new(3, 0), &Point::new(2, 5)).is_empty());
}

#[test]
fn conversions_saturate() {
    assert_eq!((-7i64).convert_to_u32(), 0);
    assert_eq!(70i32.convert_to_u32(), 70);
    assert_eq!(u32::MAX.convert_to_i32(), i32::MAX);
    assert_eq!((1i64 << 40).convert_to_i32(), i32::MAX);
}
