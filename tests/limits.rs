use termplt::limits::Limits;
use termplt::point::Point;

#[test]
fn update_min_valid() {
    let min = Point { x: 0, y: 0 };
    let max = Point { x: 10, y: 5 };
    let mut limits = Limits::new(min, max);
    assert_eq!(*limits.span(), (10, 5));

    limits.update_min(Point { x: 1, y: 1 });
    assert_eq!(*limits.span(), (9, 4));
}

#[test]
fn update_max_valid() {
    let min = Point { x: 0, y: 0 };
    let max = Point { x: 10, y: 5 };
    let mut limits = Limits::new(min, max);
    assert_eq!(*limits.span(), (10, 5));

    limits.update_max(Point { x: 15, y: 10 });
    assert_eq!(*limits.span(), (15, 10));
}

#[test]
fn point_contained_in_limits() {
    let min = Point { x: 0, y: 0 };
    let max = Point { x: 10, y: 5 };
    let limits = Limits::new(min, max);

    for x in 0..=10 {
        for y in 0..=5 {
            assert!(limits.contains(Point { x, y }));
        }
    }
}

#[test]
fn point_not_contained_in_limits() {
    let min = Point { x: 0, y: 0 };
    let max = Point { x: 10, y: 5 };
    let limits = Limits::new(min, max);

    assert!(!limits.contains(Point { x: -1, y: 1 }));
    assert!(!limits.contains(Point { x: 1, y: -1 }));
    assert!(!limits.contains(Point { x: 11, y: 4 }));
    assert!(!limits.contains(Point { x: 9, y: 6 }));
}

#[test]
fn limits_contain_their_corners() {
    let l = Limits::new(Point::new(-3, 2), Point::new(7, 2));
    assert!(l.contains(*l.min()));
    assert!(l.contains(*l.max()));
    assert!(!l.contains(Point::new(8, 2)));
    assert!(!l.contains(Point::new(0, 3)));
    assert_eq!(*l.span(), (10, 0));
}

#[test]
fn intersects_when_a_corner_is_inside() {
    let a = Limits::new(Point::new(0, 0), Point::new(10, 10));
    let b = Limits::new(Point::new(5, 5), Point::new(20, 20));
    let c = Limits::new(Point::new(11, 0), Point::new(20, 10));
    assert!(a.intersects(&b));
    assert!(b.intersects(&a));
    assert!(!a.intersects(&c));
}

#[test]
fn chunk_gives_evenly_spaced_boundaries() {
    let l = Limits::new(Point::new(0, 10), Point::new(100, 15));
    let (xs, ys) = l.chunk(10);
    assert_eq!(xs.len(), 11);
    assert_eq!(xs[0], Point::new(0, 10));
    assert_eq!(xs[3], Point::new(30, 10));
    assert_eq!(xs[10], Point::new(100, 10));
    assert_eq!(ys[5], Point::new(0, 12));
    assert_eq!(ys[10], Point::new(0, 15));
}
