use jinja_lsp::point::{to_position2, to_range, Point, Position};

#[test]
fn point_order_is_row_then_column() {
    let a = Point::new(1, 9);
    let b = Point::new(2, 0);
    assert!(a.lt(&b));
    assert!(!b.lt(&a));
    assert!(a.le(&a));
    assert!(Point::new(2, 1).lt(&Point::new(2, 3)));
}

#[test]
fn converts_points_to_positions() {
    let p = to_position2(Point::new(3, 7));
    assert_eq!(p, Position::new(3, 7));
    let r = to_range((Point::new(0, 1), Point::new(4, 2)));
    assert_eq!(r.start, Position::new(0, 1));
    assert_eq!(r.end, Position::new(4, 2));
}
