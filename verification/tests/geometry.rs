use walk_the_dog::geometry::{Point, Rect};

fn rect(x: i16, y: i16, w: i16, h: i16) -> Rect {
    Rect::new_from_x_y(x, y, w, h)
}

#[test]
fn overlapping_rects_intersect_both_ways() {
    let a = rect(0, 0, 10, 10);
    let b = rect(5, 5, 10, 10);
    assert!(a.intersects(&b));
    assert!(b.intersects(&a));
}

#[test]
fn contained_rect_intersects() {
    let outer = rect(0, 0, 100, 100);
    let inner = rect(10, 10, 5, 5);
    assert!(outer.intersects(&inner));
    assert!(inner.intersects(&outer));
}

#[test]
fn disjoint_rects_do_not_intersect() {
    let a = rect(0, 0, 10, 10);
    let b = rect(50, 50, 10, 10);
    assert!(!a.intersects(&b));
    assert!(!b.intersects(&a));
}

#[test]
fn horizontally_edge_touching_rects_do_not_intersect() {
    let a = rect(0, 0, 10, 10);
    let b = rect(10, 0, 10, 10);
    assert_eq!(a.right(), b.x());
    assert!(!a.intersects(&b));
    assert!(!b.intersects(&a));
}

#[test]
fn vertically_edge_touching_rects_do_not_intersect() {
    let a = rect(0, 0, 10, 10);
    let b = rect(0, 10, 10, 10);
    assert_eq!(a.bottom(), b.y());
    assert!(!a.intersects(&b));
    assert!(!b.intersects(&a));
}

#[test]
fn corner_touching_rects_do_not_intersect() {
    let a = rect(0, 0, 10, 10);
    let b = rect(10, 10, 10, 10);
    assert!(!a.intersects(&b));
}

#[test]
fn rect_accessors() {
    let r = rect(3, 4, 20, 30);
    assert_eq!(r.x(), 3);
    assert_eq!(r.y(), 4);
    assert_eq!(r.right(), 23);
    assert_eq!(r.bottom(), 34);
    assert_eq!(r.width, 20);
    assert_eq!(r.height, 30);
}

#[test]
fn rect_set_x_moves_only_x() {
    let mut r = Rect::new(Point { x: 1, y: 2 }, 5, 6);
    r.set_x(100);
    assert_eq!(r.x(), 100);
    assert_eq!(r.y(), 2);
    assert_eq!(r.width, 5);
    assert_eq!(r.height, 6);
}

#[test]
fn negative_coordinates_intersect() {
    let a = rect(-20, -20, 30, 30);
    let b = rect(-5, -5, 10, 10);
    assert!(a.intersects(&b));
}
