use diffuser::rect::Rect;
use diffuser::vector2::Vector2;

#[test]
fn rect_keeps_its_dimensions() {
    let r = Rect::new(3usize, 6usize);
    assert_eq!(r.h(), 3);
    assert_eq!(r.w(), 6);
}

#[test]
fn rect_contains_points_below_its_extent() {
    let r = Rect::new(3usize, 6usize);
    assert!(r.contains(0, 0));
    assert!(r.contains(5, 2));
    assert!(!r.contains(6, 0));
    assert!(!r.contains(0, 3));
}

#[test]
fn vector_holds_its_coordinates() {
    let v = Vector2::new(1.5f32, -2.0f32);
    assert_eq!(v.x, 1.5);
    assert_eq!(v.y, -2.0);
}
