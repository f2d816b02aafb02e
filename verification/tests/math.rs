use tato::math::rect::Rect;
use tato::math::scalar::{next_power_of_two, prev_power_of_two, wrap};
use tato::math::vec2::Vec2;

#[test]
fn test_directional_methods_for_signed_integers() {
    // Test that up, left, right work for signed integers
    let up_i32: Vec2<i32> = Vec2::up();
    assert_eq!(up_i32, Vec2::new(0, -1));

    let left_i32: Vec2<i32> = Vec2::left();
    assert_eq!(left_i32, Vec2::new(-1, 0));

    let right_i32: Vec2<i32> = Vec2::right();
    assert_eq!(right_i32, Vec2::new(1, 0));
}

#[test]
fn vec2_add_then_sub_gives_back_the_start() {
    let a = Vec2::new(10i32, 7);
    let b = Vec2::new(3i32, -2);
    let sum = a + b;
    assert_eq!(sum, Vec2::new(13, 5));
    assert_eq!(sum - b, a);
}

#[test]
fn vec2_offset_and_down() {
    assert_eq!(Vec2::new(1i16, 2).offset(3, -4), Vec2::new(4, -2));
    assert_eq!(Vec2::<i8>::down(), Vec2::new(0, 1));
    assert_eq!(Vec2::<u8>::zero(), Vec2::new(0, 0));
}

#[test]
fn wrap_handles_negative_values() {
    assert_eq!(wrap(7, 5), 2);
    assert_eq!(wrap(-1, 5), 4);
    assert_eq!(wrap(-6, 5), 4);
    assert_eq!(wrap(0, 5), 0);
    assert_eq!(wrap(7, -5), -3);
}

#[test]
fn powers_of_two() {
    assert_eq!(next_power_of_two(0), 1);
    assert_eq!(next_power_of_two(1), 1);
    assert_eq!(next_power_of_two(5), 8);
    assert_eq!(next_power_of_two(64), 64);
    assert_eq!(next_power_of_two(0x8000_0001), u32::MAX);
    assert_eq!(prev_power_of_two(5), 4);
    assert_eq!(prev_power_of_two(64), 64);
    assert_eq!(prev_power_of_two(1), 1);
}

#[test]
fn rect_edges_and_center() {
    let r = Rect::new(2i32, 3, 10, 20);
    assert_eq!(r.left(), 2);
    assert_eq!(r.right(), 12);
    assert_eq!(r.top(), 3);
    assert_eq!(r.bottom(), 23);
    assert_eq!(r.center(), Vec2::new(7, 13));
    // Edges are inside.
    assert!(r.contains(2, 3));
    assert!(r.contains(12, 23));
    assert!(!r.contains(13, 3));
}

#[test]
fn rect_intersection_is_symmetric() {
    let a = Rect::new(0i32, 0, 10, 10);
    let b = Rect::new(5i32, 5, 10, 10);
    let ab = a.intersect(b).unwrap();
    let ba = b.intersect(a).unwrap();
    assert_eq!((ab.x, ab.y, ab.w, ab.h), (5, 5, 5, 5));
    assert_eq!((ba.x, ba.y, ba.w, ba.h), (5, 5, 5, 5));
    let far = Rect::new(100i32, 100, 1, 1);
    assert!(a.intersect(far).is_none());
}

#[test]
fn rect_expand_then_shrink() {
    let r = Rect::new(4i32, 4, 2, 2);
    let e = r.expand(1);
    assert_eq!((e.x, e.y, e.w, e.h), (3, 3, 4, 4));
    let s = e.shrink(1);
    assert_eq!((s.x, s.y, s.w, s.h), (4, 4, 2, 2));
}
