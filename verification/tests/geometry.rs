use clk::geometry::{offset_coord, Point, Rectangle, Size};

#[test]
fn constructors_keep_their_arguments() {
    let p = Point::new(-3, 7);
    assert_eq!((p.x, p.y), (-3, 7));
    let s = Size::new(4, 0);
    assert_eq!((s.width, s.height), (4, 0));
    let r = Rectangle::new(p, s);
    assert_eq!(r.top_left, p);
    assert_eq!(r.size, s);
}

#[test]
fn offsets_add_up() {
    assert_eq!(offset_coord(5, 7), 12);
    assert_eq!(offset_coord(-5, 3), -2);
    assert_eq!(offset_coord(i32::MIN, 0), i32::MIN);
    assert_eq!(offset_coord(i32::MIN, u32::MAX), i32::MAX);
    assert_eq!(Point::new(1, 2).offset(10, 20), Point::new(11, 22));
}

#[test]
fn offsets_stop_at_the_end_of_the_range() {
    assert_eq!(offset_coord(i32::MAX, 1), i32::MAX);
    assert_eq!(offset_coord(1, u32::MAX), i32::MAX);
    assert_eq!(offset_coord(0, 0x7FFF_FFFF), i32::MAX);
    assert_eq!(offset_coord(-1, 0x8000_0000), i32::MAX);
    assert_eq!(offset_coord(-2, 0x8000_0000), i32::MAX - 1);
    assert_eq!(Point::new(i32::MAX - 1, 5).offset(9, 1), Point::new(i32::MAX, 6));
}

#[test]
fn a_rectangle_without_width_or_height_has_no_pixels() {
    let p = Point::new(0, 0);
    assert!(Rectangle::new(p, Size::new(0, 5)).is_zero_sized());
    assert!(Rectangle::new(p, Size::new(5, 0)).is_zero_sized());
    assert!(Rectangle::new(p, Size::new(0, 0)).is_zero_sized());
    assert!(!Rectangle::new(p, Size::new(1, 1)).is_zero_sized());
}
