use roguelike::animation::display_animation;
use roguelike::crateobj::Crate;
use roguelike::rect::{check_collision, Point, Rect};

fn corners(r: &Rect) -> (i32, i32, u32, u32) {
    (r.x(), r.y(), r.width(), r.height())
}

#[test]
fn rect_new_keeps_ordinary_values() {
    let r = Rect::new(10, -20, 30, 40);
    assert_eq!(corners(&r), (10, -20, 30, 40));
    assert_eq!(r.left(), 10);
    assert_eq!(r.right(), 40);
    assert_eq!(r.top(), -20);
    assert_eq!(r.bottom(), 20);
}

#[test]
fn rect_new_clamps_sizes_and_positions() {
    let zero = Rect::new(0, 0, 0, 0);
    assert_eq!(corners(&zero), (0, 0, 1, 1));
    let huge = Rect::new(i32::MAX, i32::MIN, u32::MAX, 1073741824);
    assert_eq!(corners(&huge), (1073741823, -1073741824, 1073741823, 1073741823));
}

#[test]
fn rect_center_rounds_down() {
    let r = Rect::new(0, 0, 5, 7);
    let c = r.center();
    assert_eq!((c.x(), c.y()), (2, 3));
    let far = Rect::new(1073741823, 0, 1073741823, 2);
    assert_eq!(far.center().x(), 1073741823);
}

#[test]
fn point_new_clamps() {
    let p = Point::new(i32::MIN, 5);
    assert_eq!((p.x(), p.y()), (-1073741824, 5));
}

#[test]
fn collision_overlapping_and_apart() {
    let a = Rect::new(0, 0, 10, 10);
    let b = Rect::new(5, 5, 10, 10);
    let c = Rect::new(30, 0, 10, 10);
    assert!(check_collision(&a, &b));
    assert!(!check_collision(&a, &c));
}

#[test]
fn collision_touching_edges_counts() {
    let a = Rect::new(0, 0, 10, 10);
    let b = Rect::new(10, 0, 10, 10);
    assert!(check_collision(&a, &b));
    let c = Rect::new(11, 0, 10, 10);
    assert!(!check_collision(&a, &c));
}

#[test]
fn collision_is_symmetric_and_reflexive() {
    let a = Rect::new(-3, 4, 7, 2);
    let b = Rect::new(2, 5, 1, 9);
    let c = Rect::new(100, 100, 1, 1);
    assert_eq!(check_collision(&a, &b), check_collision(&b, &a));
    assert_eq!(check_collision(&a, &c), check_collision(&c, &a));
    assert!(check_collision(&a, &a));
    assert!(check_collision(&c, &c));
}

#[test]
fn animation_first_frame() {
    let r = display_animation(0, 4, 6, 4, 64);
    assert_eq!(corners(&r), (0, 0, 64, 64));
}

#[test]
fn animation_second_row() {
    // 20 ticks of 4 reach frame 5, the second of the second row of 4.
    let r = display_animation(20, 4, 6, 4, 64);
    assert_eq!(corners(&r), (64, 64, 64, 64));
}

#[test]
fn animation_beyond_sheet_shows_first_cell() {
    // 6 rows of 4 frames hold 24 frames; frame 30 lies beyond.
    let r = display_animation(120, 4, 6, 4, 32);
    assert_eq!(corners(&r), (0, 0, 32, 32));
}

#[test]
fn animation_without_rows() {
    let r = display_animation(7, 1, 0, 4, 16);
    assert_eq!(corners(&r), (0, 0, 16, 16));
}

#[test]
fn crate_constructors() {
    let c = Crate::newc();
    assert_eq!(c.pos(), Rect::new(100, 100, 64, 64));
    assert_eq!(c.src(), Rect::new(0, 0, 64, 64));
    let d = Crate::new(Rect::new(3, 4, 5, 6));
    assert_eq!(d.pos(), Rect::new(3, 4, 5, 6));
    assert_eq!(d.src(), Rect::new(0, 0, 64, 64));
}

#[test]
fn crate_set_src() {
    let mut c = Crate::newc();
    c.set_src(Rect::new(64, 0, 64, 64));
    assert_eq!(c.src(), Rect::new(64, 0, 64, 64));
    assert_eq!(c.pos(), Rect::new(100, 100, 64, 64));
}
