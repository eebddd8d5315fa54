use sierpinski::fixed::{Fixed, FRACTION_BITS, ONE};
use sierpinski::geometry::{subdivide, Point, Triangle};

fn triangle(top: (i32, i32), left: (i32, i32), right: (i32, i32)) -> Triangle {
    Triangle::new(
        Point::from_ints(top.0, top.1),
        Point::from_ints(left.0, left.1),
        Point::from_ints(right.0, right.1),
    )
}

#[test]
fn one_is_two_to_the_fraction_bits() {
    assert_eq!(ONE, 1i64 << FRACTION_BITS);
    assert_eq!(ONE, 4_294_967_296);
}

#[test]
fn from_int_scales_by_one() {
    assert_eq!(Fixed::from_int(0).raw, 0);
    assert_eq!(Fixed::from_int(1).raw, 4_294_967_296);
    assert_eq!(Fixed::from_int(300).raw, 1_288_490_188_800);
    assert_eq!(Fixed::from_int(-7).raw, -30_064_771_072);
}

#[test]
fn from_int_covers_the_whole_i32_range() {
    assert_eq!(Fixed::from_int(i32::MAX).raw, 9_223_372_032_559_808_512);
    assert_eq!(Fixed::from_int(i32::MIN).raw, i64::MIN);
}

#[test]
fn from_raw_keeps_the_representation() {
    assert_eq!(Fixed::from_raw(12_345).raw, 12_345);
    assert_eq!(Fixed::from_raw(-1).raw, -1);
    assert_eq!(Fixed::from_raw(ONE), Fixed::from_int(1));
}

#[test]
fn midpoint_of_whole_numbers_is_exact() {
    let m = Fixed::from_int(300).midpoint(Fixed::from_int(0));
    assert_eq!(m, Fixed::from_int(150));
    let m = Fixed::from_int(75).midpoint(Fixed::from_int(0));
    assert_eq!(m.raw, 37 * ONE + ONE / 2);
    let m = Fixed::from_int(-5).midpoint(Fixed::from_int(2));
    assert_eq!(m.raw, -2 * ONE + ONE / 2);
}

#[test]
fn midpoint_rounds_toward_negative_infinity() {
    assert_eq!(Fixed::from_raw(0).midpoint(Fixed::from_raw(1)).raw, 0);
    assert_eq!(Fixed::from_raw(1).midpoint(Fixed::from_raw(2)).raw, 1);
    assert_eq!(Fixed::from_raw(0).midpoint(Fixed::from_raw(-1)).raw, -1);
    assert_eq!(Fixed::from_raw(-3).midpoint(Fixed::from_raw(0)).raw, -2);
    assert_eq!(Fixed::from_raw(-4).midpoint(Fixed::from_raw(0)).raw, -2);
    assert_eq!(Fixed::from_raw(-1).midpoint(Fixed::from_raw(-2)).raw, -2);
}

#[test]
fn midpoint_does_not_overflow_at_the_extremes() {
    let max = Fixed::from_raw(i64::MAX);
    let min = Fixed::from_raw(i64::MIN);
    assert_eq!(max.midpoint(max).raw, i64::MAX);
    assert_eq!(min.midpoint(min).raw, i64::MIN);
    assert_eq!(min.midpoint(max).raw, -1);
    assert_eq!(max.midpoint(min).raw, -1);
    assert_eq!(max.midpoint(Fixed::from_raw(i64::MAX - 2)).raw, i64::MAX - 1);
}

#[test]
fn midpoint_is_symmetric() {
    let a = Fixed::from_raw(-17);
    let b = Fixed::from_raw(40);
    assert_eq!(a.midpoint(b), b.midpoint(a));
    assert_eq!(a.midpoint(b).raw, 11);
}

#[test]
fn point_midpoint_works_coordinate_by_coordinate() {
    let m = Point::from_ints(300, 0).midpoint(Point::from_ints(0, 600));
    assert_eq!(m, Point::from_ints(150, 300));
    let m = Point::new(Fixed::from_raw(3), Fixed::from_raw(-3))
        .midpoint(Point::new(Fixed::from_raw(4), Fixed::from_raw(0)));
    assert_eq!(m, Point::new(Fixed::from_raw(3), Fixed::from_raw(-2)));
}

#[test]
fn point_constructors_agree() {
    let p = Point::new(Fixed::from_int(3), Fixed::from_int(-4));
    assert_eq!(p, Point::from_ints(3, -4));
    assert_eq!(p.x.raw, 3 * ONE);
    assert_eq!(p.y.raw, -4 * ONE);
}

#[test]
fn triangle_keeps_its_corners_in_order() {
    let t = triangle((300, 0), (0, 600), (600, 600));
    assert_eq!(t.top, Point::from_ints(300, 0));
    assert_eq!(t.left, Point::from_ints(0, 600));
    assert_eq!(t.right, Point::from_ints(600, 600));
}

#[test]
fn subdivide_upright_triangle() {
    let (top, left, right) = subdivide(triangle((300, 0), (0, 600), (600, 600)));
    assert_eq!(top, triangle((300, 0), (150, 300), (450, 300)));
    assert_eq!(left, triangle((150, 300), (0, 600), (300, 600)));
    assert_eq!(right, triangle((450, 300), (300, 600), (600, 600)));
}

#[test]
fn subdivide_skewed_triangle_uses_top_x_and_right_y() {
    let (top, left, right) = subdivide(triangle((0, 0), (0, 10), (10, 20)));
    let bottom_middle = Point::from_ints(0, 20);
    assert_eq!(left.right, bottom_middle);
    assert_eq!(right.left, bottom_middle);
    assert_ne!(bottom_middle, Point::from_ints(5, 15));
    assert_eq!(top, triangle((0, 0), (0, 5), (5, 10)));
    assert_eq!(left, triangle((0, 5), (0, 10), (0, 20)));
    assert_eq!(right, triangle((5, 10), (0, 20), (10, 20)));
}

#[test]
fn subdivide_twice_gives_the_same_children() {
    let t = triangle((-13, 7), (1, 600), (599, 2));
    assert_eq!(subdivide(t), subdivide(t));
}

#[test]
fn subdivide_degenerate_triangle() {
    let (top, left, right) = subdivide(triangle((4, 4), (4, 4), (4, 4)));
    let same = triangle((4, 4), (4, 4), (4, 4));
    assert_eq!(top, same);
    assert_eq!(left, same);
    assert_eq!(right, same);
}

#[test]
fn subdivide_stays_exact_for_five_levels() {
    // 600 / 2^5 = 18.75 and 300 / 2^5 = 9.375 are not whole pixels.
    let mut t = triangle((300, 0), (0, 600), (600, 600));
    for _ in 0..5 {
        t = subdivide(t).0;
    }
    let quarter = ONE / 4;
    let eighth = ONE / 8;
    assert_eq!(t.top, Point::from_ints(300, 0));
    assert_eq!(t.left.x.raw, 290 * ONE + 5 * eighth);
    assert_eq!(t.left.y.raw, 18 * ONE + 3 * quarter);
    assert_eq!(t.right.x.raw, 309 * ONE + 3 * eighth);
    assert_eq!(t.right.y.raw, 18 * ONE + 3 * quarter);
}

#[test]
fn subdivide_children_share_the_midpoints() {
    let (top, left, right) = subdivide(triangle((10, -20), (-30, 40), (50, 60)));
    assert_eq!(top.left, left.top);
    assert_eq!(top.right, right.top);
    assert_eq!(left.right, right.left);
    assert_eq!(top.top, Point::from_ints(10, -20));
    assert_eq!(left.left, Point::from_ints(-30, 40));
    assert_eq!(right.right, Point::from_ints(50, 60));
    assert_eq!(top.left, Point::from_ints(-10, 10));
    assert_eq!(top.right, Point::from_ints(30, 20));
    assert_eq!(left.right, Point::from_ints(10, 60));
}
