//! Points, triangles and the subdivision of a triangle into its three
//! corner triangles.

use crate::fixed::{half_sum, Fixed};
use vstd::arithmetic::div_mod::{lemma_fundamental_div_mod, lemma_mod_multiples_basic};
use vstd::prelude::*;

verus! {

/// A position on the canvas.
#[derive(Clone, Copy, Debug, PartialEq, Eq, Structural)]
pub struct Point {
    pub x: Fixed,
    pub y: Fixed,
}

/// A triangle given by its corners in the fixed order top, left, right.
///
/// The order matters: it decides which corner each child triangle of a
/// subdivision keeps.
#[derive(Clone, Copy, Debug, PartialEq, Eq, Structural)]
pub struct Triangle {
    pub top: Point,
    pub left: Point,
    pub right: Point,
}

impl Point {
    /// Both raw coordinates of the point are whole multiples of `unit`.
    pub open spec fn on_grid(self, unit: int) -> bool {
        &&& (self.x.raw as int) % unit == 0
        &&& (self.y.raw as int) % unit == 0
    }

    /// The point halfway between `self` and `other`, coordinate by coordinate.
    pub open spec fn midpoint_spec(self, other: Point) -> Point {
        Point { x: self.x.midpoint_spec(other.x), y: self.y.midpoint_spec(other.y) }
    }

    /// The point with the given coordinates.
    pub fn new(x: Fixed, y: Fixed) -> (p: Point)
        ensures
            p == (Point { x, y }),
    {
        Point { x, y }
    }

    /// The point at the whole-pixel position `(x, y)`.
    pub fn from_ints(x: i32, y: i32) -> (p: Point)
        ensures
            p.x.raw == x * crate::fixed::ONE,
            p.y.raw == y * crate::fixed::ONE,
    {
        Point { x: Fixed::from_int(x), y: Fixed::from_int(y) }
    }

    /// The point halfway between `self` and `other`.
    pub fn midpoint(self, other: Point) -> (m: Point)
        ensures
            m == self.midpoint_spec(other),
    {
        Point { x: self.x.midpoint(other.x), y: self.y.midpoint(other.y) }
    }
}

impl Triangle {
    /// Every raw coordinate of the triangle is a whole multiple of `unit`.
    pub open spec fn on_grid(self, unit: int) -> bool {
        &&& self.top.on_grid(unit)
        &&& self.left.on_grid(unit)
        &&& self.right.on_grid(unit)
    }

    /// The triangle with the given corners.
    pub fn new(top: Point, left: Point, right: Point) -> (t: Triangle)
        ensures
            t == (Triangle { top, left, right }),
    {
        Triangle { top, left, right }
    }
}

/// The point below the top corner at the height of the right corner.
///
/// For an upright triangle with a level base this is the middle of the
/// base. It is deliberately built from `top.x` and `right.y` rather than
/// as the midpoint of `left` and `right`: on a skewed triangle the two
/// differ, and the fractal is defined by this construction.
pub open spec fn bottom_middle_spec(triangle: Triangle) -> Point {
    Point { x: triangle.top.x, y: triangle.right.y }
}

/// The three corner triangles of `triangle`, in the order top, left, right.
///
/// Together they cover the parent except for the inverted triangle in its
/// centre.
pub open spec fn subdivide_spec(triangle: Triangle) -> (Triangle, Triangle, Triangle) {
    let left_middle = triangle.top.midpoint_spec(triangle.left);
    let right_middle = triangle.top.midpoint_spec(triangle.right);
    let bottom_middle = bottom_middle_spec(triangle);
    (
        Triangle { top: triangle.top, left: left_middle, right: right_middle },
        Triangle { top: left_middle, left: triangle.left, right: bottom_middle },
        Triangle { top: right_middle, left: bottom_middle, right: triangle.right },
    )
}

/// Splits `triangle` into its top, left and right corner triangles.
///
/// The result is a function of the argument alone.
pub fn subdivide(triangle: Triangle) -> (children: (Triangle, Triangle, Triangle))
    ensures
        children == subdivide_spec(triangle),
{
    let left_middle = triangle.top.midpoint(triangle.left);
    let right_middle = triangle.top.midpoint(triangle.right);
    let bottom_middle = Point { x: triangle.top.x, y: triangle.right.y };
    (
        Triangle { top: triangle.top, left: left_middle, right: right_middle },
        Triangle { top: left_middle, left: triangle.left, right: bottom_middle },
        Triangle { top: right_middle, left: bottom_middle, right: triangle.right },
    )
}

/// Halving on a grid is exact: the midpoint of two points on a grid of
/// even spacing is their mean in both coordinates, without rounding, and
/// lies on the grid of half that spacing.
pub proof fn lemma_midpoint_on_grid(a: Point, b: Point, unit: int)
    requires
        unit > 0,
        a.on_grid(2 * unit),
        b.on_grid(2 * unit),
    ensures
        2 * a.midpoint_spec(b).x.raw == a.x.raw + b.x.raw,
        2 * a.midpoint_spec(b).y.raw == a.y.raw + b.y.raw,
        a.midpoint_spec(b).on_grid(unit),
{
    lemma_half_sum_on_grid(a.x.raw as int, b.x.raw as int, unit);
    lemma_half_sum_on_grid(a.y.raw as int, b.y.raw as int, unit);
}

/// A triangle on a grid of even spacing subdivides without rounding, into
/// triangles on the grid of half that spacing. A triangle with corners at
/// whole pixels can so be subdivided exactly 32 levels deep.
pub proof fn lemma_subdivide_on_grid(triangle: Triangle, unit: int)
    requires
        unit > 0,
        triangle.on_grid(2 * unit),
    ensures
        subdivide_spec(triangle).0.on_grid(unit),
        subdivide_spec(triangle).1.on_grid(unit),
        subdivide_spec(triangle).2.on_grid(unit),
        ({
            let left_middle = subdivide_spec(triangle).0.left;
            let right_middle = subdivide_spec(triangle).0.right;
            &&& 2 * left_middle.x.raw == triangle.top.x.raw + triangle.left.x.raw
            &&& 2 * left_middle.y.raw == triangle.top.y.raw + triangle.left.y.raw
            &&& 2 * right_middle.x.raw == triangle.top.x.raw + triangle.right.x.raw
            &&& 2 * right_middle.y.raw == triangle.top.y.raw + triangle.right.y.raw
        }),
{
    lemma_midpoint_on_grid(triangle.top, triangle.left, unit);
    lemma_midpoint_on_grid(triangle.top, triangle.right, unit);
    lemma_multiple_of_double(triangle.top.x.raw as int, unit);
    lemma_multiple_of_double(triangle.top.y.raw as int, unit);
    lemma_multiple_of_double(triangle.left.x.raw as int, unit);
    lemma_multiple_of_double(triangle.left.y.raw as int, unit);
    lemma_multiple_of_double(triangle.right.x.raw as int, unit);
    lemma_multiple_of_double(triangle.right.y.raw as int, unit);
}

/// A multiple of `2 * unit` is a multiple of `unit`.
proof fn lemma_multiple_of_double(a: int, unit: int)
    requires
        unit > 0,
        a % (2 * unit) == 0,
    ensures
        a % unit == 0,
{
    let k = a / (2 * unit);
    lemma_fundamental_div_mod(a, 2 * unit);
    assert(a == (2 * k) * unit) by (nonlinear_arith)
        requires
            a == (2 * unit) * k,
    ;
    lemma_mod_multiples_basic(2 * k, unit);
}

/// The half-sum of two multiples of `2 * unit` is their exact mean and a
/// multiple of `unit`.
proof fn lemma_half_sum_on_grid(a: int, b: int, unit: int)
    requires
        unit > 0,
        a % (2 * unit) == 0,
        b % (2 * unit) == 0,
        i64::MIN <= a <= i64::MAX,
        i64::MIN <= b <= i64::MAX,
    ensures
        2 * (half_sum(a, b) as i64) == a + b,
        (half_sum(a, b) as i64 as int) % unit == 0,
{
    let k = a / (2 * unit);
    let m = b / (2 * unit);
    lemma_fundamental_div_mod(a, 2 * unit);
    lemma_fundamental_div_mod(b, 2 * unit);
    assert(a + b == 2 * ((k + m) * unit)) by (nonlinear_arith)
        requires
            a == (2 * unit) * k,
            b == (2 * unit) * m,
    ;
    assert(half_sum(a, b) == (k + m) * unit);
    lemma_mod_multiples_basic(k + m, unit);
}

} // verus!
