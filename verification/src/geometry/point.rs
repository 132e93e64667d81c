//! Points of the integer lattice and the vector operations on them.
use vstd::prelude::*;
use crate::geometry::arith::{
    abs, integer_sqrt, lemma_scale_down_bound, lemma_scale_down_error, scale_down, scale_down_wide,
};
use crate::geometry::rotation::Rotation;
use crate::geometry::trig::{
    cosine, cosine_ppm, lemma_near_unit_circle, lemma_sine_bounds, lemma_sine_of_negation,
    lemma_sine_periodic, lemma_snap_is_identity, near_unit_circle, sine, sine_ppm, snap, snap_to_zero,
};

verus! {

/// A point of the plane with integer coordinates of any size: what a `Point`
/// stands for, and what a rotation gives before it is held in one.
pub struct Vector {
    pub x: int,
    pub y: int,
}

impl Vector {
    /// Whether both coordinates can be held in a `Point`.
    pub open spec fn fits(self) -> bool {
        &&& i64::MIN <= self.x <= i64::MAX
        &&& i64::MIN <= self.y <= i64::MAX
    }

    /// The vector turned about the origin by `degrees`, clockwise as seen with
    /// the y axis pointing up: `x' = x cos + y sin`, `y' = -x sin + y cos`.
    /// Sine and cosine are snapped to zero near zero, and each coordinate is
    /// rounded to the nearest integer.
    #[verifier::opaque]
    pub open spec fn rotate(self, degrees: int) -> Vector {
        let c = snap(cosine(degrees));
        let s = snap(sine(degrees));
        Vector {
            x: scale_down(self.x * c + self.y * s),
            y: scale_down(-self.x * s + self.y * c),
        }
    }
}

/// A point with integer coordinates.
#[derive(Copy, Clone, Debug, PartialEq, Eq, Structural)]
pub struct Point {
    pub x: i64,
    pub y: i64,
}

impl View for Point {
    type V = Vector;

    open spec fn view(&self) -> Vector {
        Vector { x: self.x as int, y: self.y as int }
    }
}

/// Largest magnitude of a coordinate that `rotate_wide` accepts.
pub const WIDE_LIMIT: i128 = 0x1_0000_0000_0000_0000_0000;

/// Turns the point `(x, y)` about the origin by `rotation`, on coordinates
/// wider than a `Point` holds.
pub fn rotate_wide(x: i128, y: i128, rotation: Rotation) -> (r: (i128, i128))
    requires
        -WIDE_LIMIT <= x <= WIDE_LIMIT,
        -WIDE_LIMIT <= y <= WIDE_LIMIT,
    ensures
        (Vector { x: r.0 as int, y: r.1 as int }) == (Vector { x: x as int, y: y as int }).rotate(
            rotation.0 as int,
        ),
        abs(r.0 as int) <= abs(x as int) + abs(y as int),
        abs(r.1 as int) <= abs(x as int) + abs(y as int),
{
    let c: i128 = snap_to_zero(cosine_ppm(rotation.0)) as i128;
    let s: i128 = snap_to_zero(sine_ppm(rotation.0)) as i128;
    proof {
        reveal(Vector::rotate);
        lemma_rotate_numerators(x as int, y as int, c as int, s as int);
    }
    let xc: i128 = x * c;
    let ys: i128 = y * s;
    let xs: i128 = x * s;
    let yc: i128 = y * c;
    let nx: i128 = xc + ys;
    let ny: i128 = yc - xs;
    proof {
        assert(-x * s + y * c == y * c - x * s) by (nonlinear_arith);
        lemma_scale_down_bound(nx as int, abs(x as int) + abs(y as int));
        lemma_scale_down_bound(ny as int, abs(x as int) + abs(y as int));
    }
    (scale_down_wide(nx), scale_down_wide(ny))
}

/// The products that a rotation adds up stay within the sum of the
/// coordinates' magnitudes, in millions.
pub proof fn lemma_rotate_numerators(x: int, y: int, c: int, s: int)
    requires
        -1_000_000 <= c <= 1_000_000,
        -1_000_000 <= s <= 1_000_000,
    ensures
        abs(x * c) <= abs(x) * 1_000_000,
        abs(y * s) <= abs(y) * 1_000_000,
        abs(x * s) <= abs(x) * 1_000_000,
        abs(y * c) <= abs(y) * 1_000_000,
        abs(x * c + y * s) <= (abs(x) + abs(y)) * 1_000_000,
        abs(y * c - x * s) <= (abs(x) + abs(y)) * 1_000_000,
{
    lemma_product_bound(x, c);
    lemma_product_bound(y, s);
    lemma_product_bound(x, s);
    lemma_product_bound(y, c);
}

/// A product with a factor of at most a million in magnitude.
pub proof fn lemma_product_bound(v: int, f: int)
    requires
        -1_000_000 <= f <= 1_000_000,
    ensures
        abs(v * f) <= abs(v) * 1_000_000,
{
    assert(abs(v * f) <= abs(v) * 1_000_000) by (nonlinear_arith)
        requires
            -1_000_000 <= f <= 1_000_000,
    ;
}

/// A rotated coordinate is at most the sum of the magnitudes of the two
/// coordinates it comes from.
pub proof fn lemma_rotate_bound(v: Vector, degrees: int)
    ensures
        abs(v.rotate(degrees).x) <= abs(v.x) + abs(v.y),
        abs(v.rotate(degrees).y) <= abs(v.x) + abs(v.y),
{
    reveal(Vector::rotate);
    lemma_sine_bounds(degrees);
    let c = snap(cosine(degrees));
    let s = snap(sine(degrees));
    lemma_rotate_numerators(v.x, v.y, c, s);
    assert(-v.x * s + v.y * c == v.y * c - v.x * s) by (nonlinear_arith);
    lemma_scale_down_bound(v.x * c + v.y * s, abs(v.x) + abs(v.y));
    lemma_scale_down_bound(-v.x * s + v.y * c, abs(v.x) + abs(v.y));
}

/// Turning by a whole number of full turns changes nothing.
pub proof fn lemma_rotate_by_zero(v: Vector, degrees: int)
    requires
        degrees % 360 == 0,
    ensures
        v.rotate(degrees) == v,
{
    reveal(Vector::rotate);
    assert(cosine(degrees) == 1_000_000);
    assert(sine(degrees) == 0);
    assert(v.x * 1_000_000 + v.y * 0 == v.x * 1_000_000) by (nonlinear_arith);
    assert(-v.x * 0 + v.y * 1_000_000 == v.y * 1_000_000) by (nonlinear_arith);
}

/// A turn depends on the angle modulo 360 only.
pub proof fn lemma_rotate_periodic(v: Vector, a: int, b: int)
    requires
        a % 360 == b % 360,
    ensures
        v.rotate(a) == v.rotate(b),
{
    reveal(Vector::rotate);
    lemma_sine_periodic(a, b);
}

/// The arithmetic of a turn there and back, for one coordinate. `n1` and
/// `n2` are the exact coordinates of the turned point in millionths, `qx`
/// and `qy` their roundings, and `wx` the rounding of what the turn back
/// gives for the coordinate `x`.
proof fn lemma_there_and_back_coordinate(
    x: int,
    c: int,
    s: int,
    n1: int,
    n2: int,
    qx: int,
    qy: int,
    wx: int,
)
    requires
        near_unit_circle(c, s),
        n1 * c - n2 * s == x * (c * c + s * s),
        abs(qx * 1_000_000 - n1) <= 500_000,
        abs(qy * 1_000_000 - n2) <= 500_000,
        abs(wx * 1_000_000 - (qx * c - qy * s)) <= 500_000,
    ensures
        abs(wx - x) * 1_000_000 <= 2 * abs(x) + 1_207_107,
{
    let e1 = qx * 1_000_000 - n1;
    let e2 = qy * 1_000_000 - n2;
    let e3 = wx * 1_000_000 - (qx * c - qy * s);
    let d = c * c + s * s - 1_000_000_000_000;
    let total = (wx - x) * 1_000_000_000_000;
    assert(total == x * d + e1 * c - e2 * s + e3 * 1_000_000) by (nonlinear_arith)
        requires
            e1 == qx * 1_000_000 - n1,
            e2 == qy * 1_000_000 - n2,
            e3 == wx * 1_000_000 - (qx * c - qy * s),
            d == c * c + s * s - 1_000_000_000_000,
            total == (wx - x) * 1_000_000_000_000,
            n1 * c - n2 * s == x * (c * c + s * s),
    ;
    assert(abs(x * d) <= abs(x) * 1_200_000) by (nonlinear_arith)
        requires
            -1_200_000 <= d <= 1_200_000,
    ;
    assert(abs(e1 * c) <= 500_000 * abs(c)) by (nonlinear_arith)
        requires
            -500_000 <= e1 <= 500_000,
    ;
    assert(abs(e2 * s) <= 500_000 * abs(s)) by (nonlinear_arith)
        requires
            -500_000 <= e2 <= 500_000,
    ;
    assert(abs(total) <= abs(x) * 1_200_000 + 1_207_107_000_000);
    assert(abs(total) == abs(wx - x) * 1_000_000_000_000);
}

/// Turning a vector by an angle and then by the opposite angle gives it
/// back up to rounding: each coordinate is off by no more than 1.207107
/// units and two millionths of its magnitude.
pub proof fn lemma_rotate_there_and_back(v: Vector, degrees: int)
    ensures
        abs(v.rotate(degrees).rotate(-degrees).x - v.x) * 1_000_000 <= 2 * abs(v.x) + 1_207_107,
        abs(v.rotate(degrees).rotate(-degrees).y - v.y) * 1_000_000 <= 2 * abs(v.y) + 1_207_107,
{
    reveal(Vector::rotate);
    lemma_snap_is_identity(degrees);
    lemma_snap_is_identity(-degrees);
    lemma_sine_of_negation(degrees);
    lemma_near_unit_circle(degrees);
    let c = cosine(degrees);
    let s = sine(degrees);
    let n1 = v.x * c + v.y * s;
    let n2 = -v.x * s + v.y * c;
    let q = v.rotate(degrees);
    let w = q.rotate(-degrees);
    lemma_scale_down_error(n1);
    lemma_scale_down_error(n2);
    lemma_scale_down_error(q.x * c + q.y * (-s));
    lemma_scale_down_error(-q.x * (-s) + q.y * c);
    assert(q.x * c + q.y * (-s) == q.x * c - q.y * s) by (nonlinear_arith);
    assert(-q.x * (-s) + q.y * c == q.y * c - (-q.x) * s) by (nonlinear_arith);
    assert(n1 * c - n2 * s == v.x * (c * c + s * s)) by (nonlinear_arith)
        requires
            n1 == v.x * c + v.y * s,
            n2 == -v.x * s + v.y * c,
    ;
    assert(n2 * c - (-n1) * s == v.y * (c * c + s * s)) by (nonlinear_arith)
        requires
            n1 == v.x * c + v.y * s,
            n2 == -v.x * s + v.y * c,
    ;
    lemma_there_and_back_coordinate(v.x, c, s, n1, n2, q.x, q.y, w.x);
    assert(abs((-q.x) * 1_000_000 - (-n1)) == abs(q.x * 1_000_000 - n1));
    lemma_there_and_back_coordinate(v.y, c, s, n2, -n1, q.y, -q.x, w.y);
}

/// A point whose coordinates' magnitudes add up to no more than `i64::MAX`
/// can be turned by any angle.
pub proof fn lemma_rotation_fits(p: Point, degrees: int)
    requires
        abs(p.x as int) + abs(p.y as int) <= i64::MAX,
    ensures
        p@.rotate(degrees).fits(),
{
    lemma_rotate_bound(p@, degrees);
}

impl Point {
    /// The square of the distance between the two points.
    pub open spec fn squared_distance(self, point: Point) -> int {
        (point.x - self.x) * (point.x - self.x) + (point.y - self.y) * (point.y - self.y)
    }

    /// The magnitudes of the differences of the coordinates.
    pub open spec fn delta_vector(self, point: Point) -> Vector {
        Vector { x: abs(point.x - self.x), y: abs(point.y - self.y) }
    }

    /// The dot product of the two points taken as vectors.
    pub open spec fn dot(self, point: Point) -> int {
        self.x * point.x + self.y * point.y
    }

    /// The point `(x, y)`.
    pub fn create_point(x: i64, y: i64) -> (p: Point)
        ensures
            p == (Point { x, y }),
    {
        Point { x, y }
    }

    /// The distance to `point`, rounded down to a whole number.
    pub fn get_distance_from_point(&self, point: &Point) -> (d: u64)
        requires
            self.squared_distance(*point) <= u128::MAX,
        ensures
            d * d <= self.squared_distance(*point) < (d + 1) * (d + 1),
    {
        let a: u128 = Self::delta_wide(point.x, self.x);
        let b: u128 = Self::delta_wide(point.y, self.y);
        proof {
            let dx = point.x - self.x;
            let dy = point.y - self.y;
            assert(a * a == dx * dx) by (nonlinear_arith)
                requires
                    a == abs(dx),
            ;
            assert(b * b == dy * dy) by (nonlinear_arith)
                requires
                    b == abs(dy),
            ;
            assert(dx * dx >= 0) by (nonlinear_arith);
            assert(dy * dy >= 0) by (nonlinear_arith);
        }
        integer_sqrt(a * a + b * b)
    }

    /// The magnitude of `b - a`, whatever the two coordinates.
    fn delta_wide(b: i64, a: i64) -> (d: u128)
        ensures
            d == abs(b - a),
    {
        let diff: i128 = b as i128 - a as i128;
        if diff < 0 {
            (-diff) as u128
        } else {
            diff as u128
        }
    }

    /// The magnitude of `b - a`.
    pub fn delta(b: i64, a: i64) -> (d: i64)
        requires
            abs(b - a) <= i64::MAX,
        ensures
            d == abs(b - a),
    {
        Self::delta_wide(b, a) as i64
    }

    /// The point whose coordinates are the magnitudes of the differences of
    /// the two points' coordinates.
    pub fn delta_from_point(&self, point: &Point) -> (d: Point)
        requires
            self.delta_vector(*point).fits(),
        ensures
            d@ == self.delta_vector(*point),
    {
        Point { x: Self::delta(point.x, self.x), y: Self::delta(point.y, self.y) }
    }

    /// The dot product of the two points taken as vectors.
    pub fn dot_product(&self, point: &Point) -> (d: i128)
        requires
            self.dot(*point) <= i128::MAX,
        ensures
            d == self.dot(*point),
    {
        let sx: i128 = self.x as i128;
        let sy: i128 = self.y as i128;
        let px: i128 = point.x as i128;
        let py: i128 = point.y as i128;
        proof {
            lemma_product_range(sx as int, px as int);
            lemma_product_range(sy as int, py as int);
        }
        let a: i128 = sx * px;
        let b: i128 = sy * py;
        a + b
    }

    /// The point turned about the origin by `rotation`.
    pub fn rotate_around_origin(&self, rotation: Rotation) -> (p: Point)
        requires
            self@.rotate(rotation.0 as int).fits(),
        ensures
            p@ == self@.rotate(rotation.0 as int),
    {
        let r: (i128, i128) = rotate_wide(self.x as i128, self.y as i128, rotation);
        Point { x: r.0 as i64, y: r.1 as i64 }
    }
}

/// The product of two numbers of the range of `i64` has a magnitude of at
/// most two to the power 126.
pub proof fn lemma_product_range(a: int, b: int)
    requires
        i64::MIN <= a <= i64::MAX,
        i64::MIN <= b <= i64::MAX,
    ensures
        -0x4000_0000_0000_0000_0000_0000_0000_0000 <= a * b
            <= 0x4000_0000_0000_0000_0000_0000_0000_0000,
{
    assert(-0x4000_0000_0000_0000_0000_0000_0000_0000 <= a * b
        <= 0x4000_0000_0000_0000_0000_0000_0000_0000) by (nonlinear_arith)
        requires
            -0x8000_0000_0000_0000 <= a <= 0x7fff_ffff_ffff_ffff,
            -0x8000_0000_0000_0000 <= b <= 0x7fff_ffff_ffff_ffff,
    ;
}

/// Turning a point by a rotation and then by the opposite rotation gives
/// it back up to rounding: each coordinate is off by no more than 1.207107
/// units and two millionths of its magnitude.
pub proof fn lemma_turn_and_turn_back(point: Point, rotation: Rotation)
    ensures
        ({
            let back = point@.rotate(rotation.0 as int).rotate(rotation.spec_neg().0 as int);
            &&& abs(back.x - point.x) * 1_000_000 <= 2 * abs(point.x as int) + 1_207_107
            &&& abs(back.y - point.y) * 1_000_000 <= 2 * abs(point.y as int) + 1_207_107
        }),
{
    let there = point@.rotate(rotation.0 as int);
    lemma_rotate_periodic(there, rotation.spec_neg().0 as int, -rotation.0);
    lemma_rotate_there_and_back(point@, rotation.0 as int);
}

/// Two points whose coordinates differ by no more than `i64::MAX` on each
/// axis are at a distance that `get_distance_from_point` can give.
pub proof fn lemma_distance_fits(from: Point, to: Point)
    requires
        from.delta_vector(to).fits(),
    ensures
        from.squared_distance(to) <= u128::MAX,
{
    let dx = to.x - from.x;
    let dy = to.y - from.y;
    assert(dx * dx <= 0x7fff_ffff_ffff_ffff * 0x7fff_ffff_ffff_ffff) by (nonlinear_arith)
        requires
            -0x7fff_ffff_ffff_ffff <= dx <= 0x7fff_ffff_ffff_ffff,
    ;
    assert(dy * dy <= 0x7fff_ffff_ffff_ffff * 0x7fff_ffff_ffff_ffff) by (nonlinear_arith)
        requires
            -0x7fff_ffff_ffff_ffff <= dy <= 0x7fff_ffff_ffff_ffff,
    ;
}

/// The dot product of two points can be given unless all four coordinates
/// are the least that a point can hold.
pub proof fn lemma_dot_fits(a: Point, b: Point)
    requires
        a.x > i64::MIN || a.y > i64::MIN || b.x > i64::MIN || b.y > i64::MIN,
    ensures
        a.dot(b) <= i128::MAX,
{
    lemma_product_range(a.x as int, b.x as int);
    lemma_product_range(a.y as int, b.y as int);
    if a.x > i64::MIN || b.x > i64::MIN {
        assert(a.x * b.x < 0x4000_0000_0000_0000_0000_0000_0000_0000) by (nonlinear_arith)
            requires
                -0x8000_0000_0000_0000 <= a.x <= 0x7fff_ffff_ffff_ffff,
                -0x8000_0000_0000_0000 <= b.x <= 0x7fff_ffff_ffff_ffff,
                a.x > -0x8000_0000_0000_0000 || b.x > -0x8000_0000_0000_0000,
        ;
    } else {
        assert(a.y * b.y < 0x4000_0000_0000_0000_0000_0000_0000_0000) by (nonlinear_arith)
            requires
                -0x8000_0000_0000_0000 <= a.y <= 0x7fff_ffff_ffff_ffff,
                -0x8000_0000_0000_0000 <= b.y <= 0x7fff_ffff_ffff_ffff,
                a.y > -0x8000_0000_0000_0000 || b.y > -0x8000_0000_0000_0000,
        ;
    }
}

} // verus!
