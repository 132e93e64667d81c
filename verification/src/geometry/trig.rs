//! Sines and cosines of whole degrees, in parts per million.
use vstd::prelude::*;
use crate::geometry::arith::abs;

verus! {

/// The value that stands for one: sines and cosines are held as integers in
/// parts per million.
pub const UNIT: i64 = 1_000_000;

/// A sine or cosine at or below this magnitude is taken for zero.
pub const SNAP_THRESHOLD: i64 = 10_000;

/// The sines of 0 to 90 degrees, in parts per million, rounded to nearest.
pub const SINES: [i64; 91] = [
    0, 17452, 34899, 52336, 69756, 87156, 104528, 121869, 139173, 156434,
    173648, 190809, 207912, 224951, 241922, 258819, 275637, 292372, 309017, 325568,
    342020, 358368, 374607, 390731, 406737, 422618, 438371, 453990, 469472, 484810,
    500000, 515038, 529919, 544639, 559193, 573576, 587785, 601815, 615661, 629320,
    642788, 656059, 669131, 681998, 694658, 707107, 719340, 731354, 743145, 754710,
    766044, 777146, 788011, 798636, 809017, 819152, 829038, 838671, 848048, 857167,
    866025, 874620, 882948, 891007, 898794, 906308, 913545, 920505, 927184, 933580,
    939693, 945519, 951057, 956305, 961262, 965926, 970296, 974370, 978148, 981627,
    984808, 987688, 990268, 992546, 994522, 996195, 997564, 998630, 999391, 999848,
    1000000,
];

/// The angle `degrees` brought into `[0, 360)`.
pub open spec fn normalize(degrees: int) -> int {
    degrees % 360
}

/// The sine of an angle of the first quadrant, `0 <= degrees <= 90`.
pub open spec fn quarter_sine(degrees: int) -> int {
    SINES[degrees] as int
}

/// The sine of `degrees`, in parts per million.
pub open spec fn sine(degrees: int) -> int {
    let d = normalize(degrees);
    if d <= 90 {
        quarter_sine(d)
    } else if d <= 180 {
        quarter_sine(180 - d)
    } else if d <= 270 {
        -quarter_sine(d - 180)
    } else {
        -quarter_sine(360 - d)
    }
}

/// The cosine of `degrees`, in parts per million.
pub open spec fn cosine(degrees: int) -> int {
    sine(degrees + 90)
}

/// A sine or cosine with the values of magnitude up to a hundredth replaced
/// by zero.
pub open spec fn snap(v: int) -> int {
    if abs(v) <= 10_000 {
        0
    } else {
        v
    }
}

/// Brings an angle in degrees into `[0, 360)`.
pub fn normalize_degrees(degrees: i64) -> (d: i32)
    ensures
        d == normalize(degrees as int),
        0 <= d < 360,
{
    let m: i64 = degrees % 360;
    if m < 0 {
        (m + 360) as i32
    } else {
        m as i32
    }
}

/// The sine of `degrees`, in parts per million.
pub fn sine_ppm(degrees: i32) -> (s: i64)
    ensures
        s == sine(degrees as int),
        -UNIT <= s <= UNIT,
{
    let d: i32 = normalize_degrees(degrees as i64);
    if d <= 90 {
        SINES[d as usize]
    } else if d <= 180 {
        SINES[(180 - d) as usize]
    } else if d <= 270 {
        -SINES[(d - 180) as usize]
    } else {
        -SINES[(360 - d) as usize]
    }
}

/// The cosine of `degrees`, in parts per million.
pub fn cosine_ppm(degrees: i32) -> (c: i64)
    ensures
        c == cosine(degrees as int),
        -UNIT <= c <= UNIT,
{
    let d: i32 = normalize_degrees(degrees as i64 + 90);
    proof {
        assert(normalize(degrees as int + 90) == d);
        assert(normalize(d as int) == d);
        assert(sine(degrees as int + 90) == sine(d as int));
    }
    sine_ppm(d)
}

/// Replaces a near-zero sine or cosine by zero.
pub fn snap_to_zero(v: i64) -> (r: i64)
    ensures
        r == snap(v as int),
{
    if -SNAP_THRESHOLD <= v && v <= SNAP_THRESHOLD {
        0
    } else {
        v
    }
}

/// Every entry of the table lies between zero and one.
pub proof fn lemma_quarter_sine_bounds(degrees: int)
    requires
        0 <= degrees <= 90,
    ensures
        0 <= quarter_sine(degrees) <= UNIT,
{
}

/// Sines and cosines lie between minus one and one.
pub proof fn lemma_sine_bounds(degrees: int)
    ensures
        -UNIT <= sine(degrees) <= UNIT,
        -UNIT <= cosine(degrees) <= UNIT,
{
    let d = normalize(degrees);
    let e = normalize(degrees + 90);
    if d <= 90 {
        lemma_quarter_sine_bounds(d);
    } else if d <= 180 {
        lemma_quarter_sine_bounds(180 - d);
    } else if d <= 270 {
        lemma_quarter_sine_bounds(d - 180);
    } else {
        lemma_quarter_sine_bounds(360 - d);
    }
    if e <= 90 {
        lemma_quarter_sine_bounds(e);
    } else if e <= 180 {
        lemma_quarter_sine_bounds(180 - e);
    } else if e <= 270 {
        lemma_quarter_sine_bounds(e - 180);
    } else {
        lemma_quarter_sine_bounds(360 - e);
    }
}

/// Sine and cosine depend on the angle modulo 360 only.
pub proof fn lemma_sine_periodic(a: int, b: int)
    requires
        normalize(a) == normalize(b),
    ensures
        sine(a) == sine(b),
        cosine(a) == cosine(b),
{
    assert(normalize(a + 90) == normalize(b + 90));
}

/// The sine is odd and the cosine even.
pub proof fn lemma_sine_of_negation(degrees: int)
    ensures
        sine(-degrees) == -sine(degrees),
        cosine(-degrees) == cosine(degrees),
{
    let d = normalize(degrees);
    let n = normalize(-degrees);
    assert(n == if d == 0 { 0 } else { 360 - d });
    let e = normalize(degrees + 90);
    let m = normalize(-degrees + 90);
    assert(e == if d < 270 { d + 90 } else { d - 270 });
    assert(m == if n < 270 { n + 90 } else { n - 270 });
}

/// No sine or cosine of a whole degree lies so near to zero that snapping
/// changes it.
pub proof fn lemma_snap_is_identity(degrees: int)
    ensures
        snap(sine(degrees)) == sine(degrees),
        snap(cosine(degrees)) == cosine(degrees),
{
    assert forall|d: int| 0 <= d <= 90 implies #[trigger] snap(quarter_sine(d)) == quarter_sine(
        d,
    ) by {
        if d > 0 {
            assert(quarter_sine(d) >= 17452);
        }
    }
    assert(snap(quarter_sine(0)) == quarter_sine(0));
}

/// Whether the point `(c, s)`, in parts per million, lies as near to the unit
/// circle as the rounding of the table allows: the squares add up to one
/// within 1.2 millionths, and the magnitudes to no more than the square
/// root of two.
pub open spec fn near_unit_circle(c: int, s: int) -> bool {
    &&& -1_200_000 <= c * c + s * s - 1_000_000_000_000 <= 1_200_000
    &&& abs(c) + abs(s) <= 1_414_214
}

/// The sine of an angle of the first half of the first quadrant and the sine
/// of its complement lie near the unit circle. Each entry of the table is
/// held against its counterpart here.
proof fn lemma_table_pair(degrees: int)
    requires
        0 <= degrees <= 45,
    ensures
        near_unit_circle(quarter_sine(degrees), quarter_sine(90 - degrees)),
{
    let a = quarter_sine(degrees);
    let b = quarter_sine(90 - degrees);
    if degrees == 0 {
        assert(near_unit_circle(a, b)) by (nonlinear_arith)
            requires
                a == 0,
                b == 1000000,
        ;
    } else if degrees == 1 {
        assert(near_unit_circle(a, b)) by (nonlinear_arith)
            requires
                a == 17452,
                b == 999848,
        ;
    } else if degrees == 2 {
        assert(near_unit_circle(a, b)) by (nonlinear_arith)
            requires
                a == 34899,
                b == 999391,
        ;
    } else if degrees == 3 {
        assert(near_unit_circle(a, b)) by (nonlinear_arith)
            requires
                a == 52336,
                b == 998630,
        ;
    } else if degrees == 4 {
        assert(near_unit_circle(a, b)) by (nonlinear_arith)
            requires
                a == 69756,
                b == 997564,
        ;
    } else if degrees == 5 {
        assert(near_unit_circle(a, b)) by (nonlinear_arith)
            requires
                a == 87156,
                b == 996195,
        ;
    } else if degrees == 6 {
        assert(near_unit_circle(a, b)) by (nonlinear_arith)
            requires
                a == 104528,
                b == 994522,
        ;
    } else if degrees == 7 {
        assert(near_unit_circle(a, b)) by (nonlinear_arith)
            requires
                a == 121869,
                b == 992546,
        ;
    } else if degrees == 8 {
        assert(near_unit_circle(a, b)) by (nonlinear_arith)
            requires
                a == 139173,
                b == 990268,
        ;
    } else if degrees == 9 {
        assert(near_unit_circle(a, b)) by (nonlinear_arith)
            requires
                a == 156434,
                b == 987688,
        ;
    } else if degrees == 10 {
        assert(near_unit_circle(a, b)) by (nonlinear_arith)
            requires
                a == 173648,
                b == 984808,
        ;
    } else if degrees == 11 {
        assert(near_unit_circle(a, b)) by (nonlinear_arith)
            requires
                a == 190809,
                b == 981627,
        ;
    } else if degrees == 12 {
        assert(near_unit_circle(a, b)) by (nonlinear_arith)
            requires
                a == 207912,
                b == 978148,
        ;
    } else if degrees == 13 {
        assert(near_unit_circle(a, b)) by (nonlinear_arith)
            requires
                a == 224951,
                b == 974370,
        ;
    } else if degrees == 14 {
        assert(near_unit_circle(a, b)) by (nonlinear_arith)
            requires
                a == 241922,
                b == 970296,
        ;
    } else if degrees == 15 {
        assert(near_unit_circle(a, b)) by (nonlinear_arith)
            requires
                a == 258819,
                b == 965926,
        ;
    } else if degrees == 16 {
        assert(near_unit_circle(a, b)) by (nonlinear_arith)
            requires
                a == 275637,
                b == 961262,
        ;
    } else if degrees == 17 {
        assert(near_unit_circle(a, b)) by (nonlinear_arith)
            requires
                a == 292372,
                b == 956305,
        ;
    } else if degrees == 18 {
        assert(near_unit_circle(a, b)) by (nonlinear_arith)
            requires
                a == 309017,
                b == 951057,
        ;
    } else if degrees == 19 {
        assert(near_unit_circle(a, b)) by (nonlinear_arith)
            requires
                a == 325568,
                b == 945519,
        ;
    } else if degrees == 20 {
        assert(near_unit_circle(a, b)) by (nonlinear_arith)
            requires
                a == 342020,
                b == 939693,
        ;
    } else if degrees == 21 {
        assert(near_unit_circle(a, b)) by (nonlinear_arith)
            requires
                a == 358368,
                b == 933580,
        ;
    } else if degrees == 22 {
        assert(near_unit_circle(a, b)) by (nonlinear_arith)
            requires
                a == 374607,
                b == 927184,
        ;
    } else if degrees == 23 {
        assert(near_unit_circle(a, b)) by (nonlinear_arith)
            requires
                a == 390731,
                b == 920505,
        ;
    } else if degrees == 24 {
        assert(near_unit_circle(a, b)) by (nonlinear_arith)
            requires
                a == 406737,
                b == 913545,
        ;
    } else if degrees == 25 {
        assert(near_unit_circle(a, b)) by (nonlinear_arith)
            requires
                a == 422618,
                b == 906308,
        ;
    } else if degrees == 26 {
        assert(near_unit_circle(a, b)) by (nonlinear_arith)
            requires
                a == 438371,
                b == 898794,
        ;
    } else if degrees == 27 {
        assert(near_unit_circle(a, b)) by (nonlinear_arith)
            requires
                a == 453990,
                b == 891007,
        ;
    } else if degrees == 28 {
        assert(near_unit_circle(a, b)) by (nonlinear_arith)
            requires
                a == 469472,
                b == 882948,
        ;
    } else if degrees == 29 {
        assert(near_unit_circle(a, b)) by (nonlinear_arith)
            requires
                a == 484810,
                b == 874620,
        ;
    } else if degrees == 30 {
        assert(near_unit_circle(a, b)) by (nonlinear_arith)
            requires
                a == 500000,
                b == 866025,
        ;
    } else if degrees == 31 {
        assert(near_unit_circle(a, b)) by (nonlinear_arith)
            requires
                a == 515038,
                b == 857167,
        ;
    } else if degrees == 32 {
        assert(near_unit_circle(a, b)) by (nonlinear_arith)
            requires
                a == 529919,
                b == 848048,
        ;
    } else if degrees == 33 {
        assert(near_unit_circle(a, b)) by (nonlinear_arith)
            requires
                a == 544639,
                b == 838671,
        ;
    } else if degrees == 34 {
        assert(near_unit_circle(a, b)) by (nonlinear_arith)
            requires
                a == 559193,
                b == 829038,
        ;
    } else if degrees == 35 {
        assert(near_unit_circle(a, b)) by (nonlinear_arith)
            requires
                a == 573576,
                b == 819152,
        ;
    } else if degrees == 36 {
        assert(near_unit_circle(a, b)) by (nonlinear_arith)
            requires
                a == 587785,
                b == 809017,
        ;
    } else if degrees == 37 {
        assert(near_unit_circle(a, b)) by (nonlinear_arith)
            requires
                a == 601815,
                b == 798636,
        ;
    } else if degrees == 38 {
        assert(near_unit_circle(a, b)) by (nonlinear_arith)
            requires
                a == 615661,
                b == 788011,
        ;
    } else if degrees == 39 {
        assert(near_unit_circle(a, b)) by (nonlinear_arith)
            requires
                a == 629320,
                b == 777146,
        ;
    } else if degrees == 40 {
        assert(near_unit_circle(a, b)) by (nonlinear_arith)
            requires
                a == 642788,
                b == 766044,
        ;
    } else if degrees == 41 {
        assert(near_unit_circle(a, b)) by (nonlinear_arith)
            requires
                a == 656059,
                b == 754710,
        ;
    } else if degrees == 42 {
        assert(near_unit_circle(a, b)) by (nonlinear_arith)
            requires
                a == 669131,
                b == 743145,
        ;
    } else if degrees == 43 {
        assert(near_unit_circle(a, b)) by (nonlinear_arith)
            requires
                a == 681998,
                b == 731354,
        ;
    } else if degrees == 44 {
        assert(near_unit_circle(a, b)) by (nonlinear_arith)
            requires
                a == 694658,
                b == 719340,
        ;
    } else if degrees == 45 {
        assert(near_unit_circle(a, b)) by (nonlinear_arith)
            requires
                a == 707107,
                b == 707107,
        ;
    }
}

/// The sine of an angle of the first quadrant and the sine of its complement
/// lie near the unit circle.
pub proof fn lemma_quarter_near_unit_circle(degrees: int)
    requires
        0 <= degrees <= 90,
    ensures
        near_unit_circle(quarter_sine(90 - degrees), quarter_sine(degrees)),
{
    let a = quarter_sine(degrees);
    let b = quarter_sine(90 - degrees);
    if degrees <= 45 {
        lemma_table_pair(degrees);
    } else {
        lemma_table_pair(90 - degrees);
    }
    assert(b * b + a * a == a * a + b * b);
}

/// Changing the signs of a point leaves it as near to the unit circle.
pub proof fn lemma_near_unit_circle_signs(c: int, s: int)
    requires
        near_unit_circle(c, s),
    ensures
        near_unit_circle(-c, s),
        near_unit_circle(c, -s),
        near_unit_circle(-c, -s),
{
    assert((-c) * (-c) == c * c) by (nonlinear_arith);
    assert((-s) * (-s) == s * s) by (nonlinear_arith);
}

/// The cosine and the sine of every whole angle lie near the unit circle.
pub proof fn lemma_near_unit_circle(degrees: int)
    ensures
        near_unit_circle(cosine(degrees), sine(degrees)),
{
    let d = normalize(degrees);
    let e = normalize(degrees + 90);
    assert(e == if d < 270 {
        d + 90
    } else {
        d - 270
    });
    if d <= 90 {
        lemma_quarter_near_unit_circle(d);
    } else if d <= 180 {
        lemma_quarter_near_unit_circle(180 - d);
        lemma_near_unit_circle_signs(quarter_sine(d - 90), quarter_sine(180 - d));
    } else if d <= 270 {
        lemma_quarter_near_unit_circle(d - 180);
        lemma_near_unit_circle_signs(quarter_sine(270 - d), quarter_sine(d - 180));
    } else {
        lemma_quarter_near_unit_circle(360 - d);
        lemma_near_unit_circle_signs(quarter_sine(d - 270), quarter_sine(360 - d));
    }
}

} // verus!
