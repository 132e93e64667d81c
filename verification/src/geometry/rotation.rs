//! An angle in whole degrees, with an algebra that wraps into `[0, 360)`.
use vstd::prelude::*;
use crate::geometry::trig::{normalize, normalize_degrees};

verus! {

/// Pi in parts per million.
pub const PI_PPM: i64 = 3_141_593;

/// An angle in whole degrees.
///
/// Construction keeps the number as given; addition, subtraction and negation
/// give an angle in `[0, 360)`.
#[derive(Debug, Copy, Clone, PartialEq, Eq, Structural)]
pub struct Rotation(pub i32);

impl Rotation {
    /// Whether the angle lies in `[0, 360)`.
    pub open spec fn is_normalized(self) -> bool {
        0 <= self.0 < 360
    }

    /// The angle with its number of degrees brought into `[0, 360)`.
    pub open spec fn normalized(self) -> Rotation {
        Rotation(normalize(self.0 as int) as i32)
    }

    /// The sum of the two angles, in `[0, 360)`.
    pub open spec fn spec_add(self, angle: Rotation) -> Rotation {
        Rotation(normalize(self.0 + angle.0) as i32)
    }

    /// The difference of the two angles, in `[0, 360)`.
    pub open spec fn spec_sub(self, angle: Rotation) -> Rotation {
        Rotation(normalize(self.0 - angle.0) as i32)
    }

    /// The opposite angle, in `[0, 360)`.
    pub open spec fn spec_neg(self) -> Rotation {
        Rotation(normalize(-self.0) as i32)
    }

    /// An angle of `rotation` degrees, kept as given.
    pub fn new(rotation: i32) -> (r: Rotation)
        ensures
            r == Rotation(rotation),
    {
        Rotation(rotation)
    }

    /// The angle in millionths of a radian: the degrees times pi over 180,
    /// rounded to the nearest integer and a tie away from zero.
    pub open spec fn micro_radians(self) -> int {
        if self.0 < 0 {
            -((2 * (-self.0 * 3_141_593) + 180) / 360)
        } else {
            (2 * (self.0 * 3_141_593) + 180) / 360
        }
    }

    /// The angle in millionths of a radian, rounded to the nearest.
    pub fn radians(&self) -> (r: i64)
        ensures
            r == self.micro_radians(),
    {
        let d: i64 = self.0 as i64;
        if d < 0 {
            -((2 * (-d * PI_PPM) + 180) / 360)
        } else {
            (2 * (d * PI_PPM) + 180) / 360
        }
    }

    /// The angle in degrees, as it is held.
    pub fn degrees(&self) -> (d: i32)
        ensures
            d == self.0,
    {
        self.0
    }
}

impl vstd::std_specs::ops::AddSpecImpl for Rotation {
    open spec fn obeys_add_spec() -> bool {
        true
    }

    open spec fn add_req(self, angle: Rotation) -> bool {
        true
    }

    open spec fn add_spec(self, angle: Rotation) -> Rotation {
        self.spec_add(angle)
    }
}

impl std::ops::Add for Rotation {
    type Output = Rotation;

    /// The sum of the two angles, in `[0, 360)`.
    fn add(self, angle: Rotation) -> (r: Rotation) {
        Rotation(normalize_degrees(self.0 as i64 + angle.0 as i64))
    }
}

impl vstd::std_specs::ops::SubSpecImpl for Rotation {
    open spec fn obeys_sub_spec() -> bool {
        true
    }

    open spec fn sub_req(self, angle: Rotation) -> bool {
        true
    }

    open spec fn sub_spec(self, angle: Rotation) -> Rotation {
        self.spec_sub(angle)
    }
}

impl std::ops::Sub for Rotation {
    type Output = Rotation;

    /// The difference of the two angles, in `[0, 360)`.
    fn sub(self, angle: Rotation) -> (r: Rotation) {
        Rotation(normalize_degrees(self.0 as i64 - angle.0 as i64))
    }
}

impl vstd::std_specs::ops::NegSpecImpl for Rotation {
    open spec fn obeys_neg_spec() -> bool {
        true
    }

    open spec fn neg_req(self) -> bool {
        true
    }

    open spec fn neg_spec(self) -> Rotation {
        self.spec_neg()
    }
}

impl std::ops::Neg for Rotation {
    type Output = Rotation;

    /// The opposite angle, in `[0, 360)`.
    fn neg(self) -> (r: Rotation) {
        Rotation(normalize_degrees(-(self.0 as i64)))
    }
}

/// Sums, differences and opposites lie in `[0, 360)`.
pub proof fn lemma_arithmetic_normalizes(a: Rotation, b: Rotation)
    ensures
        a.spec_add(b).is_normalized(),
        a.spec_sub(b).is_normalized(),
        a.spec_neg().is_normalized(),
{
}

/// The opposite of an angle of `[0, 360)` is 360 minus it, and that of zero
/// is zero.
pub proof fn lemma_negation_value(a: Rotation)
    requires
        a.is_normalized(),
    ensures
        a.spec_neg() == if a.0 == 0 {
            Rotation(0)
        } else {
            Rotation((360 - a.0) as i32)
        },
{
}

/// Adding an angle and taking it away again gives the first angle back,
/// modulo 360.
pub proof fn lemma_add_then_sub(a: Rotation, b: Rotation)
    ensures
        a.spec_add(b).spec_sub(b) == a.normalized(),
        a.is_normalized() ==> a.spec_add(b).spec_sub(b) == a,
{
}

/// The opposite of the opposite is the angle itself, modulo 360.
pub proof fn lemma_double_negation(a: Rotation)
    ensures
        a.spec_neg().spec_neg() == a.normalized(),
        a.is_normalized() ==> a.spec_neg().spec_neg() == a,
{
}

/// Adding a full turn changes nothing, modulo 360.
pub proof fn lemma_add_full_turn(a: Rotation)
    ensures
        a.spec_add(Rotation(360)) == a.normalized(),
        a.is_normalized() ==> a.spec_add(Rotation(360)) == a,
{
}

} // verus!
