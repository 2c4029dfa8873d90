//! Degrees of latitude and longitude.

use vstd::prelude::*;

verus! {

/// An angle in degrees, held as the bit pattern of a double-precision number: the top bit is the
/// sign, and the other bits order the magnitudes. Patterns above that of infinity are not numbers.
#[derive(Clone, Copy, Debug)]
pub struct Coordinate {
    pub bits: u64,
}

/// The bit pattern of 90.
pub const POLE: u64 = 0x4056_8000_0000_0000;

/// The bit pattern of 180.
pub const ANTIMERIDIAN: u64 = 0x4066_8000_0000_0000;

const SIGN: u64 = 0x8000_0000_0000_0000;

const INFINITY: u64 = 0x7FF0_0000_0000_0000;

impl Coordinate {
    pub open spec fn negative_spec(self) -> bool {
        self.bits >= 0x8000_0000_0000_0000
    }

    /// The bit pattern without its sign.
    pub open spec fn magnitude_spec(self) -> int {
        if self.negative_spec() {
            self.bits - 0x8000_0000_0000_0000
        } else {
            self.bits as int
        }
    }

    /// Whether the pattern is that of a number.
    pub open spec fn is_number_spec(self) -> bool {
        self.magnitude_spec() <= 0x7FF0_0000_0000_0000
    }

    /// Whether the angle is a number from `-limit` to `limit`.
    pub open spec fn within_spec(self, limit: u64) -> bool {
        self.magnitude_spec() <= limit
    }

    /// Numeric equality: the two zeros are equal, and what is not a number equals nothing.
    pub open spec fn same_spec(self, other: Self) -> bool {
        self.is_number_spec() && (self.bits == other.bits || (self.magnitude_spec() == 0
            && other.magnitude_spec() == 0))
    }

    /// The nearest angle from `-limit` to `limit`; what is not a number stays as it is.
    pub open spec fn clamped_spec(self, limit: u64) -> Self {
        if !self.is_number_spec() || self.within_spec(limit) {
            self
        } else if self.negative_spec() {
            Coordinate { bits: (0x8000_0000_0000_0000 + limit) as u64 }
        } else {
            Coordinate { bits: limit }
        }
    }

    fn magnitude(self) -> (m: u64)
        ensures
            m == self.magnitude_spec(),
    {
        if self.bits >= SIGN {
            self.bits - SIGN
        } else {
            self.bits
        }
    }

    /// Whether the angle is a number from `-limit` to `limit`.
    pub fn within(self, limit: u64) -> (r: bool)
        ensures
            r == self.within_spec(limit),
    {
        self.magnitude() <= limit
    }

    /// The nearest angle from `-limit` to `limit`; what is not a number stays as it is.
    pub fn clamped(self, limit: u64) -> (r: Self)
        requires
            limit <= 0x7FF0_0000_0000_0000,
        ensures
            r == self.clamped_spec(limit),
            self.is_number_spec() ==> r.within_spec(limit),
    {
        if self.magnitude() > INFINITY || self.magnitude() <= limit {
            self
        } else if self.bits >= SIGN {
            Coordinate { bits: SIGN + limit }
        } else {
            Coordinate { bits: limit }
        }
    }
}

impl PartialEq for Coordinate {
    fn eq(&self, other: &Self) -> (r: bool) {
        self.magnitude() <= INFINITY && (self.bits == other.bits || (self.magnitude() == 0
            && other.magnitude() == 0))
    }
}

impl vstd::std_specs::cmp::PartialEqSpecImpl for Coordinate {
    open spec fn obeys_eq_spec() -> bool {
        true
    }

    open spec fn eq_spec(&self, other: &Self) -> bool {
        self.same_spec(*other)
    }
}

/// Angles are compared by size, whatever their sign, and kept within a limit by taking the limit on
/// their side of zero. The highest bit holds the sign.
pub proof fn angles_are_kept_within_limits(angle: Coordinate, limit: u64)
    requires
        limit <= 0x7FF0_0000_0000_0000,
        angle.bits % 0x8000_0000_0000_0000 <= 0x7FF0_0000_0000_0000,
    ensures
        angle.within_spec(limit) <==> angle.bits % 0x8000_0000_0000_0000 <= limit,
        angle.within_spec(limit) ==> angle.clamped_spec(limit) == angle,
        !angle.within_spec(limit) ==> angle.clamped_spec(limit).bits % 0x8000_0000_0000_0000
            == limit && angle.clamped_spec(limit).bits / 0x8000_0000_0000_0000 == angle.bits
            / 0x8000_0000_0000_0000,
        angle.same_spec(angle),
        angle.same_spec(Coordinate { bits: limit }) <==> angle.bits == limit || (angle.bits
            % 0x8000_0000_0000_0000 == 0 && limit == 0),
{
}

}
