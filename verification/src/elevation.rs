//! Elevations.
//!
//! An elevation is a double-precision number, held by its bit pattern. Between
//! two numbers the order of the patterns, read as sign and magnitude, is the
//! order of the numbers, so comparing them takes no arithmetic on the numbers
//! themselves.
use vstd::prelude::*;

verus! {

/// The pattern of the sign bit.
pub const SIGN: u64 = 0x8000_0000_0000_0000;

/// The largest magnitude that is a number: that of infinity.
pub const INFINITE: u64 = 0x7ff0_0000_0000_0000;

/// A height above the ellipsoid, in metres.
#[derive(Clone, Copy, Debug, PartialEq, Eq, Structural)]
pub struct Elevation {
    /// The IEEE 754 bit pattern of the number.
    pub bits: u64,
}

impl DeepView for Elevation {
    type V = Elevation;

    open spec fn deep_view(&self) -> Elevation {
        *self
    }
}

impl Elevation {
    /// The magnitude of the pattern: all of it but the sign.
    pub open spec fn magnitude(self) -> int {
        if self.bits >= SIGN {
            self.bits - SIGN
        } else {
            self.bits as int
        }
    }

    /// Whether the pattern stands for a number at all.
    pub open spec fn is_number(self) -> bool {
        self.magnitude() <= INFINITE
    }

    /// Where the number stands among all numbers. The two zeros stand in the
    /// same place.
    pub open spec fn position(self) -> int {
        if self.bits >= SIGN {
            -self.magnitude()
        } else {
            self.magnitude()
        }
    }

    /// Whether this elevation is the other or above it. Never, where one of
    /// them is not a number.
    pub open spec fn at_or_above(self, other: Elevation) -> bool {
        self.is_number() && other.is_number() && self.position() >= other.position()
    }

    /// Whether this elevation is the other or above it.
    pub fn reaches(self, other: Elevation) -> (reaches: bool)
        ensures
            reaches == self.at_or_above(other),
    {
        let here: u64 = if self.bits >= SIGN {
            self.bits - SIGN
        } else {
            self.bits
        };
        let there: u64 = if other.bits >= SIGN {
            other.bits - SIGN
        } else {
            other.bits
        };
        if here > INFINITE || there > INFINITE {
            return false;
        }
        let below = self.bits >= SIGN;
        let other_below = other.bits >= SIGN;
        if below && other_below {
            here <= there
        } else if below {
            here == 0 && there == 0
        } else if other_below {
            true
        } else {
            here >= there
        }
    }
}

/// The bounds a radargram is drawn within. Either may be missing, and they are
/// independent of each other.
#[derive(Clone, Copy, Debug, PartialEq, Eq, Structural)]
pub struct ElevationRange {
    pub min: Option<Elevation>,
    pub max: Option<Elevation>,
}

} // verus!
