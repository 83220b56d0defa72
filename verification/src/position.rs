//! Lengths, points and extents.

use vstd::prelude::*;

verus! {

/// A length or a coordinate, in whole layout units.
pub type Scalar = u64;

/// A position as `[x, y]`.
pub type Point = [Scalar; 2];

/// An extent as `[width, height]`.
pub type Dimensions = [Scalar; 2];

/// Where something sits along one axis of the space it is given.
#[derive(Debug, Clone, Copy, PartialEq, Eq, Structural)]
pub enum Align {
    Start,
    Middle,
    End,
}

/// The sum of two lengths, held at `Scalar::MAX` where it would pass it.
pub open spec fn sum_of(a: Scalar, b: Scalar) -> Scalar {
    if a + b > Scalar::MAX {
        Scalar::MAX
    } else {
        (a + b) as Scalar
    }
}

/// The larger of two lengths.
pub open spec fn larger_of(a: Scalar, b: Scalar) -> Scalar {
    if a < b {
        b
    } else {
        a
    }
}

/// Adds two lengths without leaving the range of `Scalar`.
pub fn sum(a: Scalar, b: Scalar) -> (r: Scalar)
    ensures
        r == sum_of(a, b),
{
    a.saturating_add(b)
}

/// Picks the larger of two lengths.
pub fn larger(a: Scalar, b: Scalar) -> (r: Scalar)
    ensures
        r == larger_of(a, b),
{
    if a < b {
        b
    } else {
        a
    }
}

} // verus!
