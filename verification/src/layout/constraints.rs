//! The bounds a parent hands down to a child.

use vstd::prelude::*;
use crate::position::{Dimensions, Scalar};

verus! {

/// Lower and upper bounds on a widget's width and height.
///
/// Nothing forces `min <= max` on an axis: whoever builds a value sees to it.
#[derive(Debug, Clone, Copy, PartialEq, Eq, Structural)]
pub struct BoxConstraints {
    pub min_width: Scalar,
    pub max_width: Scalar,
    pub min_height: Scalar,
    pub max_height: Scalar,
}

impl Default for BoxConstraints {
    /// The constraints with every bound at zero.
    fn default() -> (r: Self)
        ensures
            r == BoxConstraints::zero(),
    {
        BoxConstraints { min_width: 0, max_width: 0, min_height: 0, max_height: 0 }
    }
}

impl BoxConstraints {
    /// The constraints with every bound at zero.
    pub open spec fn zero() -> Self {
        BoxConstraints { min_width: 0, max_width: 0, min_height: 0, max_height: 0 }
    }

    /// `self` with both bounds of the width at `width`.
    pub open spec fn with_width(self, width: Scalar) -> Self {
        BoxConstraints { min_width: width, max_width: width, ..self }
    }

    /// `self` with both bounds of the height at `height`.
    pub open spec fn with_height(self, height: Scalar) -> Self {
        BoxConstraints { min_height: height, max_height: height, ..self }
    }

    /// `self` with each axis pinned to its upper bound.
    pub open spec fn grown(self) -> Self {
        BoxConstraints {
            min_width: self.max_width,
            max_width: self.max_width,
            min_height: self.max_height,
            max_height: self.max_height,
        }
    }

    /// A width brought up to the lower bound. The upper bound is not
    /// enforced: a width above `max_width` comes back unchanged.
    pub open spec fn checked_width(self, width: Scalar) -> Scalar {
        if width < self.min_width {
            self.min_width
        } else {
            width
        }
    }

    /// A height brought up to the lower bound. The upper bound is not
    /// enforced: a height above `max_height` comes back unchanged.
    pub open spec fn checked_height(self, height: Scalar) -> Scalar {
        if height < self.min_height {
            self.min_height
        } else {
            height
        }
    }

    pub fn min_width(self, min_width: Scalar) -> (r: Self)
        ensures
            r == (BoxConstraints { min_width, ..self }),
    {
        BoxConstraints { min_width, ..self }
    }

    pub fn max_width(self, max_width: Scalar) -> (r: Self)
        ensures
            r == (BoxConstraints { max_width, ..self }),
    {
        BoxConstraints { max_width, ..self }
    }

    pub fn min_height(self, min_height: Scalar) -> (r: Self)
        ensures
            r == (BoxConstraints { min_height, ..self }),
    {
        BoxConstraints { min_height, ..self }
    }

    pub fn max_height(self, max_height: Scalar) -> (r: Self)
        ensures
            r == (BoxConstraints { max_height, ..self }),
    {
        BoxConstraints { max_height, ..self }
    }

    /// Forces the width to exactly `width`.
    pub fn fit_width(self, width: Scalar) -> (r: Self)
        ensures
            r == self.with_width(width),
    {
        self.min_width(width).max_width(width)
    }

    /// Forces the height to exactly `height`.
    pub fn fit_height(self, height: Scalar) -> (r: Self)
        ensures
            r == self.with_height(height),
    {
        self.min_height(height).max_height(height)
    }

    /// Forces both axes to exactly `dimensions`.
    pub fn fit(self, dimensions: Dimensions) -> (r: Self)
        ensures
            r == self.with_width(dimensions[0]).with_height(dimensions[1]),
    {
        self.fit_width(dimensions[0]).fit_height(dimensions[1])
    }

    /// Forces both axes to their upper bounds.
    pub fn grow_to_max(self) -> (r: Self)
        ensures
            r == self.grown(),
    {
        self.fit([self.max_width, self.max_height])
    }

    /// Brings `width` up to `min_width` where it lies below it, and hands it
    /// back unchanged otherwise, also where it lies above `max_width`.
    pub fn check_width(&self, width: Scalar) -> (r: Scalar)
        ensures
            r == self.checked_width(width),
    {
        if width < self.min_width {
            self.min_width
        } else {
            width
        }
    }

    /// Brings `height` up to `min_height` where it lies below it, and hands
    /// it back unchanged otherwise, also where it lies above `max_height`.
    pub fn check_height(&self, height: Scalar) -> (r: Scalar)
        ensures
            r == self.checked_height(height),
    {
        if height < self.min_height {
            self.min_height
        } else {
            height
        }
    }
}

} // verus!
