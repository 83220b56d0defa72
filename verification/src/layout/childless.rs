//! Leaves of a fixed size.

use vstd::prelude::*;
use crate::layout::{
    BoxConstraints, Id, LayoutContext, LayoutFunction, LayoutResult, Turn,
};
use crate::position::{Dimensions, Scalar};

verus! {

/// The layout of a widget that has a size of its own and takes no children.
#[derive(Debug, Clone, Copy, PartialEq, Eq, Structural)]
pub struct Childless {
    pub width: Scalar,
    pub height: Scalar,
}

impl Childless {
    /// The size of the widget under `c`: its own width and height, each
    /// brought up to its lower bound.
    pub open spec fn size_under(self, c: BoxConstraints) -> Dimensions {
        [c.checked_width(self.width), c.checked_height(self.height)]
    }

    pub fn new() -> (r: Self)
        ensures
            r == (Childless { width: 0, height: 0 }),
    {
        Childless { width: 0, height: 0 }
    }

    pub fn width(self, width: Scalar) -> (r: Self)
        ensures
            r == (Childless { width, ..self }),
    {
        Childless { width, ..self }
    }

    pub fn height(self, height: Scalar) -> (r: Self)
        ensures
            r == (Childless { height, ..self }),
    {
        Childless { height, ..self }
    }

    pub fn dimensions(self, dimensions: Dimensions) -> (r: Self)
        ensures
            r == (Childless { width: dimensions[0], height: dimensions[1] }),
    {
        self.width(dimensions[0]).height(dimensions[1])
    }
}

impl LayoutFunction for Childless {
    open spec fn takes(&self, children: nat) -> bool {
        children == 0
    }

    /// Gives the widget's own size, checked against `constraints`. The
    /// widget has no children: the layout takes none, so that no caller
    /// can run it with any.
    fn layout(
        &mut self,
        constraints: BoxConstraints,
        children: &[Id],
        child_size: Option<Dimensions>,
        context: &mut LayoutContext,
    ) -> (result: LayoutResult)
        ensures
            (Turn { layout: *final(self), places: final(context).places(), result }) == (Turn {
                layout: *old(self),
                places: old(context).places(),
                result: LayoutResult::Size(old(self).size_under(constraints)),
            }),
    {
        LayoutResult::Size(
            [constraints.check_width(self.width), constraints.check_height(self.height)],
        )
    }
}

} // verus!
