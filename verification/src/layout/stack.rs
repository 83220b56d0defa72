//! Children laid over one another, each filling the whole box.

use vstd::prelude::*;
use crate::layout::{
    BoxConstraints, Id, LayoutContext, LayoutFunction, LayoutResult, Placement, Turn,
};
use crate::position::{Align, Dimensions};

verus! {

/// Lays its children over one another. Each of them fills the box that the
/// stack is given.
#[derive(Debug, Clone, Copy, PartialEq, Eq, Structural)]
pub struct Stack {
    pub align_x: Align,
    pub align_y: Align,
    /// How many children have been asked for in the pass under way.
    pub index: usize,
}

/// What a stack is told about one of its children.
#[derive(Debug, Clone, Copy, PartialEq, Eq, Structural)]
pub struct StackItem {
    pub grow: bool,
}

impl Stack {
    /// One run of the layout: the next child is asked for, under the
    /// constraints with both axes at their upper bounds; with none left the
    /// size is the upper bounds themselves.
    pub open spec fn turn(
        self,
        c: BoxConstraints,
        children: Seq<Id>,
        answer: Option<Dimensions>,
        places: Seq<Placement>,
    ) -> Turn<Stack> {
        let index = if answer is None {
            0
        } else {
            self.index
        };
        if index < children.len() {
            Turn {
                layout: Stack { index: (index + 1) as usize, ..self },
                places,
                result: LayoutResult::RequestChild(children[index as int], c.grown()),
            }
        } else {
            Turn {
                layout: Stack { index, ..self },
                places,
                result: LayoutResult::Size([c.max_width, c.max_height]),
            }
        }
    }

    pub fn new() -> (r: Self)
        ensures
            r == (Stack { align_x: Align::Middle, align_y: Align::Middle, index: 0 }),
    {
        Stack { align_x: Align::Middle, align_y: Align::Middle, index: 0 }
    }
}

impl LayoutFunction for Stack {
    open spec fn takes(&self, children: nat) -> bool {
        true
    }

    /// Asks for each child in turn, to fill the whole box, and then gives
    /// the upper bounds of `constraints` as the size, whatever the children
    /// came to.
    fn layout(
        &mut self,
        constraints: BoxConstraints,
        children: &[Id],
        child_size: Option<Dimensions>,
        context: &mut LayoutContext,
    ) -> (result: LayoutResult)
        ensures
            (Turn { layout: *final(self), places: final(context).places(), result }) == old(
                self,
            ).turn(constraints, children@, child_size, old(context).places()),
    {
        if child_size.is_none() {
            self.index = 0;
        }
        if self.index < children.len() {
            let child = children[self.index];
            self.index = self.index + 1;
            let child_constraints = constraints.grow_to_max();
            LayoutResult::RequestChild(child, child_constraints)
        } else {
            LayoutResult::Size([constraints.max_width, constraints.max_height])
        }
    }
}

impl StackItem {
    pub fn new() -> (r: Self)
        ensures
            r.grow,
    {
        StackItem { grow: true }
    }
}

} // verus!
