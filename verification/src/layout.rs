//! Sizes and positions for a tree of widgets under nested box constraints.
//!
//! A layout never measures a child itself. It answers with the child that it
//! needs measured and stops; whoever drives the pass measures that child and
//! runs the layout again with the size that came out. What a layout has to
//! remember in between lies in the layout's own fields.

use vstd::prelude::*;
use crate::position::Dimensions;

mod childless;
mod constraints;
mod context;
mod enums;
mod laws;
mod linear;
mod pass;
mod stack;

pub use self::childless::Childless;
pub use self::constraints::BoxConstraints;
pub use self::context::{
    node_ok, well_formed, Graph, Id, LayoutContext, NodeShape, Placement,
};
pub use self::enums::{Layout, LayoutItem, LayoutResult, Turn};
pub use self::laws::{
    column_of, evenly_shared, in_column, lemma_fixed_column, lemma_growing_children_share,
    lemma_leaf_size, lemma_measure_keeps, lemma_pass_from_anywhere, lemma_run_keeps,
    lemma_second_pass_same, lemma_stack_fills, lemma_total_grows, taken, total,
};
pub use self::linear::{
    count_growing, growing, lemma_count_growing_bound, next_child, Direction, Linear,
    LinearItem, Step,
};
pub use self::pass::{
    lemma_next_child, lemma_placed_keeps, lemma_turn_from_rest, lemma_turn_keeps,
    lemma_turn_progress, measure, run, unmeasured, Pass, Request,
};
pub use self::stack::{Stack, StackItem};

verus! {

/// A way to lay out the children of a widget.
pub trait LayoutFunction {
    /// Whether the layout can take this many children.
    spec fn takes(&self, children: nat) -> bool;

    /// Runs the layout of a widget with these `children` under
    /// `constraints`, from the start where `child_size` is `None`, and
    /// otherwise from where it stopped, with the size of the child that it
    /// asked for. The context names the widget as the one whose layout is
    /// running.
    fn layout(
        &mut self,
        constraints: BoxConstraints,
        children: &[Id],
        child_size: Option<Dimensions>,
        context: &mut LayoutContext,
    ) -> (result: LayoutResult)
        requires
            old(self).takes(children@.len()),
            old(context).runs(children@),
        ensures
            final(self).takes(children@.len()),
            final(context).tree() == old(context).tree(),
            final(context).current() == old(context).current(),
            result matches LayoutResult::RequestChild(id, _) ==> children@.contains(id),
    ;
}

/// What the layout of a widget with at most one child answers: without a
/// child, the size zero checked against `c`; with one, a request for it
/// under `c`, and then the size that the child came to.
pub open spec fn single_result(
    c: BoxConstraints,
    children: Seq<Id>,
    answer: Option<Dimensions>,
) -> LayoutResult {
    match answer {
        Some(size) => LayoutResult::Size(size),
        None => if children.len() == 0 {
            LayoutResult::Size([c.checked_width(0), c.checked_height(0)])
        } else {
            LayoutResult::RequestChild(children[0], c)
        },
    }
}

impl LayoutFunction for () {
    open spec fn takes(&self, children: nat) -> bool {
        children <= 1
    }

    /// Hands the constraints on to the only child and takes its size; a
    /// widget without a child gets the size zero, checked against
    /// `constraints`.
    fn layout(
        &mut self,
        constraints: BoxConstraints,
        children: &[Id],
        child_size: Option<Dimensions>,
        context: &mut LayoutContext,
    ) -> (result: LayoutResult)
        ensures
            result == single_result(constraints, children@, child_size),
            final(context).places() == old(context).places(),
    {
        match child_size {
            Some(size) => LayoutResult::Size(size),
            None => if children.len() == 0 {
                LayoutResult::Size([constraints.check_width(0), constraints.check_height(0)])
            } else {
                LayoutResult::RequestChild(children[0], constraints)
            },
        }
    }
}

} // verus!
