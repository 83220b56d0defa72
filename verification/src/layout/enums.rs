//! The layouts and the layout items that a widget can carry.

use vstd::prelude::*;
use crate::layout::{
    single_result, BoxConstraints, Childless, Id, LayoutContext, LayoutFunction, Linear,
    LinearItem, NodeShape, Placement, Stack, StackItem, Step,
};
use crate::position::Dimensions;

verus! {

/// What a layout answers when it is run: its size, or the child that it
/// needs measured first.
#[derive(Debug, Clone, Copy, PartialEq, Eq)]
pub enum LayoutResult {
    /// The layout is done, with this size.
    Size(Dimensions),
    /// This child is to be measured under these constraints, and the layout
    /// run again with the size that comes out.
    RequestChild(Id, BoxConstraints),
}

/// One run of a layout: the layout as it is left, the placements as they are
/// left, and the answer.
pub struct Turn<L> {
    pub layout: L,
    pub places: Seq<Placement>,
    pub result: LayoutResult,
}

/// How a widget lays out its children.
#[derive(Debug, Clone, Copy, PartialEq, Eq, Structural)]
pub enum Layout {
    Stack(Stack),
    Linear(Linear),
    Childless(Childless),
    /// At most one child, which gets the constraints of its parent and
    /// gives the parent its size.
    Single,
    /// No layout: the size is zero and the children are left alone.
    Empty,
}

/// What a widget tells the layout of its parent.
#[derive(Debug, Clone, Copy, PartialEq, Eq, Structural)]
pub enum LayoutItem {
    Stack(StackItem),
    Linear(LinearItem),
    /// Nothing is said.
    Empty,
}

impl Default for Layout {
    fn default() -> (r: Self)
        ensures
            r == Layout::Empty,
    {
        Layout::Empty
    }
}

impl Default for LayoutItem {
    fn default() -> (r: Self)
        ensures
            r == LayoutItem::Empty,
    {
        LayoutItem::Empty
    }
}

impl LayoutItem {
    /// Whether a linear parent gives this child a share of what is left
    /// over instead of the size that the child asks for.
    pub open spec fn grows(self) -> bool {
        self matches LayoutItem::Linear(item) && item.grow
    }
}

impl Layout {
    /// The layout as it is before a pass, with nothing of a pass in it.
    pub open spec fn rested(self) -> Layout {
        match self {
            Layout::Stack(stack) => Layout::Stack(Stack { index: 0, ..stack }),
            Layout::Linear(linear) => Layout::Linear(Linear::fresh(linear.direction)),
            _ => self,
        }
    }

    /// Whether the layout can take this many children.
    pub open spec fn accepts(self, children: nat) -> bool {
        match self {
            Layout::Childless(_) => children == 0,
            Layout::Single => children <= 1,
            _ => true,
        }
    }

    /// One run of the layout of a widget with these `children` under `c`:
    /// from the start where `answer` is `None`, and otherwise from where it
    /// stopped, with the size of the child that it asked for.
    pub open spec fn turn(
        self,
        c: BoxConstraints,
        children: Seq<Id>,
        answer: Option<Dimensions>,
        tree: Seq<NodeShape>,
        places: Seq<Placement>,
    ) -> Turn<Layout> {
        match self {
            Layout::Stack(stack) => {
                let turn = stack.turn(c, children, answer, places);
                Turn {
                    layout: Layout::Stack(turn.layout),
                    places: turn.places,
                    result: turn.result,
                }
            },
            Layout::Linear(linear) => {
                let turn = linear.turn(c, children, answer, tree, places);
                Turn {
                    layout: Layout::Linear(turn.layout),
                    places: turn.places,
                    result: turn.result,
                }
            },
            Layout::Childless(childless) => Turn {
                layout: self,
                places,
                result: LayoutResult::Size(childless.size_under(c)),
            },
            Layout::Single => Turn {
                layout: self,
                places,
                result: single_result(c, children, answer),
            },
            Layout::Empty => Turn { layout: self, places, result: LayoutResult::Size([0, 0]) },
        }
    }

    /// A bound on the requests that a layout with `children` children can
    /// still make once it is run with `answer`.
    pub open spec fn fuel(self, children: nat, answer: Option<Dimensions>) -> nat {
        if answer is None {
            2 * children + 2
        } else {
            match self {
                Layout::Stack(stack) => if stack.index < children {
                    (children - stack.index) as nat
                } else {
                    0
                },
                Layout::Linear(linear) => {
                    let left = if linear.index < children {
                        (children - linear.index) as nat
                    } else {
                        0
                    };
                    match linear.step {
                        Step::SizeFixed => left + children + 1,
                        Step::SizeGrowing => left,
                        _ => 0,
                    }
                },
                _ => 0,
            }
        }
    }

    /// Runs the layout of a widget with these `children` under
    /// `constraints`: from the start where `child_size` is `None`, and
    /// otherwise from where it stopped, with the size of the child that it
    /// asked for. The answer is the size of the widget, or the next child to
    /// measure. The context names the widget as the one whose layout is
    /// running.
    pub fn layout(
        &mut self,
        constraints: BoxConstraints,
        children: &[Id],
        child_size: Option<Dimensions>,
        context: &mut LayoutContext,
    ) -> (result: LayoutResult)
        requires
            old(self).accepts(children@.len()),
            old(context).runs(children@),
        ensures
            final(context).tree() == old(context).tree(),
            final(context).current() == old(context).current(),
            (Turn { layout: *final(self), places: final(context).places(), result }) == old(
                self,
            ).turn(
                constraints,
                children@,
                child_size,
                old(context).tree(),
                old(context).places(),
            ),
    {
        match self {
            Layout::Stack(stack) => stack.layout(constraints, children, child_size, context),
            Layout::Linear(linear) => linear.layout(constraints, children, child_size, context),
            Layout::Childless(childless) => childless.layout(
                constraints,
                children,
                child_size,
                context,
            ),
            Layout::Single => {
                let mut single = ();
                single.layout(constraints, children, child_size, context)
            },
            Layout::Empty => LayoutResult::Size([0, 0]),
        }
    }
}

} // verus!
