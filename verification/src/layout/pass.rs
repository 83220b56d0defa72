//! What a pass over a widget and everything below it comes to.

use vstd::prelude::*;
use crate::layout::{
    growing, next_child, node_ok, well_formed, BoxConstraints, Direction, Id, Layout,
    LayoutResult, NodeShape, Placement,
};
use crate::position::{sum_of, Dimensions, Scalar};

verus! {

/// One child measured for its parent: the constraints that it was given and
/// the size that it came to.
pub struct Request {
    pub child: Id,
    pub constraints: BoxConstraints,
    pub size: Dimensions,
}

/// A pass over one widget: the placements that it leaves, the size of the
/// widget, and the children that it measured, in order.
pub struct Pass {
    pub places: Seq<Placement>,
    pub size: Dimensions,
    pub requests: Seq<Request>,
}

/// `places` with `children` marked as not measured.
pub open spec fn unmeasured(places: Seq<Placement>, children: Seq<Id>) -> Seq<Placement> {
    Seq::new(
        places.len(),
        |j: int|
            if children.contains(j as Id) {
                Placement { measured: false, ..places[j] }
            } else {
                places[j]
            },
    )
}

/// `next_child` gives a place from `from` on, and what lies there is what
/// was looked for.
pub proof fn lemma_next_child(grows: Seq<bool>, from: int, want: bool)
    requires
        0 <= from,
    ensures
        next_child(grows, from, want) <= grows.len(),
        from <= grows.len() ==> from <= next_child(grows, from, want),
        next_child(grows, from, want) < grows.len() ==> grows[next_child(grows, from, want)]
            == want,
    decreases grows.len() - from,
{
    if from < grows.len() && grows[from] != want {
        lemma_next_child(grows, from + 1, want);
    }
}

/// A layout that asks for a child asks for one of `children`, and has less
/// fuel left than it had.
pub proof fn lemma_turn_progress(
    layout: Layout,
    c: BoxConstraints,
    children: Seq<Id>,
    answer: Option<Dimensions>,
    tree: Seq<NodeShape>,
    places: Seq<Placement>,
)
    requires
        children.len() <= usize::MAX,
    ensures
        ({
            let turn = layout.turn(c, children, answer, tree, places);
            turn.result matches LayoutResult::RequestChild(child, _) ==> {
                &&& children.contains(child)
                &&& forall|size: Dimensions|
                    #![trigger turn.layout.fuel(children.len(), Some(size))]
                    turn.layout.fuel(children.len(), Some(size)) < layout.fuel(
                        children.len(),
                        answer,
                    )
            }
        }),
{
    let turn = layout.turn(c, children, answer, tree, places);
    if let LayoutResult::RequestChild(child, _) = turn.result {
        match layout {
            Layout::Linear(linear) => {
                let now = linear.taken_in(answer);
                let grows = growing(tree, children);
                lemma_next_child(grows, now.index as int, false);
                lemma_next_child(grows, now.index as int, true);
                lemma_next_child(grows, 0, true);
                let fixed = next_child(grows, now.index as int, false);
                let shared = next_child(grows, now.index as int, true);
                let first = next_child(grows, 0, true);
                assert(child == children[fixed] || child == children[shared] || child
                    == children[first]);
            },
            Layout::Stack(stack) => {
                let index = if answer is None {
                    0
                } else {
                    stack.index as int
                };
                assert(children[index] == child);
            },
            Layout::Single => {
                assert(children[0] == child);
            },
            _ => {},
        }
    }
}

/// Placing children changes no size and no mark, and leaves as many
/// placements as there were.
pub proof fn lemma_placed_keeps(
    direction: Direction,
    places: Seq<Placement>,
    children: Seq<Id>,
    i: int,
    offset: Scalar,
)
    requires
        forall|k: int| 0 <= k < children.len() ==> 0 <= #[trigger] children[k] < places.len(),
    ensures
        direction.placed(places, children, i, offset).0.len() == places.len(),
        forall|j: int|
            0 <= j < places.len() ==> (#[trigger] direction.placed(
                places,
                children,
                i,
                offset,
            ).0[j]).size == places[j].size && direction.placed(
                places,
                children,
                i,
                offset,
            ).0[j].measured == places[j].measured,
    decreases children.len() - i,
{
    if 0 <= i < children.len() {
        let child = children[i] as int;
        let next = places.update(
            child,
            Placement { position: direction.point_at(offset), ..places[child] },
        );
        lemma_placed_keeps(
            direction,
            next,
            children,
            i + 1,
            direction.behind(offset, places[child]),
        );
    }
}

/// One run of a layout leaves the layout what it is apart from the pass in
/// it, changes no size and no mark, and leaves as many placements as there
/// were.
pub proof fn lemma_turn_keeps(
    layout: Layout,
    c: BoxConstraints,
    children: Seq<Id>,
    answer: Option<Dimensions>,
    tree: Seq<NodeShape>,
    places: Seq<Placement>,
)
    requires
        forall|k: int| 0 <= k < children.len() ==> 0 <= #[trigger] children[k] < places.len(),
    ensures
        ({
            let turn = layout.turn(c, children, answer, tree, places);
            &&& turn.layout.rested() == layout.rested()
            &&& turn.places.len() == places.len()
            &&& forall|j: int|
                0 <= j < places.len() ==> (#[trigger] turn.places[j]).size == places[j].size
                    && turn.places[j].measured == places[j].measured
        }),
{
    if let Layout::Linear(linear) = layout {
        lemma_placed_keeps(linear.direction, places, children, 0, 0);
    }
}

/// A pass from the start does not depend on what an earlier pass left in
/// the layout.
pub proof fn lemma_turn_from_rest(
    layout: Layout,
    c: BoxConstraints,
    children: Seq<Id>,
    tree: Seq<NodeShape>,
    places: Seq<Placement>,
)
    ensures
        layout.turn(c, children, None, tree, places) == layout.rested().turn(
            c,
            children,
            None,
            tree,
            places,
        ),
{
}

/// The pass over the widget `id` from where its layout stands: the layout is
/// run with `answer`; where it asks for a child, the child is measured and
/// the layout run again with the child's size; where it gives the size, the
/// widget gets it.
pub open spec fn run(
    tree: Seq<NodeShape>,
    places: Seq<Placement>,
    id: Id,
    c: BoxConstraints,
    layout: Layout,
    answer: Option<Dimensions>,
) -> Pass
    decreases tree.len() - id, 0nat, layout.fuel(tree[id as int].children.len(), answer),
    when well_formed(tree) && id < tree.len()
{
    let children = tree[id as int].children;
    let turn = layout.turn(c, children, answer, tree, places);
    match turn.result {
        LayoutResult::Size(size) => Pass {
            places: turn.places.update(
                id as int,
                Placement { position: turn.places[id as int].position, size, measured: true },
            ),
            size,
            requests: Seq::empty(),
        },
        LayoutResult::RequestChild(child, bounds) => {
            proof {
                assert(node_ok(tree, id as int));
                lemma_turn_progress(layout, c, children, answer, tree, places);
            }
            let inner = measure(tree, turn.places, child, bounds);
            let rest = run(tree, inner.places, id, c, turn.layout, Some(inner.size));
            Pass {
                places: rest.places,
                size: rest.size,
                requests: seq![Request { child, constraints: bounds, size: inner.size }]
                    + rest.requests,
            }
        },
    }
}

/// The pass over the widget `id` under `c`: its children count as not
/// measured, and its layout is run from the start.
pub open spec fn measure(
    tree: Seq<NodeShape>,
    places: Seq<Placement>,
    id: Id,
    c: BoxConstraints,
) -> Pass
    decreases tree.len() - id, 1nat, 0nat,
    when well_formed(tree) && id < tree.len()
{
    run(tree, unmeasured(places, tree[id as int].children), id, c, tree[id as int].layout, None)
}

} // verus!
