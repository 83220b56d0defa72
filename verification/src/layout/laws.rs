//! What holds of every pass.

use vstd::prelude::*;
use crate::layout::{
    count_growing, growing, lemma_count_growing_bound, lemma_next_child, lemma_placed_keeps,
    lemma_turn_keeps, lemma_turn_progress, measure, next_child, node_ok, run, unmeasured,
    well_formed, BoxConstraints, Childless, Direction, Id, Layout, LayoutResult, Linear,
    NodeShape, Placement, Request, Stack, Step, Turn,
};
use crate::position::{sum_of, Dimensions, Scalar};

verus! {

/// A pass from where a layout stands leaves as many placements as there
/// were.
pub proof fn lemma_run_keeps(
    tree: Seq<NodeShape>,
    places: Seq<Placement>,
    id: Id,
    c: BoxConstraints,
    layout: Layout,
    answer: Option<Dimensions>,
)
    requires
        well_formed(tree),
        id < tree.len(),
        places.len() == tree.len(),
    ensures
        run(tree, places, id, c, layout, answer).places.len() == places.len(),
    decreases tree.len() - id, 0nat, layout.fuel(tree[id as int].children.len(), answer),
{
    let children = tree[id as int].children;
    let turn = layout.turn(c, children, answer, tree, places);
    assert(node_ok(tree, id as int));
    lemma_turn_keeps(layout, c, children, answer, tree, places);
    lemma_turn_progress(layout, c, children, answer, tree, places);
    if let LayoutResult::RequestChild(child, bounds) = turn.result {
        let k = choose|k: int| 0 <= k < children.len() && children[k] == child;
        assert(id < children[k] < tree.len());
        lemma_measure_keeps(tree, turn.places, child, bounds);
        let inner = measure(tree, turn.places, child, bounds);
        lemma_run_keeps(tree, inner.places, id, c, turn.layout, Some(inner.size));
    }
}

/// A pass over a widget leaves as many placements as there were.
pub proof fn lemma_measure_keeps(
    tree: Seq<NodeShape>,
    places: Seq<Placement>,
    id: Id,
    c: BoxConstraints,
)
    requires
        well_formed(tree),
        id < tree.len(),
        places.len() == tree.len(),
    ensures
        measure(tree, places, id, c).places.len() == places.len(),
    decreases tree.len() - id, 1nat, 0nat,
{
    lemma_run_keeps(
        tree,
        unmeasured(places, tree[id as int].children),
        id,
        c,
        tree[id as int].layout,
        None,
    );
}

/// A leaf: in a graph that the layouts can be run on, a widget with a size
/// of its own has no children; a pass over it asks for nothing, gives it
/// its own size with each extent brought up to its lower bound, and
/// changes nothing else.
pub proof fn lemma_leaf_size(
    tree: Seq<NodeShape>,
    places: Seq<Placement>,
    id: Id,
    c: BoxConstraints,
)
    requires
        well_formed(tree),
        id < tree.len(),
        places.len() == tree.len(),
        tree[id as int].layout is Childless,
    ensures
        ({
            let leaf = tree[id as int].layout->Childless_0;
            let pass = measure(tree, places, id, c);
            &&& tree[id as int].children.len() == 0
            &&& pass.size == leaf.size_under(c)
            &&& pass.requests.len() == 0
            &&& pass.places == places.update(
                id as int,
                Placement {
                    position: places[id as int].position,
                    size: leaf.size_under(c),
                    measured: true,
                },
            )
        }),
{
    assert(node_ok(tree, id as int));
    assert(unmeasured(places, tree[id as int].children) =~= places);
}

/// From where a stack stands, each child that is left is measured once, in
/// order and under the constraints pinned to their upper bounds, and the
/// size is the upper bounds of the constraints.
proof fn lemma_stack_run(
    tree: Seq<NodeShape>,
    places: Seq<Placement>,
    id: Id,
    c: BoxConstraints,
    stack: Stack,
    answer: Option<Dimensions>,
)
    requires
        well_formed(tree),
        id < tree.len(),
        places.len() == tree.len(),
        answer is Some ==> stack.index <= tree[id as int].children.len(),
    ensures
        ({
            let pass = run(tree, places, id, c, Layout::Stack(stack), answer);
            let children = tree[id as int].children;
            let from = if answer is None {
                0
            } else {
                stack.index as int
            };
            &&& pass.size == [c.max_width, c.max_height]
            &&& pass.requests.len() == children.len() - from
            &&& forall|k: int|
                0 <= k < pass.requests.len() ==> (#[trigger] pass.requests[k]).child
                    == children[from + k] && pass.requests[k].constraints == c.grown()
        }),
    decreases
            tree.len() - id,
            0nat,
            Layout::Stack(stack).fuel(tree[id as int].children.len(), answer),
{
    let layout = Layout::Stack(stack);
    let children = tree[id as int].children;
    let turn = layout.turn(c, children, answer, tree, places);
    assert(node_ok(tree, id as int));
    lemma_turn_progress(layout, c, children, answer, tree, places);
    if let LayoutResult::RequestChild(child, bounds) = turn.result {
        let k = choose|k: int| 0 <= k < children.len() && children[k] == child;
        assert(id < children[k] < tree.len());
        lemma_measure_keeps(tree, turn.places, child, bounds);
        let inner = measure(tree, turn.places, child, bounds);
        let next = turn.layout->Stack_0;
        lemma_stack_run(tree, inner.places, id, c, next, Some(inner.size));
    }
}

/// A stack measures each of its children once, in order, each under the
/// constraints pinned to their upper bounds, and its own size is the upper
/// bounds of its constraints, whatever the children are.
pub proof fn lemma_stack_fills(
    tree: Seq<NodeShape>,
    places: Seq<Placement>,
    id: Id,
    c: BoxConstraints,
)
    requires
        well_formed(tree),
        id < tree.len(),
        places.len() == tree.len(),
        tree[id as int].layout is Stack,
    ensures
        ({
            let pass = measure(tree, places, id, c);
            let children = tree[id as int].children;
            &&& pass.size == [c.max_width, c.max_height]
            &&& pass.requests.len() == children.len()
            &&& forall|k: int|
                0 <= k < children.len() ==> (#[trigger] pass.requests[k]).child == children[k]
                    && pass.requests[k].constraints == c.grown()
        }),
{
    lemma_stack_run(
        tree,
        unmeasured(places, tree[id as int].children),
        id,
        c,
        tree[id as int].layout->Stack_0,
        None,
    );
}

/// Whether two runs of the same steps, one from `a` to `a_then` and one
/// from `b` to `b_then`, treated the widget `j` alike. Its position is the
/// same after both, or left alone by both. Its size and its mark are the
/// same after both, or left alone by both, or the size is left alone and the
/// widget is marked as not measured by both.
spec fn alike(
    a: Seq<Placement>,
    b: Seq<Placement>,
    a_then: Seq<Placement>,
    b_then: Seq<Placement>,
    j: int,
) -> bool {
    &&& {
        ||| a_then[j].position == b_then[j].position
        ||| a_then[j].position == a[j].position && b_then[j].position == b[j].position
    }
    &&& {
        ||| a_then[j].size == b_then[j].size && a_then[j].measured == b_then[j].measured
        ||| {
            &&& a_then[j].size == a[j].size
            &&& b_then[j].size == b[j].size
            &&& a_then[j].measured == a[j].measured
            &&& b_then[j].measured == b[j].measured
        }
        ||| {
            &&& a_then[j].size == a[j].size
            &&& b_then[j].size == b[j].size
            &&& !a_then[j].measured
            &&& !b_then[j].measured
        }
    }
}

/// Whether `a` and `b` know the same sizes of `children`.
spec fn same_sizes(a: Seq<Placement>, b: Seq<Placement>, children: Seq<Id>) -> bool {
    forall|k: int|
        0 <= k < children.len() ==> a[#[trigger] children[k] as int].known()
            == b[children[k] as int].known()
}

/// Placing children whose sizes are the same in `a` and in `b` treats
/// every widget alike and ends at the same offset.
proof fn lemma_placed_twin(
    direction: Direction,
    a: Seq<Placement>,
    b: Seq<Placement>,
    children: Seq<Id>,
    i: int,
    offset: Scalar,
)
    requires
        a.len() == b.len(),
        forall|k: int| 0 <= k < children.len() ==> 0 <= #[trigger] children[k] < a.len(),
        same_sizes(a, b, children),
    ensures
        direction.placed(a, children, i, offset).1 == direction.placed(b, children, i, offset).1,
        direction.placed(a, children, i, offset).0.len() == a.len(),
        direction.placed(b, children, i, offset).0.len() == a.len(),
        forall|j: int|
            0 <= j < a.len() ==> #[trigger] alike(
                a,
                b,
                direction.placed(a, children, i, offset).0,
                direction.placed(b, children, i, offset).0,
                j,
            ),
    decreases children.len() - i,
{
    lemma_placed_keeps(direction, a, children, i, offset);
    lemma_placed_keeps(direction, b, children, i, offset);
    if 0 <= i < children.len() {
        let child = children[i] as int;
        assert(a[child].known() == b[child].known());
        let a_put = a.update(child, Placement { position: direction.point_at(offset), ..a[child] });
        let b_put = b.update(child, Placement { position: direction.point_at(offset), ..b[child] });
        let next = direction.behind(offset, a[child]);
        assert(same_sizes(a_put, b_put, children)) by {
            assert forall|k: int| 0 <= k < children.len() implies
                a_put[#[trigger] children[k] as int].known()
                == b_put[children[k] as int].known() by {
                assert(a[children[k] as int].known() == b[children[k] as int].known());
            }
        }
        lemma_placed_twin(direction, a_put, b_put, children, i + 1, next);
        let a_then = direction.placed(a, children, i, offset).0;
        let b_then = direction.placed(b, children, i, offset).0;
        assert forall|j: int| 0 <= j < a.len() implies
            #[trigger] alike(a, b, a_then, b_then, j) by {
            assert(alike(a_put, b_put, a_then, b_then, j));
        }
    }
}

/// One run of a layout on `a` and on `b`, which give the same sizes to the
/// children, leaves the same layout, gives the same answer, and treats
/// every widget alike.
proof fn lemma_turn_twin(
    layout: Layout,
    c: BoxConstraints,
    children: Seq<Id>,
    answer: Option<Dimensions>,
    tree: Seq<NodeShape>,
    a: Seq<Placement>,
    b: Seq<Placement>,
)
    requires
        a.len() == b.len(),
        forall|k: int| 0 <= k < children.len() ==> 0 <= #[trigger] children[k] < a.len(),
        same_sizes(a, b, children),
    ensures
        ({
            let a_turn = layout.turn(c, children, answer, tree, a);
            let b_turn = layout.turn(c, children, answer, tree, b);
            &&& a_turn.layout == b_turn.layout
            &&& a_turn.result == b_turn.result
            &&& a_turn.places.len() == a.len()
            &&& b_turn.places.len() == a.len()
            &&& same_sizes(a_turn.places, b_turn.places, children)
            &&& forall|j: int|
                0 <= j < a.len() ==> #[trigger] alike(a, b, a_turn.places, b_turn.places, j)
        }),
{
    let a_turn = layout.turn(c, children, answer, tree, a);
    let b_turn = layout.turn(c, children, answer, tree, b);
    lemma_turn_keeps(layout, c, children, answer, tree, a);
    lemma_turn_keeps(layout, c, children, answer, tree, b);
    if let Layout::Linear(linear) = layout {
        lemma_placed_twin(linear.direction, a, b, children, 0, 0);
    }
    assert forall|k: int| 0 <= k < children.len() implies
        a_turn.places[#[trigger] children[k] as int].known()
        == b_turn.places[children[k] as int].known() by {
        assert(a[children[k] as int].known() == b[children[k] as int].known());
    }
}

/// Two runs treat a widget alike where each of their two halves does.
proof fn lemma_alike_chain(
    a: Seq<Placement>,
    b: Seq<Placement>,
    a_mid: Seq<Placement>,
    b_mid: Seq<Placement>,
    a_then: Seq<Placement>,
    b_then: Seq<Placement>,
    j: int,
)
    requires
        alike(a, b, a_mid, b_mid, j),
        alike(a_mid, b_mid, a_then, b_then, j),
    ensures
        alike(a, b, a_then, b_then, j),
{
}

/// A pass from where a layout stands comes to the same size and the same
/// requests on `a` and on `b`, which give the same sizes to the children of
/// the widget, and treats every widget alike.
proof fn lemma_run_twin(
    tree: Seq<NodeShape>,
    a: Seq<Placement>,
    b: Seq<Placement>,
    id: Id,
    c: BoxConstraints,
    layout: Layout,
    answer: Option<Dimensions>,
)
    requires
        well_formed(tree),
        id < tree.len(),
        a.len() == tree.len(),
        b.len() == tree.len(),
        same_sizes(a, b, tree[id as int].children),
    ensures
        run(tree, a, id, c, layout, answer).size == run(tree, b, id, c, layout, answer).size,
        run(tree, a, id, c, layout, answer).requests == run(
            tree,
            b,
            id,
            c,
            layout,
            answer,
        ).requests,
        forall|j: int|
            0 <= j < tree.len() ==> #[trigger] alike(
                a,
                b,
                run(tree, a, id, c, layout, answer).places,
                run(tree, b, id, c, layout, answer).places,
                j,
            ),
    decreases tree.len() - id, 0nat, layout.fuel(tree[id as int].children.len(), answer),
{
    let children = tree[id as int].children;
    let a_turn = layout.turn(c, children, answer, tree, a);
    let b_turn = layout.turn(c, children, answer, tree, b);
    let a_then = run(tree, a, id, c, layout, answer).places;
    let b_then = run(tree, b, id, c, layout, answer).places;
    assert(node_ok(tree, id as int));
    lemma_turn_twin(layout, c, children, answer, tree, a, b);
    lemma_turn_progress(layout, c, children, answer, tree, a);
    match a_turn.result {
        LayoutResult::Size(size) => {
            assert forall|j: int| 0 <= j < tree.len() implies #[trigger] alike(
                a,
                b,
                a_then,
                b_then,
                j,
            ) by {
                assert(alike(a, b, a_turn.places, b_turn.places, j));
                assert(alike(a_turn.places, b_turn.places, a_then, b_then, j));
            }
        },
        LayoutResult::RequestChild(child, bounds) => {
            let k = choose|k: int| 0 <= k < children.len() && children[k] == child;
            assert(id < children[k] < tree.len());
            let a_inner = measure(tree, a_turn.places, child, bounds);
            let b_inner = measure(tree, b_turn.places, child, bounds);
            lemma_measure_twin(tree, a_turn.places, b_turn.places, child, bounds);
            lemma_measure_keeps(tree, a_turn.places, child, bounds);
            lemma_measure_keeps(tree, b_turn.places, child, bounds);
            assert(same_sizes(a_inner.places, b_inner.places, children)) by {
                assert forall|k: int| 0 <= k < children.len() implies
                    a_inner.places[#[trigger] children[k] as int].known()
                    == b_inner.places[children[k] as int].known() by {
                    let j = children[k] as int;
                    assert(a_turn.places[j].known() == b_turn.places[j].known());
                    assert(alike(a_turn.places, b_turn.places, a_inner.places, b_inner.places, j));
                }
            }
            lemma_run_twin(
                tree,
                a_inner.places,
                b_inner.places,
                id,
                c,
                a_turn.layout,
                Some(a_inner.size),
            );
            assert forall|j: int| 0 <= j < tree.len() implies #[trigger] alike(
                a,
                b,
                a_then,
                b_then,
                j,
            ) by {
                assert(alike(a, b, a_turn.places, b_turn.places, j));
                assert(alike(a_turn.places, b_turn.places, a_inner.places, b_inner.places, j));
                assert(alike(a_inner.places, b_inner.places, a_then, b_then, j));
            }
        },
    }
}

/// A pass over a widget comes to the same size and the same requests
/// whatever the placements were before, and treats every widget alike.
proof fn lemma_measure_twin(
    tree: Seq<NodeShape>,
    a: Seq<Placement>,
    b: Seq<Placement>,
    id: Id,
    c: BoxConstraints,
)
    requires
        well_formed(tree),
        id < tree.len(),
        a.len() == tree.len(),
        b.len() == tree.len(),
    ensures
        measure(tree, a, id, c).size == measure(tree, b, id, c).size,
        measure(tree, a, id, c).requests == measure(tree, b, id, c).requests,
        forall|j: int|
            0 <= j < tree.len() ==> #[trigger] alike(
                a,
                b,
                measure(tree, a, id, c).places,
                measure(tree, b, id, c).places,
                j,
            ),
    decreases tree.len() - id, 1nat, 0nat,
{
    let children = tree[id as int].children;
    let a_start = unmeasured(a, children);
    let b_start = unmeasured(b, children);
    assert(node_ok(tree, id as int));
    assert(same_sizes(a_start, b_start, children)) by {
        assert forall|k: int| 0 <= k < children.len() implies
            a_start[#[trigger] children[k] as int].known()
            == b_start[children[k] as int].known() by {
            assert(children.contains(children[k]));
        }
    }
    lemma_run_twin(tree, a_start, b_start, id, c, tree[id as int].layout, None);
    let a_then = measure(tree, a, id, c).places;
    let b_then = measure(tree, b, id, c).places;
    assert forall|j: int| 0 <= j < tree.len() implies #[trigger] alike(a, b, a_then, b_then, j) by {
        assert(alike(a, b, a_start, b_start, j));
        assert(alike(a_start, b_start, a_then, b_then, j));
    }
}

/// A pass depends on nothing that an earlier pass wrote: whatever the
/// placements were before, the widget comes to the same size and its
/// children are measured in the same way.
pub proof fn lemma_pass_from_anywhere(
    tree: Seq<NodeShape>,
    a: Seq<Placement>,
    b: Seq<Placement>,
    id: Id,
    c: BoxConstraints,
)
    requires
        well_formed(tree),
        id < tree.len(),
        a.len() == tree.len(),
        b.len() == tree.len(),
    ensures
        measure(tree, a, id, c).size == measure(tree, b, id, c).size,
        measure(tree, a, id, c).requests == measure(tree, b, id, c).requests,
{
    lemma_measure_twin(tree, a, b, id, c);
}

/// Running a pass again on what it left, under the same constraints,
/// changes nothing: every position and every size stays, and the widget
/// comes to the same size by the same requests.
pub proof fn lemma_second_pass_same(
    tree: Seq<NodeShape>,
    places: Seq<Placement>,
    id: Id,
    c: BoxConstraints,
)
    requires
        well_formed(tree),
        id < tree.len(),
        places.len() == tree.len(),
    ensures
        measure(tree, measure(tree, places, id, c).places, id, c) == measure(tree, places, id, c),
{
    let first = measure(tree, places, id, c);
    lemma_measure_keeps(tree, places, id, c);
    let second = measure(tree, first.places, id, c);
    lemma_measure_keeps(tree, first.places, id, c);
    lemma_measure_twin(tree, places, first.places, id, c);
    assert forall|j: int| 0 <= j < tree.len() implies second.places[j] == first.places[j] by {
        assert(alike(places, first.places, first.places, second.places, j));
    }
    assert(second.places =~= first.places);
    assert(second.requests == first.requests);
    assert(second.size == first.size);
}

/// The length along `direction` that is taken once the children in
/// `requests` that do not grow have been added to `occupied`.
pub open spec fn taken(
    tree: Seq<NodeShape>,
    direction: Direction,
    requests: Seq<Request>,
    occupied: Scalar,
) -> Scalar
    decreases requests.len(),
{
    if requests.len() == 0 {
        occupied
    } else if tree[requests[0].child as int].item.grows() {
        taken(tree, direction, requests.skip(1), occupied)
    } else {
        taken(
            tree,
            direction,
            requests.skip(1),
            sum_of(occupied, direction.along(requests[0].size)),
        )
    }
}

/// Whether every request for a child that grows gives it exactly an even
/// share of what `occupied` leaves of the main axis, `growing` being the
/// number of children that grow.
pub open spec fn evenly_shared(
    tree: Seq<NodeShape>,
    direction: Direction,
    c: BoxConstraints,
    requests: Seq<Request>,
    occupied: Scalar,
    growing: nat,
) -> bool {
    forall|n: int|
        0 <= n < requests.len() && tree[(#[trigger] requests[n]).child as int].item.grows() ==> {
            &&& growing > 0
            &&& occupied < direction.limit(c)
            &&& requests[n].constraints == direction.shared(
                c,
                ((direction.limit(c) - occupied) / (growing as int)) as Scalar,
            )
        }
}

/// From where a linear layout stands in its first two steps, each child
/// that grows is asked for under an even share of what the children that
/// do not grow leave.
proof fn lemma_linear_share(
    tree: Seq<NodeShape>,
    places: Seq<Placement>,
    id: Id,
    c: BoxConstraints,
    linear: Linear,
    answer: Option<Dimensions>,
)
    requires
        well_formed(tree),
        id < tree.len(),
        places.len() == tree.len(),
        ({
            let now = linear.taken_in(answer);
            now.step is SizeFixed || (now.step is SizeGrowing && now.growing_children
                == count_growing(growing(tree, tree[id as int].children)))
        }),
    ensures
        ({
            let now = linear.taken_in(answer);
            let pass = run(tree, places, id, c, Layout::Linear(linear), answer);
            let occupied = taken(tree, linear.direction, pass.requests, now.occupied_length);
            &&& now.step is SizeGrowing ==> occupied == now.occupied_length
            &&& evenly_shared(
                tree,
                linear.direction,
                c,
                pass.requests,
                occupied,
                count_growing(growing(tree, tree[id as int].children)),
            )
        }),
    decreases
            tree.len() - id,
            0nat,
            Layout::Linear(linear).fuel(tree[id as int].children.len(), answer),
{
    let layout = Layout::Linear(linear);
    let direction = linear.direction;
    let children = tree[id as int].children;
    let grows = growing(tree, children);
    let count = count_growing(grows);
    let now = linear.taken_in(answer);
    let turn = layout.turn(c, children, answer, tree, places);
    let pass = run(tree, places, id, c, layout, answer);
    assert(node_ok(tree, id as int));
    lemma_count_growing_bound(grows);
    lemma_turn_progress(layout, c, children, answer, tree, places);
    lemma_next_child(grows, now.index as int, false);
    lemma_next_child(grows, now.index as int, true);
    lemma_next_child(grows, 0, true);
    if let LayoutResult::RequestChild(child, bounds) = turn.result {
        let k = choose|k: int| 0 <= k < children.len() && children[k] == child;
        assert(id < children[k] < tree.len());
        lemma_measure_keeps(tree, turn.places, child, bounds);
        let inner = measure(tree, turn.places, child, bounds);
        let next = turn.layout->Linear_0;
        let first = Request { child, constraints: bounds, size: inner.size };
        let rest = run(tree, inner.places, id, c, turn.layout, Some(inner.size));
        lemma_linear_share(tree, inner.places, id, c, next, Some(inner.size));
        let after = next.taken_in(Some(inner.size));
        assert(pass.requests == seq![first] + rest.requests);
        assert(pass.requests.skip(1) == rest.requests);
        assert(pass.requests[0] == first);
        let occupied = taken(tree, direction, pass.requests, now.occupied_length);
        let later = taken(tree, direction, rest.requests, after.occupied_length);
        assert(occupied == later);
        assert forall|n: int|
            0 <= n < pass.requests.len()
                && tree[(#[trigger] pass.requests[n]).child as int].item.grows() implies {
            &&& count > 0
            &&& occupied < direction.limit(c)
            &&& pass.requests[n].constraints == direction.shared(
                c,
                ((direction.limit(c) - occupied) / (count as int)) as Scalar,
            )
        } by {
            if n > 0 {
                assert(pass.requests[n] == rest.requests[n - 1]);
            }
        }
    } else {
        assert(pass.requests.len() == 0);
    }
}

/// The split of what is left: in a pass over a linear layout, each child
/// that grows is measured under constraints that give it, along the main
/// axis, exactly what the children that do not grow have left of the upper
/// bound, divided by the number of children that grow.
pub proof fn lemma_growing_children_share(
    tree: Seq<NodeShape>,
    places: Seq<Placement>,
    id: Id,
    c: BoxConstraints,
)
    requires
        well_formed(tree),
        id < tree.len(),
        places.len() == tree.len(),
        tree[id as int].layout is Linear,
    ensures
        ({
            let direction = tree[id as int].layout->Linear_0.direction;
            let requests = measure(tree, places, id, c).requests;
            evenly_shared(
                tree,
                direction,
                c,
                requests,
                taken(tree, direction, requests, 0),
                count_growing(growing(tree, tree[id as int].children)),
            )
        }),
{
    lemma_linear_share(
        tree,
        unmeasured(places, tree[id as int].children),
        id,
        c,
        tree[id as int].layout->Linear_0,
        None,
    );
}

/// The sum of the first `n` of `lengths`.
pub open spec fn total(lengths: Seq<Scalar>, n: int) -> int
    decreases n,
{
    if n <= 0 {
        0
    } else {
        total(lengths, n - 1) + lengths[n - 1]
    }
}

/// The sum of the first `n` lengths is no more than that of the first `m`,
/// for `n <= m`.
pub proof fn lemma_total_grows(lengths: Seq<Scalar>, n: int, m: int)
    requires
        0 <= n <= m,
    ensures
        0 <= total(lengths, n) <= total(lengths, m),
    decreases m,
{
    if n < m {
        lemma_total_grows(lengths, n, m - 1);
    } else if n > 0 {
        lemma_total_grows(lengths, n - 1, n - 1);
    }
}

/// Whether the children of the widget `id` are leaves without children of
/// their own that do not grow, all `width` wide and as high as `heights`
/// says.
pub open spec fn column_of(
    tree: Seq<NodeShape>,
    id: Id,
    width: Scalar,
    heights: Seq<Scalar>,
) -> bool {
    let children = tree[id as int].children;
    &&& children.len() == heights.len()
    &&& forall|k: int|
        0 <= k < children.len() ==> {
            &&& (#[trigger] tree[children[k] as int]).layout == Layout::Childless(
                Childless { width, height: heights[k] },
            )
            &&& !tree[children[k] as int].item.grows()
        }
}

/// The placement of a child of a column after a pass: at the left edge,
/// below the children before it; with its own size and measured, where the
/// height was not yet full when it was reached, and else as `before` has
/// it, and not measured.
pub open spec fn in_column(
    before: Placement,
    c: BoxConstraints,
    width: Scalar,
    heights: Seq<Scalar>,
    k: int,
) -> Placement {
    if total(heights, k) < c.max_height {
        Placement {
            position: [0, total(heights, k) as Scalar],
            size: [width, heights[k]],
            measured: true,
        }
    } else {
        Placement {
            position: [0, total(heights, k) as Scalar],
            size: before.size,
            measured: false,
        }
    }
}

/// The smaller of two numbers.
spec fn least(a: int, b: int) -> int {
    if a < b {
        a
    } else {
        b
    }
}

/// Placing the children of a column from the `i`th on, of which the first
/// `m` have been measured and the others have not, puts each of the first
/// `m` below the ones before it and the others behind the last of those,
/// and leaves every other widget as it is.
proof fn lemma_placed_column(
    places: Seq<Placement>,
    children: Seq<Id>,
    width: Scalar,
    heights: Seq<Scalar>,
    m: int,
    i: int,
)
    requires
        0 <= i <= children.len(),
        0 <= m <= children.len(),
        children.len() == heights.len(),
        children.no_duplicates(),
        total(heights, heights.len() as int) <= Scalar::MAX,
        forall|k: int| 0 <= k < children.len() ==> 0 <= #[trigger] children[k] < places.len(),
        forall|k: int|
            0 <= k < m ==> places[#[trigger] children[k] as int].known() == Some(
                [width, heights[k]],
            ),
        forall|k: int| m <= k < children.len() ==> !places[#[trigger] children[k] as int].measured,
    ensures
        ({
            let placed = Direction::Vertical.placed(
                places,
                children,
                i,
                total(heights, least(i, m)) as Scalar,
            );
            &&& placed.1 == total(heights, m)
            &&& placed.0.len() == places.len()
            &&& forall|k: int|
                i <= k < children.len() ==> placed.0[#[trigger] children[k] as int] == (Placement {
                    position: [0, total(heights, least(k, m)) as Scalar],
                    ..places[children[k] as int]
                })
            &&& forall|j: int|
                0 <= j < places.len() && (forall|k: int|
                    i <= k < children.len() ==> #[trigger] children[k] != j)
                    ==> #[trigger] placed.0[j] == places[j]
        }),
    decreases children.len() - i,
{
    let n = children.len() as int;
    let from = least(i, m);
    let offset = total(heights, from) as Scalar;
    lemma_total_grows(heights, from, n);
    lemma_placed_keeps(Direction::Vertical, places, children, i, offset);
    if i < n {
        let child = children[i] as int;
        let put = places.update(
            child,
            Placement { position: Direction::Vertical.point_at(offset), ..places[child] },
        );
        let next = Direction::Vertical.behind(offset, places[child]);
        let then = least(i + 1, m);
        lemma_total_grows(heights, then, n);
        if i < m {
            assert(places[children[i] as int].known() == Some([width, heights[i]]));
            assert(total(heights, i + 1) == total(heights, i) + heights[i]);
        } else {
            assert(!places[children[i] as int].measured);
        }
        assert(next == total(heights, then));
        assert forall|k: int| 0 <= k < m implies put[#[trigger] children[k] as int].known() == Some(
            [width, heights[k]],
        ) by {
            assert(places[children[k] as int].known() == Some([width, heights[k]]));
        }
        assert forall|k: int| m <= k < children.len() implies
            !put[#[trigger] children[k] as int].measured by {
            assert(!places[children[k] as int].measured);
        }
        lemma_placed_column(put, children, width, heights, m, i + 1);
        let placed = Direction::Vertical.placed(places, children, i, offset);
        assert(placed == Direction::Vertical.placed(
            put,
            children,
            i + 1,
            total(heights, then) as Scalar,
        ));
        assert forall|k: int| i <= k < children.len() implies
            placed.0[#[trigger] children[k] as int]
            == (Placement {
            position: [0, total(heights, least(k, m)) as Scalar],
            ..places[children[k] as int]
        }) by {
            if k == i {
                assert forall|l: int| i + 1 <= l < children.len() implies #[trigger] children[l]
                    != child by {
                    assert(children[l] != children[i]);
                }
                assert(placed.0[child] == put[child]);
            } else {
                assert(children[k] != children[i]);
                assert(put[children[k] as int] == places[children[k] as int]);
            }
        }
        assert forall|j: int|
            0 <= j < places.len() && (forall|k: int|
                i <= k < children.len() ==> #[trigger] children[k] != j) implies
            #[trigger] placed.0[j] == places[j] by {
            assert(children[i] != j);
            assert forall|k: int| i + 1 <= k < children.len() implies #[trigger] children[k]
                != j by {}
            assert(placed.0[j] == put[j]);
        }
    }
}

/// From where a vertical layout stands with the first `i` children of a
/// column measured, the pass comes to the width of the column and the sum of
/// the heights, and puts each child below the ones before it; it measures
/// the children that are reached before the height is full.
proof fn lemma_column_run(
    tree: Seq<NodeShape>,
    places: Seq<Placement>,
    id: Id,
    c: BoxConstraints,
    linear: Linear,
    answer: Option<Dimensions>,
    width: Scalar,
    heights: Seq<Scalar>,
    i: int,
)
    requires
        well_formed(tree),
        id < tree.len(),
        places.len() == tree.len(),
        column_of(tree, id, width, heights),
        0 <= i <= heights.len(),
        total(heights, heights.len() as int) <= c.max_height,
        ({
            let now = linear.taken_in(answer);
            &&& now.direction is Vertical
            &&& now.step is SizeFixed
            &&& now.index == i
            &&& now.occupied_length == total(heights, i)
            &&& now.widest_child == if i == 0 {
                0
            } else {
                width
            }
        }),
        forall|k: int| 0 <= k < i ==> #[trigger] total(heights, k) < c.max_height,
        forall|k: int|
            0 <= k < i ==> places[#[trigger] tree[id as int].children[k] as int].known() == Some(
                [width, heights[k]],
            ),
        forall|k: int|
            i <= k < heights.len()
                ==> !places[#[trigger] tree[id as int].children[k] as int].measured,
    ensures
        ({
            let pass = run(tree, places, id, c, Layout::Linear(linear), answer);
            let children = tree[id as int].children;
            &&& pass.size == [
                c.checked_width(
                    if heights.len() == 0 || c.max_height == 0 {
                        0
                    } else {
                        width
                    },
                ),
                c.checked_height(total(heights, heights.len() as int) as Scalar),
            ]
            &&& forall|k: int|
                0 <= k < children.len() ==> pass.places[#[trigger] children[k] as int]
                    == in_column(places[children[k] as int], c, width, heights, k)
        }),
    decreases heights.len() - i,
{
    let layout = Layout::Linear(linear);
    let children = tree[id as int].children;
    let n = children.len() as int;
    let grows = growing(tree, children);
    let now = linear.taken_in(answer);
    let turn = layout.turn(c, children, answer, tree, places);
    let pass = run(tree, places, id, c, layout, answer);
    assert(node_ok(tree, id as int));
    lemma_total_grows(heights, i, n);
    lemma_total_grows(heights, 0, i);
    lemma_turn_progress(layout, c, children, answer, tree, places);
    assert forall|k: int| 0 <= k < n implies !#[trigger] grows[k] by {
        assert(!tree[children[k] as int].item.grows());
    }
    if i < n && total(heights, i) < c.max_height {
        assert(next_child(grows, i, false) == i);
        let child = children[i];
        let bounds = now.fixed_bounds(c);
        assert(turn.result == LayoutResult::RequestChild(child, bounds));
        assert(id < children[i] < tree.len());
        assert(node_ok(tree, child as int));
        let leaf = tree[child as int];
        assert(leaf.layout == Layout::Childless(Childless { width, height: heights[i] }));
        assert(leaf.children.len() == 0);
        assert(unmeasured(turn.places, leaf.children) =~= turn.places);
        let inner = measure(tree, turn.places, child, bounds);
        let size: Dimensions = [width, heights[i]];
        assert(inner.size == size);
        assert(inner.places == places.update(
            child as int,
            Placement { position: places[child as int].position, size, measured: true },
        ));
        let next = turn.layout->Linear_0;
        lemma_total_grows(heights, i + 1, n);
        assert(total(heights, i + 1) == total(heights, i) + heights[i]);
        assert forall|k: int| 0 <= k < i + 1 implies
            inner.places[#[trigger] children[k] as int].known()
            == Some([width, heights[k]]) by {
            if k < i {
                assert(places[children[k] as int].known() == Some([width, heights[k]]));
                assert(children[k] != children[i]);
            }
        }
        assert forall|k: int| i + 1 <= k < n implies
            !inner.places[#[trigger] children[k] as int].measured by {
            assert(!places[children[k] as int].measured);
            assert(children[k] != children[i]);
        }
        assert forall|k: int| 0 <= k < i + 1 implies #[trigger] total(heights, k)
            < c.max_height by {}
        lemma_column_run(tree, inner.places, id, c, next, Some(inner.size), width, heights, i + 1);
        assert forall|k: int| 0 <= k < children.len() implies
            pass.places[#[trigger] children[k] as int]
            == in_column(places[children[k] as int], c, width, heights, k) by {
            assert(pass.places[children[k] as int] == in_column(
                inner.places[children[k] as int],
                c,
                width,
                heights,
                k,
            ));
            if k == i {
            } else {
                assert(children[k] != children[i]);
            }
        }
    } else {
        if i == n {
            lemma_count_all_fixed(grows);
            assert(next_child(grows, i, false) == n);
        }
        let end = if now.occupied_length >= now.limit(c) {
            now
        } else {
            Linear { step: Step::SizeGrowing, index: 0, growing_children: 0, ..now }
        };
        assert(turn == Turn {
            layout: Layout::Linear(end.finish(c, children, places).layout),
            places: end.finish(c, children, places).places,
            result: end.finish(c, children, places).result,
        });
        lemma_placed_column(places, children, width, heights, i, 0);
        let placed = Direction::Vertical.placed(places, children, 0, 0);
        assert(placed.1 == total(heights, i));
        assert(total(heights, i) == total(heights, n));
        assert forall|k: int| 0 <= k < children.len() implies
            pass.places[#[trigger] children[k] as int]
            == in_column(places[children[k] as int], c, width, heights, k) by {
            assert(id < children[k]);
            assert(placed.0[children[k] as int] == (Placement {
                position: [0, total(heights, least(k, i)) as Scalar],
                ..places[children[k] as int]
            }));
            if k < i {
                assert(total(heights, k) < c.max_height);
                assert(places[children[k] as int].known() == Some([width, heights[k]]));
            } else {
                lemma_total_grows(heights, i, k);
                lemma_total_grows(heights, k, n);
                assert(!places[children[k] as int].measured);
            }
        }
    }
}

/// Where nothing grows, the count of what grows is zero.
proof fn lemma_count_all_fixed(grows: Seq<bool>)
    requires
        forall|k: int| 0 <= k < grows.len() ==> !#[trigger] grows[k],
    ensures
        count_growing(grows) == 0,
    decreases grows.len(),
{
    if grows.len() > 0 {
        lemma_count_all_fixed(grows.drop_last());
    }
}

/// A column: a vertical layout whose children are leaves of one width that
/// do not grow, with heights that sum to no more than the height allowed.
///
/// In a pass every child is put at the left edge, below the children before
/// it. The layout comes to the sum of the heights and, unless it has no
/// child or no height is allowed at all, to the width of its children, each
/// brought up to its lower bound. A child is measured, to its own size,
/// where the height was not yet full when it was reached; a child reached
/// later keeps the size that it had, and takes no room.
pub proof fn lemma_fixed_column(
    tree: Seq<NodeShape>,
    places: Seq<Placement>,
    id: Id,
    c: BoxConstraints,
    width: Scalar,
    heights: Seq<Scalar>,
)
    requires
        well_formed(tree),
        id < tree.len(),
        places.len() == tree.len(),
        tree[id as int].layout matches Layout::Linear(linear) && linear.direction is Vertical,
        column_of(tree, id, width, heights),
        total(heights, heights.len() as int) <= c.max_height,
    ensures
        ({
            let pass = measure(tree, places, id, c);
            let children = tree[id as int].children;
            &&& pass.size == [
                c.checked_width(
                    if heights.len() == 0 || c.max_height == 0 {
                        0
                    } else {
                        width
                    },
                ),
                c.checked_height(total(heights, heights.len() as int) as Scalar),
            ]
            &&& forall|k: int|
                0 <= k < children.len() ==> pass.places[#[trigger] children[k] as int]
                    == in_column(places[children[k] as int], c, width, heights, k)
        }),
{
    let children = tree[id as int].children;
    let start = unmeasured(places, children);
    assert(node_ok(tree, id as int));
    assert forall|k: int| 0 <= k < children.len() implies
        !start[#[trigger] children[k] as int].measured
        && start[children[k] as int].size == places[children[k] as int].size by {
        assert(children.contains(children[k]));
    }
    lemma_column_run(
        tree,
        start,
        id,
        c,
        tree[id as int].layout->Linear_0,
        None,
        width,
        heights,
        0,
    );
}

} // verus!
