//! The widget tree as the layouts see it.

use vstd::prelude::*;
use crate::layout::{
    lemma_turn_from_rest, lemma_turn_keeps, lemma_turn_progress, measure, run, unmeasured,
    BoxConstraints, Layout, LayoutItem, LayoutResult,
};
use crate::position::{Dimensions, Point};

verus! {

/// The name of a widget in its graph.
pub type Id = usize;

/// What a pass never changes of a widget: its layout as it is before a
/// pass, its item and its children in order.
pub struct NodeShape {
    pub layout: Layout,
    pub item: LayoutItem,
    pub children: Seq<Id>,
}

/// What a pass works out for a widget: where it lies in its parent, the
/// size that it was last measured to, and whether that was since the last
/// pass over its parent began.
pub struct Placement {
    pub position: Point,
    pub size: Dimensions,
    pub measured: bool,
}

impl Placement {
    /// The size of the widget as far as the pass under way knows it.
    pub open spec fn known(self) -> Option<Dimensions> {
        if self.measured {
            Some(self.size)
        } else {
            None
        }
    }
}

/// Whether the widget `i` of `tree` has its children after it, none of them
/// twice, and no more of them than its layout takes or a `usize` counts.
pub open spec fn node_ok(tree: Seq<NodeShape>, i: int) -> bool {
    &&& forall|k: int|
        0 <= k < tree[i].children.len() ==> i < #[trigger] tree[i].children[k] < tree.len()
    &&& tree[i].children.len() <= usize::MAX
    &&& tree[i].children.no_duplicates()
    &&& tree[i].layout.accepts(tree[i].children.len())
}

/// Whether `tree` is a tree in the order of its ids.
pub open spec fn well_formed(tree: Seq<NodeShape>) -> bool {
    forall|i: int| 0 <= i < tree.len() ==> #[trigger] node_ok(tree, i)
}

struct Node {
    layout: Layout,
    layout_item: LayoutItem,
    children: Vec<Id>,
    position: Point,
    size: Dimensions,
    measured: bool,
}

impl Node {
    spec fn shape(self) -> NodeShape {
        NodeShape {
            layout: self.layout.rested(),
            item: self.layout_item,
            children: self.children@,
        }
    }

    spec fn placement(self) -> Placement {
        Placement { position: self.position, size: self.size, measured: self.measured }
    }
}

/// A tree of widgets, each with its layout, the item for the layout of its
/// parent, its position and its size.
pub struct Graph {
    nodes: Vec<Node>,
}

impl Graph {
    /// The part of the graph that a pass leaves as it is.
    pub closed spec fn tree(&self) -> Seq<NodeShape> {
        Seq::new(self.nodes@.len(), |i: int| self.nodes@[i].shape())
    }

    /// The part of the graph that a pass writes.
    pub closed spec fn places(&self) -> Seq<Placement> {
        Seq::new(self.nodes@.len(), |i: int| self.nodes@[i].placement())
    }

    /// Whether the graph is a tree that the layouts can be run on.
    pub open spec fn wf(&self) -> bool {
        well_formed(self.tree())
    }

    /// A graph without widgets.
    pub fn new() -> (r: Self)
        ensures
            r.tree() == Seq::<NodeShape>::empty(),
            r.places() == Seq::<Placement>::empty(),
            r.wf(),
    {
        Graph { nodes: Vec::new() }
    }

    /// The number of widgets.
    pub fn len(&self) -> (r: usize)
        ensures
            r == self.tree().len(),
    {
        self.nodes.len()
    }

    /// The tree after a widget with `layout` and `item` has been added
    /// under `parent`, or beside the others where there is no parent.
    pub open spec fn tree_with(
        tree: Seq<NodeShape>,
        parent: Option<Id>,
        layout: Layout,
        item: LayoutItem,
    ) -> Seq<NodeShape> {
        let added = NodeShape { layout: layout.rested(), item, children: Seq::empty() };
        match parent {
            Some(p) => tree.update(
                p as int,
                NodeShape {
                    children: tree[p as int].children.push(tree.len() as Id),
                    ..tree[p as int]
                },
            ).push(added),
            None => tree.push(added),
        }
    }

    /// Whether a widget with `layout` can be added under `parent`: the
    /// parent is there and its layout takes one more child, and `layout`
    /// does without children.
    pub open spec fn has_room(&self, parent: Option<Id>, layout: Layout) -> bool {
        &&& layout.accepts(0)
        &&& parent matches Some(p)
            ==> p < self.tree().len() && self.tree()[p as int].layout.accepts(
            self.tree()[p as int].children.len() + 1,
        )
    }

    /// Whether a widget with `layout` can be added under `parent`.
    pub fn can_add(&self, parent: Option<Id>, layout: &Layout) -> (r: bool)
        ensures
            r == self.has_room(parent, *layout),
    {
        match parent {
            Some(p) => p < self.nodes.len() && match self.nodes[p].layout {
                Layout::Childless(_) => false,
                Layout::Single => self.nodes[p].children.len() == 0,
                _ => true,
            },
            None => true,
        }
    }

    /// Adds a widget as the last child of `parent`, or without a parent, and
    /// gives its id. The widget lies at the origin, with the size zero, and
    /// has not been measured.
    pub fn add_widget(&mut self, parent: Option<Id>, layout: Layout, item: LayoutItem) -> (id: Id)
        requires
            old(self).wf(),
            old(self).has_room(parent, layout),
        ensures
            id == old(self).tree().len(),
            final(self).tree() == Graph::tree_with(old(self).tree(), parent, layout, item),
            final(self).places() == old(self).places().push(
                Placement { position: [0, 0], size: [0, 0], measured: false },
            ),
            final(self).wf(),
    {
        let id = self.nodes.len();
        if let Some(p) = parent {
            self.nodes[p].children.push(id);
        }
        self.nodes.push(
            Node {
                layout,
                layout_item: item,
                children: Vec::new(),
                position: [0, 0],
                size: [0, 0],
                measured: false,
            },
        );
        proof {
            let before = old(self).tree();
            let after = self.tree();
            assert(after =~= Graph::tree_with(before, parent, layout, item));
            assert(self.places() =~= old(self).places().push(
                Placement { position: [0, 0], size: [0, 0], measured: false },
            ));
            assert forall|i: int| 0 <= i < after.len() implies #[trigger] node_ok(after, i) by {
                if i < before.len() {
                    assert(node_ok(before, i));
                    assert(self.nodes@[i].children.len() == after[i].children.len());
                    if parent == Some(i as Id) {
                        assert(after[i].children == before[i].children.push(id));
                    } else {
                        assert(after[i] == before[i]);
                    }
                }
            }
        }
        id
    }

    /// The layout of a widget as it stands, with what the last pass left
    /// in it.
    pub fn layout_of(&self, id: Id) -> (r: Layout)
        requires
            id < self.tree().len(),
        ensures
            r.rested() == self.tree()[id as int].layout,
    {
        self.nodes[id].layout
    }

    /// The children of a widget, in order.
    pub fn children_of(&self, id: Id) -> (r: Vec<Id>)
        requires
            id < self.tree().len(),
        ensures
            r@ == self.tree()[id as int].children,
    {
        self.nodes[id].children.clone()
    }

    /// Where a widget lies in its parent.
    pub fn position_of(&self, id: Id) -> (r: Point)
        requires
            id < self.tree().len(),
        ensures
            r == self.places()[id as int].position,
    {
        self.nodes[id].position
    }

    /// The size that a widget was last measured to; zero before it was
    /// ever measured.
    pub fn size_of(&self, id: Id) -> (r: Dimensions)
        requires
            id < self.tree().len(),
        ensures
            r == self.places()[id as int].size,
    {
        self.nodes[id].size
    }

    /// Whether a widget has been measured since the last pass over its
    /// parent began.
    pub fn is_measured(&self, id: Id) -> (r: bool)
        requires
            id < self.tree().len(),
        ensures
            r == self.places()[id as int].measured,
    {
        self.nodes[id].measured
    }
}

/// What a layout is given of the graph while it runs: the items and sizes
/// of the widgets, to read, and their positions, to set.
pub struct LayoutContext {
    current_id: Option<Id>,
    graph: Graph,
}

impl LayoutContext {
    /// The part of the graph that a pass leaves as it is.
    pub closed spec fn tree(&self) -> Seq<NodeShape> {
        self.graph.tree()
    }

    /// The part of the graph that a pass writes.
    pub closed spec fn places(&self) -> Seq<Placement> {
        self.graph.places()
    }

    /// The widget whose layout is running, if one is.
    pub closed spec fn current(&self) -> Option<Id> {
        self.current_id
    }

    /// Whether the layouts can be run on the graph.
    pub open spec fn wf(&self) -> bool {
        well_formed(self.tree())
    }

    /// Whether the layout of a widget with these `children` is running: the
    /// layouts can be run on the graph, and the widget that is named as
    /// running is one of the graph and has these children.
    pub open spec fn runs(&self, children: Seq<Id>) -> bool {
        &&& self.wf()
        &&& match self.current() {
            Some(id) => id < self.tree().len() && self.tree()[id as int].children == children,
            None => false,
        }
    }

    /// The children of the widget whose layout is running are widgets of
    /// the graph, none of them twice.
    pub proof fn lemma_running_children(&self, children: Seq<Id>)
        requires
            self.runs(children),
        ensures
            children.no_duplicates(),
            forall|k: int| 0 <= k < children.len() ==> #[trigger] children[k] < self.tree().len(),
    {
        assert(node_ok(self.tree(), self.current()->Some_0 as int));
    }

    /// The tree and the placements have one entry for each widget.
    pub proof fn lemma_same_length(&self)
        ensures
            self.places().len() == self.tree().len(),
    {
    }

    /// A context on `graph`, with no layout running.
    pub fn new(graph: Graph) -> (r: Self)
        ensures
            r.tree() == graph.tree(),
            r.places() == graph.places(),
            r.current() is None,
    {
        LayoutContext { current_id: None, graph }
    }

    /// The graph, to look at.
    pub fn graph(&self) -> (r: &Graph)
        ensures
            r.tree() == self.tree(),
            r.places() == self.places(),
    {
        &self.graph
    }

    /// Gives the graph back.
    pub fn into_graph(self) -> (r: Graph)
        ensures
            r.tree() == self.tree(),
            r.places() == self.places(),
    {
        self.graph
    }

    /// Names the widget whose layout runs from here on, or none, and gives
    /// what was named before. `size` does so by itself; this is for whoever
    /// runs a layout by hand.
    pub fn set_id(&mut self, id: Option<Id>) -> (former: Option<Id>)
        ensures
            former == old(self).current(),
            final(self).current() == id,
            final(self).tree() == old(self).tree(),
            final(self).places() == old(self).places(),
    {
        let former = self.current_id;
        self.current_id = id;
        former
    }

    /// The widget whose layout is running.
    pub fn id(&self) -> (r: Id)
        requires
            self.current() is Some,
        ensures
            self.current() == Some(r),
    {
        self.current_id.unwrap()
    }

    /// What the widget `id` tells the layout of its parent.
    pub fn layout_item(&self, id: Id) -> (r: &LayoutItem)
        requires
            id < self.tree().len(),
        ensures
            *r == self.tree()[id as int].item,
    {
        &self.graph.nodes[id].layout_item
    }

    /// Puts the widget `id` at `pos` in its parent. Nothing else changes.
    pub fn position(&mut self, id: Id, pos: Point)
        requires
            id < old(self).tree().len(),
        ensures
            final(self).tree() == old(self).tree(),
            final(self).current() == old(self).current(),
            final(self).places() == old(self).places().update(
                id as int,
                Placement { position: pos, ..old(self).places()[id as int] },
            ),
    {
        self.graph.nodes[id].position = pos;
        proof {
            assert(self.tree() =~= old(self).tree());
            assert(self.places() =~= old(self).places().update(
                id as int,
                Placement { position: pos, ..old(self).places()[id as int] },
            ));
        }
    }

    /// The size of the widget `id`, if it has been measured since the last
    /// pass over its parent began. `None` as well where `id` names no
    /// widget.
    pub fn get_size(&self, id: Id) -> (r: Option<Dimensions>)
        ensures
            r == if id < self.tree().len() {
                self.places()[id as int].known()
            } else {
                None
            },
    {
        if id < self.graph.nodes.len() && self.graph.nodes[id].measured {
            Some(self.graph.nodes[id].size)
        } else {
            None
        }
    }

    /// Marks `children` as not measured. They keep their sizes.
    fn forget(&mut self, children: &Vec<Id>)
        requires
            forall|k: int| 0 <= k < children@.len() ==> children@[k] < old(self).tree().len(),
        ensures
            final(self).tree() == old(self).tree(),
            final(self).current() == old(self).current(),
            final(self).places() == unmeasured(old(self).places(), children@),
    {
        let mut k: usize = 0;
        while k < children.len()
            invariant
                k <= children@.len(),
                forall|i: int| 0 <= i < children@.len() ==> children@[i] < self.tree().len(),
                self.tree() == old(self).tree(),
                self.current() == old(self).current(),
                self.places() == unmeasured(old(self).places(), children@.take(k as int)),
            decreases children@.len() - k,
        {
            let child = children[k];
            let ghost before = self.places();
            self.graph.nodes[child].measured = false;
            proof {
                assert(self.tree() =~= old(self).tree());
                let seen = children@.take(k as int);
                let more = children@.take(k + 1);
                assert(more == seen.push(child));
                assert forall|x: Id| #[trigger] more.contains(x) <==> seen.contains(x) || x
                    == child by {
                    if seen.contains(x) {
                        let i = choose|i: int| 0 <= i < seen.len() && seen[i] == x;
                        assert(more[i] == x);
                    }
                    if x == child {
                        assert(more[k as int] == child);
                    }
                }
                let start = old(self).places();
                assert(self.places().len() == start.len());
                assert(start.len() == self.graph.nodes.len());
                assert forall|j: int| 0 <= j < start.len() implies self.places()[j]
                    == unmeasured(start, more)[j] by {
                    assert(before[j] == unmeasured(start, seen)[j]);
                    assert(more.contains(j as Id) <==> seen.contains(j as Id) || j as Id == child);
                    if j != child {
                        assert(self.places()[j] == before[j]);
                    }
                }
                assert(self.places() =~= unmeasured(start, more));
            }
            k += 1;
        }
        proof {
            assert(children@.take(children@.len() as int) == children@);
        }
    }

    /// Measures the widget `id` under `constraints`, and gives its size.
    ///
    /// Its children count as not measured from here on, so that `get_size`
    /// tells of this pass alone. Then its layout is run from the start. Each
    /// child that the layout asks for is measured in the same way, and the
    /// layout is run again with the size that came out, until it gives the
    /// size of the widget. The widget gets that size, and its layout is kept
    /// as the pass left it.
    pub fn size(&mut self, id: Id, constraints: BoxConstraints) -> (dim: Dimensions)
        requires
            old(self).wf(),
            id < old(self).tree().len(),
        ensures
            final(self).tree() == old(self).tree(),
            final(self).current() == old(self).current(),
            final(self).places() == measure(
                old(self).tree(),
                old(self).places(),
                id,
                constraints,
            ).places,
            dim == measure(old(self).tree(), old(self).places(), id, constraints).size,
            final(self).places()[id as int].known() == Some(dim),
        decreases old(self).tree().len() - id,
    {
        let ghost tree = self.tree();
        let ghost whole = measure(tree, self.places(), id, constraints);
        proof {
            assert(node_ok(tree, id as int));
        }
        let children = self.graph.children_of(id);
        self.forget(&children);
        let mut layout = self.graph.nodes[id].layout;
        let old_id = self.set_id(Some(id));
        let mut answer: Option<Dimensions> = None;
        let mut dim: Dimensions = [0, 0];
        proof {
            lemma_turn_from_rest(layout, constraints, children@, tree, self.places());
        }
        loop
            invariant_except_break
                run(tree, self.places(), id, constraints, layout, answer).places == whole.places,
                run(tree, self.places(), id, constraints, layout, answer).size == whole.size,
            invariant
                self.tree() == tree,
                old(self).tree() == tree,
                well_formed(tree),
                id < tree.len(),
                children@ == tree[id as int].children,
                self.current() == Some(id),
                layout.rested() == tree[id as int].layout,
            ensures
                whole.size == dim,
                whole.places == self.places().update(
                    id as int,
                    Placement {
                        position: self.places()[id as int].position,
                        size: dim,
                        measured: true,
                    },
                ),
            decreases layout.fuel(children@.len(), answer),
        {
            let ghost before = layout;
            let ghost places = self.places();
            proof {
                assert(node_ok(tree, id as int));
                self.lemma_same_length();
                lemma_turn_progress(before, constraints, children@, answer, tree, places);
                lemma_turn_keeps(before, constraints, children@, answer, tree, places);
            }
            let result = layout.layout(constraints, children.as_slice(), answer, self);
            match result {
                LayoutResult::Size(size) => {
                    dim = size;
                    break ;
                },
                LayoutResult::RequestChild(child, bounds) => {
                    proof {
                        let k = choose|k: int| 0 <= k < children@.len() && children@[k] == child;
                        assert(id < tree[id as int].children[k] < tree.len());
                    }
                    let size = self.size(child, bounds);
                    answer = Some(size);
                },
            }
        }
        self.set_id(old_id);
        self.graph.nodes[id].size = dim;
        self.graph.nodes[id].measured = true;
        self.graph.nodes[id].layout = layout;
        proof {
            assert(self.tree() =~= tree);
            assert(self.places() =~= whole.places);
        }
        dim
    }
}

} // verus!
