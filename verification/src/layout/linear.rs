//! Children placed one after another along one axis.

use vstd::prelude::*;
use crate::layout::{
    BoxConstraints, Id, LayoutContext, LayoutFunction, LayoutItem, LayoutResult, NodeShape,
    Placement, Turn,
};
use crate::position::{larger, larger_of, sum, sum_of, Dimensions, Point, Scalar};

verus! {

/// Where a linear layout stands in the pass under way.
#[derive(Debug, Clone, Copy, PartialEq, Eq, Structural)]
pub enum Step {
    /// Measuring the children that do not grow.
    SizeFixed,
    /// Sharing what is left among the children that grow.
    SizeGrowing,
    /// Placing the children.
    Position,
    /// The layout's own size is known.
    Finished,
}

/// The axis along which a linear layout places its children.
#[derive(Debug, Clone, Copy, PartialEq, Eq, Structural)]
pub enum Direction {
    Horizontal,
    Vertical,
}

/// Places its children one after another along `direction`.
///
/// The other fields hold the pass under way, so that it can stop while a
/// child is measured and go on afterwards.
#[derive(Debug, Clone, Copy, PartialEq, Eq, Structural)]
pub struct Linear {
    pub direction: Direction,
    pub step: Step,
    /// The first child not looked at yet in the step under way.
    pub index: usize,
    /// How many children grow; counted when `SizeFixed` ends.
    pub growing_children: Scalar,
    /// The length taken along the main axis so far.
    pub occupied_length: Scalar,
    /// The largest extent across the main axis so far.
    pub widest_child: Scalar,
}

/// What a linear layout is told about one of its children.
#[derive(Debug, Clone, Copy, PartialEq, Eq, Structural)]
pub struct LinearItem {
    pub grow: bool,
}

/// For each of `children`, whether it grows.
pub open spec fn growing(tree: Seq<NodeShape>, children: Seq<Id>) -> Seq<bool> {
    Seq::new(children.len(), |k: int| tree[children[k] as int].item.grows())
}

/// The first place at or after `from` where `grows` holds `want`, or the
/// length of `grows` where there is none.
pub open spec fn next_child(grows: Seq<bool>, from: int, want: bool) -> int
    decreases grows.len() - from,
{
    if from < 0 || from >= grows.len() {
        grows.len() as int
    } else if grows[from] == want {
        from
    } else {
        next_child(grows, from + 1, want)
    }
}

/// How many of `grows` hold.
pub open spec fn count_growing(grows: Seq<bool>) -> nat
    decreases grows.len(),
{
    if grows.len() == 0 {
        0
    } else {
        count_growing(grows.drop_last()) + if grows.last() {
            1nat
        } else {
            0nat
        }
    }
}

/// No more of `grows` hold than it has entries.
pub proof fn lemma_count_growing_bound(grows: Seq<bool>)
    ensures
        count_growing(grows) <= grows.len(),
    decreases grows.len(),
{
    if grows.len() > 0 {
        lemma_count_growing_bound(grows.drop_last());
    }
}

impl Direction {
    /// The extent of `size` along this axis.
    pub open spec fn along(self, size: Dimensions) -> Scalar {
        match self {
            Direction::Horizontal => size[0],
            Direction::Vertical => size[1],
        }
    }

    /// The extent of `size` across this axis.
    pub open spec fn across(self, size: Dimensions) -> Scalar {
        match self {
            Direction::Horizontal => size[1],
            Direction::Vertical => size[0],
        }
    }

    /// The point at `offset` along this axis.
    pub open spec fn point_at(self, offset: Scalar) -> Point {
        match self {
            Direction::Horizontal => [offset, 0],
            Direction::Vertical => [0, offset],
        }
    }

    /// The constraints that give exactly `share` along this axis, and the
    /// whole of the other axis of `c` with no lower bound.
    pub open spec fn shared(self, c: BoxConstraints, share: Scalar) -> BoxConstraints {
        match self {
            Direction::Horizontal => BoxConstraints {
                min_width: share,
                max_width: share,
                min_height: 0,
                max_height: c.max_height,
            },
            Direction::Vertical => BoxConstraints {
                min_width: 0,
                max_width: c.max_width,
                min_height: share,
                max_height: share,
            },
        }
    }

    /// The most that `c` allows along this axis.
    pub open spec fn limit(self, c: BoxConstraints) -> Scalar {
        match self {
            Direction::Horizontal => c.max_width,
            Direction::Vertical => c.max_height,
        }
    }

    /// The offset behind a child that lies at `offset`: a child takes the
    /// room of its size where it has been measured, and none where it has
    /// not.
    pub open spec fn behind(self, offset: Scalar, child: Placement) -> Scalar {
        match child.known() {
            Some(size) => sum_of(offset, self.along(size)),
            None => offset,
        }
    }

    /// The placements once the children from `i` on have been placed one
    /// after another from `offset`, and the offset behind the last of them.
    /// Every child is placed, also one that has not been measured.
    pub open spec fn placed(
        self,
        places: Seq<Placement>,
        children: Seq<Id>,
        i: int,
        offset: Scalar,
    ) -> (Seq<Placement>, Scalar)
        decreases children.len() - i,
    {
        if i < 0 || i >= children.len() {
            (places, offset)
        } else {
            let child = children[i] as int;
            self.placed(
                places.update(
                    child,
                    Placement { position: self.point_at(offset), ..places[child] },
                ),
                children,
                i + 1,
                self.behind(offset, places[child]),
            )
        }
    }
}

impl Linear {
    /// A linear layout along `direction`, before any pass.
    pub open spec fn fresh(direction: Direction) -> Self {
        Linear {
            direction,
            step: Step::SizeFixed,
            index: 0,
            growing_children: 0,
            occupied_length: 0,
            widest_child: 0,
        }
    }

    /// The most that the layout may take along the main axis.
    pub open spec fn limit(self, c: BoxConstraints) -> Scalar {
        self.direction.limit(c)
    }

    /// The constraints for a child that does not grow: what is left of the
    /// main axis and the whole of the other, with no lower bounds.
    pub open spec fn fixed_bounds(self, c: BoxConstraints) -> BoxConstraints {
        match self.direction {
            Direction::Horizontal => BoxConstraints {
                min_width: 0,
                max_width: (c.max_width - self.occupied_length) as Scalar,
                min_height: 0,
                max_height: c.max_height,
            },
            Direction::Vertical => BoxConstraints {
                min_width: 0,
                max_width: c.max_width,
                min_height: 0,
                max_height: (c.max_height - self.occupied_length) as Scalar,
            },
        }
    }

    /// The share of the main axis that each growing child gets: what is
    /// left, divided evenly.
    pub open spec fn share(self, c: BoxConstraints) -> Scalar {
        ((self.limit(c) - self.occupied_length) / (self.growing_children as int)) as Scalar
    }

    /// The constraints for a child that grows: exactly its share along the
    /// main axis, and the whole of the other axis with no lower bound.
    pub open spec fn growing_bounds(self, c: BoxConstraints) -> BoxConstraints {
        self.direction.shared(c, self.share(c))
    }

    /// The layout's own size: the occupied length along the main axis and
    /// the widest child across it, each brought up to its lower bound.
    pub open spec fn own_size(self, c: BoxConstraints) -> Dimensions {
        match self.direction {
            Direction::Horizontal => [
                c.checked_width(self.occupied_length),
                c.checked_height(self.widest_child),
            ],
            Direction::Vertical => [
                c.checked_width(self.widest_child),
                c.checked_height(self.occupied_length),
            ],
        }
    }

    /// The layout once it has taken in `answer`: set back to the start of a
    /// pass where there is none, and otherwise with the size of the child
    /// that it asked for added to what it has.
    pub open spec fn taken_in(self, answer: Option<Dimensions>) -> Linear {
        match answer {
            None => Linear::fresh(self.direction),
            Some(size) => match self.step {
                Step::SizeFixed => Linear {
                    occupied_length: sum_of(self.occupied_length, self.direction.along(size)),
                    widest_child: larger_of(self.widest_child, self.direction.across(size)),
                    ..self
                },
                Step::SizeGrowing => Linear {
                    widest_child: larger_of(self.widest_child, self.direction.across(size)),
                    ..self
                },
                _ => self,
            },
        }
    }

    /// The last two steps: the children are placed and the size is given.
    pub open spec fn finish(
        self,
        c: BoxConstraints,
        children: Seq<Id>,
        places: Seq<Placement>,
    ) -> Turn<Linear> {
        let (placed, total) = self.direction.placed(places, children, 0, 0);
        let done = Linear { step: Step::Finished, occupied_length: total, ..self };
        Turn { layout: done, places: placed, result: LayoutResult::Size(done.own_size(c)) }
    }

    /// The second step from where it stands: the next child that grows is
    /// asked for, under its share; with none left, none that grow at all, or
    /// nothing left to share, the layout finishes.
    pub open spec fn share_out(
        self,
        c: BoxConstraints,
        children: Seq<Id>,
        grows: Seq<bool>,
        places: Seq<Placement>,
    ) -> Turn<Linear> {
        let j = next_child(grows, self.index as int, true);
        if self.growing_children == 0 || self.occupied_length >= self.limit(c) || j
            >= children.len() {
            self.finish(c, children, places)
        } else {
            Turn {
                layout: Linear { step: Step::SizeGrowing, index: (j + 1) as usize, ..self },
                places,
                result: LayoutResult::RequestChild(children[j], self.growing_bounds(c)),
            }
        }
    }

    /// The first step from where it stands: with the main axis full, the
    /// layout finishes; else the next child that does not grow is asked for,
    /// under what is left; with none left, the second step begins.
    pub open spec fn measure_fixed(
        self,
        c: BoxConstraints,
        children: Seq<Id>,
        grows: Seq<bool>,
        places: Seq<Placement>,
    ) -> Turn<Linear> {
        let j = next_child(grows, self.index as int, false);
        if self.occupied_length >= self.limit(c) {
            self.finish(c, children, places)
        } else if j < children.len() {
            Turn {
                layout: Linear { index: (j + 1) as usize, ..self },
                places,
                result: LayoutResult::RequestChild(children[j], self.fixed_bounds(c)),
            }
        } else {
            (Linear {
                step: Step::SizeGrowing,
                index: 0,
                growing_children: count_growing(grows) as Scalar,
                ..self
            }).share_out(c, children, grows, places)
        }
    }

    /// One run of the layout.
    pub open spec fn turn(
        self,
        c: BoxConstraints,
        children: Seq<Id>,
        answer: Option<Dimensions>,
        tree: Seq<NodeShape>,
        places: Seq<Placement>,
    ) -> Turn<Linear> {
        let now = self.taken_in(answer);
        let grows = growing(tree, children);
        match now.step {
            Step::SizeFixed => now.measure_fixed(c, children, grows, places),
            Step::SizeGrowing => now.share_out(c, children, grows, places),
            Step::Position => now.finish(c, children, places),
            Step::Finished => Turn {
                layout: now,
                places,
                result: LayoutResult::Size(now.own_size(c)),
            },
        }
    }

    /// A vertical layout.
    pub fn new() -> (r: Self)
        ensures
            r == Linear::fresh(Direction::Vertical),
    {
        Linear {
            direction: Direction::Vertical,
            step: Step::SizeFixed,
            index: 0,
            growing_children: 0,
            occupied_length: 0,
            widest_child: 0,
        }
    }

    /// The same layout along `direction`.
    pub fn direction(self, direction: Direction) -> (r: Self)
        ensures
            r == (Linear { direction, ..self }),
    {
        Linear { direction, ..self }
    }

    fn max_width(&self, constraints: BoxConstraints, occupied_length: Scalar) -> (r: Scalar)
        requires
            self.direction is Horizontal ==> occupied_length <= constraints.max_width,
        ensures
            r == match self.direction {
                Direction::Horizontal => (constraints.max_width - occupied_length) as Scalar,
                Direction::Vertical => constraints.max_width,
            },
    {
        match self.direction {
            Direction::Horizontal => constraints.max_width - occupied_length,
            Direction::Vertical => constraints.max_width,
        }
    }

    fn max_height(&self, constraints: BoxConstraints, occupied_length: Scalar) -> (r: Scalar)
        requires
            self.direction is Vertical ==> occupied_length <= constraints.max_height,
        ensures
            r == match self.direction {
                Direction::Horizontal => constraints.max_height,
                Direction::Vertical => (constraints.max_height - occupied_length) as Scalar,
            },
    {
        match self.direction {
            Direction::Horizontal => constraints.max_height,
            Direction::Vertical => constraints.max_height - occupied_length,
        }
    }

    fn max_length(&self, constraints: BoxConstraints) -> (r: Scalar)
        ensures
            r == self.limit(constraints),
    {
        match self.direction {
            Direction::Horizontal => constraints.max_width,
            Direction::Vertical => constraints.max_height,
        }
    }

    fn growing_constraints(
        &self,
        constraints: BoxConstraints,
        occupied_length: Scalar,
        growing_children: Scalar,
    ) -> (r: BoxConstraints)
        requires
            growing_children > 0,
            occupied_length <= self.limit(constraints),
        ensures
            r == (Linear { occupied_length, growing_children, ..*self }).growing_bounds(
                constraints,
            ),
    {
        match self.direction {
            Direction::Horizontal => BoxConstraints::default().max_height(
                constraints.max_height,
            ).fit_width((constraints.max_width - occupied_length) / growing_children),
            Direction::Vertical => BoxConstraints::default().fit_height(
                (constraints.max_height - occupied_length) / growing_children,
            ).max_width(constraints.max_width),
        }
    }

    /// Takes in the answer to the last request, or starts a pass.
    fn take_in(&self, child_size: Option<Dimensions>) -> (r: Linear)
        ensures
            r == self.taken_in(child_size),
    {
        match child_size {
            None => Linear {
                direction: self.direction,
                step: Step::SizeFixed,
                index: 0,
                growing_children: 0,
                occupied_length: 0,
                widest_child: 0,
            },
            Some(size) => {
                let (along, across) = match self.direction {
                    Direction::Horizontal => (size[0], size[1]),
                    Direction::Vertical => (size[1], size[0]),
                };
                match self.step {
                    Step::SizeFixed => Linear {
                        occupied_length: sum(self.occupied_length, along),
                        widest_child: larger(self.widest_child, across),
                        ..*self
                    },
                    Step::SizeGrowing => Linear {
                        widest_child: larger(self.widest_child, across),
                        ..*self
                    },
                    _ => *self,
                }
            },
        }
    }

    /// Places the children one after another and gives the length that
    /// they take. A child that has not been measured is placed as well, and
    /// takes no room.
    fn place(&self, children: &[Id], context: &mut LayoutContext) -> (total: Scalar)
        requires
            forall|k: int| 0 <= k < children@.len() ==> children@[k] < old(context).tree().len(),
        ensures
            final(context).tree() == old(context).tree(),
            final(context).current() == old(context).current(),
            (final(context).places(), total) == self.direction.placed(
                old(context).places(),
                children@,
                0,
                0,
            ),
    {
        let mut offset: Scalar = 0;
        let mut i: usize = 0;
        while i < children.len()
            invariant
                i <= children@.len(),
                forall|k: int| 0 <= k < children@.len() ==> children@[k] < context.tree().len(),
                context.tree() == old(context).tree(),
                context.current() == old(context).current(),
                self.direction.placed(context.places(), children@, i as int, offset)
                    == self.direction.placed(old(context).places(), children@, 0, 0),
            decreases children@.len() - i,
        {
            let child = children[i];
            proof {
                context.lemma_same_length();
            }
            let size = context.get_size(child);
            match self.direction {
                Direction::Horizontal => {
                    context.position(child, [offset, 0]);
                    if let Some(size) = size {
                        offset = sum(offset, size[0]);
                    }
                },
                Direction::Vertical => {
                    context.position(child, [0, offset]);
                    if let Some(size) = size {
                        offset = sum(offset, size[1]);
                    }
                },
            }
            i += 1;
        }
        offset
    }
}

/// Whether the widget `child` grows.
fn grows(context: &LayoutContext, child: Id) -> (r: bool)
    requires
        child < context.tree().len(),
    ensures
        r == context.tree()[child as int].item.grows(),
{
    match context.layout_item(child) {
        LayoutItem::Linear(item) => item.grow,
        _ => false,
    }
}

/// Finds the next child from `from` on that grows, or that does not.
fn find_child(children: &[Id], context: &LayoutContext, from: usize, want: bool) -> (j: usize)
    requires
        forall|k: int| 0 <= k < children@.len() ==> children@[k] < context.tree().len(),
    ensures
        j == next_child(growing(context.tree(), children@), from as int, want),
        j <= children@.len(),
{
    let ghost grows_all = growing(context.tree(), children@);
    let mut j = from;
    while j < children.len()
        invariant
            from <= j,
            grows_all == growing(context.tree(), children@),
            forall|k: int| 0 <= k < children@.len() ==> children@[k] < context.tree().len(),
            next_child(grows_all, j as int, want) == next_child(grows_all, from as int, want),
        decreases children@.len() - j,
    {
        if grows(context, children[j]) == want {
            return j;
        }
        j += 1;
    }
    children.len()
}

/// Counts the children that grow.
fn count_children(children: &[Id], context: &LayoutContext) -> (n: Scalar)
    requires
        forall|k: int| 0 <= k < children@.len() ==> children@[k] < context.tree().len(),
    ensures
        n == count_growing(growing(context.tree(), children@)),
{
    let ghost grows_all = growing(context.tree(), children@);
    let mut n: Scalar = 0;
    let mut i: usize = 0;
    while i < children.len()
        invariant
            i <= children@.len(),
            grows_all == growing(context.tree(), children@),
            forall|k: int| 0 <= k < children@.len() ==> children@[k] < context.tree().len(),
            n == count_growing(grows_all.take(i as int)),
            n <= i,
        decreases children@.len() - i,
    {
        proof {
            assert(grows_all.take(i + 1).drop_last() == grows_all.take(i as int));
        }
        if grows(context, children[i]) {
            n += 1;
        }
        i += 1;
    }
    proof {
        assert(grows_all.take(children@.len() as int) == grows_all);
    }
    n
}

impl LayoutFunction for Linear {
    open spec fn takes(&self, children: nat) -> bool {
        true
    }

    /// Runs the four steps as far as they go without a child's size: it
    /// asks for the next child to measure, or places the children and gives
    /// the layout's own size.
    fn layout(
        &mut self,
        constraints: BoxConstraints,
        children: &[Id],
        child_size: Option<Dimensions>,
        context: &mut LayoutContext,
    ) -> (result: LayoutResult)
        ensures
            (Turn { layout: *final(self), places: final(context).places(), result }) == old(
                self,
            ).turn(
                constraints,
                children@,
                child_size,
                old(context).tree(),
                old(context).places(),
            ),
    {
        proof {
            context.lemma_running_children(children@);
        }
        let mut now = self.take_in(child_size);
        let limit = now.max_length(constraints);
        if now.step == Step::SizeFixed {
            if now.occupied_length < limit {
                let j = find_child(children, context, now.index, false);
                if j < children.len() {
                    let bounds = BoxConstraints::default().max_width(
                        now.max_width(constraints, now.occupied_length),
                    ).max_height(now.max_height(constraints, now.occupied_length));
                    now.index = j + 1;
                    *self = now;
                    return LayoutResult::RequestChild(children[j], bounds);
                }
                now.step = Step::SizeGrowing;
                now.index = 0;
                now.growing_children = count_children(children, context);
            } else {
                now.step = Step::Position;
            }
        }
        if now.step == Step::SizeGrowing {
            if now.growing_children != 0 && now.occupied_length < limit {
                let j = find_child(children, context, now.index, true);
                if j < children.len() {
                    let bounds = now.growing_constraints(
                        constraints,
                        now.occupied_length,
                        now.growing_children,
                    );
                    now.index = j + 1;
                    *self = now;
                    return LayoutResult::RequestChild(children[j], bounds);
                }
            }
            now.step = Step::Position;
        }
        if now.step == Step::Position {
            now.occupied_length = now.place(children, context);
            now.step = Step::Finished;
        }
        *self = now;
        match now.direction {
            Direction::Horizontal => LayoutResult::Size(
                [
                    constraints.check_width(now.occupied_length),
                    constraints.check_height(now.widest_child),
                ],
            ),
            Direction::Vertical => LayoutResult::Size(
                [
                    constraints.check_width(now.widest_child),
                    constraints.check_height(now.occupied_length),
                ],
            ),
        }
    }
}

impl LinearItem {
    /// An item that keeps the size its own layout gives it.
    pub fn new() -> (r: Self)
        ensures
            !r.grow,
    {
        LinearItem { grow: false }
    }

    /// The same item, taking a share of the length that is left over.
    pub fn grow(self) -> (r: Self)
        ensures
            r.grow,
    {
        LinearItem { grow: true }
    }
}

} // verus!
