use conrod_layout::layout::{
    BoxConstraints, Childless, Direction, Graph, Layout, LayoutContext, LayoutFunction,
    LayoutItem, LayoutResult, Linear, LinearItem, Stack, StackItem, Step,
};

fn bounds(max_width: u64, max_height: u64) -> BoxConstraints {
    BoxConstraints::default().max_width(max_width).max_height(max_height)
}

fn leaf(width: u64, height: u64) -> Layout {
    Layout::Childless(Childless::new().width(width).height(height))
}

fn fixed() -> LayoutItem {
    LayoutItem::Linear(LinearItem::new())
}

fn growing() -> LayoutItem {
    LayoutItem::Linear(LinearItem::new().grow())
}

#[test]
fn constraints_builders_set_one_bound_each() {
    let c = BoxConstraints::default().min_width(1).max_width(2).min_height(3).max_height(4);
    assert_eq!(c, BoxConstraints { min_width: 1, max_width: 2, min_height: 3, max_height: 4 });
    assert_eq!(BoxConstraints::default(), BoxConstraints { min_width: 0, max_width: 0, min_height: 0, max_height: 0 });
}

#[test]
fn fit_pins_both_bounds() {
    let c = bounds(100, 200);
    assert_eq!(c.fit_width(7), BoxConstraints { min_width: 7, max_width: 7, min_height: 0, max_height: 200 });
    assert_eq!(c.fit_height(9), BoxConstraints { min_width: 0, max_width: 100, min_height: 9, max_height: 9 });
    assert_eq!(c.fit([7, 9]), BoxConstraints { min_width: 7, max_width: 7, min_height: 9, max_height: 9 });
}

#[test]
fn grow_to_max_pins_to_upper_bounds() {
    let c = BoxConstraints { min_width: 1, max_width: 100, min_height: 2, max_height: 200 };
    assert_eq!(c.grow_to_max(), BoxConstraints { min_width: 100, max_width: 100, min_height: 200, max_height: 200 });
}

#[test]
fn check_raises_to_the_lower_bound_only() {
    let c = BoxConstraints { min_width: 10, max_width: 20, min_height: 30, max_height: 40 };
    assert_eq!(c.check_width(5), 10);
    assert_eq!(c.check_width(15), 15);
    assert_eq!(c.check_width(10), 10);
    assert_eq!(c.check_width(25), 25);
    assert_eq!(c.check_height(5), 30);
    assert_eq!(c.check_height(35), 35);
    assert_eq!(c.check_height(45), 45);
}

#[test]
fn childless_gives_its_checked_size() {
    let mut graph = Graph::new();
    let widget = graph.add_widget(None, leaf(30, 5), LayoutItem::Empty);
    let mut context = LayoutContext::new(graph);
    context.set_id(Some(widget));
    let mut childless = Childless::new().dimensions([30, 5]);
    let c = BoxConstraints { min_width: 10, max_width: 20, min_height: 8, max_height: 40 };
    assert_eq!(childless.layout(c, &[], None, &mut context), LayoutResult::Size([30, 8]));
    assert_eq!(Childless::new().layout(c, &[], None, &mut context), LayoutResult::Size([10, 8]));
    context.set_id(None);
    assert_eq!(context.size(widget, c), [30, 8]);
    assert_eq!(context.graph().size_of(widget), [30, 8]);
    assert_eq!(context.graph().children_of(widget), Vec::<usize>::new());
}

#[test]
fn three_fixed_children_stack_up_vertically() {
    let mut graph = Graph::new();
    let root = graph.add_widget(None, Layout::Linear(Linear::new()), LayoutItem::Empty);
    let a = graph.add_widget(Some(root), leaf(50, 10), fixed());
    let b = graph.add_widget(Some(root), leaf(50, 20), fixed());
    let c = graph.add_widget(Some(root), leaf(50, 30), fixed());
    let mut context = LayoutContext::new(graph);
    assert_eq!(context.size(root, bounds(100, 100)), [50, 60]);
    let graph = context.into_graph();
    assert_eq!(graph.position_of(a), [0, 0]);
    assert_eq!(graph.position_of(b), [0, 10]);
    assert_eq!(graph.position_of(c), [0, 30]);
    assert_eq!(graph.size_of(a), [50, 10]);
    assert_eq!(graph.size_of(b), [50, 20]);
    assert_eq!(graph.size_of(c), [50, 30]);
    assert_eq!(graph.size_of(root), [50, 60]);
}

#[test]
fn growing_child_gets_what_is_left() {
    let mut graph = Graph::new();
    let root = graph.add_widget(None, Layout::Linear(Linear::new()), LayoutItem::Empty);
    let first = graph.add_widget(Some(root), leaf(30, 20), fixed());
    let second = graph.add_widget(Some(root), Layout::Stack(Stack::new()), growing());
    let mut context = LayoutContext::new(graph);
    let children = [first, second];
    let c = bounds(100, 100);

    context.set_id(Some(root));
    let mut linear = Linear::new();
    assert_eq!(
        linear.layout(c, &children, None, &mut context),
        LayoutResult::RequestChild(first, bounds(100, 100))
    );
    assert_eq!(
        linear.layout(c, &children, Some([30, 20]), &mut context),
        LayoutResult::RequestChild(second, BoxConstraints::default().fit_height(80).max_width(100))
    );
    assert_eq!(linear.step, Step::SizeGrowing);
    assert_eq!(linear.growing_children, 1);
    assert_eq!(linear.occupied_length, 20);
    context.set_id(None);

    assert_eq!(context.size(root, c), [100, 100]);
    let graph = context.into_graph();
    assert_eq!(graph.size_of(second), [100, 80]);
    assert_eq!(graph.position_of(first), [0, 0]);
    assert_eq!(graph.position_of(second), [0, 20]);
}

#[test]
fn growing_children_share_evenly() {
    let mut graph = Graph::new();
    let root = graph.add_widget(
        None,
        Layout::Linear(Linear::new().direction(Direction::Horizontal)),
        LayoutItem::Empty,
    );
    let a = graph.add_widget(Some(root), Layout::Stack(Stack::new()), growing());
    let b = graph.add_widget(Some(root), leaf(10, 7), fixed());
    let c = graph.add_widget(Some(root), Layout::Stack(Stack::new()), growing());
    let d = graph.add_widget(Some(root), Layout::Stack(Stack::new()), growing());
    let mut context = LayoutContext::new(graph);
    assert_eq!(context.size(root, bounds(100, 40)), [100, 40]);
    let graph = context.into_graph();
    assert_eq!(graph.size_of(a), [30, 40]);
    assert_eq!(graph.size_of(b), [10, 7]);
    assert_eq!(graph.size_of(c), [30, 40]);
    assert_eq!(graph.size_of(d), [30, 40]);
    assert_eq!(graph.position_of(a), [0, 0]);
    assert_eq!(graph.position_of(b), [30, 0]);
    assert_eq!(graph.position_of(c), [40, 0]);
    assert_eq!(graph.position_of(d), [70, 0]);
}

#[test]
fn full_axis_ends_the_measuring() {
    let mut graph = Graph::new();
    let root = graph.add_widget(None, Layout::Linear(Linear::new()), LayoutItem::Empty);
    let a = graph.add_widget(Some(root), leaf(5, 100), fixed());
    let b = graph.add_widget(Some(root), leaf(9, 0), fixed());
    let mut context = LayoutContext::new(graph);
    context.position(b, [3, 4]);
    assert_eq!(context.size(root, bounds(100, 100)), [5, 100]);
    assert_eq!(context.get_size(a), Some([5, 100]));
    assert_eq!(context.get_size(b), None);
    let graph = context.into_graph();
    assert_eq!(graph.position_of(a), [0, 0]);
    assert_eq!(graph.position_of(b), [0, 100]);
    assert_eq!(graph.size_of(b), [0, 0]);
    assert!(graph.is_measured(a));
    assert!(!graph.is_measured(b));
}

#[test]
fn no_growing_children_means_no_sharing() {
    let mut graph = Graph::new();
    let root = graph.add_widget(None, Layout::Linear(Linear::new()), LayoutItem::Empty);
    let a = graph.add_widget(Some(root), leaf(5, 10), LayoutItem::Empty);
    let b = graph.add_widget(Some(root), leaf(6, 10), LayoutItem::Stack(StackItem::new()));
    let mut context = LayoutContext::new(graph);
    assert_eq!(context.size(root, bounds(100, 100)), [6, 20]);
    let layout = context.graph().layout_of(root);
    match layout {
        Layout::Linear(linear) => {
            assert_eq!(linear.step, Step::Finished);
            assert_eq!(linear.growing_children, 0);
        }
        _ => panic!("the root is linear"),
    }
    assert_eq!(context.graph().position_of(a), [0, 0]);
    assert_eq!(context.graph().position_of(b), [0, 10]);
}

#[test]
fn stack_gives_each_child_the_whole_box() {
    let mut graph = Graph::new();
    let root = graph.add_widget(None, Layout::Stack(Stack::new()), LayoutItem::Empty);
    let a = graph.add_widget(Some(root), leaf(5, 5), LayoutItem::Stack(StackItem::new()));
    let b = graph.add_widget(Some(root), Layout::Stack(Stack::new()), LayoutItem::Empty);
    let mut context = LayoutContext::new(graph);
    let c = BoxConstraints { min_width: 1, max_width: 60, min_height: 2, max_height: 40 };

    let mut stack = Stack::new();
    let children = [a, b];
    context.set_id(Some(root));
    assert_eq!(stack.layout(c, &children, None, &mut context), LayoutResult::RequestChild(a, c.grow_to_max()));
    assert_eq!(stack.layout(c, &children, Some([1, 1]), &mut context), LayoutResult::RequestChild(b, c.grow_to_max()));
    assert_eq!(stack.layout(c, &children, Some([1, 1]), &mut context), LayoutResult::Size([60, 40]));
    context.set_id(None);

    assert_eq!(context.size(root, c), [60, 40]);
    assert_eq!(context.get_size(a), Some([60, 40]));
    assert_eq!(context.get_size(b), Some([60, 40]));
}

#[test]
fn single_passes_constraints_and_size_through() {
    let mut graph = Graph::new();
    let root = graph.add_widget(None, Layout::Single, LayoutItem::Empty);
    let alone = graph.add_widget(None, Layout::Single, LayoutItem::Empty);
    let child = graph.add_widget(Some(root), leaf(12, 34), LayoutItem::Empty);
    let mut context = LayoutContext::new(graph);
    let c = BoxConstraints { min_width: 2, max_width: 60, min_height: 3, max_height: 40 };
    assert_eq!(context.size(root, c), [12, 34]);
    assert_eq!(context.size(alone, c), [2, 3]);
    let mut unit = ();
    context.set_id(Some(root));
    assert_eq!(unit.layout(c, &[child], None, &mut context), LayoutResult::RequestChild(child, c));
    assert_eq!(unit.layout(c, &[child], Some([7, 8]), &mut context), LayoutResult::Size([7, 8]));
}

#[test]
fn empty_layout_has_no_size() {
    let mut graph = Graph::new();
    let root = graph.add_widget(None, Layout::default(), LayoutItem::default());
    let mut context = LayoutContext::new(graph);
    assert_eq!(context.size(root, bounds(10, 10)), [0, 0]);
    assert_eq!(context.get_size(root), Some([0, 0]));
    assert_eq!(context.get_size(17), None);
}

#[test]
fn a_second_pass_changes_nothing() {
    let mut graph = Graph::new();
    let root = graph.add_widget(None, Layout::Linear(Linear::new()), LayoutItem::Empty);
    let row = graph.add_widget(
        Some(root),
        Layout::Linear(Linear::new().direction(Direction::Horizontal)),
        growing(),
    );
    let a = graph.add_widget(Some(root), leaf(20, 10), fixed());
    let b = graph.add_widget(Some(row), leaf(15, 5), fixed());
    let c = graph.add_widget(Some(row), Layout::Stack(Stack::new()), growing());
    let ids = [root, row, a, b, c];
    let mut context = LayoutContext::new(graph);
    let first = context.size(root, bounds(80, 50));
    let sizes: Vec<_> = ids.iter().map(|id| context.get_size(*id)).collect();
    let positions: Vec<_> = ids.iter().map(|id| context.graph().position_of(*id)).collect();
    let second = context.size(root, bounds(80, 50));
    assert_eq!(first, second);
    assert_eq!(first, [80, 50]);
    assert_eq!(sizes, ids.iter().map(|id| context.get_size(*id)).collect::<Vec<_>>());
    assert_eq!(positions, ids.iter().map(|id| context.graph().position_of(*id)).collect::<Vec<_>>());
    assert_eq!(context.get_size(c), Some([65, 40]));
    assert_eq!(context.graph().position_of(a), [0, 40]);
}

#[test]
fn lengths_stop_at_the_largest_value() {
    let mut graph = Graph::new();
    let root = graph.add_widget(None, Layout::Linear(Linear::new()), LayoutItem::Empty);
    let a = graph.add_widget(Some(root), leaf(1, u64::MAX - 1), fixed());
    let b = graph.add_widget(Some(root), leaf(1, 5), fixed());
    let mut context = LayoutContext::new(graph);
    assert_eq!(context.size(root, bounds(10, u64::MAX)), [1, u64::MAX]);
    assert_eq!(context.graph().position_of(a), [0, 0]);
    assert_eq!(context.graph().position_of(b), [0, u64::MAX - 1]);
}

#[test]
fn context_names_the_running_widget() {
    let mut graph = Graph::new();
    let root = graph.add_widget(None, Layout::Empty, fixed());
    let mut context = LayoutContext::new(graph);
    assert_eq!(context.set_id(Some(root)), None);
    assert_eq!(context.id(), root);
    assert_eq!(context.size(root, bounds(1, 1)), [0, 0]);
    assert_eq!(context.id(), root);
    assert_eq!(context.set_id(None), Some(root));
    assert_eq!(*context.layout_item(root), fixed());
    context.position(root, [4, 5]);
    assert_eq!(context.graph().position_of(root), [4, 5]);
    assert_eq!(context.graph().len(), 1);
    assert_eq!(context.graph().children_of(root), Vec::<usize>::new());
}

#[test]
fn widgets_go_only_where_a_layout_takes_them() {
    let mut graph = Graph::new();
    assert!(graph.can_add(None, &leaf(1, 1)));
    let fixed_leaf = graph.add_widget(None, leaf(1, 1), LayoutItem::Empty);
    let single = graph.add_widget(None, Layout::Single, LayoutItem::Empty);
    let stack = graph.add_widget(None, Layout::Stack(Stack::new()), LayoutItem::Empty);
    assert!(!graph.can_add(Some(fixed_leaf), &Layout::Empty));
    assert!(graph.can_add(Some(single), &Layout::Empty));
    assert!(graph.can_add(Some(stack), &Layout::Empty));
    assert!(!graph.can_add(Some(99), &Layout::Empty));
    graph.add_widget(Some(single), Layout::Empty, LayoutItem::Empty);
    graph.add_widget(Some(stack), Layout::Empty, LayoutItem::Empty);
    assert!(!graph.can_add(Some(single), &Layout::Empty));
    assert!(graph.can_add(Some(stack), &Layout::Empty));
    assert_eq!(graph.len(), 5);
    assert_eq!(graph.children_of(stack), vec![4]);
}

#[test]
fn linear_steps_one_request_at_a_time() {
    let mut graph = Graph::new();
    let root = graph.add_widget(None, Layout::Linear(Linear::new()), LayoutItem::Empty);
    let a = graph.add_widget(Some(root), Layout::Empty, growing());
    let b = graph.add_widget(Some(root), Layout::Empty, fixed());
    let c = graph.add_widget(Some(root), Layout::Empty, growing());
    let d = graph.add_widget(Some(root), Layout::Empty, fixed());
    let children = [a, b, c, d];
    let mut context = LayoutContext::new(graph);
    let c100 = bounds(40, 100);
    let mut layout = Layout::Linear(Linear::new());
    context.set_id(Some(root));

    assert_eq!(layout.layout(c100, &children, None, &mut context), LayoutResult::RequestChild(b, bounds(40, 100)));
    assert_eq!(layout.layout(c100, &children, Some([7, 10]), &mut context), LayoutResult::RequestChild(d, bounds(40, 90)));
    assert_eq!(
        layout.layout(c100, &children, Some([9, 30]), &mut context),
        LayoutResult::RequestChild(a, BoxConstraints::default().fit_height(30).max_width(40))
    );
    assert_eq!(
        layout.layout(c100, &children, Some([40, 30]), &mut context),
        LayoutResult::RequestChild(c, BoxConstraints::default().fit_height(30).max_width(40))
    );
    // Nothing was measured through the context, so no child takes room.
    context.position(d, [9, 9]);
    assert_eq!(layout.layout(c100, &children, Some([12, 30]), &mut context), LayoutResult::Size([40, 0]));
    for child in children {
        assert_eq!(context.graph().position_of(child), [0, 0]);
    }
    match layout {
        Layout::Linear(linear) => {
            assert_eq!(linear.step, Step::Finished);
            assert_eq!(linear.growing_children, 2);
            assert_eq!(linear.widest_child, 40);
            assert_eq!(linear.occupied_length, 0);
        }
        _ => panic!("the layout is linear"),
    }
    // Run again without a fresh start, a finished layout gives its size again.
    assert_eq!(layout.layout(c100, &children, Some([1, 1]), &mut context), LayoutResult::Size([40, 0]));
}

#[test]
fn horizontal_fixed_children_stand_side_by_side() {
    let mut graph = Graph::new();
    let root = graph.add_widget(
        None,
        Layout::Linear(Linear::new().direction(Direction::Horizontal)),
        LayoutItem::Empty,
    );
    let a = graph.add_widget(Some(root), leaf(10, 5), fixed());
    let b = graph.add_widget(Some(root), leaf(20, 8), fixed());
    let mut context = LayoutContext::new(graph);
    let c = BoxConstraints { min_width: 50, max_width: 100, min_height: 0, max_height: 100 };
    assert_eq!(context.size(root, c), [50, 8]);
    assert_eq!(context.graph().position_of(a), [0, 0]);
    assert_eq!(context.graph().position_of(b), [10, 0]);
}

#[test]
fn nothing_is_measured_in_a_box_without_length() {
    let mut graph = Graph::new();
    let root = graph.add_widget(None, Layout::Linear(Linear::new()), LayoutItem::Empty);
    let a = graph.add_widget(Some(root), leaf(10, 5), fixed());
    let mut context = LayoutContext::new(graph);
    assert_eq!(context.size(root, bounds(100, 0)), [0, 0]);
    assert_eq!(context.get_size(a), None);
}

#[test]
fn a_child_behind_a_full_height_is_placed_behind_it() {
    let mut graph = Graph::new();
    let root = graph.add_widget(None, Layout::Linear(Linear::new()), LayoutItem::Empty);
    let a = graph.add_widget(Some(root), leaf(50, 100), fixed());
    let b = graph.add_widget(Some(root), leaf(50, 0), fixed());
    let mut context = LayoutContext::new(graph);
    assert_eq!(context.size(root, bounds(100, 100)), [50, 100]);
    assert_eq!(context.graph().position_of(a), [0, 0]);
    assert_eq!(context.graph().position_of(b), [0, 100]);
    assert_eq!(context.get_size(a), Some([50, 100]));
    assert_eq!(context.get_size(b), None);
}

#[test]
fn children_between_measured_ones_are_placed_too() {
    let mut graph = Graph::new();
    let root = graph.add_widget(
        None,
        Layout::Linear(Linear::new().direction(Direction::Horizontal)),
        LayoutItem::Empty,
    );
    let a = graph.add_widget(Some(root), leaf(30, 5), fixed());
    let b = graph.add_widget(Some(root), Layout::Stack(Stack::new()), growing());
    let c = graph.add_widget(Some(root), leaf(80, 5), fixed());
    let d = graph.add_widget(Some(root), leaf(10, 5), fixed());
    let mut context = LayoutContext::new(graph);
    context.position(b, [7, 7]);
    context.position(d, [8, 8]);
    // The width is full behind `c`: `d` and the growing `b` are not measured.
    assert_eq!(context.size(root, bounds(100, 20)), [110, 5]);
    assert_eq!(context.get_size(b), None);
    assert_eq!(context.get_size(d), None);
    assert_eq!(context.graph().position_of(a), [0, 0]);
    assert_eq!(context.graph().position_of(b), [30, 0]);
    assert_eq!(context.graph().position_of(c), [30, 0]);
    assert_eq!(context.graph().position_of(d), [110, 0]);
}

#[test]
fn a_child_that_is_not_reached_keeps_its_last_size() {
    let mut graph = Graph::new();
    let root = graph.add_widget(None, Layout::Linear(Linear::new()), LayoutItem::Empty);
    let a = graph.add_widget(Some(root), leaf(10, 60), fixed());
    let b = graph.add_widget(Some(root), leaf(10, 60), fixed());
    let mut context = LayoutContext::new(graph);
    assert_eq!(context.size(root, bounds(100, 100)), [10, 120]);
    assert_eq!(context.get_size(b), Some([10, 60]));
    assert_eq!(context.graph().position_of(b), [0, 60]);
    assert_eq!(context.size(root, bounds(100, 50)), [10, 60]);
    assert_eq!(context.get_size(a), Some([10, 60]));
    assert_eq!(context.get_size(b), None);
    assert_eq!(context.graph().position_of(b), [0, 60]);
    assert_eq!(context.graph().size_of(b), [10, 60]);
    assert!(!context.graph().is_measured(b));
}
