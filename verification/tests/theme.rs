use conrod_layout::theme::{DynamicWidgetStyle, InteractionState, WidgetStyle};

#[test]
fn builders_set_their_flag() {
    let s = InteractionState::default().hovered().not_pressed().focused().not_selected().enabled().not_empty();
    assert_eq!(s.hovered, Some(true));
    assert_eq!(s.pressed, Some(false));
    assert_eq!(s.focused, Some(true));
    assert_eq!(s.selected, Some(false));
    assert_eq!(s.enabled, Some(true));
    assert_eq!(s.empty, Some(false));
    let t = InteractionState::default().not_hovered().pressed().not_focused().selected().not_enabled().empty();
    assert_eq!(t.hovered, Some(false));
    assert_eq!(t.pressed, Some(true));
    assert_eq!(t.focused, Some(false));
    assert_eq!(t.selected, Some(true));
    assert_eq!(t.enabled, Some(false));
    assert_eq!(t.empty, Some(true));
}

#[test]
fn setters_set_their_flag() {
    let mut s = InteractionState::default();
    assert_eq!(s.hovered, None);
    s.set_hovered(true);
    s.set_pressed(false);
    s.set_focused(true);
    s.set_selected(false);
    s.set_enabled(true);
    s.set_empty(false);
    assert_eq!(s, InteractionState::default().hovered().not_pressed().focused().not_selected().enabled().not_empty());
}

#[test]
fn a_condition_applies_where_its_flags_agree() {
    let hovered = InteractionState::default().hovered();
    let widget = InteractionState::default().hovered().not_pressed();
    assert!(hovered.applies_for(&widget));
    assert!(InteractionState::default().applies_for(&widget));
    assert!(!InteractionState::default().pressed().applies_for(&widget));
    assert!(!InteractionState::default().focused().applies_for(&widget));
    assert!(!widget.applies_for(&hovered));
    assert!(!InteractionState::default().not_selected().applies_for(&widget));
    assert!(!InteractionState::default().enabled().applies_for(&widget));
    assert!(!InteractionState::default().empty().applies_for(&widget));
}

#[test]
fn styles_come_base_first_then_matching_cases_in_order() {
    let style = WidgetStyle::new(DynamicWidgetStyle::from(0u32))
        .when(InteractionState::default().hovered(), DynamicWidgetStyle::from(1u32))
        .when(InteractionState::default().pressed(), DynamicWidgetStyle::from(2u32))
        .when(InteractionState::default().hovered().pressed(), DynamicWidgetStyle::from(3u32))
        .when(InteractionState::default(), DynamicWidgetStyle::from(4u32));
    let numbers = |state: &InteractionState| -> Vec<u32> {
        style.for_interaction(state).into_iter().map(|s| *s.specific::<u32>().unwrap()).collect()
    };
    assert_eq!(numbers(&InteractionState::default()), vec![0, 4]);
    assert_eq!(numbers(&InteractionState::default().hovered()), vec![0, 1, 4]);
    assert_eq!(numbers(&InteractionState::default().hovered().pressed()), vec![0, 1, 2, 3, 4]);
    assert_eq!(numbers(&InteractionState::default().not_hovered().pressed()), vec![0, 2, 4]);
}

#[test]
fn a_hidden_style_comes_back_as_its_own_type_only() {
    let style = DynamicWidgetStyle::from(7u8);
    assert_eq!(style.specific::<u8>(), Some(&7u8));
    assert_eq!(style.specific::<u32>(), None);
}
