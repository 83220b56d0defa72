use std::any::TypeId;

use conrod_layout::arc_theme::{ArcTheme, DangerButton};
use conrod_layout::color::rgba;
use conrod_layout::theme::DynamicWidgetStyle;

#[test]
fn light_palette() {
    let theme = ArcTheme::light();
    assert!(theme.is_light);
    assert_eq!(theme.window, rgba(245, 246, 247, 255));
    assert_eq!(theme.background, rgba(245, 246, 247, 255));
    assert_eq!(theme.dark_text, rgba(92, 97, 108, 255));
    assert_eq!(theme.light_text, rgba(255, 255, 255, 255));
    assert_eq!(theme.border, rgba(207, 214, 230, 255));
    assert_eq!(theme.active, rgba(255, 255, 255, 255));
    assert_eq!(theme.accent, rgba(80, 145, 225, 255));
    assert_eq!(theme.invalid, rgba(244, 67, 54, 255));
    assert_eq!(theme.radius, 3);
    assert!(theme.additions.is_empty());
}

#[test]
fn dark_palette() {
    let theme = ArcTheme::dark();
    assert!(!theme.is_light);
    assert_eq!(theme.window, rgba(56, 60, 74, 255));
    assert_eq!(theme.background, rgba(60, 65, 78, 255));
    assert_eq!(theme.dark_text, rgba(255, 255, 255, 255));
    assert_eq!(theme.light_text, rgba(255, 255, 255, 255));
    assert_eq!(theme.border, rgba(43, 46, 57, 255));
    assert_eq!(theme.active, rgba(80, 86, 102, 255));
    assert_eq!(theme.accent, rgba(82, 148, 226, 255));
    assert_eq!(theme.invalid, rgba(244, 67, 54, 255));
    assert_eq!(theme.radius, 3);
}

#[test]
fn active_border_follows_the_brightness() {
    assert_eq!(ArcTheme::light().active_border(), rgba(80, 145, 225, 255));
    assert_eq!(ArcTheme::dark().active_border(), rgba(43, 46, 57, 255));
    let pink = rgba(255, 0, 128, 255);
    assert_eq!(ArcTheme::light().accent(pink).active_border(), pink);
    assert_eq!(ArcTheme::dark().accent(pink).active_border(), rgba(43, 46, 57, 255));
    assert_eq!(ArcTheme::dark().accent(pink).accent, pink);
}

#[test]
fn added_styles_see_the_theme() {
    let theme = ArcTheme::light()
        .with(|theme| (TypeId::of::<DangerButton>(), DynamicWidgetStyle::from(theme.invalid)))
        .with(|theme| (TypeId::of::<u8>(), DynamicWidgetStyle::from(theme.radius)));
    assert_eq!(theme.additions.len(), 2);
    assert_eq!(theme.additions[0].0, TypeId::of::<DangerButton>());
    assert_eq!(theme.additions[0].1.specific(), Some(&rgba(244, 67, 54, 255)));
    assert_eq!(theme.additions[1].1.specific::<u64>(), Some(&3));
    assert!(theme.is_light);
}
