//! The colours of the Arc theme, light and dark.

use std::any::TypeId;
use vstd::prelude::*;
use crate::color::{rgba, Color};
use crate::position::Scalar;
use crate::theme::DynamicWidgetStyle;

verus! {

/// The identity of a type at run time, as std gives it.
#[verifier::external_type_specification]
#[verifier::external_body]
pub struct ExTypeId(TypeId);

/// The style of a button for actions that do harm.
#[derive(Clone, Copy, Debug)]
pub struct DangerButton;

/// The Arc theme: its colours, the radius of its corners, and the styles
/// that were added to it.
#[derive(Debug)]
pub struct ArcTheme {
    pub is_light: bool,
    pub window: Color,
    pub background: Color,
    pub dark_text: Color,
    pub light_text: Color,
    pub border: Color,
    pub active: Color,
    pub accent: Color,
    pub invalid: Color,
    pub radius: Scalar,
    /// The styles that were added, each with the type that it is for.
    pub additions: Vec<(TypeId, DynamicWidgetStyle)>,
}

/// The opaque colour with these parts.
pub open spec fn opaque(red: u8, green: u8, blue: u8) -> Color {
    Color { red, green, blue, alpha: 255 }
}

impl ArcTheme {
    /// Whether the themes have the same colours and the same radius.
    pub open spec fn same_palette(&self, other: &ArcTheme) -> bool {
        &&& self.is_light == other.is_light
        &&& self.window == other.window
        &&& self.background == other.background
        &&& self.dark_text == other.dark_text
        &&& self.light_text == other.light_text
        &&& self.border == other.border
        &&& self.active == other.active
        &&& self.accent == other.accent
        &&& self.invalid == other.invalid
        &&& self.radius == other.radius
    }

    /// The light theme.
    pub fn light() -> (r: Self)
        ensures
            r.is_light,
            r.window == opaque(245, 246, 247),
            r.background == opaque(245, 246, 247),
            r.dark_text == opaque(92, 97, 108),
            r.light_text == opaque(255, 255, 255),
            r.border == opaque(207, 214, 230),
            r.active == opaque(255, 255, 255),
            r.accent == opaque(80, 145, 225),
            r.invalid == opaque(244, 67, 54),
            r.radius == 3,
            r.additions@ == Seq::<(TypeId, DynamicWidgetStyle)>::empty(),
    {
        ArcTheme {
            is_light: true,
            window: rgba(245, 246, 247, 255),
            background: rgba(245, 246, 247, 255),
            dark_text: rgba(92, 97, 108, 255),
            light_text: rgba(255, 255, 255, 255),
            border: rgba(207, 214, 230, 255),
            active: rgba(255, 255, 255, 255),
            accent: rgba(80, 145, 225, 255),
            invalid: rgba(244, 67, 54, 255),
            radius: 3,
            additions: Vec::new(),
        }
    }

    /// The dark theme.
    pub fn dark() -> (r: Self)
        ensures
            !r.is_light,
            r.window == opaque(56, 60, 74),
            r.background == opaque(60, 65, 78),
            r.dark_text == opaque(255, 255, 255),
            r.light_text == opaque(255, 255, 255),
            r.border == opaque(43, 46, 57),
            r.active == opaque(80, 86, 102),
            r.accent == opaque(82, 148, 226),
            r.invalid == opaque(244, 67, 54),
            r.radius == 3,
            r.additions@ == Seq::<(TypeId, DynamicWidgetStyle)>::empty(),
    {
        ArcTheme {
            is_light: false,
            window: rgba(56, 60, 74, 255),
            background: rgba(60, 65, 78, 255),
            dark_text: rgba(255, 255, 255, 255),
            light_text: rgba(255, 255, 255, 255),
            border: rgba(43, 46, 57, 255),
            active: rgba(80, 86, 102, 255),
            accent: rgba(82, 148, 226, 255),
            invalid: rgba(244, 67, 54, 255),
            radius: 3,
            additions: Vec::new(),
        }
    }

    /// The same theme with `color` as its accent.
    pub fn accent(self, color: Color) -> (r: Self)
        ensures
            r.accent == color,
            r.is_light == self.is_light,
            r.window == self.window,
            r.background == self.background,
            r.dark_text == self.dark_text,
            r.light_text == self.light_text,
            r.border == self.border,
            r.active == self.active,
            r.invalid == self.invalid,
            r.radius == self.radius,
            r.additions@ == self.additions@,
    {
        let mut this = self;
        this.accent = color;
        this
    }

    /// Adds the style that `func` makes for the theme, which can so follow
    /// the colours of the theme.
    pub fn with<F>(self, func: F) -> (r: Self) where
        F: FnOnce(&Self) -> (TypeId, DynamicWidgetStyle),

        requires
            call_requires(func, (&self,)),
        ensures
            r.same_palette(&self),
            r.additions@.len() == self.additions@.len() + 1,
            r.additions@.drop_last() == self.additions@,
            call_ensures(func, (&self,), r.additions@.last()),
    {
        let addition = func(&self);
        let mut this = self;
        this.additions.push(addition);
        this
    }

    /// The colour of the border of what is active: the accent in the light
    /// theme, the plain border in the dark one.
    pub fn active_border(&self) -> (r: Color)
        ensures
            r == if self.is_light {
                self.accent
            } else {
                self.border
            },
    {
        if self.is_light {
            self.accent
        } else {
            self.border
        }
    }
}

} // verus!
