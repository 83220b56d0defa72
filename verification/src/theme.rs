//! Styles that depend on how a widget is being interacted with.

use std::any::Any;
use vstd::prelude::*;

verus! {

/// The style of one kind of widget, with its own type hidden so that styles
/// of all kinds can be kept together.
#[verifier::external_body]
#[derive(Debug)]
pub struct DynamicWidgetStyle {
    style: Box<dyn Any + Send>,
}

impl DynamicWidgetStyle {
    /// Hides the type of `style`. This is `Box::new` of std, with the
    /// box taken as a `dyn Any`; nothing is claimed of the result.
    #[verifier::external_body]
    pub fn from<T: Any + Send>(style: T) -> (r: Self) {
        DynamicWidgetStyle { style: Box::new(style) }
    }

    /// The style as a `T`, where it is one. This is `downcast_ref` of std's
    /// `dyn Any`; nothing is claimed of the result.
    #[verifier::external_body]
    pub fn specific<T: Any>(&self) -> (r: Option<&T>) {
        self.style.downcast_ref()
    }
}

/// What of a widget's state a style can depend on. `None` stands for "either
/// way" in a condition, and for "not known" in the state of a widget.
#[derive(Debug, PartialEq, Eq, Clone, Copy, Hash, Structural)]
pub struct InteractionState {
    pub hovered: Option<bool>,
    pub pressed: Option<bool>,
    pub focused: Option<bool>,
    pub selected: Option<bool>,
    pub enabled: Option<bool>,
    pub empty: Option<bool>,
}

impl Default for InteractionState {
    /// The state that says nothing.
    fn default() -> (r: Self)
        ensures
            r == InteractionState::unset(),
    {
        InteractionState {
            hovered: None,
            pressed: None,
            focused: None,
            selected: None,
            enabled: None,
            empty: None,
        }
    }
}

/// Whether a condition on one flag is met by the flag of a widget.
pub open spec fn flag_applies(wanted: Option<bool>, found: Option<bool>) -> bool {
    wanted is Some ==> wanted == found
}

fn flag_applies_for(wanted: Option<bool>, found: Option<bool>) -> (r: bool)
    ensures
        r == flag_applies(wanted, found),
{
    match wanted {
        None => true,
        Some(w) => match found {
            Some(f) => w == f,
            None => false,
        },
    }
}

impl InteractionState {
    /// The state that says nothing.
    pub open spec fn unset() -> Self {
        InteractionState {
            hovered: None,
            pressed: None,
            focused: None,
            selected: None,
            enabled: None,
            empty: None,
        }
    }

    /// Whether every flag that `self` sets is the same in `other`.
    pub open spec fn applies(self, other: InteractionState) -> bool {
        &&& flag_applies(self.hovered, other.hovered)
        &&& flag_applies(self.pressed, other.pressed)
        &&& flag_applies(self.focused, other.focused)
        &&& flag_applies(self.selected, other.selected)
        &&& flag_applies(self.enabled, other.enabled)
        &&& flag_applies(self.empty, other.empty)
    }

    pub fn hovered(self) -> (r: Self)
        ensures
            r == (InteractionState { hovered: Some(true), ..self }),
    {
        InteractionState { hovered: Some(true), ..self }
    }

    pub fn pressed(self) -> (r: Self)
        ensures
            r == (InteractionState { pressed: Some(true), ..self }),
    {
        InteractionState { pressed: Some(true), ..self }
    }

    pub fn focused(self) -> (r: Self)
        ensures
            r == (InteractionState { focused: Some(true), ..self }),
    {
        InteractionState { focused: Some(true), ..self }
    }

    pub fn selected(self) -> (r: Self)
        ensures
            r == (InteractionState { selected: Some(true), ..self }),
    {
        InteractionState { selected: Some(true), ..self }
    }

    pub fn enabled(self) -> (r: Self)
        ensures
            r == (InteractionState { enabled: Some(true), ..self }),
    {
        InteractionState { enabled: Some(true), ..self }
    }

    pub fn empty(self) -> (r: Self)
        ensures
            r == (InteractionState { empty: Some(true), ..self }),
    {
        InteractionState { empty: Some(true), ..self }
    }

    pub fn not_hovered(self) -> (r: Self)
        ensures
            r == (InteractionState { hovered: Some(false), ..self }),
    {
        InteractionState { hovered: Some(false), ..self }
    }

    pub fn not_pressed(self) -> (r: Self)
        ensures
            r == (InteractionState { pressed: Some(false), ..self }),
    {
        InteractionState { pressed: Some(false), ..self }
    }

    pub fn not_focused(self) -> (r: Self)
        ensures
            r == (InteractionState { focused: Some(false), ..self }),
    {
        InteractionState { focused: Some(false), ..self }
    }

    pub fn not_selected(self) -> (r: Self)
        ensures
            r == (InteractionState { selected: Some(false), ..self }),
    {
        InteractionState { selected: Some(false), ..self }
    }

    pub fn not_enabled(self) -> (r: Self)
        ensures
            r == (InteractionState { enabled: Some(false), ..self }),
    {
        InteractionState { enabled: Some(false), ..self }
    }

    pub fn not_empty(self) -> (r: Self)
        ensures
            r == (InteractionState { empty: Some(false), ..self }),
    {
        InteractionState { empty: Some(false), ..self }
    }

    pub fn set_hovered(&mut self, state: bool)
        ensures
            *final(self) == (InteractionState { hovered: Some(state), ..*old(self) }),
    {
        self.hovered = Some(state);
    }

    pub fn set_pressed(&mut self, state: bool)
        ensures
            *final(self) == (InteractionState { pressed: Some(state), ..*old(self) }),
    {
        self.pressed = Some(state);
    }

    pub fn set_focused(&mut self, state: bool)
        ensures
            *final(self) == (InteractionState { focused: Some(state), ..*old(self) }),
    {
        self.focused = Some(state);
    }

    pub fn set_selected(&mut self, state: bool)
        ensures
            *final(self) == (InteractionState { selected: Some(state), ..*old(self) }),
    {
        self.selected = Some(state);
    }

    pub fn set_enabled(&mut self, state: bool)
        ensures
            *final(self) == (InteractionState { enabled: Some(state), ..*old(self) }),
    {
        self.enabled = Some(state);
    }

    pub fn set_empty(&mut self, state: bool)
        ensures
            *final(self) == (InteractionState { empty: Some(state), ..*old(self) }),
    {
        self.empty = Some(state);
    }

    /// Whether a style made for `self` is to be used on a widget in the
    /// state `other`: every flag that `self` sets has to be the same there.
    pub fn applies_for(&self, other: &InteractionState) -> (r: bool)
        ensures
            r == self.applies(*other),
    {
        if !flag_applies_for(self.hovered, other.hovered) {
            return false;
        }
        if !flag_applies_for(self.pressed, other.pressed) {
            return false;
        }
        if !flag_applies_for(self.focused, other.focused) {
            return false;
        }
        if !flag_applies_for(self.selected, other.selected) {
            return false;
        }
        if !flag_applies_for(self.enabled, other.enabled) {
            return false;
        }
        if !flag_applies_for(self.empty, other.empty) {
            return false;
        }
        true
    }
}

/// The style of a widget and what changes of it in which state.
#[derive(Debug)]
pub struct WidgetStyle {
    default: DynamicWidgetStyle,
    special: Vec<(InteractionState, DynamicWidgetStyle)>,
}

/// Of the first `n` of `special`, the styles whose condition is met by
/// `interaction`, in order.
pub open spec fn matching(
    special: Seq<(InteractionState, DynamicWidgetStyle)>,
    interaction: InteractionState,
    n: int,
) -> Seq<DynamicWidgetStyle>
    decreases n,
{
    if n <= 0 {
        Seq::empty()
    } else if special[n - 1].0.applies(interaction) {
        matching(special, interaction, n - 1).push(special[n - 1].1)
    } else {
        matching(special, interaction, n - 1)
    }
}

impl WidgetStyle {
    /// The style that holds in every state.
    pub closed spec fn base(&self) -> DynamicWidgetStyle {
        self.default
    }

    /// The special cases, in the order in which they were added.
    pub closed spec fn cases(&self) -> Seq<(InteractionState, DynamicWidgetStyle)> {
        self.special@
    }

    /// The styles for a widget in the state `interaction`: the base, and
    /// after it each special case whose condition the state meets.
    pub open spec fn styles(&self, interaction: InteractionState) -> Seq<DynamicWidgetStyle> {
        seq![self.base()] + matching(self.cases(), interaction, self.cases().len() as int)
    }

    /// A style without special cases.
    pub fn new(default: DynamicWidgetStyle) -> (r: Self)
        ensures
            r.base() == default,
            r.cases() == Seq::<(InteractionState, DynamicWidgetStyle)>::empty(),
    {
        WidgetStyle { default, special: Vec::new() }
    }

    /// The style that holds in every state.
    pub fn default_style(&self) -> (r: &DynamicWidgetStyle)
        ensures
            *r == self.base(),
    {
        &self.default
    }

    /// Adds a special case: `style` is used as well where `interaction`
    /// applies for the state of the widget.
    pub fn when(self, interaction: InteractionState, style: DynamicWidgetStyle) -> (r: Self)
        ensures
            r.base() == self.base(),
            r.cases() == self.cases().push((interaction, style)),
    {
        let mut this = self;
        this.special.push((interaction, style));
        this
    }

    /// All the styles that are to be used on a widget in the state
    /// `interaction`, the base first. Later ones go over earlier ones.
    pub fn for_interaction(&self, interaction: &InteractionState) -> (r: Vec<&DynamicWidgetStyle>)
        ensures
            r@.len() == self.styles(*interaction).len(),
            forall|i: int| 0 <= i < r@.len() ==> *r@[i] == self.styles(*interaction)[i],
    {
        let mut result: Vec<&DynamicWidgetStyle> = Vec::new();
        result.push(&self.default);
        let mut n: usize = 0;
        while n < self.special.len()
            invariant
                n <= self.special@.len(),
                result@.len() == 1 + matching(self.special@, *interaction, n as int).len(),
                *result@[0] == self.default,
                forall|i: int|
                    1 <= i < result@.len() ==> *result@[i] == matching(
                        self.special@,
                        *interaction,
                        n as int,
                    )[i - 1],
            decreases self.special@.len() - n,
        {
            if self.special[n].0.applies_for(interaction) {
                result.push(&self.special[n].1);
            }
            n += 1;
        }
        result
    }
}

} // verus!
