//! The values that a declaration can hold.

use vstd::prelude::*;
use crate::color::Color;
use crate::css::same_text;
use crate::label::FontSize;
use crate::position::Scalar;

verus! {

/// The unit behind a number.
#[derive(Debug, Clone, Copy, PartialEq, Eq, Structural)]
pub enum Unit {
    /// No unit, or one that is not known.
    Unitless,
    Px,
    Percent,
}

impl Unit {
    /// The unit that `name` stands for.
    pub open spec fn named(name: Seq<char>) -> Unit {
        if name == "px"@ {
            Unit::Px
        } else if name == "%"@ {
            Unit::Percent
        } else {
            Unit::Unitless
        }
    }

    /// The unit written as `name`: `px`, `%`, or none for anything else.
    pub fn from(name: &str) -> (r: Unit)
        ensures
            r == Unit::named(name@),
    {
        if same_text(name, "px") {
            Unit::Px
        } else if same_text(name, "%") {
            Unit::Percent
        } else {
            Unit::Unitless
        }
    }
}

/// The value of a declaration.
#[derive(Debug)]
pub enum Value {
    Color(Color),
    Scalar(Scalar, Unit),
    Symbol(String),
    String(String),
}

impl Clone for Value {
    fn clone(&self) -> (r: Self)
        ensures
            r == *self,
    {
        match self {
            Value::Color(color) => Value::Color(*color),
            Value::Scalar(number, unit) => Value::Scalar(*number, *unit),
            Value::Symbol(text) => Value::Symbol(text.clone()),
            Value::String(text) => Value::String(text.clone()),
        }
    }
}

impl Value {
    /// The number, where the value is one.
    pub fn scalar(&self) -> (r: Option<Scalar>)
        ensures
            r == match *self {
                Value::Scalar(number, _) => Some(number),
                _ => None,
            },
    {
        match *self {
            Value::Scalar(x, _) => Some(x),
            _ => None,
        }
    }

    /// The colour, where the value is one.
    pub fn color(&self) -> (r: Option<Color>)
        ensures
            r == match *self {
                Value::Color(color) => Some(color),
                _ => None,
            },
    {
        match *self {
            Value::Color(x) => Some(x),
            _ => None,
        }
    }

    /// The text, where the value is a symbol or a string.
    pub fn string(&self) -> (r: Option<String>)
        ensures
            r == match *self {
                Value::Symbol(text) => Some(text),
                Value::String(text) => Some(text),
                _ => None,
            },
    {
        match self {
            Value::Symbol(x) => Some(x.clone()),
            Value::String(x) => Some(x.clone()),
            _ => None,
        }
    }
}

/// What can be read from the value of a declaration.
pub trait FromValue: Sized {
    /// What `value` gives.
    spec fn read(value: Value) -> Self;

    /// Reads `value`.
    fn from(value: Value) -> (r: Self)
        ensures
            r == Self::read(value),
    ;
}

/// Something that was read from the value of a declaration.
pub struct CssValueable<T: FromValue>(pub T);

impl<T: FromValue> CssValueable<T> {
    /// Reads `value` as a `T`.
    pub fn of(value: Value) -> (r: Self)
        ensures
            r.0 == T::read(value),
    {
        CssValueable(T::from(value))
    }
}

impl FromValue for Option<Color> {
    open spec fn read(value: Value) -> Self {
        match value {
            Value::Color(color) => Some(color),
            _ => None,
        }
    }

    fn from(value: Value) -> (r: Self) {
        value.color()
    }
}

impl FromValue for Option<Scalar> {
    open spec fn read(value: Value) -> Self {
        match value {
            Value::Scalar(number, _) => Some(number),
            _ => None,
        }
    }

    fn from(value: Value) -> (r: Self) {
        value.scalar()
    }
}

impl FromValue for Option<FontSize> {
    /// A number beyond the font sizes gives the largest one.
    open spec fn read(value: Value) -> Self {
        match value {
            Value::Scalar(number, _) => Some(
                if number > FontSize::MAX {
                    FontSize::MAX
                } else {
                    number as FontSize
                },
            ),
            _ => None,
        }
    }

    fn from(value: Value) -> (r: Self) {
        match value.scalar() {
            Some(number) => Some(
                if number > FontSize::MAX as Scalar {
                    FontSize::MAX
                } else {
                    number as FontSize
                },
            ),
            None => None,
        }
    }
}

/// What a text says of a switch: `true`, `false`, or nothing.
pub open spec fn switch_in(text: Seq<char>) -> Option<bool> {
    if text == "true"@ {
        Some(true)
    } else if text == "false"@ {
        Some(false)
    } else {
        None
    }
}

impl FromValue for Option<bool> {
    open spec fn read(value: Value) -> Self {
        match value {
            Value::Symbol(text) => switch_in(text@),
            Value::String(text) => switch_in(text@),
            _ => None,
        }
    }

    fn from(value: Value) -> (r: Self) {
        match value.string() {
            Some(it) => {
                if same_text(it.as_str(), "true") {
                    Some(true)
                } else if same_text(it.as_str(), "false") {
                    Some(false)
                } else {
                    None
                }
            },
            None => None,
        }
    }
}

} // verus!
