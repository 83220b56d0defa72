//! A box-constraint layout engine for trees of widgets, with the style
//! cascade and the interaction-state styling that feed it.
//!
//! Lengths are whole layout units. A sum of lengths that would leave the
//! range of [`position::Scalar`] stays at its largest value, which plays the
//! part of an unbounded length.

pub mod arc_theme;
pub mod color;
pub mod css;
pub mod label;
pub mod layout;
pub mod position;
pub mod theme;
