//! Text on widgets.

use vstd::prelude::*;

verus! {

/// The size of a font, in points.
pub type FontSize = u32;

} // verus!
