//! Style rules and the cascade that picks among them.

use vstd::prelude::*;

mod declaration_parser;
mod rule_parser;
mod selector;
mod theme;
mod token;
mod value;

pub use self::declaration_parser::{
    all_hex, digits_of, hex_color, hex_digit, hex_number, is_hex, parse_hex_color, refuses,
    value_in, DeclarationParser,
};
pub use self::rule_parser::{
    linked, name_at, parse_selectors, selectors_from, selectors_in, views, RuleParser,
};
pub use self::selector::{
    capped, names, RelationView, Selector, SelectorRelation, SelectorView, Specificity,
};
pub use self::theme::{
    leads, lemma_winner_leads, outweighs, winner, Entry, Theme,
};
pub use self::token::{oks, successes, ParseError, Token};
pub use self::value::{switch_in, CssValueable, FromValue, Unit, Value};

verus! {

/// Whether two texts are the same.
pub(crate) fn same_text(a: &str, b: &str) -> (r: bool)
    ensures
        r == (a@ == b@),
{
    String::from_str(a) == String::from_str(b)
}

/// What went wrong with a value in a style sheet.
#[derive(Clone, Debug)]
pub enum CustomParseError {
    InvalidColorName(String),
    InvalidColorHex(String),
}

/// One `property: value` of a rule.
#[derive(Debug)]
pub struct Declaration {
    pub property: String,
    pub value: Value,
    pub important: bool,
}

/// The declarations that hold for the widgets that one of the selectors
/// matches.
#[derive(Clone, Debug)]
pub struct Rule {
    pub selectors: Vec<Selector>,
    pub declarations: Vec<Declaration>,
}

impl Clone for Declaration {
    fn clone(&self) -> (r: Self)
        ensures
            r == *self,
    {
        Declaration {
            property: self.property.clone(),
            value: self.value.clone(),
            important: self.important,
        }
    }
}

} // verus!
