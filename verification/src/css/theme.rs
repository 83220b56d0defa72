//! The cascade: which declaration holds for a widget.

use vstd::prelude::*;
use crate::color::Color;
use crate::css::{
    same_text, Declaration, Rule, Selector, SelectorView, Specificity, Value,
};
use crate::label::FontSize;
use crate::position::Scalar;

verus! {

/// What a rule has to say on one property for one widget: whether it
/// insists, how specific the selector is that let it speak, and the value.
pub struct Entry {
    pub important: bool,
    pub rank: Specificity,
    pub value: Value,
}

/// Whether `a` goes before `b`: it insists and `b` does not, or both do
/// alike and `a` is the more specific.
pub open spec fn outweighs(a: Entry, b: Entry) -> bool {
    (a.important && !b.important) || (a.important == b.important && a.rank.above(b.rank))
}

impl Rule {
    /// The highest specificity among the first `n` selectors of the rule
    /// that match `query`, if one does.
    pub open spec fn rank(self, query: SelectorView, n: int) -> Option<Specificity>
        decreases n,
    {
        if n <= 0 {
            None
        } else {
            let before = self.rank(query, n - 1);
            let selector = self.selectors@[n - 1];
            if !selector@.matches(query) {
                before
            } else if before matches Some(best) && !selector@.specificity().above(best) {
                before
            } else {
                Some(selector@.specificity())
            }
        }
    }

    /// The first declaration of the rule from `from` on that is about
    /// `property`, if there is one.
    pub open spec fn declared(self, property: Seq<char>, from: int) -> Option<Declaration>
        decreases self.declarations@.len() - from,
    {
        if from < 0 || from >= self.declarations@.len() {
            None
        } else if self.declarations@[from].property@ == property {
            Some(self.declarations@[from])
        } else {
            self.declared(property, from + 1)
        }
    }

    /// What the rule has to say on `property` for the widget `query`: the
    /// first declaration about the property, where a selector of the rule
    /// matches the widget.
    pub open spec fn entry(self, property: Seq<char>, query: SelectorView) -> Option<Entry> {
        match (self.rank(query, self.selectors@.len() as int), self.declared(property, 0)) {
            (Some(rank), Some(declaration)) => Some(
                Entry { important: declaration.important, rank, value: declaration.value },
            ),
            _ => None,
        }
    }

    /// The highest specificity among the selectors that match `selector`.
    fn best_rank(&self, selector: &Selector) -> (r: Option<Specificity>)
        ensures
            r == self.rank(selector@, self.selectors@.len() as int),
    {
        let mut best: Option<Specificity> = None;
        let mut n: usize = 0;
        while n < self.selectors.len()
            invariant
                n <= self.selectors@.len(),
                best == self.rank(selector@, n as int),
            decreases self.selectors@.len() - n,
        {
            if self.selectors[n].matches(selector) {
                let found = self.selectors[n].specificity();
                best = match best {
                    Some(held) => if found.outranks(&held) {
                        Some(found)
                    } else {
                        Some(held)
                    },
                    None => Some(found),
                };
            }
            n += 1;
        }
        best
    }

    /// The first declaration about `property`.
    fn find(&self, property: &str) -> (r: Option<&Declaration>)
        ensures
            r == match self.declared(property@, 0) {
                Some(declaration) => Some(&declaration),
                None => None,
            },
    {
        let mut n: usize = 0;
        while n < self.declarations.len()
            invariant
                n <= self.declarations@.len(),
                self.declared(property@, n as int) == self.declared(property@, 0),
            decreases self.declarations@.len() - n,
        {
            if same_text(self.declarations[n].property.as_str(), property) {
                return Some(&self.declarations[n]);
            }
            n += 1;
        }
        None
    }
}

/// What holds on `property` for the widget `query` by the first `n` of
/// `rules`: of what the rules have to say, that which no other outweighs,
/// and the last of those.
pub open spec fn winner(
    rules: Seq<Rule>,
    property: Seq<char>,
    query: SelectorView,
    n: int,
) -> Option<Entry>
    decreases n,
{
    if n <= 0 {
        None
    } else {
        let before = winner(rules, property, query, n - 1);
        match rules[n - 1].entry(property, query) {
            None => before,
            Some(entry) => if before matches Some(best) && outweighs(best, entry) {
                before
            } else {
                Some(entry)
            },
        }
    }
}

/// Whether `best` is what the rule `j` has to say, nothing that one of the
/// first `n` rules has to say outweighs it, and it outweighs all that the
/// rules after `j` have to say.
pub open spec fn leads(
    rules: Seq<Rule>,
    property: Seq<char>,
    query: SelectorView,
    n: int,
    j: int,
    best: Entry,
) -> bool {
    &&& 0 <= j < n
    &&& rules[j].entry(property, query) == Some(best)
    &&& forall|k: int|
        0 <= k < n && (#[trigger] rules[k]).entry(property, query) is Some ==> !outweighs(
            rules[k].entry(property, query)->Some_0,
            best,
        )
    &&& forall|k: int|
        j < k < n && (#[trigger] rules[k]).entry(property, query) is Some ==> outweighs(
            best,
            rules[k].entry(property, query)->Some_0,
        )
}

/// The order of the cascade: what wins comes from one of the rules, nothing
/// that another rule has to say outweighs it, and it outweighs all that the
/// rules after its own have to say. So a declaration that insists wins over
/// every one that does not, however specific; among those that insist
/// alike, the most specific wins; and among equals, the last one.
pub proof fn lemma_winner_leads(
    rules: Seq<Rule>,
    property: Seq<char>,
    query: SelectorView,
    n: int,
)
    requires
        0 <= n <= rules.len(),
    ensures
        winner(rules, property, query, n) is None <==> forall|k: int|
            0 <= k < n ==> (#[trigger] rules[k]).entry(property, query) is None,
        winner(rules, property, query, n) matches Some(best) ==> exists|j: int|
            #[trigger] leads(rules, property, query, n, j, best),
    decreases n,
{
    if n > 0 {
        lemma_winner_leads(rules, property, query, n - 1);
        let before = winner(rules, property, query, n - 1);
        let said = rules[n - 1].entry(property, query);
        if said is None || (before matches Some(best) && outweighs(best, said->Some_0)) {
            if let Some(best) = before {
                let j = choose|j: int| #[trigger] leads(rules, property, query, n - 1, j, best);
                assert(leads(rules, property, query, n, j, best));
            }
        } else {
            let entry = said->Some_0;
            assert forall|k: int|
                0 <= k < n && (#[trigger] rules[k]).entry(property, query) is Some implies
                !outweighs(rules[k].entry(property, query)->Some_0, entry) by {
                if k < n - 1 {
                    let best = before->Some_0;
                    let j = choose|j: int| #[trigger] leads(rules, property, query, n - 1, j, best);
                    lemma_outweighs_passes(rules[k].entry(property, query)->Some_0, best, entry);
                }
            }
            assert(leads(rules, property, query, n, n - 1, entry));
        }
    }
}

/// What does not outweigh the better of two does not outweigh the other
/// where that one is not outweighed by the better.
proof fn lemma_outweighs_passes(a: Entry, b: Entry, c: Entry)
    requires
        !outweighs(a, b),
        !outweighs(b, c),
    ensures
        !outweighs(a, c),
{
}

/// The rules of a style sheet, in the order in which they were written.
pub struct Theme {
    rules: Vec<Rule>,
}

impl Theme {
    /// The rules, in order.
    pub closed spec fn rules(&self) -> Seq<Rule> {
        self.rules@
    }

    /// What holds on `property` for the widget `query`.
    pub open spec fn value_of(&self, property: Seq<char>, query: SelectorView) -> Option<Value> {
        match winner(self.rules(), property, query, self.rules().len() as int) {
            Some(entry) => Some(entry.value),
            None => None,
        }
    }

    /// A theme without rules.
    pub fn new() -> (r: Self)
        ensures
            r.rules() == Seq::<Rule>::empty(),
    {
        Theme { rules: Vec::new() }
    }

    /// A theme with these rules.
    pub fn from_rules(rules: Vec<Rule>) -> (r: Self)
        ensures
            r.rules() == rules@,
    {
        Theme { rules }
    }

    /// Looks up `property` for the widget that `selector` describes.
    ///
    /// A rule speaks where one of its selectors matches the widget and it
    /// has a declaration about the property; it speaks by the first such
    /// declaration and with the highest specificity among the selectors that
    /// match. Of the rules that speak, one that insists goes before one that
    /// does not, then the more specific goes first, and of equals the one
    /// written last. `None` where no rule speaks.
    pub fn get(&self, property: &str, selector: &Selector) -> (r: Option<Value>)
        ensures
            r == self.value_of(property@, selector@),
    {
        let mut best: Option<(bool, Specificity, &Value)> = None;
        let mut n: usize = 0;
        while n < self.rules.len()
            invariant
                n <= self.rules@.len(),
                match winner(self.rules@, property@, selector@, n as int) {
                    Some(entry) => best matches Some(held) && held.0 == entry.important && held.1
                        == entry.rank && *held.2 == entry.value,
                    None => best is None,
                },
            decreases self.rules@.len() - n,
        {
            let rule = &self.rules[n];
            if let Some(rank) = rule.best_rank(selector) {
                if let Some(declaration) = rule.find(property) {
                    let stays = match best {
                        Some(held) => (held.0 && !declaration.important) || (held.0
                            == declaration.important && held.1.outranks(&rank)),
                        None => false,
                    };
                    if !stays {
                        best = Some((declaration.important, rank, &declaration.value));
                    }
                }
            }
            n += 1;
        }
        match best {
            Some(held) => Some(held.2.clone()),
            None => None,
        }
    }

    /// The colour that holds on `property`, where a colour does.
    pub fn color(&self, property: &str, selector: &Selector) -> (r: Option<Color>)
        ensures
            r == match self.value_of(property@, selector@) {
                Some(Value::Color(color)) => Some(color),
                _ => None,
            },
    {
        match self.get(property, selector) {
            Some(value) => value.color(),
            None => None,
        }
    }

    /// The number that holds on `property`, where a number does.
    pub fn scalar(&self, property: &str, selector: &Selector) -> (r: Option<Scalar>)
        ensures
            r == match self.value_of(property@, selector@) {
                Some(Value::Scalar(number, _)) => Some(number),
                _ => None,
            },
    {
        match self.get(property, selector) {
            Some(value) => value.scalar(),
            None => None,
        }
    }

    /// The number that holds on `property` as a font size, where a number
    /// does. A number beyond the font sizes gives the largest one.
    pub fn font_size(&self, property: &str, selector: &Selector) -> (r: Option<FontSize>)
        ensures
            r == match self.value_of(property@, selector@) {
                Some(Value::Scalar(number, _)) => Some(
                    if number > FontSize::MAX {
                        FontSize::MAX
                    } else {
                        number as FontSize
                    },
                ),
                _ => None,
            },
    {
        match self.scalar(property, selector) {
            Some(number) => Some(
                if number > FontSize::MAX as Scalar {
                    FontSize::MAX
                } else {
                    number as FontSize
                },
            ),
            None => None,
        }
    }

    /// The text that holds on `property`, where a symbol or a string does.
    pub fn string(&self, property: &str, selector: &Selector) -> (r: Option<String>)
        ensures
            r == match self.value_of(property@, selector@) {
                Some(Value::Symbol(text)) => Some(text),
                Some(Value::String(text)) => Some(text),
                _ => None,
            },
    {
        match self.get(property, selector) {
            Some(value) => value.string(),
            None => None,
        }
    }
}

} // verus!
