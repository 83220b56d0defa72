//! What a rule applies to.

use fnv::FnvHashSet;
use vstd::prelude::*;
use crate::css::same_text;

verus! {

/// The hasher of the `fnv` crate, carried by the sets of names.
#[verifier::external_type_specification]
#[verifier::external_body]
pub struct ExFnvHasher(fnv::FnvHasher);

/// The maker of hashers that std's sets carry for a hasher of another
/// crate.
#[verifier::external_type_specification]
#[verifier::external_body]
#[verifier::reject_recursive_types(H)]
pub struct ExBuildHasherDefault<H>(std::hash::BuildHasherDefault<H>);

/// The names that a set holds.
pub uninterp spec fn names(set: FnvHashSet<String>) -> Set<Seq<char>>;

/// A set without names. This is `default` of std's `HashSet`, which gives
/// an empty set.
#[verifier::external_body]
fn no_names() -> (r: FnvHashSet<String>)
    ensures
        names(r) == Set::<Seq<char>>::empty(),
{
    FnvHashSet::default()
}

/// Puts `name` into the set. This is `insert` of std's `HashSet`: the set
/// holds the name afterwards, and what it held before.
#[verifier::external_body]
fn put_name(set: &mut FnvHashSet<String>, name: String)
    ensures
        names(*final(set)) == names(*old(set)).insert(name@),
{
    set.insert(name);
}

/// Takes `name` out of the set. This is `remove` of std's `HashSet`: the
/// set holds what it held before but the name.
#[verifier::external_body]
fn drop_name(set: &mut FnvHashSet<String>, name: &str)
    ensures
        names(*final(set)) == names(*old(set)).remove(name@),
{
    set.remove(name);
}

/// Whether `set` holds every name of `other`. This is `is_superset` of
/// std's `HashSet`.
#[verifier::external_body]
fn holds_every(set: &FnvHashSet<String>, other: &FnvHashSet<String>) -> (r: bool)
    ensures
        r == names(*other).subset_of(names(*set)),
{
    set.is_superset(other)
}

/// A set with the same names. This is `clone` of std's `HashSet`.
#[verifier::external_body]
fn same_names(set: &FnvHashSet<String>) -> (r: FnvHashSet<String>)
    ensures
        names(r) == names(*set),
{
    set.clone()
}

/// How many names the set holds. This is `len` of std's `HashSet`.
#[verifier::external_body]
fn count_names(set: &FnvHashSet<String>) -> (r: usize)
    ensures
        r == names(*set).len(),
{
    set.len()
}

/// Whether the set holds no name. This is `is_empty` of std's `HashSet`.
#[verifier::external_body]
fn has_no_names(set: &FnvHashSet<String>) -> (r: bool)
    ensures
        r == (names(*set) == Set::<Seq<char>>::empty()),
{
    set.is_empty()
}

/// How much a selector asks of a widget: the numbers of ids, of classes and
/// pseudo-classes, and of elements in it, the first counting most. Each
/// number stops at 255.
#[derive(Copy, Clone, Debug, PartialEq, Eq, PartialOrd, Ord)]
pub struct Specificity(pub [u8; 3]);

/// `n`, or 255 where it is more.
pub open spec fn capped(n: int) -> u8 {
    if n > 255 {
        255
    } else {
        n as u8
    }
}

impl Specificity {
    /// The sum, number by number, each stopping at 255.
    pub open spec fn plus(self, rhs: Specificity) -> Specificity {
        Specificity(
            [
                capped(self.0[0] + rhs.0[0]),
                capped(self.0[1] + rhs.0[1]),
                capped(self.0[2] + rhs.0[2]),
            ],
        )
    }

    /// Whether `self` asks more than `other`: the first number in which
    /// they differ is larger in `self`.
    pub open spec fn above(self, other: Specificity) -> bool {
        self.0[0] > other.0[0] || (self.0[0] == other.0[0] && (self.0[1] > other.0[1] || (self.0[1]
            == other.0[1] && self.0[2] > other.0[2])))
    }

    /// Adds two specificities number by number. A number stops at 255.
    pub fn add(self, rhs: Specificity) -> (r: Specificity)
        ensures
            r == self.plus(rhs),
    {
        Specificity(
            [
                self.0[0].saturating_add(rhs.0[0]),
                self.0[1].saturating_add(rhs.0[1]),
                self.0[2].saturating_add(rhs.0[2]),
            ],
        )
    }

    /// Whether `self` asks more than `other`.
    pub fn outranks(&self, other: &Specificity) -> (r: bool)
        ensures
            r == self.above(*other),
    {
        if self.0[0] != other.0[0] {
            self.0[0] > other.0[0]
        } else if self.0[1] != other.0[1] {
            self.0[1] > other.0[1]
        } else {
            self.0[2] > other.0[2]
        }
    }
}

/// What a selector says, as plain values.
pub struct SelectorView {
    pub element: Option<Seq<char>>,
    pub classes: Set<Seq<char>>,
    pub pseudo_classes: Set<Seq<char>>,
    pub relation: Option<RelationView>,
}

/// What the link of a selector to the one before it says.
pub enum RelationView {
    Ancestor(Box<SelectorView>),
    Parent(Box<SelectorView>),
}

impl RelationView {
    /// The selector before this one in the chain.
    pub open spec fn before(self) -> SelectorView {
        match self {
            RelationView::Ancestor(before) => *before,
            RelationView::Parent(before) => *before,
        }
    }
}

impl SelectorView {
    /// The selector that asks nothing.
    pub open spec fn any() -> SelectorView {
        SelectorView {
            element: None,
            classes: Set::empty(),
            pseudo_classes: Set::empty(),
            relation: None,
        }
    }

    /// The selector that asks for the element `name` and nothing else.
    pub open spec fn named(name: Seq<char>) -> SelectorView {
        SelectorView { element: Some(name), ..SelectorView::any() }
    }

    /// The specificity of the selector by itself, without its chain: no
    /// ids, its classes and pseudo-classes, and one for an element.
    pub open spec fn own_specificity(self) -> Specificity {
        Specificity(
            [
                0,
                capped((self.classes.len() + self.pseudo_classes.len()) as int),
                if self.element is Some {
                    1
                } else {
                    0
                },
            ],
        )
    }

    /// The specificity of the selector: its own, added to that of the
    /// selectors before it in its chain.
    pub open spec fn specificity(self) -> Specificity
        decreases self,
    {
        match self.relation {
            Some(RelationView::Ancestor(before)) => before.specificity().plus(
                self.own_specificity(),
            ),
            Some(RelationView::Parent(before)) => before.specificity().plus(
                self.own_specificity(),
            ),
            None => self.own_specificity(),
        }
    }

    /// Whether `self`, as a pattern, matches a widget described by `other`:
    /// the element is the same where `self` names one, and `other` has every
    /// class and pseudo-class of `self`. The chain has no say.
    pub open spec fn matches(self, other: SelectorView) -> bool {
        &&& self.element is Some ==> self.element == other.element
        &&& self.classes.subset_of(other.classes)
        &&& self.pseudo_classes.subset_of(other.pseudo_classes)
    }
}

/// How a selector hangs on the one before it in a chain.
#[derive(Debug)]
pub enum SelectorRelation {
    Ancestor(Selector),
    Parent(Selector),
}

/// A pattern for widgets: an element name, or any; classes and
/// pseudo-classes that the widget has to have; and the selector before it in
/// a chain, if it stands in one.
#[derive(Debug)]
pub struct Selector {
    pub element: Option<String>,
    pub classes: FnvHashSet<String>,
    pub pseudo_classes: FnvHashSet<String>,
    pub relation: Option<Box<SelectorRelation>>,
}

impl Clone for SelectorRelation {
    fn clone(&self) -> (r: Self)
        ensures
            r.model() == self.model(),
        decreases *self,
    {
        match self {
            SelectorRelation::Ancestor(before) => SelectorRelation::Ancestor(before.clone()),
            SelectorRelation::Parent(before) => SelectorRelation::Parent(before.clone()),
        }
    }
}

impl Clone for Selector {
    fn clone(&self) -> (r: Self)
        ensures
            r@ == self@,
        decreases *self,
    {
        let element = match &self.element {
            Some(name) => Some(name.clone()),
            None => None,
        };
        let relation = match &self.relation {
            Some(relation) => Some(Box::new((**relation).clone())),
            None => None,
        };
        Selector {
            element,
            classes: same_names(&self.classes),
            pseudo_classes: same_names(&self.pseudo_classes),
            relation,
        }
    }
}

impl SelectorRelation {
    /// What the link says, as plain values.
    pub open spec fn model(self) -> RelationView {
        match self {
            SelectorRelation::Ancestor(before) => RelationView::Ancestor(Box::new(before@)),
            SelectorRelation::Parent(before) => RelationView::Parent(Box::new(before@)),
        }
    }
}

impl View for Selector {
    type V = SelectorView;

    open spec fn view(&self) -> SelectorView
        decreases self,
    {
        SelectorView {
            element: match self.element {
                Some(name) => Some(name@),
                None => None,
            },
            classes: names(self.classes),
            pseudo_classes: names(self.pseudo_classes),
            relation: match self.relation {
                Some(relation) => Some(
                    match *relation {
                        SelectorRelation::Ancestor(before) => RelationView::Ancestor(
                            Box::new(before@),
                        ),
                        SelectorRelation::Parent(before) => RelationView::Parent(
                            Box::new(before@),
                        ),
                    },
                ),
                None => None,
            },
        }
    }
}

impl Default for Selector {
    /// The selector that asks nothing.
    fn default() -> (r: Self)
        ensures
            r@ == SelectorView::any(),
    {
        Selector { element: None, classes: no_names(), pseudo_classes: no_names(), relation: None }
    }
}

/// Whether two optional names are the same.
fn same_name(a: &Option<String>, b: &Option<String>) -> (r: bool)
    ensures
        r == (match (*a, *b) {
            (Some(x), Some(y)) => x@ == y@,
            (None, None) => true,
            _ => false,
        }),
{
    match (a, b) {
        (Some(x), Some(y)) => same_text(x.as_str(), y.as_str()),
        (None, None) => true,
        _ => false,
    }
}

impl Selector {
    /// A selector for the element `element`, or for any element.
    pub fn new(element: Option<&str>) -> (r: Self)
        ensures
            r@ == match element {
                Some(name) => SelectorView::named(name@),
                None => SelectorView::any(),
            },
    {
        let element = match element {
            Some(name) => Some(String::from_str(name)),
            None => None,
        };
        Selector { element, classes: no_names(), pseudo_classes: no_names(), relation: None }
    }

    /// The specificity of the selector with its chain.
    pub fn specificity(&self) -> (r: Specificity)
        ensures
            r == self@.specificity(),
        decreases *self,
    {
        let named = count_names(&self.classes).saturating_add(count_names(&self.pseudo_classes));
        let s = Specificity(
            [
                0,
                if named > 255 {
                    255
                } else {
                    named as u8
                },
                if self.element.is_some() {
                    1
                } else {
                    0
                },
            ],
        );
        if let Some(relation) = &self.relation {
            match &**relation {
                SelectorRelation::Ancestor(x) => {
                    return x.specificity().add(s);
                },
                SelectorRelation::Parent(x) => {
                    return x.specificity().add(s);
                },
            }
        }
        s
    }

    /// Whether the selector matches a widget described by `other`.
    pub fn matches(&self, other: &Selector) -> (r: bool)
        ensures
            r == self@.matches(other@),
    {
        if self.element.is_some() && !same_name(&self.element, &other.element) {
            return false;
        }
        if !holds_every(&other.classes, &self.classes) {
            return false;
        }
        if !holds_every(&other.pseudo_classes, &self.pseudo_classes) {
            return false;
        }
        true
    }

    /// Asks for the class `class` as well.
    pub fn with_class(&mut self, class: &str)
        ensures
            final(self)@ == (SelectorView {
                classes: old(self)@.classes.insert(class@),
                ..old(self)@
            }),
    {
        put_name(&mut self.classes, String::from_str(class));
    }

    /// Asks for the class `class` no longer.
    pub fn without_class(&mut self, class: &str)
        ensures
            final(self)@ == (SelectorView {
                classes: old(self)@.classes.remove(class@),
                ..old(self)@
            }),
    {
        drop_name(&mut self.classes, class);
    }

    /// Asks for the pseudo-class `pseudo_class` as well.
    pub fn with_pseudo_class(&mut self, pseudo_class: &str)
        ensures
            final(self)@ == (SelectorView {
                pseudo_classes: old(self)@.pseudo_classes.insert(pseudo_class@),
                ..old(self)@
            }),
    {
        put_name(&mut self.pseudo_classes, String::from_str(pseudo_class));
    }

    /// Asks for the pseudo-class `pseudo_class` no longer.
    pub fn without_pseudo_class(&mut self, pseudo_class: &str)
        ensures
            final(self)@ == (SelectorView {
                pseudo_classes: old(self)@.pseudo_classes.remove(pseudo_class@),
                ..old(self)@
            }),
    {
        drop_name(&mut self.pseudo_classes, pseudo_class);
    }

    /// Whether the selector asks nothing: no element, no class and no
    /// pseudo-class.
    pub fn is_empty(&self) -> (r: bool)
        ensures
            r == (self@.element is None && self@.classes == Set::<Seq<char>>::empty()
                && self@.pseudo_classes == Set::<Seq<char>>::empty()),
    {
        self.element.is_none() && has_no_names(&self.classes) && has_no_names(
            &self.pseudo_classes,
        )
    }
}

} // verus!
