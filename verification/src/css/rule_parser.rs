//! Reading the rules of a style sheet from its pieces.

use vstd::prelude::*;
use crate::css::{
    oks, successes, Declaration, ParseError, RelationView, Rule, Selector, SelectorRelation,
    SelectorView, Token,
};

verus! {

/// Reads rules: the selectors in front of the braces, and what stands
/// between them.
pub struct RuleParser;

/// What the selectors say, one by one.
pub open spec fn views(selectors: Seq<Selector>) -> Seq<SelectorView> {
    Seq::new(selectors.len(), |k: int| selectors[k]@)
}

/// The name at the place `i` of `tokens`; anything else there, or nothing
/// there, is an error.
pub open spec fn name_at(tokens: Seq<Token>, i: int) -> Result<Seq<char>, ParseError> {
    if i < 0 || i >= tokens.len() {
        Err(ParseError::EndOfInput)
    } else {
        match tokens[i] {
            Token::Ident(name) => Ok(name@),
            _ => Err(ParseError::UnexpectedToken(tokens[i])),
        }
    }
}

/// The selector for the element `name` that hangs on `relation`.
pub open spec fn linked(name: Seq<char>, relation: RelationView) -> SelectorView {
    SelectorView { relation: Some(relation), ..SelectorView::named(name) }
}

/// The selectors that `tokens` write from the place `i` on, behind the
/// selectors `done` and with `current` begun; `first` says that nothing of
/// `current` has been read yet.
///
/// A name at the start of a selector is its element; a later name begins
/// a selector that has the one before it as an ancestor. `>` and a name
/// begin a selector that has the one before it as its parent. `.` and a
/// name add a class, `:` and a name a pseudo-class. `*` adds nothing. A
/// comma ends the selector. Anything else is an error.
pub open spec fn selectors_from(
    tokens: Seq<Token>,
    i: int,
    done: Seq<SelectorView>,
    current: SelectorView,
    first: bool,
) -> Result<Seq<SelectorView>, ParseError>
    decreases tokens.len() - i,
{
    if i < 0 || i >= tokens.len() {
        Ok(done.push(current))
    } else {
        match tokens[i] {
            Token::Ident(name) => selectors_from(
                tokens,
                i + 1,
                done,
                if first {
                    SelectorView { element: Some(name@), ..current }
                } else {
                    linked(name@, RelationView::Ancestor(Box::new(current)))
                },
                false,
            ),
            Token::Delim(c) => if c == '*' {
                selectors_from(tokens, i + 1, done, current, false)
            } else if c == '>' || c == '.' {
                match name_at(tokens, i + 1) {
                    Ok(name) => selectors_from(
                        tokens,
                        i + 2,
                        done,
                        if c == '>' {
                            linked(name, RelationView::Parent(Box::new(current)))
                        } else {
                            SelectorView { classes: current.classes.insert(name), ..current }
                        },
                        false,
                    ),
                    Err(error) => Err(error),
                }
            } else {
                Err(ParseError::UnexpectedToken(tokens[i]))
            },
            Token::Colon => match name_at(tokens, i + 1) {
                Ok(name) => selectors_from(
                    tokens,
                    i + 2,
                    done,
                    SelectorView {
                        pseudo_classes: current.pseudo_classes.insert(name),
                        ..current
                    },
                    false,
                ),
                Err(error) => Err(error),
            },
            Token::Comma => selectors_from(
                tokens,
                i + 1,
                done.push(current),
                SelectorView::any(),
                true,
            ),
            _ => Err(ParseError::UnexpectedToken(tokens[i])),
        }
    }
}

/// The selectors that `tokens` write.
pub open spec fn selectors_in(tokens: Seq<Token>) -> Result<Seq<SelectorView>, ParseError> {
    selectors_from(tokens, 0, Seq::empty(), SelectorView::any(), true)
}

/// The name at the place `i`.
fn expect_ident(tokens: &[Token], i: usize) -> (r: Result<&String, ParseError>)
    ensures
        match r {
            Ok(name) => name_at(tokens@, i as int) == Ok::<Seq<char>, ParseError>(name@),
            Err(error) => name_at(tokens@, i as int) == Err::<Seq<char>, ParseError>(error),
        },
{
    if i >= tokens.len() {
        return Err(ParseError::EndOfInput);
    }
    match &tokens[i] {
        Token::Ident(name) => Ok(name),
        other => Err(ParseError::UnexpectedToken(other.clone())),
    }
}

/// Reads the selectors of a rule, which stand in front of its braces with
/// commas between them.
pub fn parse_selectors(tokens: &[Token]) -> (r: Result<Vec<Selector>, ParseError>)
    ensures
        match r {
            Ok(selectors) => selectors_in(tokens@) == Ok::<Seq<SelectorView>, ParseError>(
                views(selectors@),
            ),
            Err(error) => selectors_in(tokens@) == Err::<Seq<SelectorView>, ParseError>(error),
        },
{
    let mut selectors: Vec<Selector> = Vec::new();
    let mut selector = Selector::default();
    let mut first_token_in_selector = true;
    let mut i: usize = 0;
    proof {
        assert(views(selectors@) =~= Seq::empty());
    }
    while i < tokens.len()
        invariant
            i <= tokens@.len() + 1,
            selectors_from(
                tokens@,
                i as int,
                views(selectors@),
                selector@,
                first_token_in_selector,
            ) == selectors_in(tokens@),
        decreases tokens@.len() + 1 - i,
    {
        let ghost done = views(selectors@);
        let ghost current = selector@;
        match &tokens[i] {
            Token::Ident(element_name) => {
                if first_token_in_selector {
                    selector.element = Some(element_name.clone());
                } else {
                    let old_selector = selector;
                    selector = Selector::new(Some(element_name.as_str()));
                    selector.relation = Some(Box::new(SelectorRelation::Ancestor(old_selector)));
                    proof {
                        assert(selector@ == linked(
                            element_name@,
                            RelationView::Ancestor(Box::new(current)),
                        ));
                    }
                }
                i += 1;
            },
            Token::Delim(c) => {
                if *c == '*' {
                    i += 1;
                } else if *c == '>' {
                    match expect_ident(tokens, i + 1) {
                        Ok(name) => {
                            let old_selector = selector;
                            selector = Selector::new(Some(name.as_str()));
                            selector.relation = Some(
                                Box::new(SelectorRelation::Parent(old_selector)),
                            );
                            proof {
                                assert(selector@ == linked(
                                    name@,
                                    RelationView::Parent(Box::new(current)),
                                ));
                            }
                        },
                        Err(error) => {
                            return Err(error);
                        },
                    }
                    i += 2;
                } else if *c == '.' {
                    match expect_ident(tokens, i + 1) {
                        Ok(name) => {
                            selector.with_class(name.as_str());
                        },
                        Err(error) => {
                            return Err(error);
                        },
                    }
                    i += 2;
                } else {
                    return Err(ParseError::UnexpectedToken(tokens[i].clone()));
                }
            },
            Token::Colon => {
                match expect_ident(tokens, i + 1) {
                    Ok(name) => {
                        selector.with_pseudo_class(name.as_str());
                    },
                    Err(error) => {
                        return Err(error);
                    },
                }
                i += 2;
            },
            Token::Comma => {
                selectors.push(selector);
                selector = Selector::default();
                first_token_in_selector = true;
                proof {
                    assert(views(selectors@) =~= done.push(current));
                }
                i += 1;
                continue ;
            },
            other => {
                return Err(ParseError::UnexpectedToken(other.clone()));
            },
        }
        first_token_in_selector = false;
    }
    let ghost done = views(selectors@);
    let ghost current = selector@;
    selectors.push(selector);
    proof {
        assert(views(selectors@) =~= done.push(current));
    }
    Ok(selectors)
}

impl RuleParser {
    pub fn new() -> (r: Self) {
        RuleParser {  }
    }

    /// Reads what stands in front of the braces of a rule: its selectors.
    pub fn parse_prelude(&mut self, tokens: &[Token]) -> (r: Result<Vec<Selector>, ParseError>)
        ensures
            match r {
                Ok(selectors) => selectors_in(tokens@) == Ok::<Seq<SelectorView>, ParseError>(
                    views(selectors@),
                ),
                Err(error) => selectors_in(tokens@) == Err::<Seq<SelectorView>, ParseError>(
                    error,
                ),
            },
    {
        parse_selectors(tokens)
    }

    /// Makes the rule for `selectors` of what was read between its braces:
    /// the declarations that could be read, in order. One that could not be
    /// read is left out, and the rule stands without it.
    pub fn parse_block<E>(
        &mut self,
        selectors: Vec<Selector>,
        declarations: Vec<Result<Declaration, E>>,
    ) -> (r: Result<Rule, E>)
        ensures
            r matches Ok(rule) && rule.selectors == selectors && rule.declarations@ == oks(
                declarations@,
                declarations@.len() as int,
            ),
    {
        let decls = successes(declarations);
        Ok(Rule { selectors: selectors, declarations: decls })
    }
}

} // verus!
