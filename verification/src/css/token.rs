//! The pieces that a style sheet is read from.

use vstd::prelude::*;
use crate::css::CustomParseError;
use crate::position::Scalar;

verus! {

/// One piece of a style sheet, with white space and comments left out.
#[derive(Debug)]
pub enum Token {
    /// A name.
    Ident(String),
    /// A single character that stands for itself.
    Delim(char),
    Colon,
    Comma,
    /// A text in quotes, without them.
    QuotedString(String),
    /// A number without a unit.
    Number(Scalar),
    /// A number and the unit behind it.
    Dimension(Scalar, String),
    /// What stands behind a `#`, where it could not be a name.
    Hash(String),
    /// What stands behind a `#`, where it could be a name.
    IDHash(String),
    /// Any other piece.
    Other,
}

/// Why a piece of a style sheet could not be read.
#[derive(Debug)]
pub enum ParseError {
    /// This piece cannot stand where it stands.
    UnexpectedToken(Token),
    /// A piece is missing at the end.
    EndOfInput,
    /// A value is not what it has to be.
    Custom(CustomParseError),
}

impl Clone for Token {
    fn clone(&self) -> (r: Token)
        ensures
            r == *self,
    {
        match self {
            Token::Ident(name) => Token::Ident(name.clone()),
            Token::Delim(c) => Token::Delim(*c),
            Token::Colon => Token::Colon,
            Token::Comma => Token::Comma,
            Token::QuotedString(text) => Token::QuotedString(text.clone()),
            Token::Number(number) => Token::Number(*number),
            Token::Dimension(number, unit) => Token::Dimension(*number, unit.clone()),
            Token::Hash(text) => Token::Hash(text.clone()),
            Token::IDHash(text) => Token::IDHash(text.clone()),
            Token::Other => Token::Other,
        }
    }
}

/// Of the first `n` of `results`, those that went well, in order.
pub open spec fn oks<T, E>(results: Seq<Result<T, E>>, n: int) -> Seq<T>
    decreases n,
{
    if n <= 0 {
        Seq::empty()
    } else {
        match results[n - 1] {
            Ok(value) => oks(results, n - 1).push(value),
            Err(_) => oks(results, n - 1),
        }
    }
}

/// Keeps what went well and drops what did not, in order.
pub fn successes<T, E>(results: Vec<Result<T, E>>) -> (r: Vec<T>)
    ensures
        r@ == oks(results@, results@.len() as int),
{
    let ghost all = results@;
    let mut results = results;
    let mut backwards: Vec<T> = Vec::new();
    while results.len() > 0
        invariant
            results@ == all.take(results@.len() as int),
            results@.len() <= all.len(),
            oks(all, all.len() as int) == oks(all, results@.len() as int) + backwards@.reverse(),
        decreases results@.len(),
    {
        let ghost n = results@.len() as int;
        let ghost before = backwards@;
        let last = results.pop();
        proof {
            assert(results@ == all.take(n - 1));
        }
        match last {
            Some(Ok(value)) => {
                backwards.push(value);
                proof {
                    assert(all[n - 1] == Ok::<T, E>(value));
                    assert(backwards@.reverse() == seq![value] + before.reverse());
                    assert(oks(all, n) == oks(all, n - 1).push(value));
                    assert(oks(all, n - 1).push(value) + before.reverse() == oks(all, n - 1) + (
                    seq![value] + before.reverse()));
                }
            },
            _ => {},
        }
    }
    let ghost wanted = backwards@.reverse();
    let mut forwards: Vec<T> = Vec::new();
    while backwards.len() > 0
        invariant
            forwards@ + backwards@.reverse() == wanted,
        decreases backwards@.len(),
    {
        let ghost before = backwards@;
        let ghost done = forwards@;
        let next = backwards.pop();
        match next {
            Some(value) => {
                forwards.push(value);
                proof {
                    assert(before == backwards@.push(value));
                    assert(before.reverse() == seq![value] + backwards@.reverse());
                    assert(done.push(value) + backwards@.reverse() == done + (seq![value]
                        + backwards@.reverse()));
                }
            },
            None => {},
        }
    }
    proof {
        assert(backwards@.reverse() == Seq::<T>::empty());
        assert(forwards@ + Seq::<T>::empty() == forwards@);
    }
    forwards
}

} // verus!
