//! Whitespace matchers and the whitespace-tolerant wrappers built on the
//! combinator core.

use crate::parsec::{
    asterisk, between, character, matches_parser, plus, Asterisk, First, Parser, ParseError, Plus,
    Pred, Satisfied, Second, Stringify,
};
use vstd::prelude::*;

verus! {

/// The parser for a single space character.
pub open spec fn space_parser() -> Stringify<Satisfied> {
    Stringify { parser: Satisfied { pred: Pred::Char(' ') } }
}

/// The parser for a possibly empty run of spaces.
pub open spec fn space_star_parser() -> Asterisk<Stringify<Satisfied>> {
    Asterisk { parser: space_parser() }
}

/// The parser for a non-empty run of spaces.
pub open spec fn space_plus_parser() -> Plus<Stringify<Satisfied>> {
    Plus { parser: space_parser() }
}

/// Matches a single space character.
pub fn space(input: &str, pos: usize) -> (r: Result<(usize, String), ParseError>)
    requires
        pos <= input@.len(),
    ensures
        matches_parser(space_parser(), input@, pos as int, r),
{
    character(' ').parse(input, pos)
}

/// Matches a possibly empty run of spaces; never fails.
pub fn space_asterisk(input: &str, pos: usize) -> (r: Result<(usize, String), ParseError>)
    requires
        pos <= input@.len(),
    ensures
        matches_parser(space_star_parser(), input@, pos as int, r),
        r is Ok,
{
    asterisk(character(' ')).parse(input, pos)
}

/// Matches a non-empty run of spaces; fails, at the start position, when no
/// space stands there.
pub fn space_plus(input: &str, pos: usize) -> (r: Result<(usize, String), ParseError>)
    requires
        pos <= input@.len(),
    ensures
        matches_parser(space_plus_parser(), input@, pos as int, r),
{
    plus(character(' ')).parse(input, pos)
}

/// The shape [`soft`] builds: `parser` bracketed by optional spaces.
pub open spec fn spec_soft<X: Parser>(parser: X) -> First<
    Second<Asterisk<Stringify<Satisfied>>, X>,
    Asterisk<Stringify<Satisfied>>,
> {
    First {
        prev: Second { prev: space_star_parser(), succ: parser },
        succ: space_star_parser(),
    }
}

/// Brackets `parser` with zero-or-more spaces on each side, keeping only
/// `parser`'s value.
pub fn soft<X: Parser>(parser: X) -> (p: First<
    Second<Asterisk<Stringify<Satisfied>>, X>,
    Asterisk<Stringify<Satisfied>>,
>)
    ensures
        p == spec_soft(parser),
{
    between(asterisk(character(' ')), asterisk(character(' ')), parser)
}

/// The shape [`leak`] builds: `parser` bracketed by mandatory spaces.
pub open spec fn spec_leak<X: Parser>(parser: X) -> First<
    Second<Plus<Stringify<Satisfied>>, X>,
    Plus<Stringify<Satisfied>>,
> {
    First {
        prev: Second { prev: space_plus_parser(), succ: parser },
        succ: space_plus_parser(),
    }
}

/// Brackets `parser` with one-or-more spaces on each side, keeping only
/// `parser`'s value; for token boundaries the grammar makes mandatory.
pub fn leak<X: Parser>(parser: X) -> (p: First<
    Second<Plus<Stringify<Satisfied>>, X>,
    Plus<Stringify<Satisfied>>,
>)
    ensures
        p == spec_leak(parser),
{
    between(plus(character(' ')), plus(character(' ')), parser)
}

} // verus!
