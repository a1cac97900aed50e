//! Lexical rules: identifier, quoted-string and operator-class tokens,
//! built from the combinator core.

use crate::combinators::{leak, spec_leak};
use crate::parsec::{
    append, asterisk, character, is_operator_char, matches_parser, plus, token, Append, Asterisk,
    First, Parser, ParseError, Plus, Pred, Satisfied, Second, Stringify,
};
use vstd::prelude::*;

verus! {

/// Whether `x` is one of the builtin operator characters.
pub fn is_builtin_operator(x: char) -> (r: bool)
    ensures
        r == is_operator_char(x),
{
    (x == '+') || (x == '-') || (x == '*') || (x == '/') || (x == '<') || (x == '>') || (x == '!')
        || (x == '=') || (x == '|') || (x == '&') || (x == '^') || (x == '%') || (x == '~') || (x
        == '.') || (x == ':') || (x == '?') || (x == ',') || (x == '[') || (x == ']') || (x == '(')
        || (x == ')')
}

/// The parser for one builtin operator character, with mandatory spaces on
/// each side.
pub open spec fn builtin_operator_parser() -> First<
    Second<Plus<Stringify<Satisfied>>, Stringify<Satisfied>>,
    Plus<Stringify<Satisfied>>,
> {
    spec_leak(Stringify { parser: Satisfied { pred: Pred::BuiltinOperator } })
}

/// Matches one builtin operator character surrounded by mandatory spaces.
pub fn builtin_operator(input: &str, pos: usize) -> (r: Result<(usize, String), ParseError>)
    requires
        pos <= input@.len(),
    ensures
        matches_parser(builtin_operator_parser(), input@, pos as int, r),
{
    leak(token(Pred::BuiltinOperator)).parse(input, pos)
}

/// Whether `x` is an ASCII quote character, `"` or `'`.
pub fn is_quotes(x: char) -> (r: bool)
    ensures
        r == Pred::Quotes.spec_holds(x),
{
    (x == '"') || (x == '\'')
}

/// The parser for one ASCII quote character.
pub open spec fn quote_parser() -> Stringify<Satisfied> {
    Stringify { parser: Satisfied { pred: Pred::Quotes } }
}

/// Matches one ASCII quote character.
pub fn quote(input: &str, pos: usize) -> (r: Result<(usize, String), ParseError>)
    requires
        pos <= input@.len(),
    ensures
        matches_parser(quote_parser(), input@, pos as int, r),
{
    token(Pred::Quotes).parse(input, pos)
}

/// The parser for the opening corner bracket `「`.
pub open spec fn left_corner_bracket_parser() -> Stringify<Satisfied> {
    Stringify { parser: Satisfied { pred: Pred::Char('「') } }
}

/// The parser for the closing corner bracket `」`.
pub open spec fn right_corner_bracket_parser() -> Stringify<Satisfied> {
    Stringify { parser: Satisfied { pred: Pred::Char('」') } }
}

/// Matches the opening corner bracket `「`.
pub fn left_corner_bracket(input: &str, pos: usize) -> (r: Result<(usize, String), ParseError>)
    requires
        pos <= input@.len(),
    ensures
        matches_parser(left_corner_bracket_parser(), input@, pos as int, r),
{
    character('「').parse(input, pos)
}

/// Matches the closing corner bracket `」`.
pub fn right_corner_bracket(input: &str, pos: usize) -> (r: Result<(usize, String), ParseError>)
    requires
        pos <= input@.len(),
    ensures
        matches_parser(right_corner_bracket_parser(), input@, pos as int, r),
{
    character('」').parse(input, pos)
}

/// The parser for the empty corner-bracket pair `「」`.
pub open spec fn corner_bracket_pair_parser() -> Append<Stringify<Satisfied>, Stringify<Satisfied>> {
    Append { prev: left_corner_bracket_parser(), succ: right_corner_bracket_parser() }
}

/// Matches the empty corner-bracket pair `「」`, yielding both characters.
pub fn left_and_right_corner_bracket(input: &str, pos: usize) -> (r: Result<
    (usize, String),
    ParseError,
>)
    requires
        pos <= input@.len(),
    ensures
        matches_parser(corner_bracket_pair_parser(), input@, pos as int, r),
{
    append(character('「'), character('」')).parse(input, pos)
}

/// Whether `c` may open a string literal: `'`, `"` or `「`.
pub open spec fn spec_opens_string(c: char) -> bool {
    c == '\'' || c == '"' || c == '「'
}

/// The closing delimiter that pairs the opening one: a quote closes with
/// the same quote, `「` closes with `」`.
pub open spec fn spec_closing_delimiter(open: char) -> char {
    if open == '「' {
        '」'
    } else {
        open
    }
}

/// Matches `parser`'s text between a matching pair of string delimiters:
/// `'…'`, `"…"` or `「…」`. The closer must pair the opener — an apostrophe
/// opened is an apostrophe closed, never a mixed pair. The value is
/// `parser`'s alone.
pub struct Delimited<X> {
    pub parser: X,
}

impl<X: Parser> Parser for Delimited<X> {
    type Value = X::Value;

    open spec fn spec_parse(&self, input: Seq<char>, pos: int) -> Option<
        (int, <X::Value as DeepView>::V),
    > {
        if 0 <= pos && pos < input.len() && spec_opens_string(input[pos]) {
            match self.parser.spec_parse(input, pos + 1) {
                Some((mid, v)) => if mid < input.len() && input[mid] == spec_closing_delimiter(
                    input[pos],
                ) {
                    Some((mid + 1, v))
                } else {
                    None
                },
                None => None,
            }
        } else {
            None
        }
    }

    open spec fn spec_fail_at(&self, input: Seq<char>, pos: int) -> int {
        if 0 <= pos && pos < input.len() && spec_opens_string(input[pos]) {
            match self.parser.spec_parse(input, pos + 1) {
                Some((mid, _)) => mid,
                None => self.parser.spec_fail_at(input, pos + 1),
            }
        } else {
            pos
        }
    }

    open spec fn spec_expected(&self, input: Seq<char>, pos: int) -> Seq<char> {
        if 0 <= pos && pos < input.len() && spec_opens_string(input[pos]) {
            match self.parser.spec_parse(input, pos + 1) {
                Some((mid, _)) => "#string-closing-delimiter"@,
                None => self.parser.spec_expected(input, pos + 1),
            }
        } else {
            "#string-opening-delimiter"@
        }
    }

    proof fn lemma_parse_bounds(&self, input: Seq<char>, pos: int) {
        if pos < input.len() && spec_opens_string(input[pos]) {
            self.parser.lemma_parse_bounds(input, pos + 1);
        }
    }

    fn parse(&self, input: &str, pos: usize) -> (r: Result<(usize, X::Value), ParseError>) {
        let len = input.unicode_len();
        if pos < len {
            let open = input.get_char(pos);
            if open == '\'' || open == '"' || open == '「' {
                let close = if open == '「' {
                    '」'
                } else {
                    open
                };
                return match self.parser.parse(input, pos + 1) {
                    Ok((mid, v)) => {
                        if mid < len && input.get_char(mid) == close {
                            Ok((mid + 1, v))
                        } else {
                            Err(ParseError::new(mid, "#string-closing-delimiter"))
                        }
                    },
                    Err(e) => Err(e),
                };
            }
        }
        Err(ParseError::new(pos, "#string-opening-delimiter"))
    }
}

/// Brackets `parser` between a matching pair of string delimiters —
/// `'…'`, `"…"` or `「…」`, never a mixed pair — keeping only `parser`'s
/// value.
pub fn string_of<X: Parser>(parser: X) -> (p: Delimited<X>)
    ensures
        p == (Delimited { parser }),
{
    Delimited { parser }
}

/// The parser for a non-empty run of string-content characters.
pub open spec fn string_content_parser() -> Plus<Stringify<Satisfied>> {
    Plus { parser: Stringify { parser: Satisfied { pred: Pred::StringContent } } }
}

/// Matches a non-empty run of characters allowed inside a quoted string:
/// anything but `'`, `"` or `」`.
pub fn valid_string_content(input: &str, pos: usize) -> (r: Result<(usize, String), ParseError>)
    requires
        pos <= input@.len(),
    ensures
        matches_parser(string_content_parser(), input@, pos as int, r),
{
    plus(token(Pred::StringContent)).parse(input, pos)
}

/// The parser for a string literal: possibly empty content between a
/// matching pair of delimiters.
pub open spec fn string_literal_parser() -> Delimited<Asterisk<Stringify<Satisfied>>> {
    Delimited { parser: Asterisk { parser: Stringify { parser: Satisfied { pred: Pred::StringContent } } } }
}

/// Matches a string literal: content between a matching pair of delimiters
/// — `'…'`, `"…"` or `「…」`, the closer pairing the opener, never a mixed
/// pair. The value is the content alone; the fully empty literal (`''`,
/// `""` or `「」`) is legal here and yields the empty string.
pub fn string(input: &str, pos: usize) -> (r: Result<(usize, String), ParseError>)
    requires
        pos <= input@.len(),
    ensures
        matches_parser(string_literal_parser(), input@, pos as int, r),
{
    string_of(asterisk(token(Pred::StringContent))).parse(input, pos)
}

/// What the string-content rule matches, spelled out: it succeeds exactly
/// when a content character stands at `pos`, and then consumes the maximal
/// run of content characters, yielding precisely that stretch of the input.
pub proof fn lemma_string_content_shape(input: Seq<char>, pos: int)
    requires
        0 <= pos <= input.len(),
    ensures
        ({
            let matched = pos < input.len() && Pred::StringContent.spec_holds(input[pos]);
            let run = crate::parsec::spec_run(Pred::StringContent, input, pos);
            &&& string_content_parser().spec_parse(input, pos) is Some <==> matched
            &&& matched ==> string_content_parser().spec_parse(input, pos) == Some(
                (run, input.subrange(pos, run)),
            )
        }),
{
    crate::parsec::lemma_token_run(Pred::StringContent, input, pos);
}

/// Whether `x` may begin an identifier: alphabetic or an underscore.
pub fn is_identifier_head(x: char) -> (r: bool)
    ensures
        r == Pred::IdentifierHead.spec_holds(x),
{
    x.is_alphabetic() || x == '_'
}

/// Whether `x` may continue an identifier: alphanumeric, underscore or
/// hyphen.
pub fn is_identifier_body(x: char) -> (r: bool)
    ensures
        r == Pred::IdentifierBody.spec_holds(x),
{
    x.is_alphanumeric() || x == '_' || x == '-'
}

/// The parser for an identifier: one head character, then a possibly empty
/// run of body characters, concatenated into the token text.
pub open spec fn identifier_parser() -> Append<Stringify<Satisfied>, Asterisk<Stringify<Satisfied>>> {
    Append {
        prev: Stringify { parser: Satisfied { pred: Pred::IdentifierHead } },
        succ: Asterisk { parser: Stringify { parser: Satisfied { pred: Pred::IdentifierBody } } },
    }
}

/// What the identifier rule matches, spelled out: it succeeds exactly when
/// a head character stands at `pos`, and then consumes that character
/// followed by the maximal run of body characters, yielding precisely that
/// stretch of the input.
pub proof fn lemma_identifier_shape(input: Seq<char>, pos: int)
    requires
        0 <= pos <= input.len(),
    ensures
        ({
            let matched = pos < input.len() && Pred::IdentifierHead.spec_holds(input[pos]);
            let run = crate::parsec::spec_run(Pred::IdentifierBody, input, pos + 1);
            &&& identifier_parser().spec_parse(input, pos) is Some <==> matched
            &&& matched ==> identifier_parser().spec_parse(input, pos) == Some(
                (run, input.subrange(pos, run)),
            )
        }),
{
    if pos < input.len() && Pred::IdentifierHead.spec_holds(input[pos]) {
        crate::parsec::lemma_token_run(Pred::IdentifierBody, input, pos + 1);
        let run = crate::parsec::spec_run(Pred::IdentifierBody, input, pos + 1);
        assert(seq![input[pos]] + input.subrange(pos + 1, run) =~= input.subrange(pos, run));
    }
}

/// Matches an identifier: a head character (alphabetic or `_`) followed by
/// body characters (alphanumeric, `_` or `-`), yielding the whole token.
pub fn identifier(input: &str, pos: usize) -> (r: Result<(usize, String), ParseError>)
    requires
        pos <= input@.len(),
    ensures
        matches_parser(identifier_parser(), input@, pos as int, r),
{
    append(token(Pred::IdentifierHead), asterisk(token(Pred::IdentifierBody))).parse(input, pos)
}

} // verus!
