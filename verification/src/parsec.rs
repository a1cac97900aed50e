//! The combinator core: a `Parser` capability trait, primitive matchers,
//! and the combinators that compose them.
//!
//! A parser is a value. Its meaning is its `spec_parse` function: given the
//! input text and a start position (a character index), it either yields the
//! end position together with the mathematical value of what was matched, or
//! yields nothing. The executable `parse` method is proved to agree with
//! `spec_parse` exactly: it returns `Ok` precisely when `spec_parse` yields a
//! result, and on failure it consumes nothing and reports the error at
//! `spec_fail_at` — the start position itself for every matcher and for the
//! backtracking combinators, and the inner failure point for sequencing.

use vstd::prelude::*;

verus! {

/// A located failure: the character position at which matching could not
/// proceed, and a description of what was expected there.
#[derive(Debug, PartialEq, Eq)]
pub struct ParseError {
    /// Character index into the original input at which matching failed.
    pub location: usize,
    /// Description of the expected construct.
    pub expected: String,
}

impl ParseError {
    pub fn new(location: usize, expected: &str) -> (e: ParseError)
        ensures
            e.location == location,
            e.expected@ == expected@,
    {
        ParseError { location, expected: expected.to_owned() }
    }
}

/// Whether `c` has the Unicode `Alphabetic` property.
///
/// The property itself is defined by the Unicode tables; this name stands for
/// the answer that `char::is_alphabetic` gives.
pub uninterp spec fn alphabetic(c: char) -> bool;

/// Whether `c` is Unicode alphanumeric (`Alphabetic` or a digit category).
///
/// This name stands for the answer that `char::is_alphanumeric` gives.
pub uninterp spec fn alphanumeric(c: char) -> bool;

/// Relies on `char::is_alphabetic`: whether `c` has the Unicode `Alphabetic`
/// property, a function of the character alone.
pub assume_specification[ char::is_alphabetic ](c: char) -> (r: bool)
    ensures
        r == alphabetic(c),
;

/// Relies on `char::is_alphanumeric`: whether `c` is Unicode alphanumeric,
/// a function of the character alone.
pub assume_specification[ char::is_alphanumeric ](c: char) -> (r: bool)
    ensures
        r == alphanumeric(c),
;

/// A single-character predicate, drawn from the closed set of character
/// classes that this library's lexical rules use.
pub enum Pred {
    /// Exactly the character given.
    Char(char),
    /// An ASCII decimal digit.
    Digit,
    /// A character that may begin an identifier: alphabetic or `_`.
    IdentifierHead,
    /// A character that may continue an identifier: alphanumeric, `_` or `-`.
    IdentifierBody,
    /// An ASCII quote character: `"` or `'`.
    Quotes,
    /// A character allowed inside a quoted string: anything but a closing
    /// delimiter (`'`, `"` or `」`).
    StringContent,
    /// A character from the builtin operator set.
    BuiltinOperator,
}

impl Pred {
    /// What this predicate accepts.
    pub open spec fn spec_holds(self, c: char) -> bool {
        match self {
            Pred::Char(expected) => c == expected,
            Pred::Digit => '0' <= c && c <= '9',
            Pred::IdentifierHead => alphabetic(c) || c == '_',
            Pred::IdentifierBody => alphanumeric(c) || c == '_' || c == '-',
            Pred::Quotes => c == '"' || c == '\'',
            Pred::StringContent => c != '\'' && c != '"' && c != '」',
            Pred::BuiltinOperator => is_operator_char(c),
        }
    }

    pub fn holds(&self, c: char) -> (r: bool)
        ensures
            r == self.spec_holds(c),
    {
        match self {
            Pred::Char(expected) => c == *expected,
            Pred::Digit => '0' <= c && c <= '9',
            Pred::IdentifierHead => c.is_alphabetic() || c == '_',
            Pred::IdentifierBody => c.is_alphanumeric() || c == '_' || c == '-',
            Pred::Quotes => c == '"' || c == '\'',
            Pred::StringContent => c != '\'' && c != '"' && c != '」',
            Pred::BuiltinOperator => {
                (c == '+') || (c == '-') || (c == '*') || (c == '/') || (c == '<') || (c == '>')
                    || (c == '!') || (c == '=') || (c == '|') || (c == '&') || (c == '^')
                    || (c == '%') || (c == '~') || (c == '.') || (c == ':') || (c == '?')
                    || (c == ',') || (c == '[') || (c == ']') || (c == '(') || (c == ')')
            },
        }
    }
}

/// The fixed builtin-operator character set.
pub open spec fn is_operator_char(c: char) -> bool {
    (c == '+') || (c == '-') || (c == '*') || (c == '/') || (c == '<') || (c == '>') || (c == '!')
        || (c == '=') || (c == '|') || (c == '&') || (c == '^') || (c == '%') || (c == '~') || (
    c == '.') || (c == ':') || (c == '?') || (c == ',') || (c == '[') || (c == ']') || (c == '(')
        || (c == ')')
}

/// The capability every parser offers: attempt a match against the input at
/// a position, returning success with the new position or a located failure.
///
/// The contract on `parse` is the heart of the library:
/// - `parse` returns `Ok` exactly when `spec_parse` yields a result, and the
///   returned position and value are exactly the ones `spec_parse` yields;
/// - on failure, the reported location is the unchanged start position: a
///   failed parse never consumes input;
/// - on success, the new position lies between the start position and the
///   input's end: consumption is monotonic and bounded.
pub trait Parser: Sized {
    type Value: DeepView;

    /// The mathematical meaning of this parser.
    spec fn spec_parse(&self, input: Seq<char>, pos: int) -> Option<
        (int, <Self::Value as DeepView>::V),
    >;

    /// The position a failure is reported at. Primitive matchers and the
    /// backtracking combinators report the unchanged start position;
    /// sequencing reports the position at which its later part failed,
    /// since what an earlier part consumed is not rolled back.
    spec fn spec_fail_at(&self, input: Seq<char>, pos: int) -> int;

    /// The expectation description a failure carries.
    spec fn spec_expected(&self, input: Seq<char>, pos: int) -> Seq<char>;

    /// On success the end position stays within the input; a failure is
    /// located within the remaining input.
    proof fn lemma_parse_bounds(&self, input: Seq<char>, pos: int)
        requires
            0 <= pos <= input.len(),
        ensures
            (match self.spec_parse(input, pos) {
                Some((end, _)) => pos <= end <= input.len(),
                None => pos <= self.spec_fail_at(input, pos) <= input.len(),
            }),
    ;

    fn parse(&self, input: &str, pos: usize) -> (r: Result<(usize, Self::Value), ParseError>)
        requires
            pos <= input@.len(),
        ensures
            (match r {
                Ok((end, v)) => self.spec_parse(input@, pos as int) == Some(
                    (end as int, v.deep_view()),
                ) && pos <= end <= input@.len(),
                Err(e) => self.spec_parse(input@, pos as int) is None && e.location
                    == self.spec_fail_at(input@, pos as int) && e.expected@ == self.spec_expected(
                    input@,
                    pos as int,
                ),
            }),
    ;
}

/// Matches exactly one character satisfying a predicate; consumes nothing on
/// failure.
pub struct Satisfied {
    pub pred: Pred,
}

impl Satisfied {
    pub fn new(pred: Pred) -> (p: Satisfied)
        ensures
            p == (Satisfied { pred }),
    {
        Satisfied { pred }
    }
}

impl Parser for Satisfied {
    type Value = char;

    open spec fn spec_parse(&self, input: Seq<char>, pos: int) -> Option<(int, char)> {
        if pos < input.len() && self.pred.spec_holds(input[pos]) {
            Some((pos + 1, input[pos]))
        } else {
            None
        }
    }

    open spec fn spec_fail_at(&self, input: Seq<char>, pos: int) -> int {
        pos
    }

    open spec fn spec_expected(&self, input: Seq<char>, pos: int) -> Seq<char> {
        match self.pred {
            Pred::Char(expected) => "start with '"@ + seq![expected] + "'"@,
            _ => "#token-predicate"@,
        }
    }

    proof fn lemma_parse_bounds(&self, input: Seq<char>, pos: int) {
    }

    fn parse(&self, input: &str, pos: usize) -> (r: Result<(usize, char), ParseError>) {
        if pos < input.unicode_len() {
            let c = input.get_char(pos);
            if self.pred.holds(c) {
                return Ok((pos + 1, c));
            }
        }
        match self.pred {
            Pred::Char(expected) => {
                let text = "start with '".to_owned().concat(char_to_string(expected).as_str())
                    .concat("'");
                Err(ParseError { location: pos, expected: text })
            },
            _ => Err(ParseError::new(pos, "#token-predicate")),
        }
    }
}

/// Builds the parser for one character satisfying `predicate`, yielding the
/// character itself.
pub fn token_direct(predicate: Pred) -> (p: Satisfied)
    ensures
        p == (Satisfied { pred: predicate }),
{
    Satisfied { pred: predicate }
}

/// Builds the parser for one character satisfying `predicate`; same matcher
/// as [`token_direct`], under the name the struct-combinator style uses.
pub fn piece(predicate: Pred) -> (p: Satisfied)
    ensures
        p == (Satisfied { pred: predicate }),
{
    Satisfied { pred: predicate }
}

/// Builds the parser for exactly the character `expected`, yielding it.
pub fn character_direct(expected: char) -> (p: Satisfied)
    ensures
        p == (Satisfied { pred: Pred::Char(expected) }),
{
    Satisfied { pred: Pred::Char(expected) }
}

/// Relies on `char::to_string`: the one-character string holding exactly `c`.
#[verifier::external_body]
fn char_to_string(c: char) -> (r: String)
    ensures
        r@ == seq![c],
{
    c.to_string()
}

/// Turns a character-valued parser into a string-valued one: the value
/// becomes the one-character string.
pub struct Stringify<A> {
    pub parser: A,
}

impl<A: Parser<Value = char>> Parser for Stringify<A> {
    type Value = String;

    open spec fn spec_parse(&self, input: Seq<char>, pos: int) -> Option<(int, Seq<char>)> {
        match self.parser.spec_parse(input, pos) {
            Some((end, c)) => Some((end, seq![c])),
            None => None,
        }
    }

    open spec fn spec_fail_at(&self, input: Seq<char>, pos: int) -> int {
        self.parser.spec_fail_at(input, pos)
    }

    open spec fn spec_expected(&self, input: Seq<char>, pos: int) -> Seq<char> {
        self.parser.spec_expected(input, pos)
    }

    proof fn lemma_parse_bounds(&self, input: Seq<char>, pos: int) {
        self.parser.lemma_parse_bounds(input, pos);
    }

    fn parse(&self, input: &str, pos: usize) -> (r: Result<(usize, String), ParseError>) {
        match self.parser.parse(input, pos) {
            Ok((end, c)) => Ok((end, char_to_string(c))),
            Err(e) => Err(e),
        }
    }
}

/// Converts a character-valued parser to a string-valued one.
pub fn map_char_to_string<A: Parser<Value = char>>(parser: A) -> (p: Stringify<A>)
    ensures
        p == (Stringify { parser }),
{
    Stringify { parser }
}

/// Builds the parser for one character satisfying `predicate`, yielding it
/// as a one-character string.
pub fn token(predicate: Pred) -> (p: Stringify<Satisfied>)
    ensures
        p == (Stringify { parser: Satisfied { pred: predicate } }),
{
    Stringify { parser: Satisfied { pred: predicate } }
}

/// Builds the parser for exactly the character `expected`, yielding it as a
/// one-character string.
pub fn character(expected: char) -> (p: Stringify<Satisfied>)
    ensures
        p == (Stringify { parser: Satisfied { pred: Pred::Char(expected) } }),
{
    Stringify { parser: Satisfied { pred: Pred::Char(expected) } }
}

/// Matches a fixed piece of text, character for character; consumes exactly
/// its length on success and nothing on failure.
pub struct Literal {
    pub expected: String,
}

impl Parser for Literal {
    type Value = String;

    open spec fn spec_parse(&self, input: Seq<char>, pos: int) -> Option<(int, Seq<char>)> {
        if pos + self.expected@.len() <= input.len() && input.subrange(
            pos,
            pos + self.expected@.len(),
        ) == self.expected@ {
            Some((pos + self.expected@.len(), self.expected@))
        } else {
            None
        }
    }

    open spec fn spec_fail_at(&self, input: Seq<char>, pos: int) -> int {
        pos
    }

    open spec fn spec_expected(&self, input: Seq<char>, pos: int) -> Seq<char> {
        self.expected@
    }

    proof fn lemma_parse_bounds(&self, input: Seq<char>, pos: int) {
    }

    fn parse(&self, input: &str, pos: usize) -> (r: Result<(usize, String), ParseError>) {
        let n = self.expected.as_str().unicode_len();
        let len = input.unicode_len();
        if len - pos < n {
            return Err(ParseError::new(pos, self.expected.as_str()));
        }
        let ghost want = input@.subrange(pos as int, pos + n as int);
        let mut i: usize = 0;
        while i < n
            invariant
                0 <= i <= n,
                pos + n <= len,
                n == self.expected@.len(),
                len == input@.len(),
                want == input@.subrange(pos as int, pos + n as int),
                forall|j: int| 0 <= j < i ==> input@[pos + j] == self.expected@[j],
            decreases n - i,
        {
            if input.get_char(pos + i) != self.expected.as_str().get_char(i) {
                proof {
                    assert(want[i as int] == input@[pos + i]);
                    assert(want != self.expected@);
                }
                return Err(ParseError::new(pos, self.expected.as_str()));
            }
            i += 1;
        }
        proof {
            assert(want =~= self.expected@);
        }
        Ok((pos + n, self.expected.clone()))
    }
}

/// Builds the parser for exactly the text `expected`, yielding a copy of it.
pub fn string(expected: &str) -> (p: Literal)
    ensures
        p.expected@ == expected@,
{
    Literal { expected: expected.to_owned() }
}

/// Runs two parsers in sequence; succeeds with both values paired, in order.
/// If the second part fails, what the first consumed is not rolled back:
/// the failure is located where the second part failed, and backtracking is
/// the caller's responsibility (see [`Or`]).
pub struct Follow<A, B> {
    pub prev: A,
    pub succ: B,
}

impl<A: Parser, B: Parser> Parser for Follow<A, B> {
    type Value = (A::Value, B::Value);

    open spec fn spec_parse(&self, input: Seq<char>, pos: int) -> Option<
        (int, (<A::Value as DeepView>::V, <B::Value as DeepView>::V)),
    > {
        match self.prev.spec_parse(input, pos) {
            Some((mid, va)) => match self.succ.spec_parse(input, mid) {
                Some((end, vb)) => Some((end, (va, vb))),
                None => None,
            },
            None => None,
        }
    }

    open spec fn spec_fail_at(&self, input: Seq<char>, pos: int) -> int {
        match self.prev.spec_parse(input, pos) {
            Some((mid, _)) => self.succ.spec_fail_at(input, mid),
            None => self.prev.spec_fail_at(input, pos),
        }
    }

    open spec fn spec_expected(&self, input: Seq<char>, pos: int) -> Seq<char> {
        match self.prev.spec_parse(input, pos) {
            Some((mid, _)) => self.succ.spec_expected(input, mid),
            None => self.prev.spec_expected(input, pos),
        }
    }

    proof fn lemma_parse_bounds(&self, input: Seq<char>, pos: int) {
        self.prev.lemma_parse_bounds(input, pos);
        match self.prev.spec_parse(input, pos) {
            Some((mid, _)) => {
                self.succ.lemma_parse_bounds(input, mid);
            },
            None => {},
        }
    }

    fn parse(&self, input: &str, pos: usize) -> (r: Result<
        (usize, (A::Value, B::Value)),
        ParseError,
    >) {
        match self.prev.parse(input, pos) {
            Ok((mid, va)) => match self.succ.parse(input, mid) {
                Ok((end, vb)) => Ok((end, (va, vb))),
                Err(e) => Err(e),
            },
            Err(e) => Err(e),
        }
    }
}

/// Builds the sequencing of `prev` then `succ`, keeping both values.
pub fn follow<A: Parser, B: Parser>(prev: A, succ: B) -> (p: Follow<A, B>)
    ensures
        p == (Follow { prev, succ }),
{
    Follow { prev, succ }
}

/// Runs two parsers in sequence and keeps only the first value.
pub struct First<A, B> {
    pub prev: A,
    pub succ: B,
}

impl<A: Parser, B: Parser> Parser for First<A, B> {
    type Value = A::Value;

    open spec fn spec_parse(&self, input: Seq<char>, pos: int) -> Option<
        (int, <A::Value as DeepView>::V),
    > {
        match self.prev.spec_parse(input, pos) {
            Some((mid, va)) => match self.succ.spec_parse(input, mid) {
                Some((end, _)) => Some((end, va)),
                None => None,
            },
            None => None,
        }
    }

    open spec fn spec_fail_at(&self, input: Seq<char>, pos: int) -> int {
        match self.prev.spec_parse(input, pos) {
            Some((mid, _)) => self.succ.spec_fail_at(input, mid),
            None => self.prev.spec_fail_at(input, pos),
        }
    }

    open spec fn spec_expected(&self, input: Seq<char>, pos: int) -> Seq<char> {
        match self.prev.spec_parse(input, pos) {
            Some((mid, _)) => self.succ.spec_expected(input, mid),
            None => self.prev.spec_expected(input, pos),
        }
    }

    proof fn lemma_parse_bounds(&self, input: Seq<char>, pos: int) {
        self.prev.lemma_parse_bounds(input, pos);
        match self.prev.spec_parse(input, pos) {
            Some((mid, _)) => {
                self.succ.lemma_parse_bounds(input, mid);
            },
            None => {},
        }
    }

    fn parse(&self, input: &str, pos: usize) -> (r: Result<(usize, A::Value), ParseError>) {
        match self.prev.parse(input, pos) {
            Ok((mid, va)) => match self.succ.parse(input, mid) {
                Ok((end, _)) => Ok((end, va)),
                Err(e) => Err(e),
            },
            Err(e) => Err(e),
        }
    }
}

/// Runs two parsers in sequence and keeps only the second value.
pub struct Second<A, B> {
    pub prev: A,
    pub succ: B,
}

impl<A: Parser, B: Parser> Parser for Second<A, B> {
    type Value = B::Value;

    open spec fn spec_parse(&self, input: Seq<char>, pos: int) -> Option<
        (int, <B::Value as DeepView>::V),
    > {
        match self.prev.spec_parse(input, pos) {
            Some((mid, _)) => match self.succ.spec_parse(input, mid) {
                Some((end, vb)) => Some((end, vb)),
                None => None,
            },
            None => None,
        }
    }

    open spec fn spec_fail_at(&self, input: Seq<char>, pos: int) -> int {
        match self.prev.spec_parse(input, pos) {
            Some((mid, _)) => self.succ.spec_fail_at(input, mid),
            None => self.prev.spec_fail_at(input, pos),
        }
    }

    open spec fn spec_expected(&self, input: Seq<char>, pos: int) -> Seq<char> {
        match self.prev.spec_parse(input, pos) {
            Some((mid, _)) => self.succ.spec_expected(input, mid),
            None => self.prev.spec_expected(input, pos),
        }
    }

    proof fn lemma_parse_bounds(&self, input: Seq<char>, pos: int) {
        self.prev.lemma_parse_bounds(input, pos);
        match self.prev.spec_parse(input, pos) {
            Some((mid, _)) => {
                self.succ.lemma_parse_bounds(input, mid);
            },
            None => {},
        }
    }

    fn parse(&self, input: &str, pos: usize) -> (r: Result<(usize, B::Value), ParseError>) {
        match self.prev.parse(input, pos) {
            Ok((mid, _)) => match self.succ.parse(input, mid) {
                Ok((end, vb)) => Ok((end, vb)),
                Err(e) => Err(e),
            },
            Err(e) => Err(e),
        }
    }
}

/// Builds the sequencing of `prev` then `succ`, discarding the second value.
pub fn skip<A: Parser, B: Parser>(prev: A, succ: B) -> (p: First<A, B>)
    ensures
        p == (First { prev, succ }),
{
    First { prev, succ }
}

/// Builds the sequencing of `prev` then `succ`, discarding the first value.
pub fn drop<A: Parser, B: Parser>(prev: A, succ: B) -> (p: Second<A, B>)
    ensures
        p == (Second { prev, succ }),
{
    Second { prev, succ }
}

/// Builds `before`, then `parser`, then `after` in sequence, keeping only
/// `parser`'s value.
pub fn between<A: Parser, B: Parser, X: Parser>(before: A, after: B, parser: X) -> (p: First<
    Second<A, X>,
    B,
>)
    ensures
        p == (First { prev: Second { prev: before, succ: parser }, succ: after }),
{
    First { prev: Second { prev: before, succ: parser }, succ: after }
}

/// Ordered choice: attempts `prev`; on failure, attempts `succ` against the
/// same, original position — never against what the first branch partially
/// consumed. The first branch to succeed wins.
pub struct Or<A, B> {
    pub prev: A,
    pub succ: B,
}

impl<A, B> Or<A, B> {
    pub fn new(prev: A, succ: B) -> (p: Or<A, B>)
        ensures
            p == (Or { prev, succ }),
    {
        Or { prev, succ }
    }
}

impl<A: Parser, B: Parser<Value = A::Value>> Parser for Or<A, B> {
    type Value = A::Value;

    open spec fn spec_parse(&self, input: Seq<char>, pos: int) -> Option<
        (int, <A::Value as DeepView>::V),
    > {
        match self.prev.spec_parse(input, pos) {
            Some(r) => Some(r),
            None => self.succ.spec_parse(input, pos),
        }
    }

    open spec fn spec_fail_at(&self, input: Seq<char>, pos: int) -> int {
        self.succ.spec_fail_at(input, pos)
    }

    open spec fn spec_expected(&self, input: Seq<char>, pos: int) -> Seq<char> {
        self.succ.spec_expected(input, pos)
    }

    proof fn lemma_parse_bounds(&self, input: Seq<char>, pos: int) {
        self.prev.lemma_parse_bounds(input, pos);
        self.succ.lemma_parse_bounds(input, pos);
    }

    fn parse(&self, input: &str, pos: usize) -> (r: Result<(usize, A::Value), ParseError>) {
        match self.prev.parse(input, pos) {
            Ok(x) => Ok(x),
            Err(_) => self.succ.parse(input, pos),
        }
    }
}

/// Builds the ordered choice of `prev`, then `succ`.
pub fn either<A: Parser, B: Parser<Value = A::Value>>(prev: A, succ: B) -> (p: Or<A, B>)
    ensures
        p == (Or { prev, succ }),
{
    Or { prev, succ }
}

/// Builds the ordered choice of three parsers, tried left to right.
pub fn either3<A: Parser, B: Parser<Value = A::Value>, C: Parser<Value = A::Value>>(
    a: A,
    b: B,
    c: C,
) -> (p: Or<Or<A, B>, C>)
    ensures
        p == (Or { prev: Or { prev: a, succ: b }, succ: c }),
{
    Or { prev: Or { prev: a, succ: b }, succ: c }
}

/// Builds the ordered choice of four parsers, tried left to right.
pub fn either4<
    A: Parser,
    B: Parser<Value = A::Value>,
    C: Parser<Value = A::Value>,
    D: Parser<Value = A::Value>,
>(a: A, b: B, c: C, d: D) -> (p: Or<Or<Or<A, B>, C>, D>)
    ensures
        p == (Or { prev: Or { prev: Or { prev: a, succ: b }, succ: c }, succ: d }),
{
    Or { prev: Or { prev: Or { prev: a, succ: b }, succ: c }, succ: d }
}

/// A transformation of parsed values with a mathematical meaning: what
/// [`map`] applies to a parser's value. The executable `map` must agree
/// with `spec_map` exactly, so a mapped parser keeps an exact contract.
pub trait Morph: Sized {
    type Input: DeepView;

    type Output: DeepView;

    /// The mathematical meaning of the transformation.
    spec fn spec_map(&self, v: <Self::Input as DeepView>::V) -> <Self::Output as DeepView>::V;

    fn map(&self, v: Self::Input) -> (r: Self::Output)
        ensures
            r.deep_view() == self.spec_map(v.deep_view()),
    ;
}

/// Applies a transformation to a parser's value on success; failure passes
/// through unchanged.
pub struct Mapped<P, F> {
    pub parser: P,
    pub morph: F,
}

impl<P: Parser, F: Morph<Input = P::Value>> Parser for Mapped<P, F> {
    type Value = F::Output;

    open spec fn spec_parse(&self, input: Seq<char>, pos: int) -> Option<
        (int, <F::Output as DeepView>::V),
    > {
        match self.parser.spec_parse(input, pos) {
            Some((end, v)) => Some((end, self.morph.spec_map(v))),
            None => None,
        }
    }

    open spec fn spec_fail_at(&self, input: Seq<char>, pos: int) -> int {
        self.parser.spec_fail_at(input, pos)
    }

    open spec fn spec_expected(&self, input: Seq<char>, pos: int) -> Seq<char> {
        self.parser.spec_expected(input, pos)
    }

    proof fn lemma_parse_bounds(&self, input: Seq<char>, pos: int) {
        self.parser.lemma_parse_bounds(input, pos);
    }

    fn parse(&self, input: &str, pos: usize) -> (r: Result<(usize, F::Output), ParseError>) {
        match self.parser.parse(input, pos) {
            Ok((end, v)) => Ok((end, self.morph.map(v))),
            Err(e) => Err(e),
        }
    }
}

/// Builds the parser that runs `parser` and transforms its value by
/// `morph`.
pub fn map<P: Parser, F: Morph<Input = P::Value>>(parser: P, morph: F) -> (p: Mapped<P, F>)
    ensures
        p == (Mapped { parser, morph }),
{
    Mapped { parser, morph }
}

/// The repeated application of `p` from `pos`: the final position reached
/// and the values collected, one per successful application, stopping at the
/// first failure. An application that succeeds without consuming anything
/// would repeat forever; repetition instead treats it as the end, collecting
/// nothing further.
pub open spec fn spec_star<A: Parser>(p: A, input: Seq<char>, pos: int) -> (
    int,
    Seq<<A::Value as DeepView>::V>,
)
    decreases input.len() - pos,
{
    if pos < 0 || pos > input.len() {
        (pos, Seq::empty())
    } else {
        match p.spec_parse(input, pos) {
            None => (pos, Seq::empty()),
            Some((end, v)) => if pos < end <= input.len() {
                let rest = spec_star(p, input, end);
                (rest.0, seq![v] + rest.1)
            } else {
                (pos, Seq::empty())
            },
        }
    }
}

/// Repetition never moves backwards nor past the end of the input.
pub proof fn lemma_star_bounds<A: Parser>(p: A, input: Seq<char>, pos: int)
    requires
        0 <= pos <= input.len(),
    ensures
        pos <= spec_star(p, input, pos).0 <= input.len(),
    decreases input.len() - pos,
{
    match p.spec_parse(input, pos) {
        None => {},
        Some((end, _)) => {
            if pos < end <= input.len() {
                lemma_star_bounds(p, input, end);
            }
        },
    }
}

/// Applies `p` repeatedly from `pos`, collecting the values, until it fails
/// or stops consuming; never fails itself.
fn run_star<A: Parser>(p: &A, input: &str, pos: usize) -> (r: (usize, Vec<A::Value>))
    requires
        pos <= input@.len(),
    ensures
        spec_star(*p, input@, pos as int) == (r.0 as int, r.1.deep_view()),
        pos <= r.0 <= input@.len(),
{
    let mut cur = pos;
    let mut acc: Vec<A::Value> = Vec::new();
    loop
        invariant
            pos <= cur <= input@.len(),
            spec_star(*p, input@, pos as int).0 == spec_star(*p, input@, cur as int).0,
            spec_star(*p, input@, pos as int).1 == acc.deep_view() + spec_star(
                *p,
                input@,
                cur as int,
            ).1,
        ensures
            pos <= cur <= input@.len(),
            spec_star(*p, input@, pos as int) == (cur as int, acc.deep_view()),
        decreases input@.len() - cur,
    {
        match p.parse(input, cur) {
            Ok((end, v)) => {
                if end == cur {
                    proof {
                        assert(spec_star(*p, input@, cur as int).1 =~= Seq::<
                            <A::Value as DeepView>::V,
                        >::empty());
                        assert(acc.deep_view() + spec_star(*p, input@, cur as int).1
                            =~= acc.deep_view());
                    }
                    break ;
                }
                proof {
                    let ghost a0 = acc.deep_view();
                    let ghost dv = v.deep_view();
                    let ghost tail = spec_star(*p, input@, end as int).1;
                    assert(spec_star(*p, input@, cur as int).1 == seq![dv] + tail);
                    assert(a0 + (seq![dv] + tail) =~= (a0 + seq![dv]) + tail);
                }
                let ghost acc0 = acc.deep_view();
                acc.push(v);
                proof {
                    assert(acc.deep_view() =~= acc0 + seq![v.deep_view()]);
                }
                cur = end;
            },
            Err(_) => {
                proof {
                    assert(acc.deep_view() + spec_star(*p, input@, cur as int).1
                        =~= acc.deep_view());
                }
                break ;
            },
        }
    }
    (cur, acc)
}

/// Zero-or-more repetitions of a parser, collecting the values; always
/// succeeds, possibly with an empty result.
pub struct Any<A> {
    pub parser: A,
}

impl<A: Parser> Parser for Any<A> {
    type Value = Vec<A::Value>;

    open spec fn spec_parse(&self, input: Seq<char>, pos: int) -> Option<
        (int, Seq<<A::Value as DeepView>::V>),
    > {
        Some(spec_star(self.parser, input, pos))
    }

    open spec fn spec_fail_at(&self, input: Seq<char>, pos: int) -> int {
        pos
    }

    open spec fn spec_expected(&self, input: Seq<char>, pos: int) -> Seq<char> {
        self.parser.spec_expected(input, pos)
    }

    proof fn lemma_parse_bounds(&self, input: Seq<char>, pos: int) {
        lemma_star_bounds(self.parser, input, pos);
    }

    fn parse(&self, input: &str, pos: usize) -> (r: Result<(usize, Vec<A::Value>), ParseError>) {
        let out = run_star(&self.parser, input, pos);
        Ok(out)
    }
}

/// Builds the zero-or-more repetition of `parser`, collecting the values.
pub fn many<A: Parser>(parser: A) -> (p: Any<A>)
    ensures
        p == (Any { parser }),
{
    Any { parser }
}

/// One-or-more repetitions of a parser, collecting the values; fails, at the
/// start position, when not even one repetition succeeds there.
pub struct Several<A> {
    pub parser: A,
}

impl<A: Parser> Parser for Several<A> {
    type Value = Vec<A::Value>;

    open spec fn spec_parse(&self, input: Seq<char>, pos: int) -> Option<
        (int, Seq<<A::Value as DeepView>::V>),
    > {
        if spec_star(self.parser, input, pos).1.len() >= 1 {
            Some(spec_star(self.parser, input, pos))
        } else {
            None
        }
    }

    open spec fn spec_fail_at(&self, input: Seq<char>, pos: int) -> int {
        pos
    }

    open spec fn spec_expected(&self, input: Seq<char>, pos: int) -> Seq<char> {
        "some length should ge 1"@
    }

    proof fn lemma_parse_bounds(&self, input: Seq<char>, pos: int) {
        lemma_star_bounds(self.parser, input, pos);
    }

    fn parse(&self, input: &str, pos: usize) -> (r: Result<(usize, Vec<A::Value>), ParseError>) {
        let (end, values) = run_star(&self.parser, input, pos);
        proof {
            assert(values.deep_view().len() == values@.len());
        }
        if values.len() >= 1 {
            Ok((end, values))
        } else {
            Err(ParseError::new(pos, "some length should ge 1"))
        }
    }
}

/// Builds the one-or-more repetition of `parser`, collecting the values.
pub fn some<A: Parser>(parser: A) -> (p: Several<A>)
    ensures
        p == (Several { parser }),
{
    Several { parser }
}

/// Concatenates a list of strings into one.
fn concat_all(pieces: &Vec<String>) -> (r: String)
    ensures
        r@ == pieces.deep_view().flatten(),
{
    let mut buffer = String::new();
    let mut i: usize = 0;
    proof {
        assert(pieces.deep_view().subrange(0, 0) =~= Seq::<Seq<char>>::empty());
    }
    while i < pieces.len()
        invariant
            0 <= i <= pieces.len(),
            pieces.deep_view().len() == pieces@.len(),
            buffer@ == pieces.deep_view().subrange(0, i as int).flatten(),
        decreases pieces.len() - i,
    {
        proof {
            assert(pieces.deep_view().subrange(0, i + 1) =~= pieces.deep_view().subrange(
                0,
                i as int,
            ).push(pieces@[i as int]@));
            pieces.deep_view().subrange(0, i as int).lemma_flatten_push(pieces@[i as int]@);
        }
        buffer.append(pieces[i].as_str());
        i += 1;
    }
    proof {
        assert(pieces.deep_view().subrange(0, pieces@.len() as int) =~= pieces.deep_view());
    }
    buffer
}

/// Zero-or-more repetitions of a string-valued parser, concatenating the
/// matched fragments into one string; always succeeds. At the lexical level
/// a run of matched fragments denotes one contiguous token.
pub struct Asterisk<A> {
    pub parser: A,
}

impl<A: Parser<Value = String>> Parser for Asterisk<A> {
    type Value = String;

    open spec fn spec_parse(&self, input: Seq<char>, pos: int) -> Option<(int, Seq<char>)> {
        Some(
            (
                spec_star(self.parser, input, pos).0,
                spec_star(self.parser, input, pos).1.flatten(),
            ),
        )
    }

    open spec fn spec_fail_at(&self, input: Seq<char>, pos: int) -> int {
        pos
    }

    open spec fn spec_expected(&self, input: Seq<char>, pos: int) -> Seq<char> {
        self.parser.spec_expected(input, pos)
    }

    proof fn lemma_parse_bounds(&self, input: Seq<char>, pos: int) {
        lemma_star_bounds(self.parser, input, pos);
    }

    fn parse(&self, input: &str, pos: usize) -> (r: Result<(usize, String), ParseError>) {
        let (end, pieces) = run_star(&self.parser, input, pos);
        Ok((end, concat_all(&pieces)))
    }
}

/// Builds the zero-or-more repetition of `parser`, concatenating fragments.
pub fn asterisk<A: Parser<Value = String>>(parser: A) -> (p: Asterisk<A>)
    ensures
        p == (Asterisk { parser }),
{
    Asterisk { parser }
}

/// One-or-more repetitions of a string-valued parser, concatenating the
/// matched fragments; fails, at the start position, when not even one
/// repetition succeeds there.
pub struct Plus<A> {
    pub parser: A,
}

impl<A: Parser<Value = String>> Parser for Plus<A> {
    type Value = String;

    open spec fn spec_parse(&self, input: Seq<char>, pos: int) -> Option<(int, Seq<char>)> {
        if spec_star(self.parser, input, pos).1.len() >= 1 {
            Some(
                (
                    spec_star(self.parser, input, pos).0,
                    spec_star(self.parser, input, pos).1.flatten(),
                ),
            )
        } else {
            None
        }
    }

    open spec fn spec_fail_at(&self, input: Seq<char>, pos: int) -> int {
        pos
    }

    open spec fn spec_expected(&self, input: Seq<char>, pos: int) -> Seq<char> {
        "plus but failed at first"@
    }

    proof fn lemma_parse_bounds(&self, input: Seq<char>, pos: int) {
        lemma_star_bounds(self.parser, input, pos);
    }

    fn parse(&self, input: &str, pos: usize) -> (r: Result<(usize, String), ParseError>) {
        let (end, pieces) = run_star(&self.parser, input, pos);
        proof {
            assert(pieces.deep_view().len() == pieces@.len());
        }
        if pieces.len() >= 1 {
            Ok((end, concat_all(&pieces)))
        } else {
            Err(ParseError::new(pos, "plus but failed at first"))
        }
    }
}

/// Builds the one-or-more repetition of `parser`, concatenating fragments.
pub fn plus<A: Parser<Value = String>>(parser: A) -> (p: Plus<A>)
    ensures
        p == (Plus { parser }),
{
    Plus { parser }
}

/// Runs two string-valued parsers in sequence, concatenating their values.
pub struct Append<A, B> {
    pub prev: A,
    pub succ: B,
}

impl<A: Parser<Value = String>, B: Parser<Value = String>> Parser for Append<A, B> {
    type Value = String;

    open spec fn spec_parse(&self, input: Seq<char>, pos: int) -> Option<(int, Seq<char>)> {
        match self.prev.spec_parse(input, pos) {
            Some((mid, s)) => match self.succ.spec_parse(input, mid) {
                Some((end, t)) => Some((end, s + t)),
                None => None,
            },
            None => None,
        }
    }

    open spec fn spec_fail_at(&self, input: Seq<char>, pos: int) -> int {
        match self.prev.spec_parse(input, pos) {
            Some((mid, _)) => self.succ.spec_fail_at(input, mid),
            None => self.prev.spec_fail_at(input, pos),
        }
    }

    open spec fn spec_expected(&self, input: Seq<char>, pos: int) -> Seq<char> {
        match self.prev.spec_parse(input, pos) {
            Some((mid, _)) => self.succ.spec_expected(input, mid),
            None => self.prev.spec_expected(input, pos),
        }
    }

    proof fn lemma_parse_bounds(&self, input: Seq<char>, pos: int) {
        self.prev.lemma_parse_bounds(input, pos);
        match self.prev.spec_parse(input, pos) {
            Some((mid, _)) => {
                self.succ.lemma_parse_bounds(input, mid);
            },
            None => {},
        }
    }

    fn parse(&self, input: &str, pos: usize) -> (r: Result<(usize, String), ParseError>) {
        match self.prev.parse(input, pos) {
            Ok((mid, s)) => match self.succ.parse(input, mid) {
                Ok((end, t)) => Ok((end, s.concat(t.as_str()))),
                Err(e) => Err(e),
            },
            Err(e) => Err(e),
        }
    }
}

/// Builds the sequencing of two string-valued parsers, concatenating values.
pub fn append<A: Parser<Value = String>, B: Parser<Value = String>>(prev: A, succ: B) -> (p: Append<
    A,
    B,
>)
    ensures
        p == (Append { prev, succ }),
{
    Append { prev, succ }
}

/// Runs one string-valued parser twice in a row, concatenating the values.
pub struct Twice<A> {
    pub parser: A,
}

impl<A: Parser<Value = String>> Parser for Twice<A> {
    type Value = String;

    open spec fn spec_parse(&self, input: Seq<char>, pos: int) -> Option<(int, Seq<char>)> {
        match self.parser.spec_parse(input, pos) {
            Some((mid, s)) => match self.parser.spec_parse(input, mid) {
                Some((end, t)) => Some((end, s + t)),
                None => None,
            },
            None => None,
        }
    }

    open spec fn spec_fail_at(&self, input: Seq<char>, pos: int) -> int {
        match self.parser.spec_parse(input, pos) {
            Some((mid, _)) => self.parser.spec_fail_at(input, mid),
            None => self.parser.spec_fail_at(input, pos),
        }
    }

    open spec fn spec_expected(&self, input: Seq<char>, pos: int) -> Seq<char> {
        match self.parser.spec_parse(input, pos) {
            Some((mid, _)) => "twice but failed at second"@,
            None => "twice but failed at first"@,
        }
    }

    proof fn lemma_parse_bounds(&self, input: Seq<char>, pos: int) {
        self.parser.lemma_parse_bounds(input, pos);
        match self.parser.spec_parse(input, pos) {
            Some((mid, _)) => {
                self.parser.lemma_parse_bounds(input, mid);
            },
            None => {},
        }
    }

    fn parse(&self, input: &str, pos: usize) -> (r: Result<(usize, String), ParseError>) {
        match self.parser.parse(input, pos) {
            Ok((mid, s)) => match self.parser.parse(input, mid) {
                Ok((end, t)) => Ok((end, s.concat(t.as_str()))),
                Err(e) => Err(ParseError::new(e.location, "twice but failed at second")),
            },
            Err(e) => Err(ParseError::new(e.location, "twice but failed at first")),
        }
    }
}

/// Builds the twofold repetition of `parser`, concatenating the two values.
pub fn twice<A: Parser<Value = String>>(parser: A) -> (p: Twice<A>)
    ensures
        p == (Twice { parser }),
{
    Twice { parser }
}

/// Matches a fixed-length window of characters when it equals one of the
/// given choices; consumes exactly `len` characters on success and nothing
/// on failure. Fails when fewer than `len` characters remain.
pub struct FixedWindow {
    /// The window length, in characters.
    pub len: usize,
    /// The texts the window may equal; one of a length other than `len` can
    /// never match.
    pub choices: Vec<String>,
}

impl Parser for FixedWindow {
    type Value = String;

    open spec fn spec_parse(&self, input: Seq<char>, pos: int) -> Option<(int, Seq<char>)> {
        if pos + self.len <= input.len() && (exists|i: int|
            0 <= i < self.choices@.len() && self.choices@[i]@ == input.subrange(
                pos,
                pos + self.len,
            )) {
            Some((pos + self.len, input.subrange(pos, pos + self.len)))
        } else {
            None
        }
    }

    open spec fn spec_fail_at(&self, input: Seq<char>, pos: int) -> int {
        pos
    }

    open spec fn spec_expected(&self, input: Seq<char>, pos: int) -> Seq<char> {
        if pos + self.len <= input.len() {
            "#tokens-predicate"@
        } else {
            "#tokens-len \u{2264} input.len"@
        }
    }

    proof fn lemma_parse_bounds(&self, input: Seq<char>, pos: int) {
    }

    fn parse(&self, input: &str, pos: usize) -> (r: Result<(usize, String), ParseError>) {
        let total = input.unicode_len();
        if total - pos < self.len {
            return Err(ParseError::new(pos, "#tokens-len \u{2264} input.len"));
        }
        let endp = pos + self.len;
        let window = input.substring_char(pos, endp).to_owned();
        let mut i: usize = 0;
        while i < self.choices.len()
            invariant
                0 <= i <= self.choices@.len(),
                pos + self.len <= input@.len(),
                window@ == input@.subrange(pos as int, pos + self.len),
                endp == pos + self.len,
                forall|j: int| 0 <= j < i ==> self.choices@[j]@ != window@,
            decreases self.choices@.len() - i,
        {
            if self.choices[i].eq(&window) {
                proof {
                    assert(self.choices@[i as int]@ == input@.subrange(pos as int, pos + self.len));
                }
                return Ok((endp, window));
            }
            i += 1;
        }
        Err(ParseError::new(pos, "#tokens-predicate"))
    }
}

/// Builds the matcher for a `len`-character window equal to one of
/// `choices`.
pub fn tokens(len: usize, choices: Vec<String>) -> (p: FixedWindow)
    ensures
        p == (FixedWindow { len, choices }),
{
    FixedWindow { len, choices }
}

/// The end of the run of characters satisfying `pred` that starts at `pos`:
/// the first position at or after `pos` whose character fails `pred`, or the
/// input's end.
pub open spec fn spec_run(pred: Pred, input: Seq<char>, pos: int) -> int
    decreases input.len() - pos,
{
    if 0 <= pos < input.len() && pred.spec_holds(input[pos]) {
        spec_run(pred, input, pos + 1)
    } else {
        pos
    }
}

/// Repeating the one-character matcher for `pred` consumes exactly the run
/// of characters satisfying `pred`: one piece per character, concatenating
/// to precisely that stretch of the input.
pub proof fn lemma_token_run(pred: Pred, input: Seq<char>, pos: int)
    requires
        0 <= pos <= input.len(),
    ensures
        ({
            let run = spec_run(pred, input, pos);
            let star = spec_star(Stringify { parser: Satisfied { pred } }, input, pos);
            &&& pos <= run <= input.len()
            &&& star.0 == run
            &&& star.1.len() == run - pos
            &&& star.1.flatten() == input.subrange(pos, run)
            &&& (forall|i: int| pos <= i < run ==> pred.spec_holds(#[trigger] input[i]))
            &&& (run < input.len() ==> !pred.spec_holds(input[run]))
        }),
    decreases input.len() - pos,
{
    let run = spec_run(pred, input, pos);
    let p = Stringify { parser: Satisfied { pred } };
    let star = spec_star(p, input, pos);
    if pos < input.len() && pred.spec_holds(input[pos]) {
        lemma_token_run(pred, input, pos + 1);
        let rest = spec_star(p, input, pos + 1);
        let piece = seq![input[pos]];
        assert(star.1 == seq![piece] + rest.1);
        assert((seq![piece] + rest.1).first() == piece);
        assert((seq![piece] + rest.1).drop_first() =~= rest.1);
        assert(star.1.flatten() == piece + rest.1.flatten());
        assert(piece + input.subrange(pos + 1, run) =~= input.subrange(pos, run));
    } else {
        assert(star.1.flatten() =~= input.subrange(pos, pos));
    }
}

/// No consumption leaks across failure. A failed parse never hands a
/// position onward at all — failure carries only a located error — and each
/// primitive matcher reports that error at the very position its attempt
/// began, never at a partially advanced one. The same holds of one-or-more
/// repetition. (Sequencing is the one deliberate exception: a failure of
/// its later part is reported where that part failed, and backtracking from
/// it is the caller's responsibility — see [`lemma_alternation_order`] for
/// how ordered choice restarts at the original position.)
pub proof fn lemma_no_consumption_on_failure<A: Parser, S: Parser<Value = String>>(
    sat: Satisfied,
    lit: Literal,
    win: FixedWindow,
    several: Several<A>,
    rep: Plus<S>,
    input: Seq<char>,
    pos: int,
)
    ensures
        sat.spec_fail_at(input, pos) == pos,
        lit.spec_fail_at(input, pos) == pos,
        win.spec_fail_at(input, pos) == pos,
        several.spec_fail_at(input, pos) == pos,
        rep.spec_fail_at(input, pos) == pos,
{
}

/// Alternation order: when the first branch matches, ordered choice
/// returns the first branch's result, never the second's; when the first
/// branch fails, the choice is exactly the second branch attempted at the
/// same, original position — never at whatever the first branch had
/// partially consumed.
pub proof fn lemma_alternation_order<A: Parser, B: Parser<Value = A::Value>>(
    or: Or<A, B>,
    input: Seq<char>,
    pos: int,
)
    ensures
        or.prev.spec_parse(input, pos) is Some ==> or.spec_parse(input, pos) == or.prev.spec_parse(
            input,
            pos,
        ),
        or.prev.spec_parse(input, pos) is None ==> or.spec_parse(input, pos) == or.succ.spec_parse(
            input,
            pos,
        ),
{
}

/// Repetition totality: zero-or-more repetition never fails, and
/// one-or-more repetition fails exactly when its parser makes no progress
/// on the very first attempt — it fails there, or (the zero-width guard)
/// succeeds without consuming anything.
pub proof fn lemma_repetition_totality<A: Parser>(
    star: Any<A>,
    several: Several<A>,
    input: Seq<char>,
    pos: int,
)
    requires
        0 <= pos <= input.len(),
        star.parser == several.parser,
    ensures
        star.spec_parse(input, pos) is Some,
        several.spec_parse(input, pos) is None <==> (match several.parser.spec_parse(input, pos) {
            None => true,
            Some((end, _)) => end == pos,
        }),
{
    several.parser.lemma_parse_bounds(input, pos);
}

/// Repetition totality for the concatenating forms: zero-or-more never
/// fails, and one-or-more fails exactly when its parser makes no progress
/// on the very first attempt.
pub proof fn lemma_repetition_totality_concat<A: Parser<Value = String>>(
    star: Asterisk<A>,
    rep: Plus<A>,
    input: Seq<char>,
    pos: int,
)
    requires
        0 <= pos <= input.len(),
        star.parser == rep.parser,
    ensures
        star.spec_parse(input, pos) is Some,
        rep.spec_parse(input, pos) is None <==> (match rep.parser.spec_parse(input, pos) {
            None => true,
            Some((end, _)) => end == pos,
        }),
{
    rep.parser.lemma_parse_bounds(input, pos);
}

/// The zero-width guard: repeating a parser that succeeds without
/// consuming anything does not loop forever; the repetition stops at once,
/// having collected nothing.
pub proof fn lemma_zero_width_guard<A: Parser>(star: Any<A>, input: Seq<char>, pos: int)
    requires
        0 <= pos <= input.len(),
    ensures
        (match star.parser.spec_parse(input, pos) {
            Some((end, _)) => end == pos ==> star.spec_parse(input, pos) == Some(
                (pos, Seq::<<A::Value as DeepView>::V>::empty()),
            ),
            None => star.spec_parse(input, pos) == Some(
                (pos, Seq::<<A::Value as DeepView>::V>::empty()),
            ),
        }),
{
}

/// What the contract of every `parse` method says of its result: success
/// returns exactly what `spec_parse` yields, within bounds, and failure is
/// located at `spec_fail_at`. Named so that functions which run a parser can
/// state the same thing of their own result.
pub open spec fn matches_parser<A: Parser>(
    p: A,
    input: Seq<char>,
    pos: int,
    r: Result<(usize, A::Value), ParseError>,
) -> bool {
    match r {
        Ok((end, v)) => p.spec_parse(input, pos) == Some((end as int, v.deep_view())) && pos <= end
            <= input.len(),
        Err(e) => p.spec_parse(input, pos) is None && e.location == p.spec_fail_at(input, pos)
            && e.expected@ == p.spec_expected(input, pos),
    }
}

} // verus!
