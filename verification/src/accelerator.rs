//! The accelerator expression grammar: primary expressions, binary
//! addition, parameter lists, arrow tokens and anonymous functions,
//! assembled from the combinator core and the lexical rules.
//!
//! Each grammar function is mirrored by a spec function over the input and
//! start position; the executable function is proved to return exactly what
//! its mirror yields, trying alternatives in the stated order with the
//! first success winning, and failing — without consuming — otherwise.

use crate::ast::{
    params_well_formed, spec_exprs_of, lemma_spec_exprs_of, BinaryExpr, Expr, FunctionExpr,
    ParenExpr, SpecExpr,
};
use crate::combinators::{soft, space_parser, spec_soft};
use crate::parsec::{
    asterisk, lemma_token_run, plus, some, spec_star, token, tokens, Append, Asterisk, First,
    Mapped, Morph, Parser, ParseError, Plus, Pred, Satisfied, Second, Several, Stringify,
};
use crate::tokenizer::{identifier, identifier_parser, string_content_parser};
use vstd::prelude::*;

verus! {

/// The parser for a non-empty digit run.
pub open spec fn digit_plus_parser() -> Plus<Stringify<Satisfied>> {
    Plus { parser: Stringify { parser: Satisfied { pred: Pred::Digit } } }
}

/// The parser for the `+` infix token: `+` with optional spaces around it.
pub open spec fn plus_infix_parser() -> First<
    Second<Asterisk<Stringify<Satisfied>>, Stringify<Satisfied>>,
    Asterisk<Stringify<Satisfied>>,
> {
    spec_soft(Stringify { parser: Satisfied { pred: Pred::Char('+') } })
}

/// The parser for a non-empty list of identifiers, each with optional
/// spaces around it.
pub open spec fn params_parser() -> Several<
    First<
        Second<
            Asterisk<Stringify<Satisfied>>,
            Append<Stringify<Satisfied>, Asterisk<Stringify<Satisfied>>>,
        >,
        Asterisk<Stringify<Satisfied>>,
    >,
> {
    Several { parser: spec_soft(identifier_parser()) }
}

/// The numeric value of a digit string, read in base ten.
pub open spec fn spec_digits_value(s: Seq<char>) -> int
    decreases s.len(),
{
    if s.len() == 0 {
        0
    } else {
        spec_digits_value(s.drop_last()) * 10 + (s.last() as u32 - 48)
    }
}

/// The value of a digit string is never negative.
proof fn lemma_digits_value_nonneg(s: Seq<char>)
    requires
        forall|i: int| 0 <= i < s.len() ==> Pred::Digit.spec_holds(#[trigger] s[i]),
    ensures
        spec_digits_value(s) >= 0,
    decreases s.len(),
{
    if s.len() > 0 {
        assert(forall|i: int|
            0 <= i < s.drop_last().len() ==> Pred::Digit.spec_holds(#[trigger] s.drop_last()[i]));
        lemma_digits_value_nonneg(s.drop_last());
        assert(Pred::Digit.spec_holds(s.last()));
    }
}

/// Reading one more digit multiplies the prefix value by ten and adds it.
proof fn lemma_digits_prefix_step(s: Seq<char>, i: int)
    requires
        0 <= i < s.len(),
    ensures
        spec_digits_value(s.subrange(0, i + 1)) == spec_digits_value(s.subrange(0, i)) * 10 + (
        s[i] as u32 - 48),
{
    assert(s.subrange(0, i + 1).drop_last() =~= s.subrange(0, i));
    assert(s.subrange(0, i + 1).last() == s[i]);
}

/// The value of a digit string is at least the value of any of its
/// prefixes.
proof fn lemma_digits_value_grows(s: Seq<char>, i: int)
    requires
        forall|j: int| 0 <= j < s.len() ==> Pred::Digit.spec_holds(#[trigger] s[j]),
        0 <= i <= s.len(),
    ensures
        spec_digits_value(s) >= spec_digits_value(s.subrange(0, i)),
    decreases s.len() - i,
{
    if i == s.len() {
        assert(s.subrange(0, i) =~= s);
    } else {
        lemma_digits_prefix_step(s, i);
        assert(forall|j: int|
            0 <= j < s.subrange(0, i).len() ==> Pred::Digit.spec_holds(
                #[trigger] s.subrange(0, i)[j],
            ));
        lemma_digits_value_nonneg(s.subrange(0, i));
        lemma_digits_value_grows(s, i + 1);
    }
}

/// Reads the base-ten value of a digit string into an `i64`; reports when
/// the value is too large for one.
fn digits_to_i64(digits: &str) -> (r: Option<i64>)
    requires
        digits@.len() >= 1,
        forall|i: int| 0 <= i < digits@.len() ==> Pred::Digit.spec_holds(#[trigger] digits@[i]),
    ensures
        (match r {
            Some(n) => n as int == spec_digits_value(digits@),
            None => spec_digits_value(digits@) > i64::MAX,
        }),
{
    let n = digits.unicode_len();
    let mut acc: i64 = 0;
    let mut i: usize = 0;
    proof {
        assert(digits@.subrange(0, 0) =~= Seq::<char>::empty());
    }
    while i < n
        invariant
            0 <= i <= n,
            n == digits@.len(),
            forall|k: int| 0 <= k < digits@.len() ==> Pred::Digit.spec_holds(#[trigger] digits@[k]),
            acc >= 0,
            acc as int == spec_digits_value(digits@.subrange(0, i as int)),
        decreases n - i,
    {
        let c = digits.get_char(i);
        proof {
            assert(Pred::Digit.spec_holds(digits@[i as int]));
        }
        let d = (c as u32) - 48;
        proof {
            lemma_digits_prefix_step(digits@, i as int);
        }
        let scaled = match acc.checked_mul(10) {
            Some(x) => x,
            None => {
                proof {
                    lemma_digits_value_grows(digits@, i + 1);
                }
                return None;
            },
        };
        let next = match scaled.checked_add(d as i64) {
            Some(x) => x,
            None => {
                proof {
                    lemma_digits_value_grows(digits@, i + 1);
                }
                return None;
            },
        };
        acc = next;
        i += 1;
    }
    proof {
        assert(digits@.subrange(0, n as int) =~= digits@);
    }
    Some(acc)
}

/// The primary expression at `pos`: a parenthesized expression, an
/// identifier, an integer literal, or bare string content — tried in that
/// order, first success winning. An integer literal too large for an `i64`
/// is not an integer; its digits then read as string content.
pub open spec fn spec_primary_expr(input: Seq<char>, pos: int) -> Option<(int, SpecExpr)>
    decreases input.len() - pos, 1int,
{
    let paren = if 0 <= pos && pos < input.len() && input[pos] == '(' {
        match spec_expr(input, pos + 1) {
            Some((mid, inner)) => if mid < input.len() && input[mid] == ')' {
                Some((mid + 1, SpecExpr::Paren(Box::new(inner))))
            } else {
                None
            },
            None => None,
        }
    } else {
        None
    };
    match paren {
        Some(r) => Some(r),
        None => match identifier_parser().spec_parse(input, pos) {
            Some((end, text)) => Some((end, SpecExpr::Identifier(text))),
            None => {
                let number = match digit_plus_parser().spec_parse(input, pos) {
                    Some((end, dtext)) => if spec_digits_value(dtext) <= i64::MAX {
                        Some((end, SpecExpr::Integer(spec_digits_value(dtext))))
                    } else {
                        None
                    },
                    None => None,
                };
                match number {
                    Some(r) => Some(r),
                    None => match string_content_parser().spec_parse(input, pos) {
                        Some((end, text)) => Some((end, SpecExpr::StringLit(text))),
                        None => None,
                    },
                }
            },
        },
    }
}

/// The addition at `pos`: a primary expression, the `+` infix token, and a
/// second primary expression.
pub open spec fn spec_add_expr(input: Seq<char>, pos: int) -> Option<(int, SpecExpr)>
    decreases input.len() - pos, 2int,
{
    match spec_primary_expr(input, pos) {
        None => None,
        Some((p1, lhs)) => match plus_infix_parser().spec_parse(input, p1) {
            None => None,
            Some((p2, op)) => if pos <= p2 <= input.len() {
                match spec_primary_expr(input, p2) {
                    None => None,
                    Some((p3, rhs)) => Some(
                        (p3, SpecExpr::Add(op, Box::new(lhs), Box::new(rhs))),
                    ),
                }
            } else {
                None
            },
        },
    }
}

/// Where a failed addition is reported: at the start when no left operand
/// stands there, at the infix token's position when that is missing, and at
/// the right operand's position when that is missing.
pub open spec fn spec_add_expr_fail_at(input: Seq<char>, pos: int) -> int {
    match spec_primary_expr(input, pos) {
        None => pos,
        Some((p1, _)) => match plus_infix_parser().spec_parse(input, p1) {
            None => plus_infix_parser().spec_fail_at(input, p1),
            Some((p2, _)) => p2,
        },
    }
}

/// The description a failed addition carries: the missing-operand text
/// where an operand is missing, the infix token's expectation where that is
/// missing.
pub open spec fn spec_add_expr_fail_expected(input: Seq<char>, pos: int) -> Seq<char> {
    match spec_primary_expr(input, pos) {
        None => "plus but failed at first"@,
        Some((p1, _)) => match plus_infix_parser().spec_parse(input, p1) {
            None => plus_infix_parser().spec_expected(input, p1),
            Some((p2, _)) => "plus but failed at first"@,
        },
    }
}

/// The expression at `pos`: an addition, or failing that a primary
/// expression — addition first, so that `x+y` is not read as just `x`.
pub open spec fn spec_expr(input: Seq<char>, pos: int) -> Option<(int, SpecExpr)>
    decreases input.len() - pos, 3int,
{
    match spec_add_expr(input, pos) {
        Some(r) => Some(r),
        None => spec_primary_expr(input, pos),
    }
}

/// The arrow token at `pos`: optional spaces, then `->` or `=>`, then
/// optional spaces; its value is the two arrow characters.
pub open spec fn spec_arrow(input: Seq<char>, pos: int) -> Option<(int, Seq<char>)> {
    if 0 <= pos <= input.len() {
        let p1 = spec_star(space_parser(), input, pos).0;
        if p1 + 2 <= input.len() && (input.subrange(p1, p1 + 2) == "->"@ || input.subrange(
            p1,
            p1 + 2,
        ) == "=>"@) {
            Some((spec_star(space_parser(), input, p1 + 2).0, input.subrange(p1, p1 + 2)))
        } else {
            None
        }
    } else {
        None
    }
}

/// Where a missing arrow is reported: after the spaces preceding it.
pub open spec fn spec_arrow_fail_at(input: Seq<char>, pos: int) -> int {
    spec_star(space_parser(), input, pos).0
}

/// The description a missing arrow carries: the window matcher's
/// expectation, naming its length guard when too little input remains.
pub open spec fn spec_arrow_fail_expected(input: Seq<char>, pos: int) -> Seq<char> {
    if spec_star(space_parser(), input, pos).0 + 2 <= input.len() {
        "#tokens-predicate"@
    } else {
        "#tokens-len \u{2264} input.len"@
    }
}

/// The parameter list at `pos`: one or more identifiers, each with optional
/// spaces around it, each wrapped as an `Identifier` node.
pub open spec fn spec_parameters(input: Seq<char>, pos: int) -> Option<(int, Seq<SpecExpr>)> {
    match params_parser().spec_parse(input, pos) {
        Some((end, texts)) => Some(
            (end, texts.map_values(|t: Seq<char>| SpecExpr::Identifier(t))),
        ),
        None => None,
    }
}

/// The anonymous function at `pos`: a parameter list, an arrow token
/// (discarded), and a body expression.
pub open spec fn spec_function(input: Seq<char>, pos: int) -> Option<(int, SpecExpr)> {
    match spec_parameters(input, pos) {
        None => None,
        Some((p1, params)) => match spec_arrow(input, p1) {
            None => None,
            Some((p2, _)) => if 0 <= p2 <= input.len() {
                match spec_expr(input, p2) {
                    None => None,
                    Some((p3, body)) => Some((p3, SpecExpr::Function(params, Box::new(body)))),
                }
            } else {
                None
            },
        },
    }
}

/// Where a failed function is reported: at the start when the parameter
/// list is missing, where the arrow was expected when that is missing, and
/// at the body's position when that is missing.
pub open spec fn spec_function_fail_at(input: Seq<char>, pos: int) -> int {
    match spec_parameters(input, pos) {
        None => pos,
        Some((p1, _)) => match spec_arrow(input, p1) {
            None => spec_arrow_fail_at(input, p1),
            Some((p2, _)) => p2,
        },
    }
}

/// The description a failed function carries, by the part that failed:
/// parameter list, arrow, or body.
pub open spec fn spec_function_fail_expected(input: Seq<char>, pos: int) -> Seq<char> {
    match spec_parameters(input, pos) {
        None => "some length should ge 1"@,
        Some((p1, _)) => match spec_arrow(input, p1) {
            None => spec_arrow_fail_expected(input, p1),
            Some((p2, _)) => "plus but failed at first"@,
        },
    }
}

/// Matches a primary expression: a parenthesized expression, an identifier,
/// an integer literal, or bare string content — in that order.
pub fn primary_expr(input: &str, pos: usize) -> (r: Result<(usize, Expr), ParseError>)
    requires
        pos <= input@.len(),
    ensures
        (match r {
            Ok((end, e)) => spec_primary_expr(input@, pos as int) == Some(
                (end as int, e.deep_view()),
            ) && pos <= end <= input@.len(),
            Err(err) => spec_primary_expr(input@, pos as int) is None && err.location == pos
                && err.expected@ == "plus but failed at first"@,
        }),
    decreases input@.len() - pos, 1int,
{
    let len = input.unicode_len();
    if pos < len && input.get_char(pos) == '(' {
        match expr(input, pos + 1) {
            Ok((mid, inner)) => {
                if mid < len && input.get_char(mid) == ')' {
                    return Ok((mid + 1, Expr::Paren(Box::new(ParenExpr { expr: inner }))));
                }
            },
            Err(_) => {},
        }
    }
    match identifier(input, pos) {
        Ok((end, text)) => {
            return Ok((end, Expr::Identifier(text)));
        },
        Err(_) => {},
    }
    match plus(token(Pred::Digit)).parse(input, pos) {
        Ok((end, digits)) => {
            proof {
                lemma_token_run(Pred::Digit, input@, pos as int);
            }
            match digits_to_i64(digits.as_str()) {
                Some(n) => {
                    return Ok((end, Expr::Integer(n)));
                },
                None => {},
            }
        },
        Err(_) => {},
    }
    match plus(token(Pred::StringContent)).parse(input, pos) {
        Ok((end, text)) => Ok((end, Expr::StringLit(text))),
        Err(e) => Err(e),
    }
}

/// Matches an addition: a primary expression, a `+` with optional spaces
/// around it, and a second primary expression, building an `Add` node
/// tagged with the matched operator symbol.
pub fn add_expr(input: &str, pos: usize) -> (r: Result<(usize, Expr), ParseError>)
    requires
        pos <= input@.len(),
    ensures
        (match r {
            Ok((end, e)) => spec_add_expr(input@, pos as int) == Some((end as int, e.deep_view()))
                && pos <= end <= input@.len(),
            Err(err) => spec_add_expr(input@, pos as int) is None && err.location
                == spec_add_expr_fail_at(input@, pos as int) && err.expected@
                == spec_add_expr_fail_expected(input@, pos as int),
        }),
    decreases input@.len() - pos, 2int,
{
    let (p1, lhs) = match primary_expr(input, pos) {
        Ok(x) => x,
        Err(e) => {
            return Err(e);
        },
    };
    let (p2, op) = match soft(character_plus()).parse(input, p1) {
        Ok(x) => x,
        Err(e) => {
            return Err(e);
        },
    };
    let (p3, rhs) = match primary_expr(input, p2) {
        Ok(x) => x,
        Err(e) => {
            return Err(e);
        },
    };
    Ok((p3, Expr::Add(Box::new(BinaryExpr { operator: op, lhs, rhs }))))
}

/// The matcher for the bare `+` character.
fn character_plus() -> (p: Stringify<Satisfied>)
    ensures
        p == (Stringify { parser: Satisfied { pred: Pred::Char('+') } }),
{
    token(Pred::Char('+'))
}

/// Matches an expression: an addition, or failing that a primary
/// expression.
pub fn expr(input: &str, pos: usize) -> (r: Result<(usize, Expr), ParseError>)
    requires
        pos <= input@.len(),
    ensures
        (match r {
            Ok((end, e)) => spec_expr(input@, pos as int) == Some((end as int, e.deep_view()))
                && pos <= end <= input@.len(),
            Err(err) => spec_expr(input@, pos as int) is None && err.location == pos
                && err.expected@ == "plus but failed at first"@,
        }),
    decreases input@.len() - pos, 3int,
{
    match add_expr(input, pos) {
        Ok(x) => Ok(x),
        Err(_) => primary_expr(input, pos),
    }
}

/// Matches the arrow token: `->` or `=>` with optional spaces around it.
/// Which of the two spellings appears does not matter to the grammar.
pub fn arrow(input: &str, pos: usize) -> (r: Result<(usize, String), ParseError>)
    requires
        pos <= input@.len(),
    ensures
        (match r {
            Ok((end, s)) => spec_arrow(input@, pos as int) == Some((end as int, s@)) && pos <= end
                <= input@.len(),
            Err(e) => spec_arrow(input@, pos as int) is None && e.location == spec_arrow_fail_at(
                input@,
                pos as int,
            ) && e.expected@ == spec_arrow_fail_expected(input@, pos as int),
        }),
{
    let choices = vec!["->".to_owned(), "=>".to_owned()];
    let window = tokens(2, choices);
    let ghost gw = window;
    let parser = soft(window);
    let r = parser.parse(input, pos);
    proof {
        let p1 = spec_star(space_parser(), input@, pos as int).0;
        crate::parsec::lemma_star_bounds(space_parser(), input@, pos as int);
        assert(gw.choices@.len() == 2);
        assert(gw.choices@[0]@ == "->"@);
        assert(gw.choices@[1]@ == "=>"@);
        if p1 + 2 <= input@.len() {
            let sub = input@.subrange(p1, p1 + 2);
            if exists|i: int| 0 <= i < gw.choices@.len() && gw.choices@[i]@ == sub {
                let i = choose|i: int| 0 <= i < gw.choices@.len() && gw.choices@[i]@ == sub;
                assert(i == 0 || i == 1);
                assert(sub == "->"@ || sub == "=>"@);
            } else {
                if sub == "->"@ {
                    assert(0 <= 0 < gw.choices@.len() && gw.choices@[0]@ == sub);
                    assert(false);
                }
                if sub == "=>"@ {
                    assert(0 <= 1 < gw.choices@.len() && gw.choices@[1]@ == sub);
                    assert(false);
                }
            }
        }
    }
    r
}

/// The transformation from a list of identifier texts to a list of
/// `Identifier` nodes, elementwise.
pub struct IdentifiersOf;

impl Morph for IdentifiersOf {
    type Input = Vec<String>;

    type Output = Vec<Expr>;

    open spec fn spec_map(&self, texts: Seq<Seq<char>>) -> Seq<SpecExpr> {
        texts.map_values(|t: Seq<char>| SpecExpr::Identifier(t))
    }

    fn map(&self, texts: Vec<String>) -> (r: Vec<Expr>) {
        let mut out: Vec<Expr> = Vec::new();
        let mut i: usize = 0;
        while i < texts.len()
            invariant
                0 <= i <= texts@.len(),
                out@.len() == i,
                forall|j: int| 0 <= j < i ==> out@[j] == Expr::Identifier(texts@[j]),
            decreases texts@.len() - i,
        {
            out.push(Expr::Identifier(texts[i].clone()));
            i += 1;
        }
        proof {
            assert(out.deep_view() =~= texts.deep_view().map_values(
                |t: Seq<char>| SpecExpr::Identifier(t),
            ));
        }
        out
    }
}

/// Matches the parameter list: one or more identifiers, each with optional
/// spaces around it, wrapping each as an `Identifier` node. The list is
/// never empty, and every element is an `Identifier`.
pub fn parameters(input: &str, pos: usize) -> (r: Result<(usize, Vec<Expr>), ParseError>)
    requires
        pos <= input@.len(),
    ensures
        (match r {
            Ok((end, ps)) => spec_parameters(input@, pos as int) == Some(
                (end as int, ps.deep_view()),
            ) && pos <= end <= input@.len() && params_well_formed(ps.deep_view()),
            Err(e) => spec_parameters(input@, pos as int) is None && e.location == pos
                && e.expected@ == "some length should ge 1"@,
        }),
{
    let parser = crate::parsec::map(some(soft(identifier_combinator())), IdentifiersOf);
    parser.parse(input, pos)
}

/// The matcher for a bare identifier token.
fn identifier_combinator() -> (p: Append<Stringify<Satisfied>, Asterisk<Stringify<Satisfied>>>)
    ensures
        p == identifier_parser(),
{
    crate::parsec::append(
        token(Pred::IdentifierHead),
        asterisk(token(Pred::IdentifierBody)),
    )
}

/// Matches an anonymous function: a parameter list, an arrow token
/// (discarded), and a body expression, building a `Function` node. The
/// node's parameter list is non-empty and all of its elements are
/// `Identifier` nodes.
pub fn function(input: &str, pos: usize) -> (r: Result<(usize, Expr), ParseError>)
    requires
        pos <= input@.len(),
    ensures
        (match r {
            Ok((end, e)) => spec_function(input@, pos as int) == Some((end as int, e.deep_view()))
                && pos <= end <= input@.len(),
            Err(err) => spec_function(input@, pos as int) is None && err.location
                == spec_function_fail_at(input@, pos as int) && err.expected@
                == spec_function_fail_expected(input@, pos as int),
        }),
{
    let (p1, params) = match parameters(input, pos) {
        Ok(x) => x,
        Err(e) => {
            return Err(e);
        },
    };
    let (p2, _) = match arrow(input, p1) {
        Ok(x) => x,
        Err(e) => {
            return Err(e);
        },
    };
    let (p3, body) = match expr(input, p2) {
        Ok(x) => x,
        Err(e) => {
            return Err(e);
        },
    };
    proof {
        lemma_spec_exprs_of(params@);
        assert(spec_exprs_of(params@) =~= params.deep_view());
    }
    Ok((p3, Expr::Function(Box::new(FunctionExpr { params, body }))))
}

} // verus!

