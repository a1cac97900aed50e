//! The expectation descriptions that failures carry, now fixed by the
//! contracts: each matcher's text, the exact-character form naming its
//! character, and the texts of the repetition and twice combinators.

use accel_parsec::accelerator::{add_expr, arrow, function, parameters, IdentifiersOf};
use accel_parsec::ast::Expr;
use accel_parsec::combinators::soft;
use accel_parsec::parsec::{
    append, asterisk, character, piece, plus, some, string, token, tokens, twice, Parser, Pred,
};

#[test]
fn predicate_matcher_reports_its_class_text() {
    let e = token(Pred::Digit).parse("x", 0).unwrap_err();
    assert_eq!(e.expected, "#token-predicate".to_string());
    let e = piece(Pred::Quotes).parse("x", 0).unwrap_err();
    assert_eq!(e.expected, "#token-predicate".to_string());
}

#[test]
fn exact_character_matcher_names_the_character() {
    let e = character('(').parse("x", 0).unwrap_err();
    assert_eq!(e.expected, "start with '('".to_string());
    let e = character(' ').parse("x", 0).unwrap_err();
    assert_eq!(e.expected, "start with ' '".to_string());
}

#[test]
fn literal_matcher_reports_the_literal_itself() {
    let e = string("abc").parse("abx", 0).unwrap_err();
    assert_eq!(e.expected, "abc".to_string());
}

#[test]
fn window_matcher_reports_guard_and_predicate_texts() {
    let p = tokens(2, vec!["->".to_string(), "=>".to_string()]);
    let e = p.parse("-", 0).unwrap_err();
    assert_eq!(e.expected, "#tokens-len \u{2264} input.len".to_string());
    let e = p.parse(">-", 0).unwrap_err();
    assert_eq!(e.expected, "#tokens-predicate".to_string());
}

#[test]
fn one_or_more_matchers_report_their_texts() {
    let e = some(character('a')).parse("b", 0).unwrap_err();
    assert_eq!(e.expected, "some length should ge 1".to_string());
    let e = plus(character('a')).parse("b", 0).unwrap_err();
    assert_eq!(e.expected, "plus but failed at first".to_string());
}

#[test]
fn twice_reports_which_attempt_failed() {
    let p = twice(character('a'));
    let e = p.parse("ba", 0).unwrap_err();
    assert_eq!(e.location, 0);
    assert_eq!(e.expected, "twice but failed at first".to_string());
    let e = p.parse("ab", 0).unwrap_err();
    assert_eq!(e.location, 1);
    assert_eq!(e.expected, "twice but failed at second".to_string());
}

#[test]
fn grammar_failures_carry_their_part_texts() {
    let e = add_expr("x", 0).unwrap_err();
    assert_eq!(e.expected, "start with '+'".to_string());
    let e = arrow(" >- ", 0).unwrap_err();
    assert_eq!(e.expected, "#tokens-predicate".to_string());
    let e = arrow("-", 0).unwrap_err();
    assert_eq!(e.expected, "#tokens-len \u{2264} input.len".to_string());
    let e = parameters("->", 0).unwrap_err();
    assert_eq!(e.expected, "some length should ge 1".to_string());
    let e = function("x y", 0).unwrap_err();
    assert_eq!(e.expected, "#tokens-len \u{2264} input.len".to_string());
}

#[test]
fn mapped_parser_passes_errors_through_and_maps_values() {
    let ident = append(
        token(Pred::IdentifierHead),
        asterisk(token(Pred::IdentifierBody)),
    );
    let p = accel_parsec::parsec::map(some(soft(ident)), IdentifiersOf);
    let (end, values) = p.parse("a b", 0).unwrap();
    assert_eq!(end, 3);
    assert_eq!(
        values,
        vec![
            Expr::Identifier("a".to_string()),
            Expr::Identifier("b".to_string()),
        ]
    );
    let e = p.parse("2", 0).unwrap_err();
    assert_eq!(e.location, 0);
    assert_eq!(e.expected, "some length should ge 1".to_string());
}
