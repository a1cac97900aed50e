//! The accelerator grammar: literal inputs and the expression trees they
//! must produce.

use accel_parsec::accelerator::{add_expr, arrow, expr, function, parameters, primary_expr};
use accel_parsec::ast::{BinaryExpr, Expr, FunctionExpr, ParenExpr};

fn ident(name: &str) -> Expr {
    Expr::Identifier(name.to_string())
}

fn add(operator: &str, lhs: Expr, rhs: Expr) -> Expr {
    Expr::Add(Box::new(BinaryExpr { operator: operator.to_string(), lhs, rhs }))
}

#[test]
fn bare_identifier_parses_as_identifier() {
    let (end, e) = expr("x", 0).unwrap();
    assert_eq!(end, 1);
    assert_eq!(e, ident("x"));
}

#[test]
fn parenthesized_identifier_keeps_wrapper_node() {
    let (end, e) = expr("(x)", 0).unwrap();
    assert_eq!(end, 3);
    assert_eq!(e, Expr::Paren(Box::new(ParenExpr { expr: ident("x") })));
}

#[test]
fn addition_without_spaces() {
    let (end, e) = expr("x+y", 0).unwrap();
    assert_eq!(end, 3);
    assert_eq!(e, add("+", ident("x"), ident("y")));
}

#[test]
fn addition_with_spaces() {
    let (end, e) = expr("x + y", 0).unwrap();
    assert_eq!(end, 5);
    assert_eq!(e, add("+", ident("x"), ident("y")));
}

#[test]
fn addition_of_parenthesized_operand() {
    let (end, e) = expr("(x + y) + z", 0).unwrap();
    assert_eq!(end, 11);
    assert_eq!(
        e,
        add(
            "+",
            Expr::Paren(Box::new(ParenExpr { expr: add("+", ident("x"), ident("y")) })),
            ident("z"),
        )
    );
}

#[test]
fn integer_literal_parses_digit_run() {
    let (end, e) = expr("123", 0).unwrap();
    assert_eq!(end, 3);
    assert_eq!(e, Expr::Integer(123));
}

#[test]
fn integer_addition() {
    let (end, e) = expr("1+2", 0).unwrap();
    assert_eq!(end, 3);
    assert_eq!(e, add("+", Expr::Integer(1), Expr::Integer(2)));
}

#[test]
fn oversized_integer_literal_reads_as_string_content() {
    // A digit run too large for an i64 is not an integer literal; the
    // ordered choice then reads it as bare string content.
    let (end, e) = expr("99999999999999999999", 0).unwrap();
    assert_eq!(end, 20);
    assert_eq!(e, Expr::StringLit("99999999999999999999".to_string()));
}

#[test]
fn largest_integer_literal_still_fits() {
    let (_, e) = expr("9223372036854775807", 0).unwrap();
    assert_eq!(e, Expr::Integer(i64::MAX));
}

#[test]
fn bare_text_parses_as_string_content() {
    let (end, e) = primary_expr("#!", 0).unwrap();
    assert_eq!(end, 2);
    assert_eq!(e, Expr::StringLit("#!".to_string()));
}

#[test]
fn primary_expression_orders_alternatives() {
    // An identifier is tried before string content, so a name is an
    // Identifier even though its characters would also read as content.
    let (_, e) = primary_expr("abc", 0).unwrap();
    assert_eq!(e, ident("abc"));
}

#[test]
fn primary_expression_fails_on_empty_input() {
    let e = primary_expr("", 0).unwrap_err();
    assert_eq!(e.location, 0);
}

#[test]
fn add_expr_reports_missing_operator() {
    let e = add_expr("x", 0).unwrap_err();
    assert_eq!(e.location, 1);
}

#[test]
fn arrow_accepts_both_spellings_with_spaces() {
    assert_eq!(arrow("->", 0).unwrap(), (2, "->".to_string()));
    assert_eq!(arrow("=>", 0).unwrap(), (2, "=>".to_string()));
    assert_eq!(arrow("  ->  ", 0).unwrap(), (6, "->".to_string()));
}

#[test]
fn arrow_rejects_other_text() {
    let e = arrow(" >- ", 0).unwrap_err();
    assert_eq!(e.location, 1);
}

#[test]
fn parameters_wrap_each_identifier() {
    let (end, ps) = parameters("x y", 0).unwrap();
    assert_eq!(end, 3);
    assert_eq!(ps, vec![ident("x"), ident("y")]);
}

#[test]
fn parameters_require_at_least_one() {
    let e = parameters("->", 0).unwrap_err();
    assert_eq!(e.location, 0);
}

#[test]
fn function_with_thin_arrow() {
    let (end, e) = function("x y -> x+y", 0).unwrap();
    assert_eq!(end, 10);
    assert_eq!(
        e,
        Expr::Function(Box::new(FunctionExpr {
            params: vec![ident("x"), ident("y")],
            body: add("+", ident("x"), ident("y")),
        }))
    );
}

#[test]
fn function_with_fat_arrow_gives_identical_tree() {
    let thin = function("x y -> x+y", 0).unwrap();
    let fat = function("x y => x+y", 0).unwrap();
    assert_eq!(thin, fat);
}

#[test]
fn function_tolerates_extra_spaces() {
    let (_, e) = function(" x  y =>  x + y", 0).unwrap();
    assert_eq!(
        e,
        Expr::Function(Box::new(FunctionExpr {
            params: vec![ident("x"), ident("y")],
            body: add("+", ident("x"), ident("y")),
        }))
    );
}

#[test]
fn function_without_arrow_fails_with_located_error() {
    let e = function("x y", 0).unwrap_err();
    assert_eq!(e.location, 3);
}

#[test]
fn function_without_body_fails_after_arrow() {
    let e = function("x y -> ", 0).unwrap_err();
    assert_eq!(e.location, 7);
}

#[test]
fn expression_leaves_trailing_input_to_the_caller() {
    // A success with residual text is not an error here; rejecting the
    // trailing content is the outermost caller's decision.
    let (end, e) = expr("x)", 0).unwrap();
    assert_eq!(end, 1);
    assert_eq!(e, ident("x"));
}
