//! Operations on the expression tree itself: structural copying and
//! hashing.

use accel_parsec::accelerator::function;
use accel_parsec::ast::{BinaryExpr, CommaExpr, Expr, FunctionCallExpr, ParenExpr};
use std::collections::hash_map::DefaultHasher;
use std::hash::{Hash, Hasher};

fn hash_of(e: &Expr) -> u64 {
    let mut h = DefaultHasher::new();
    e.hash(&mut h);
    h.finish()
}

#[test]
fn clone_copies_a_parsed_tree_exactly() {
    let (_, tree) = function("x y -> x+y", 0).unwrap();
    let copy = tree.clone();
    assert_eq!(copy, tree);
}

#[test]
fn clone_copies_every_node_kind() {
    let tree = Expr::Comma(Box::new(CommaExpr {
        lhs: Expr::FunctionCall(Box::new(FunctionCallExpr {
            name: "f".to_string(),
            args: vec![Expr::Integer(1), Expr::StringLit("s".to_string())],
        })),
        rhs: Expr::Or(Box::new(BinaryExpr {
            operator: "||".to_string(),
            lhs: Expr::And(Box::new(BinaryExpr {
                operator: "&&".to_string(),
                lhs: Expr::Paren(Box::new(ParenExpr { expr: Expr::Identifier("a".to_string()) })),
                rhs: Expr::Identifier("b".to_string()),
            })),
            rhs: Expr::Identifier("c".to_string()),
        })),
    }));
    assert_eq!(tree.clone(), tree);
}

#[test]
fn equal_trees_hash_alike() {
    let (_, a) = function("x y => x+y", 0).unwrap();
    let (_, b) = function("x y -> x+y", 0).unwrap();
    assert_eq!(a, b);
    assert_eq!(hash_of(&a), hash_of(&b));
}
