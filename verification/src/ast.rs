//! The expression tree the grammar produces, and its mathematical mirror.
//!
//! `Expr` is a closed sum type. A parent node exclusively owns its children;
//! the tree is produced once by parsing and never mutated. The ghost mirror
//! `SpecExpr` carries the same shape over `Seq<char>` and `int`, and
//! `deep_view` maps one to the other; grammar contracts speak of `SpecExpr`.

use vstd::prelude::*;

verus! {

/// A parsed expression.
#[derive(Debug, PartialEq, Eq, Hash)]
pub enum Expr {
    /// A bare name.
    Identifier(String),
    /// A string literal's content.
    StringLit(String),
    /// An integer literal.
    Integer(i64),
    /// A parenthesized expression, kept as an explicit wrapper node.
    Paren(Box<ParenExpr>),
    /// `lhs , rhs`.
    Comma(Box<CommaExpr>),
    /// An anonymous function: parameters and a body.
    Function(Box<FunctionExpr>),
    /// A call of a named function.
    FunctionCall(Box<FunctionCallExpr>),
    /// `lhs + rhs`, tagged with the matched operator symbol.
    Add(Box<BinaryExpr>),
    /// `lhs && rhs`.
    And(Box<BinaryExpr>),
    /// `lhs || rhs`.
    Or(Box<BinaryExpr>),
}

/// The ghost mirror of [`Expr`], over `Seq<char>` and `int`.
pub enum SpecExpr {
    Identifier(Seq<char>),
    StringLit(Seq<char>),
    Integer(int),
    Paren(Box<SpecExpr>),
    Comma(Box<SpecExpr>, Box<SpecExpr>),
    Function(Seq<SpecExpr>, Box<SpecExpr>),
    FunctionCall(Seq<char>, Seq<SpecExpr>),
    Add(Seq<char>, Box<SpecExpr>, Box<SpecExpr>),
    And(Box<SpecExpr>, Box<SpecExpr>),
    Or(Box<SpecExpr>, Box<SpecExpr>),
}

#[derive(Debug, PartialEq, Eq, Hash)]
pub struct ParenExpr {
    pub expr: Expr,
}

#[derive(Debug, PartialEq, Eq, Hash)]
pub struct CommaExpr {
    pub lhs: Expr,
    pub rhs: Expr,
}

#[derive(Debug, PartialEq, Eq, Hash)]
pub struct FunctionExpr {
    /// The parameter list; the grammar guarantees it is non-empty and that
    /// every element is an `Identifier`.
    pub params: Vec<Expr>,
    pub body: Expr,
}

#[derive(Debug, PartialEq, Eq, Hash)]
pub struct FunctionCallExpr {
    /// Function name.
    pub name: String,
    /// List of function call argument expressions.
    pub args: Vec<Expr>,
}

#[derive(Debug, PartialEq, Eq, Hash)]
pub struct BinaryExpr {
    /// The operator symbol as matched.
    pub operator: String,
    pub lhs: Expr,
    pub rhs: Expr,
}

/// The mathematical value of an expression tree.
pub open spec fn spec_expr_of(e: Expr) -> SpecExpr
    decreases e via spec_expr_of_decreases
{
    match e {
        Expr::Identifier(name) => SpecExpr::Identifier(name@),
        Expr::StringLit(text) => SpecExpr::StringLit(text@),
        Expr::Integer(n) => SpecExpr::Integer(n as int),
        Expr::Paren(inner) => SpecExpr::Paren(Box::new(spec_expr_of(inner.expr))),
        Expr::Comma(inner) => SpecExpr::Comma(
            Box::new(spec_expr_of(inner.lhs)),
            Box::new(spec_expr_of(inner.rhs)),
        ),
        Expr::Function(inner) => SpecExpr::Function(
            spec_exprs_of(inner.params@),
            Box::new(spec_expr_of(inner.body)),
        ),
        Expr::FunctionCall(inner) => SpecExpr::FunctionCall(
            inner.name@,
            spec_exprs_of(inner.args@),
        ),
        Expr::Add(inner) => SpecExpr::Add(
            inner.operator@,
            Box::new(spec_expr_of(inner.lhs)),
            Box::new(spec_expr_of(inner.rhs)),
        ),
        Expr::And(inner) => SpecExpr::And(
            Box::new(spec_expr_of(inner.lhs)),
            Box::new(spec_expr_of(inner.rhs)),
        ),
        Expr::Or(inner) => SpecExpr::Or(
            Box::new(spec_expr_of(inner.lhs)),
            Box::new(spec_expr_of(inner.rhs)),
        ),
    }
}

#[via_fn]
proof fn spec_expr_of_decreases(e: Expr) {
    match e {
        Expr::Function(inner) => {
            assert(decreases_to!(e => inner.params));
        },
        Expr::FunctionCall(inner) => {
            assert(decreases_to!(e => inner.args));
        },
        _ => {},
    }
}

/// The mathematical values of a list of expression trees, elementwise.
pub open spec fn spec_exprs_of(es: Seq<Expr>) -> Seq<SpecExpr>
    decreases es,
{
    if es.len() == 0 {
        Seq::empty()
    } else {
        seq![spec_expr_of(es[0])] + spec_exprs_of(es.drop_first())
    }
}

/// `spec_exprs_of` maps `spec_expr_of` over the list, elementwise.
pub proof fn lemma_spec_exprs_of(es: Seq<Expr>)
    ensures
        spec_exprs_of(es).len() == es.len(),
        forall|i: int| 0 <= i < es.len() ==> spec_exprs_of(es)[i] == spec_expr_of(#[trigger] es[i]),
    decreases es,
{
    if es.len() > 0 {
        lemma_spec_exprs_of(es.drop_first());
        assert forall|i: int| 0 <= i < es.len() implies spec_exprs_of(es)[i] == spec_expr_of(
            #[trigger] es[i],
        ) by {
            if i > 0 {
                assert(spec_exprs_of(es)[i] == spec_exprs_of(es.drop_first())[i - 1]);
                assert(es.drop_first()[i - 1] == es[i]);
            }
        }
    }
}

impl DeepView for Expr {
    type V = SpecExpr;

    open spec fn deep_view(&self) -> SpecExpr {
        spec_expr_of(*self)
    }
}

/// A `Function` node is well-formed when its parameter list is non-empty and
/// every parameter is an `Identifier` node.
pub open spec fn params_well_formed(params: Seq<SpecExpr>) -> bool {
    params.len() >= 1 && (forall|i: int|
        0 <= i < params.len() ==> (#[trigger] params[i]) is Identifier)
}

/// Copies a list of expression trees, element for element.
fn clone_exprs(es: &Vec<Expr>) -> (r: Vec<Expr>)
    ensures
        r@.len() == es@.len(),
        forall|i: int|
            0 <= i < es@.len() ==> (#[trigger] r@[i]).deep_view() == es@[i].deep_view(),
    decreases es,
{
    broadcast use vstd::std_specs::vec::axiom_vec_index_decreases;

    let mut out: Vec<Expr> = Vec::new();
    let mut i: usize = 0;
    while i < es.len()
        invariant
            0 <= i <= es@.len(),
            out@.len() == i,
            forall|j: int|
                0 <= j < i ==> (#[trigger] out@[j]).deep_view() == es@[j].deep_view(),
        decreases es@.len() - i,
    {
        let copied = es[i].clone();
        out.push(copied);
        i += 1;
    }
    out
}

impl Clone for Expr {
    /// An exact structural copy: the clone's mathematical value is the
    /// original's.
    fn clone(&self) -> (r: Expr)
        ensures
            r.deep_view() == self.deep_view(),
        decreases self,
    {
        match self {
            Expr::Identifier(name) => Expr::Identifier(name.clone()),
            Expr::StringLit(text) => Expr::StringLit(text.clone()),
            Expr::Integer(n) => Expr::Integer(*n),
            Expr::Paren(inner) => Expr::Paren(Box::new(ParenExpr { expr: inner.expr.clone() })),
            Expr::Comma(inner) => Expr::Comma(
                Box::new(CommaExpr { lhs: inner.lhs.clone(), rhs: inner.rhs.clone() }),
            ),
            Expr::Function(inner) => {
                let params = clone_exprs(&inner.params);
                let body = inner.body.clone();
                proof {
                    lemma_spec_exprs_of(inner.params@);
                    lemma_spec_exprs_of(params@);
                    assert forall|i: int| 0 <= i < params@.len() implies spec_exprs_of(params@)[i]
                        == spec_exprs_of(inner.params@)[i] by {
                        assert(params@[i].deep_view() == inner.params@[i].deep_view());
                    }
                    assert(spec_exprs_of(params@) =~= spec_exprs_of(inner.params@));
                }
                Expr::Function(Box::new(FunctionExpr { params, body }))
            },
            Expr::FunctionCall(inner) => {
                let args = clone_exprs(&inner.args);
                proof {
                    lemma_spec_exprs_of(inner.args@);
                    lemma_spec_exprs_of(args@);
                    assert forall|i: int| 0 <= i < args@.len() implies spec_exprs_of(args@)[i]
                        == spec_exprs_of(inner.args@)[i] by {
                        assert(args@[i].deep_view() == inner.args@[i].deep_view());
                    }
                    assert(spec_exprs_of(args@) =~= spec_exprs_of(inner.args@));
                }
                Expr::FunctionCall(
                    Box::new(FunctionCallExpr { name: inner.name.clone(), args }),
                )
            },
            Expr::Add(inner) => Expr::Add(
                Box::new(
                    BinaryExpr {
                        operator: inner.operator.clone(),
                        lhs: inner.lhs.clone(),
                        rhs: inner.rhs.clone(),
                    },
                ),
            ),
            Expr::And(inner) => Expr::And(
                Box::new(
                    BinaryExpr {
                        operator: inner.operator.clone(),
                        lhs: inner.lhs.clone(),
                        rhs: inner.rhs.clone(),
                    },
                ),
            ),
            Expr::Or(inner) => Expr::Or(
                Box::new(
                    BinaryExpr {
                        operator: inner.operator.clone(),
                        lhs: inner.lhs.clone(),
                        rhs: inner.rhs.clone(),
                    },
                ),
            ),
        }
    }
}

impl Clone for ParenExpr {
    fn clone(&self) -> (r: ParenExpr)
        ensures
            r.expr.deep_view() == self.expr.deep_view(),
    {
        ParenExpr { expr: self.expr.clone() }
    }
}

impl Clone for CommaExpr {
    fn clone(&self) -> (r: CommaExpr)
        ensures
            r.lhs.deep_view() == self.lhs.deep_view(),
            r.rhs.deep_view() == self.rhs.deep_view(),
    {
        CommaExpr { lhs: self.lhs.clone(), rhs: self.rhs.clone() }
    }
}

impl Clone for FunctionExpr {
    fn clone(&self) -> (r: FunctionExpr)
        ensures
            r.params@.len() == self.params@.len(),
            forall|i: int|
                0 <= i < self.params@.len() ==> (#[trigger] r.params@[i]).deep_view()
                    == self.params@[i].deep_view(),
            r.body.deep_view() == self.body.deep_view(),
    {
        FunctionExpr { params: clone_exprs(&self.params), body: self.body.clone() }
    }
}

impl Clone for FunctionCallExpr {
    fn clone(&self) -> (r: FunctionCallExpr)
        ensures
            r.name@ == self.name@,
            r.args@.len() == self.args@.len(),
            forall|i: int|
                0 <= i < self.args@.len() ==> (#[trigger] r.args@[i]).deep_view()
                    == self.args@[i].deep_view(),
    {
        FunctionCallExpr { name: self.name.clone(), args: clone_exprs(&self.args) }
    }
}

impl Clone for BinaryExpr {
    fn clone(&self) -> (r: BinaryExpr)
        ensures
            r.operator@ == self.operator@,
            r.lhs.deep_view() == self.lhs.deep_view(),
            r.rhs.deep_view() == self.rhs.deep_view(),
    {
        BinaryExpr {
            operator: self.operator.clone(),
            lhs: self.lhs.clone(),
            rhs: self.rhs.clone(),
        }
    }
}

} // verus!
