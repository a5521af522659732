use vstd::prelude::*;
use crate::ast::expr::Expr;
use crate::ast::ty::TypeExpr;
use crate::common::{Ident, Phase};

verus! {

#[derive(Debug, PartialEq, Eq)]
pub struct Block<P: Phase> {
    pub ann: P::Ann,
    pub stmts: Vec<Stmt<P>>,
}

#[derive(Debug, PartialEq, Eq)]
pub struct Stmt<P: Phase> {
    pub ann: P::Ann,
    pub kind: StmtKind<P>,
}

#[derive(Debug, PartialEq, Eq)]
pub enum StmtKind<P: Phase> {
    Expr(Expr<P>),
    /// var name[: type] = init;
    VarDecl { name: Ident<P>, ty: Option<TypeExpr<P>>, init: Expr<P> },
    /// const name: type = init;
    ConstDecl { name: Ident<P>, ty: TypeExpr<P>, init: Expr<P> },
    /// return [expr];
    Return(Option<Expr<P>>),
    /// if cond { .. } [else if cond { .. }]* [else { .. }]
    If {
        cond: Expr<P>,
        then_block: Block<P>,
        else_ifs: Vec<(Expr<P>, Block<P>)>,
        else_block: Option<Block<P>>,
    },
    /// while cond { .. }
    While { cond: Expr<P>, body: Block<P> },
    Break,
    Continue,
}

} // verus!
