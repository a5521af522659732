//! The syntax tree, generic over the phase that produced it.
pub mod decl;
pub mod expr;
pub mod stmt;
pub mod ty;
pub mod view;

pub use crate::common::{Ident, Parsed, Phase, Resolved, Span, SymbolId, Ty, Typed};
pub use decl::{Decl, FieldDecl, FnDecl, Param, ParamKind, Program, StructDecl};
pub use expr::{is_reserved, is_reserved_name, BinOp, Expr, ExprKind, FieldInit, StaticReceiver, UnaryOp};
pub use stmt::{Block, Stmt, StmtKind};
pub use ty::TypeExpr;

use vstd::prelude::*;

verus! {

pub type ParsedProgram = Program<Parsed>;
pub type ParsedExpr = Expr<Parsed>;
pub type ParsedStmt = Stmt<Parsed>;

pub type ResolvedProgram = Program<Resolved>;
pub type ResolvedExpr = Expr<Resolved>;

pub type TypedProgram = Program<Typed>;
pub type TypedExpr = Expr<Typed>;

} // verus!
