use vstd::prelude::*;
use crate::ast::ty::TypeExpr;
use crate::common::{Ident, Phase};

verus! {

#[derive(Debug, PartialEq, Eq)]
pub struct Expr<P: Phase> {
    pub ann: P::Ann,
    pub ty: P::TypeAnn,
    pub kind: ExprKind<P>,
}

#[derive(Debug, PartialEq, Eq)]
pub enum ExprKind<P: Phase> {
    // Literals
    IntLit(i64),
    CharLit(char),
    StrLit(String),
    // Name reference
    Ident(Ident<P>),
    // Unary/Binary operators
    Unary(UnaryOp, Box<Expr<P>>),
    Binary(BinOp, Box<Expr<P>>, Box<Expr<P>>),
    Assign { lhs: Box<Expr<P>>, rhs: Box<Expr<P>> },
    Call { callee: Box<Expr<P>>, args: Vec<Expr<P>> },
    Field { base: Box<Expr<P>>, field: String },
    Index { base: Box<Expr<P>>, index: Box<Expr<P>> },
    MethodCall { base: Box<Expr<P>>, method: String, args: Vec<Expr<P>> },
    StaticCall { receiver: StaticReceiver, method: String, args: Vec<Expr<P>> },
    StdCall { func: String, args: Vec<Expr<P>> },
    StructLit { name: String, fields: Vec<FieldInit<P>> },
    Alloc { ty: TypeExpr<P>, count: Box<Expr<P>> },
    Free { expr: Box<Expr<P>> },
}

#[derive(Debug, PartialEq, Eq)]
pub struct FieldInit<P: Phase> {
    pub name: String,
    pub value: Expr<P>,
}

#[derive(Debug, PartialEq, Eq)]
pub enum StaticReceiver {
    Span,
    Ptr,
    Int,
    Char,
    Named(String),
}

impl Clone for StaticReceiver {
    fn clone(&self) -> (r: Self)
        ensures
            r == *self,
    {
        match self {
            StaticReceiver::Span => StaticReceiver::Span,
            StaticReceiver::Ptr => StaticReceiver::Ptr,
            StaticReceiver::Int => StaticReceiver::Int,
            StaticReceiver::Char => StaticReceiver::Char,
            StaticReceiver::Named(n) => StaticReceiver::Named(n.clone()),
        }
    }
}

#[derive(Debug, Clone, PartialEq, Eq, Copy)]
pub enum UnaryOp {
    Neg,    // -x
    Not,    // !x
    BitNot, // ~x
    Deref,  // *x
    AddrOf, // &x
}

#[derive(Debug, Clone, PartialEq, Eq, Copy)]
pub enum BinOp {
    Add,
    Sub,
    Mul,
    Div,
    Mod,
    BitAnd,
    BitOr,
    BitXor,
    Shl,
    Shr,
    Eq,
    Ne,
    Lt,
    Gt,
    Le,
    Ge,
    And,
    Or,
}

/// The names that are reserved for builtins and cannot name a variable or function.
pub open spec fn is_reserved(name: Seq<char>) -> bool {
    name == seq!['a', 'l', 'l', 'o', 'c'] || name == seq!['f', 'r', 'e', 'e']
}

/// Whether `name` is reserved for a builtin (`alloc`, `free`).
pub fn is_reserved_name(name: &String) -> (r: bool)
    ensures
        r == is_reserved(name@),
{
    proof {
        reveal_strlit("alloc");
        reveal_strlit("free");
        assert("alloc"@ =~= seq!['a', 'l', 'l', 'o', 'c']);
        assert("free"@ =~= seq!['f', 'r', 'e', 'e']);
    }
    crate::text::string_eq_str(name, "alloc") || crate::text::string_eq_str(name, "free")
}

} // verus!
