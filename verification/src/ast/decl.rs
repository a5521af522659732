use vstd::prelude::*;
use crate::ast::stmt::Block;
use crate::ast::ty::TypeExpr;
use crate::common::{Ident, Phase};

verus! {

#[derive(Debug, PartialEq, Eq)]
pub struct Program<P: Phase> {
    pub decls: Vec<Decl<P>>,
}

#[derive(Debug, PartialEq, Eq)]
pub enum Decl<P: Phase> {
    Fn(FnDecl<P>),
    Struct(StructDecl<P>),
}

#[derive(Debug, PartialEq, Eq)]
pub struct FnDecl<P: Phase> {
    pub ann: P::Ann,
    pub name: Ident<P>,
    pub params: Vec<Param<P>>,
    pub ret_ty: TypeExpr<P>,
    pub body: Block<P>,
}

#[derive(Debug, PartialEq, Eq)]
pub struct Param<P: Phase> {
    pub ann: P::Ann,
    pub kind: ParamKind<P>,
}

#[derive(Debug, PartialEq, Eq)]
pub enum ParamKind<P: Phase> {
    SelfParam { ty: Option<TypeExpr<P>> },
    Named { name: Ident<P>, ty: TypeExpr<P> },
}

#[derive(Debug, PartialEq, Eq)]
pub struct StructDecl<P: Phase> {
    pub ann: P::Ann,
    pub name: Ident<P>,
    pub fields: Vec<FieldDecl<P>>,
    pub methods: Vec<FnDecl<P>>,
}

#[derive(Debug, PartialEq, Eq)]
pub struct FieldDecl<P: Phase> {
    pub ann: P::Ann,
    /// Field names are plain strings, not identifiers.
    pub name: String,
    pub ty: TypeExpr<P>,
}

} // verus!
