//! The syntax tree as a mathematical value: the same shape, with every name
//! and literal text as a character sequence.
use vstd::prelude::*;
use crate::ast::decl::{Decl, FieldDecl, FnDecl, Param, ParamKind, Program, StructDecl};
use crate::ast::expr::{BinOp, Expr, ExprKind, FieldInit, StaticReceiver, UnaryOp};
use crate::ast::stmt::{Block, Stmt, StmtKind};
use crate::ast::ty::TypeExpr;
use crate::common::{Ident, Phase};

verus! {

pub struct SIdent<P: Phase> {
    pub name: Seq<char>,
    pub id: P::NameRef,
}

pub enum SType<P: Phase> {
    Int(P::Ann),
    Char(P::Ann),
    Void(P::Ann),
    Ptr(P::Ann, Box<SType<P>>),
    Span(P::Ann, Box<SType<P>>),
    Readonly(P::Ann, Box<SType<P>>),
    Fn { ann: P::Ann, params: Seq<SType<P>>, ret: Box<SType<P>> },
    Named(P::Ann, Seq<char>),
}

pub enum SReceiver {
    Span,
    Ptr,
    Int,
    Char,
    Named(Seq<char>),
}

pub struct SExpr<P: Phase> {
    pub ann: P::Ann,
    pub ty: P::TypeAnn,
    pub kind: SExprKind<P>,
}

pub enum SExprKind<P: Phase> {
    IntLit(i64),
    CharLit(char),
    StrLit(Seq<char>),
    Ident(SIdent<P>),
    Unary(UnaryOp, Box<SExpr<P>>),
    Binary(BinOp, Box<SExpr<P>>, Box<SExpr<P>>),
    Assign { lhs: Box<SExpr<P>>, rhs: Box<SExpr<P>> },
    Call { callee: Box<SExpr<P>>, args: Seq<SExpr<P>> },
    Field { base: Box<SExpr<P>>, field: Seq<char> },
    Index { base: Box<SExpr<P>>, index: Box<SExpr<P>> },
    MethodCall { base: Box<SExpr<P>>, method: Seq<char>, args: Seq<SExpr<P>> },
    StaticCall { receiver: SReceiver, method: Seq<char>, args: Seq<SExpr<P>> },
    StdCall { func: Seq<char>, args: Seq<SExpr<P>> },
    StructLit { name: Seq<char>, fields: Seq<(Seq<char>, SExpr<P>)> },
    Alloc { ty: SType<P>, count: Box<SExpr<P>> },
    Free { expr: Box<SExpr<P>> },
}

pub struct SBlock<P: Phase> {
    pub ann: P::Ann,
    pub stmts: Seq<SStmt<P>>,
}

pub struct SStmt<P: Phase> {
    pub ann: P::Ann,
    pub kind: SStmtKind<P>,
}

pub enum SStmtKind<P: Phase> {
    Expr(SExpr<P>),
    VarDecl { name: SIdent<P>, ty: Option<SType<P>>, init: SExpr<P> },
    ConstDecl { name: SIdent<P>, ty: SType<P>, init: SExpr<P> },
    Return(Option<SExpr<P>>),
    If {
        cond: SExpr<P>,
        then_block: SBlock<P>,
        else_ifs: Seq<(SExpr<P>, SBlock<P>)>,
        else_block: Option<SBlock<P>>,
    },
    While { cond: SExpr<P>, body: SBlock<P> },
    Break,
    Continue,
}

pub enum SParamKind<P: Phase> {
    SelfParam { ty: Option<SType<P>> },
    Named { name: SIdent<P>, ty: SType<P> },
}

pub struct SParam<P: Phase> {
    pub ann: P::Ann,
    pub kind: SParamKind<P>,
}

pub struct SFieldDecl<P: Phase> {
    pub ann: P::Ann,
    pub name: Seq<char>,
    pub ty: SType<P>,
}

pub struct SFnDecl<P: Phase> {
    pub ann: P::Ann,
    pub name: SIdent<P>,
    pub params: Seq<SParam<P>>,
    pub ret_ty: SType<P>,
    pub body: SBlock<P>,
}

pub struct SStructDecl<P: Phase> {
    pub ann: P::Ann,
    pub name: SIdent<P>,
    pub fields: Seq<SFieldDecl<P>>,
    pub methods: Seq<SFnDecl<P>>,
}

pub enum SDecl<P: Phase> {
    Fn(SFnDecl<P>),
    Struct(SStructDecl<P>),
}

pub struct SProgram<P: Phase> {
    pub decls: Seq<SDecl<P>>,
}

// ── Views ──

impl<P: Phase> View for Ident<P> {
    type V = SIdent<P>;

    open spec fn view(&self) -> SIdent<P> {
        SIdent { name: self.name@, id: self.id }
    }
}

impl View for StaticReceiver {
    type V = SReceiver;

    open spec fn view(&self) -> SReceiver {
        match self {
            StaticReceiver::Span => SReceiver::Span,
            StaticReceiver::Ptr => SReceiver::Ptr,
            StaticReceiver::Int => SReceiver::Int,
            StaticReceiver::Char => SReceiver::Char,
            StaticReceiver::Named(n) => SReceiver::Named(n@),
        }
    }
}

pub open spec fn type_view<P: Phase>(t: TypeExpr<P>) -> SType<P>
    decreases t,
{
    match t {
        TypeExpr::Int(a) => SType::Int(a),
        TypeExpr::Char(a) => SType::Char(a),
        TypeExpr::Void(a) => SType::Void(a),
        TypeExpr::Ptr(a, inner) => SType::Ptr(a, Box::new(type_view(*inner))),
        TypeExpr::Span(a, inner) => SType::Span(a, Box::new(type_view(*inner))),
        TypeExpr::Readonly(a, inner) => SType::Readonly(a, Box::new(type_view(*inner))),
        TypeExpr::Fn { ann, params, ret } => SType::Fn {
            ann,
            params: types_view(params@),
            ret: Box::new(type_view(*ret)),
        },
        TypeExpr::Named(a, n) => SType::Named(a, n@),
    }
}

pub open spec fn types_view<P: Phase>(s: Seq<TypeExpr<P>>) -> Seq<SType<P>>
    decreases s,
{
    if s.len() == 0 {
        Seq::empty()
    } else {
        types_view(s.drop_last()).push(type_view(s.last()))
    }
}

pub proof fn lemma_types_view_push<P: Phase>(s: Seq<TypeExpr<P>>, t: TypeExpr<P>)
    ensures
        types_view(s.push(t)) == types_view(s).push(type_view(t)),
{
    assert(s.push(t).drop_last() =~= s);
}

pub proof fn lemma_types_view_index<P: Phase>(s: Seq<TypeExpr<P>>)
    ensures
        types_view(s).len() == s.len(),
        forall|i: int| 0 <= i < s.len() ==> #[trigger] types_view(s)[i] == type_view(s[i]),
    decreases s.len(),
{
    if s.len() > 0 {
        lemma_types_view_index(s.drop_last());
    }
}

pub open spec fn opt_type_view<P: Phase>(t: Option<TypeExpr<P>>) -> Option<SType<P>> {
    match t {
        Some(t) => Some(type_view(t)),
        None => None,
    }
}

impl<P: Phase> View for TypeExpr<P> {
    type V = SType<P>;

    open spec fn view(&self) -> SType<P> {
        type_view(*self)
    }
}

pub open spec fn expr_view<P: Phase>(e: Expr<P>) -> SExpr<P>
    decreases e,
{
    SExpr {
        ann: e.ann,
        ty: e.ty,
        kind: match e.kind {
            ExprKind::IntLit(n) => SExprKind::IntLit(n),
            ExprKind::CharLit(c) => SExprKind::CharLit(c),
            ExprKind::StrLit(s) => SExprKind::StrLit(s@),
            ExprKind::Ident(i) => SExprKind::Ident(i@),
            ExprKind::Unary(op, x) => SExprKind::Unary(op, Box::new(expr_view(*x))),
            ExprKind::Binary(op, a, b) => SExprKind::Binary(
                op,
                Box::new(expr_view(*a)),
                Box::new(expr_view(*b)),
            ),
            ExprKind::Assign { lhs, rhs } => SExprKind::Assign {
                lhs: Box::new(expr_view(*lhs)),
                rhs: Box::new(expr_view(*rhs)),
            },
            ExprKind::Call { callee, args } => SExprKind::Call {
                callee: Box::new(expr_view(*callee)),
                args: exprs_view(args@),
            },
            ExprKind::Field { base, field } => SExprKind::Field {
                base: Box::new(expr_view(*base)),
                field: field@,
            },
            ExprKind::Index { base, index } => SExprKind::Index {
                base: Box::new(expr_view(*base)),
                index: Box::new(expr_view(*index)),
            },
            ExprKind::MethodCall { base, method, args } => SExprKind::MethodCall {
                base: Box::new(expr_view(*base)),
                method: method@,
                args: exprs_view(args@),
            },
            ExprKind::StaticCall { receiver, method, args } => SExprKind::StaticCall {
                receiver: receiver@,
                method: method@,
                args: exprs_view(args@),
            },
            ExprKind::StdCall { func, args } => SExprKind::StdCall {
                func: func@,
                args: exprs_view(args@),
            },
            ExprKind::StructLit { name, fields } => SExprKind::StructLit {
                name: name@,
                fields: field_inits_view(fields@),
            },
            ExprKind::Alloc { ty, count } => SExprKind::Alloc {
                ty: type_view(ty),
                count: Box::new(expr_view(*count)),
            },
            ExprKind::Free { expr } => SExprKind::Free { expr: Box::new(expr_view(*expr)) },
        },
    }
}

pub open spec fn exprs_view<P: Phase>(s: Seq<Expr<P>>) -> Seq<SExpr<P>>
    decreases s,
{
    if s.len() == 0 {
        Seq::empty()
    } else {
        exprs_view(s.drop_last()).push(expr_view(s.last()))
    }
}

pub proof fn lemma_exprs_view_push<P: Phase>(s: Seq<Expr<P>>, e: Expr<P>)
    ensures
        exprs_view(s.push(e)) == exprs_view(s).push(expr_view(e)),
{
    assert(s.push(e).drop_last() =~= s);
}

pub proof fn lemma_exprs_view_index<P: Phase>(s: Seq<Expr<P>>)
    ensures
        exprs_view(s).len() == s.len(),
        forall|i: int| 0 <= i < s.len() ==> #[trigger] exprs_view(s)[i] == expr_view(s[i]),
    decreases s.len(),
{
    if s.len() > 0 {
        lemma_exprs_view_index(s.drop_last());
    }
}

pub open spec fn field_inits_view<P: Phase>(s: Seq<FieldInit<P>>) -> Seq<(Seq<char>, SExpr<P>)>
    decreases s,
{
    if s.len() == 0 {
        Seq::empty()
    } else {
        field_inits_view(s.drop_last()).push((s.last().name@, expr_view(s.last().value)))
    }
}

pub proof fn lemma_field_inits_view_push<P: Phase>(s: Seq<FieldInit<P>>, f: FieldInit<P>)
    ensures
        field_inits_view(s.push(f)) == field_inits_view(s).push((f.name@, expr_view(f.value))),
{
    assert(s.push(f).drop_last() =~= s);
}

pub proof fn lemma_field_inits_view_index<P: Phase>(s: Seq<FieldInit<P>>)
    ensures
        field_inits_view(s).len() == s.len(),
        forall|i: int|
            0 <= i < s.len() ==> #[trigger] field_inits_view(s)[i] == (
                s[i].name@,
                expr_view(s[i].value),
            ),
    decreases s.len(),
{
    if s.len() > 0 {
        lemma_field_inits_view_index(s.drop_last());
    }
}

impl<P: Phase> View for Expr<P> {
    type V = SExpr<P>;

    open spec fn view(&self) -> SExpr<P> {
        expr_view(*self)
    }
}

pub open spec fn opt_expr_view<P: Phase>(e: Option<Expr<P>>) -> Option<SExpr<P>> {
    match e {
        Some(e) => Some(expr_view(e)),
        None => None,
    }
}

pub open spec fn block_view<P: Phase>(b: Block<P>) -> SBlock<P>
    decreases b,
{
    SBlock { ann: b.ann, stmts: stmts_view(b.stmts@) }
}

pub open spec fn stmts_view<P: Phase>(s: Seq<Stmt<P>>) -> Seq<SStmt<P>>
    decreases s,
{
    if s.len() == 0 {
        Seq::empty()
    } else {
        stmts_view(s.drop_last()).push(stmt_view(s.last()))
    }
}

pub proof fn lemma_stmts_view_push<P: Phase>(s: Seq<Stmt<P>>, x: Stmt<P>)
    ensures
        stmts_view(s.push(x)) == stmts_view(s).push(stmt_view(x)),
{
    assert(s.push(x).drop_last() =~= s);
}

pub proof fn lemma_stmts_view_index<P: Phase>(s: Seq<Stmt<P>>)
    ensures
        stmts_view(s).len() == s.len(),
        forall|i: int| 0 <= i < s.len() ==> #[trigger] stmts_view(s)[i] == stmt_view(s[i]),
    decreases s.len(),
{
    if s.len() > 0 {
        lemma_stmts_view_index(s.drop_last());
    }
}

pub open spec fn else_ifs_view<P: Phase>(s: Seq<(Expr<P>, Block<P>)>) -> Seq<(SExpr<P>, SBlock<P>)>
    decreases s,
{
    if s.len() == 0 {
        Seq::empty()
    } else {
        else_ifs_view(s.drop_last()).push((expr_view(s.last().0), block_view(s.last().1)))
    }
}

pub proof fn lemma_else_ifs_view_push<P: Phase>(s: Seq<(Expr<P>, Block<P>)>, x: (Expr<P>, Block<P>))
    ensures
        else_ifs_view(s.push(x)) == else_ifs_view(s).push((expr_view(x.0), block_view(x.1))),
{
    assert(s.push(x).drop_last() =~= s);
}

pub proof fn lemma_else_ifs_view_index<P: Phase>(s: Seq<(Expr<P>, Block<P>)>)
    ensures
        else_ifs_view(s).len() == s.len(),
        forall|i: int|
            0 <= i < s.len() ==> #[trigger] else_ifs_view(s)[i] == (
                expr_view(s[i].0),
                block_view(s[i].1),
            ),
    decreases s.len(),
{
    if s.len() > 0 {
        lemma_else_ifs_view_index(s.drop_last());
    }
}

pub open spec fn stmt_view<P: Phase>(st: Stmt<P>) -> SStmt<P>
    decreases st,
{
    SStmt { ann: st.ann, kind: stmt_kind_view(st.kind) }
}

pub open spec fn stmt_kind_view<P: Phase>(k: StmtKind<P>) -> SStmtKind<P>
    decreases k,
{
    match k {
        StmtKind::Expr(e) => SStmtKind::Expr(expr_view(e)),
        StmtKind::VarDecl { name, ty, init } => SStmtKind::VarDecl {
            name: name@,
            ty: opt_type_view(ty),
            init: expr_view(init),
        },
        StmtKind::ConstDecl { name, ty, init } => SStmtKind::ConstDecl {
            name: name@,
            ty: type_view(ty),
            init: expr_view(init),
        },
        StmtKind::Return(e) => SStmtKind::Return(opt_expr_view(e)),
        StmtKind::If { cond, then_block, else_ifs, else_block } => SStmtKind::If {
            cond: expr_view(cond),
            then_block: block_view(then_block),
            else_ifs: else_ifs_view(else_ifs@),
            else_block: match else_block {
                Some(b) => Some(block_view(b)),
                None => None,
            },
        },
        StmtKind::While { cond, body } => SStmtKind::While {
            cond: expr_view(cond),
            body: block_view(body),
        },
        StmtKind::Break => SStmtKind::Break,
        StmtKind::Continue => SStmtKind::Continue,
    }
}

impl<P: Phase> View for Stmt<P> {
    type V = SStmt<P>;

    open spec fn view(&self) -> SStmt<P> {
        stmt_view(*self)
    }
}

impl<P: Phase> View for StmtKind<P> {
    type V = SStmtKind<P>;

    open spec fn view(&self) -> SStmtKind<P> {
        stmt_kind_view(*self)
    }
}

impl<P: Phase> View for Block<P> {
    type V = SBlock<P>;

    open spec fn view(&self) -> SBlock<P> {
        block_view(*self)
    }
}

impl<P: Phase> View for Param<P> {
    type V = SParam<P>;

    open spec fn view(&self) -> SParam<P> {
        SParam {
            ann: self.ann,
            kind: match self.kind {
                ParamKind::SelfParam { ty } => SParamKind::SelfParam { ty: opt_type_view(ty) },
                ParamKind::Named { name, ty } => SParamKind::Named {
                    name: name@,
                    ty: type_view(ty),
                },
            },
        }
    }
}

pub open spec fn params_view<P: Phase>(s: Seq<Param<P>>) -> Seq<SParam<P>> {
    s.map_values(|p: Param<P>| p@)
}

pub open spec fn field_decls_view<P: Phase>(s: Seq<FieldDecl<P>>) -> Seq<SFieldDecl<P>> {
    s.map_values(|f: FieldDecl<P>| f@)
}

pub open spec fn fn_decls_view<P: Phase>(s: Seq<FnDecl<P>>) -> Seq<SFnDecl<P>> {
    s.map_values(|m: FnDecl<P>| m@)
}

pub open spec fn decls_view<P: Phase>(s: Seq<Decl<P>>) -> Seq<SDecl<P>> {
    s.map_values(|d: Decl<P>| d@)
}

impl<P: Phase> View for FieldDecl<P> {
    type V = SFieldDecl<P>;

    open spec fn view(&self) -> SFieldDecl<P> {
        SFieldDecl { ann: self.ann, name: self.name@, ty: type_view(self.ty) }
    }
}

impl<P: Phase> View for FnDecl<P> {
    type V = SFnDecl<P>;

    open spec fn view(&self) -> SFnDecl<P> {
        SFnDecl {
            ann: self.ann,
            name: self.name@,
            params: params_view(self.params@),
            ret_ty: type_view(self.ret_ty),
            body: block_view(self.body),
        }
    }
}

impl<P: Phase> View for StructDecl<P> {
    type V = SStructDecl<P>;

    open spec fn view(&self) -> SStructDecl<P> {
        SStructDecl {
            ann: self.ann,
            name: self.name@,
            fields: field_decls_view(self.fields@),
            methods: fn_decls_view(self.methods@),
        }
    }
}

impl<P: Phase> View for Decl<P> {
    type V = SDecl<P>;

    open spec fn view(&self) -> SDecl<P> {
        match self {
            Decl::Fn(f) => SDecl::Fn(f@),
            Decl::Struct(s) => SDecl::Struct(s@),
        }
    }
}

impl<P: Phase> View for Program<P> {
    type V = SProgram<P>;

    open spec fn view(&self) -> SProgram<P> {
        SProgram { decls: decls_view(self.decls@) }
    }
}

} // verus!
