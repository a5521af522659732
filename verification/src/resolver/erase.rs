//! Forgetting what resolution adds: the symbol ids of a resolved program.
use vstd::prelude::*;
use crate::ast::view::{
    SBlock, SDecl, SExpr, SExprKind, SFieldDecl, SFnDecl, SIdent, SParam, SParamKind, SProgram,
    SStmt, SStmtKind, SStructDecl, SType,
};
use crate::common::{Parsed, Resolved, SymbolId};
use crate::resolver::spec::{
    emit_all, lookup_or_unresolved, method_id, push_scope, rs_block, rs_decl, rs_decls,
    rs_else_ifs, rs_expr, rs_exprs, rs_field_decls, rs_field_inits, rs_fn_body, rs_methods,
    rs_params, rs_program, rs_stmt, rs_stmts, rs_type, rs_types, RState, ScopeView,
};
use crate::common::SymbolView;

verus! {

pub open spec fn erase_ident(i: SIdent<Resolved>) -> SIdent<Parsed> {
    SIdent { name: i.name, id: () }
}

pub open spec fn erase_type(t: SType<Resolved>) -> SType<Parsed>
    decreases t,
{
    match t {
        SType::Int(a) => SType::Int(a),
        SType::Char(a) => SType::Char(a),
        SType::Void(a) => SType::Void(a),
        SType::Ptr(a, x) => SType::Ptr(a, Box::new(erase_type(*x))),
        SType::Span(a, x) => SType::Span(a, Box::new(erase_type(*x))),
        SType::Readonly(a, x) => SType::Readonly(a, Box::new(erase_type(*x))),
        SType::Fn { ann, params, ret } => SType::Fn {
            ann,
            params: erase_types(params),
            ret: Box::new(erase_type(*ret)),
        },
        SType::Named(a, n) => SType::Named(a, n),
    }
}

pub open spec fn erase_types(ts: Seq<SType<Resolved>>) -> Seq<SType<Parsed>>
    decreases ts,
{
    if ts.len() == 0 {
        Seq::empty()
    } else {
        erase_types(ts.drop_last()).push(erase_type(ts.last()))
    }
}

pub open spec fn erase_expr(e: SExpr<Resolved>) -> SExpr<Parsed>
    decreases e,
{
    SExpr {
        ann: e.ann,
        ty: (),
        kind: match e.kind {
            SExprKind::IntLit(v) => SExprKind::IntLit(v),
            SExprKind::CharLit(v) => SExprKind::CharLit(v),
            SExprKind::StrLit(v) => SExprKind::StrLit(v),
            SExprKind::Ident(i) => SExprKind::Ident(erase_ident(i)),
            SExprKind::Unary(op, x) => SExprKind::Unary(op, Box::new(erase_expr(*x))),
            SExprKind::Binary(op, a, b) => SExprKind::Binary(
                op,
                Box::new(erase_expr(*a)),
                Box::new(erase_expr(*b)),
            ),
            SExprKind::Assign { lhs, rhs } => SExprKind::Assign {
                lhs: Box::new(erase_expr(*lhs)),
                rhs: Box::new(erase_expr(*rhs)),
            },
            SExprKind::Call { callee, args } => SExprKind::Call {
                callee: Box::new(erase_expr(*callee)),
                args: erase_exprs(args),
            },
            SExprKind::Field { base, field } => SExprKind::Field {
                base: Box::new(erase_expr(*base)),
                field,
            },
            SExprKind::Index { base, index } => SExprKind::Index {
                base: Box::new(erase_expr(*base)),
                index: Box::new(erase_expr(*index)),
            },
            SExprKind::MethodCall { base, method, args } => SExprKind::MethodCall {
                base: Box::new(erase_expr(*base)),
                method,
                args: erase_exprs(args),
            },
            SExprKind::StaticCall { receiver, method, args } => SExprKind::StaticCall {
                receiver,
                method,
                args: erase_exprs(args),
            },
            SExprKind::StdCall { func, args } => SExprKind::StdCall { func, args: erase_exprs(args) },
            SExprKind::StructLit { name, fields } => SExprKind::StructLit {
                name,
                fields: erase_field_inits(fields),
            },
            SExprKind::Alloc { ty, count } => SExprKind::Alloc {
                ty: erase_type(ty),
                count: Box::new(erase_expr(*count)),
            },
            SExprKind::Free { expr } => SExprKind::Free { expr: Box::new(erase_expr(*expr)) },
        },
    }
}

pub open spec fn erase_exprs(es: Seq<SExpr<Resolved>>) -> Seq<SExpr<Parsed>>
    decreases es,
{
    if es.len() == 0 {
        Seq::empty()
    } else {
        erase_exprs(es.drop_last()).push(erase_expr(es.last()))
    }
}

pub open spec fn erase_field_inits(fs: Seq<(Seq<char>, SExpr<Resolved>)>) -> Seq<
    (Seq<char>, SExpr<Parsed>),
>
    decreases fs,
{
    if fs.len() == 0 {
        Seq::empty()
    } else {
        erase_field_inits(fs.drop_last()).push((fs.last().0, erase_expr(fs.last().1)))
    }
}

pub proof fn lemma_erase_type(sc: Seq<ScopeView>, t: SType<Parsed>)
    ensures
        erase_type(rs_type(sc, t).0) == t,
    decreases t,
{
    match t {
        SType::Ptr(_, x) => lemma_erase_type(sc, *x),
        SType::Span(_, x) => lemma_erase_type(sc, *x),
        SType::Readonly(_, x) => lemma_erase_type(sc, *x),
        SType::Fn { params, ret, .. } => {
            lemma_erase_types(sc, params);
            lemma_erase_type(sc, *ret);
        },
        _ => {},
    }
}

pub proof fn lemma_erase_types(sc: Seq<ScopeView>, ts: Seq<SType<Parsed>>)
    ensures
        erase_types(rs_types(sc, ts).0) == ts,
    decreases ts,
{
    if ts.len() > 0 {
        lemma_erase_types(sc, ts.drop_last());
        lemma_erase_type(sc, ts.last());
        let rs = rs_types(sc, ts.drop_last()).0;
        let r = rs_type(sc, ts.last()).0;
        assert(rs.push(r).drop_last() =~= rs);
        assert(ts.drop_last().push(ts.last()) =~= ts);
    }
}

pub proof fn lemma_erase_expr(sc: Seq<ScopeView>, sy: Seq<SymbolView>, e: SExpr<Parsed>)
    ensures
        erase_expr(rs_expr(sc, sy, e).0) == e,
    decreases e,
{
    match e.kind {
        SExprKind::Unary(_, x) => lemma_erase_expr(sc, sy, *x),
        SExprKind::Binary(_, a, b) => {
            lemma_erase_expr(sc, sy, *a);
            lemma_erase_expr(sc, sy, *b);
        },
        SExprKind::Assign { lhs, rhs } => {
            lemma_erase_expr(sc, sy, *lhs);
            lemma_erase_expr(sc, sy, *rhs);
        },
        SExprKind::Call { callee, args } => {
            lemma_erase_expr(sc, sy, *callee);
            if let SExprKind::Ident(i) = callee.kind {
                let u: () = i.id;
                assert(u == ());
                let rc = crate::resolver::spec::rs_callee(sc, sy, *callee).0;
                assert(erase_expr(rc).kind == callee.kind);
                assert(erase_expr(rc) == *callee);
            }
            lemma_erase_exprs(sc, sy, args);
        },
        SExprKind::Field { base, .. } => lemma_erase_expr(sc, sy, *base),
        SExprKind::Index { base, index } => {
            lemma_erase_expr(sc, sy, *base);
            lemma_erase_expr(sc, sy, *index);
        },
        SExprKind::MethodCall { base, args, .. } => {
            lemma_erase_expr(sc, sy, *base);
            lemma_erase_exprs(sc, sy, args);
        },
        SExprKind::StaticCall { args, .. } => lemma_erase_exprs(sc, sy, args),
        SExprKind::StdCall { args, .. } => lemma_erase_exprs(sc, sy, args),
        SExprKind::StructLit { fields, .. } => lemma_erase_field_inits(sc, sy, fields),
        SExprKind::Alloc { ty, count } => {
            lemma_erase_type(sc, ty);
            lemma_erase_expr(sc, sy, *count);
        },
        SExprKind::Free { expr } => lemma_erase_expr(sc, sy, *expr),
        SExprKind::Ident(i) => {
            let u: () = i.id;
            assert(u == ());
        },
        _ => {},
    }
    let r = rs_expr(sc, sy, e).0;
    assert(erase_expr(r).ty == e.ty);
    assert(erase_expr(r).ann == e.ann);
    assert(erase_expr(r).kind == e.kind);
}

pub proof fn lemma_erase_exprs(sc: Seq<ScopeView>, sy: Seq<SymbolView>, es: Seq<SExpr<Parsed>>)
    ensures
        erase_exprs(rs_exprs(sc, sy, es).0) == es,
    decreases es,
{
    if es.len() > 0 {
        lemma_erase_exprs(sc, sy, es.drop_last());
        lemma_erase_expr(sc, sy, es.last());
        let rs = rs_exprs(sc, sy, es.drop_last()).0;
        let r = rs_expr(sc, sy, es.last()).0;
        assert(rs.push(r).drop_last() =~= rs);
        assert(es.drop_last().push(es.last()) =~= es);
    }
}

pub proof fn lemma_erase_field_inits(
    sc: Seq<ScopeView>,
    sy: Seq<SymbolView>,
    fs: Seq<(Seq<char>, SExpr<Parsed>)>,
)
    ensures
        erase_field_inits(rs_field_inits(sc, sy, fs).0) == fs,
    decreases fs,
{
    if fs.len() > 0 {
        lemma_erase_field_inits(sc, sy, fs.drop_last());
        lemma_erase_expr(sc, sy, fs.last().1);
        let rs = rs_field_inits(sc, sy, fs.drop_last()).0;
        let r = (fs.last().0, rs_expr(sc, sy, fs.last().1).0);
        assert(rs.push(r).drop_last() =~= rs);
        assert(fs.drop_last().push(fs.last()) =~= fs);
    }
}

pub open spec fn erase_opt_type(t: Option<SType<Resolved>>) -> Option<SType<Parsed>> {
    match t {
        Some(t) => Some(erase_type(t)),
        None => None,
    }
}

pub open spec fn erase_stmt(s: SStmt<Resolved>) -> SStmt<Parsed>
    decreases s,
{
    SStmt {
        ann: s.ann,
        kind: match s.kind {
            SStmtKind::Expr(e) => SStmtKind::Expr(erase_expr(e)),
            SStmtKind::VarDecl { name, ty, init } => SStmtKind::VarDecl {
                name: erase_ident(name),
                ty: erase_opt_type(ty),
                init: erase_expr(init),
            },
            SStmtKind::ConstDecl { name, ty, init } => SStmtKind::ConstDecl {
                name: erase_ident(name),
                ty: erase_type(ty),
                init: erase_expr(init),
            },
            SStmtKind::Return(e) => SStmtKind::Return(
                match e {
                    Some(x) => Some(erase_expr(x)),
                    None => None,
                },
            ),
            SStmtKind::If { cond, then_block, else_ifs, else_block } => SStmtKind::If {
                cond: erase_expr(cond),
                then_block: erase_block(then_block),
                else_ifs: erase_else_ifs(else_ifs),
                else_block: match else_block {
                    Some(b) => Some(erase_block(b)),
                    None => None,
                },
            },
            SStmtKind::While { cond, body } => SStmtKind::While {
                cond: erase_expr(cond),
                body: erase_block(body),
            },
            SStmtKind::Break => SStmtKind::Break,
            SStmtKind::Continue => SStmtKind::Continue,
        },
    }
}

pub open spec fn erase_block(b: SBlock<Resolved>) -> SBlock<Parsed>
    decreases b,
{
    SBlock { ann: b.ann, stmts: erase_stmts(b.stmts) }
}

pub open spec fn erase_stmts(ss: Seq<SStmt<Resolved>>) -> Seq<SStmt<Parsed>>
    decreases ss,
{
    if ss.len() == 0 {
        Seq::empty()
    } else {
        erase_stmts(ss.drop_last()).push(erase_stmt(ss.last()))
    }
}

pub open spec fn erase_else_ifs(bs: Seq<(SExpr<Resolved>, SBlock<Resolved>)>) -> Seq<
    (SExpr<Parsed>, SBlock<Parsed>),
>
    decreases bs,
{
    if bs.len() == 0 {
        Seq::empty()
    } else {
        erase_else_ifs(bs.drop_last()).push((erase_expr(bs.last().0), erase_block(bs.last().1)))
    }
}

proof fn lemma_unit(u: ())
    ensures
        u == (),
{
}

pub proof fn lemma_erase_stmt(st: RState, s: SStmt<Parsed>)
    ensures
        erase_stmt(rs_stmt(st, s).0) == s,
    decreases s,
{
    match s.kind {
        SStmtKind::Expr(e) => lemma_erase_expr(st.scopes, st.symbols, e),
        SStmtKind::VarDecl { name, ty, init } => {
            lemma_erase_expr(st.scopes, st.symbols, init);
            match ty {
                Some(t) => lemma_erase_type(st.scopes, t),
                None => {},
            }
            let u: () = name.id;
            lemma_unit(u);
        },
        SStmtKind::ConstDecl { name, ty, init } => {
            lemma_erase_expr(st.scopes, st.symbols, init);
            lemma_erase_type(st.scopes, ty);
            let u: () = name.id;
            lemma_unit(u);
        },
        SStmtKind::Return(e) => match e {
            Some(x) => lemma_erase_expr(st.scopes, st.symbols, x),
            None => {},
        },
        SStmtKind::If { cond, then_block, else_ifs, else_block } => {
            lemma_erase_expr(st.scopes, st.symbols, cond);
            let dc = rs_expr(st.scopes, st.symbols, cond).1;
            lemma_erase_block(emit_all(st, dc), then_block);
            let st1 = rs_block(emit_all(st, dc), then_block).1;
            lemma_erase_else_ifs(st1, else_ifs);
            let st3 = rs_else_ifs(st1, else_ifs).1;
            match else_block {
                Some(b) => lemma_erase_block(st3, b),
                None => {},
            }
        },
        SStmtKind::While { cond, body } => {
            let st0 = RState { loop_depth: st.loop_depth + 1, ..st };
            lemma_erase_expr(st0.scopes, st0.symbols, cond);
            let dc = rs_expr(st0.scopes, st0.symbols, cond).1;
            lemma_erase_block(emit_all(st0, dc), body);
        },
        _ => {},
    }
}

pub proof fn lemma_erase_block(st: RState, b: SBlock<Parsed>)
    ensures
        erase_block(rs_block(st, b).0) == b,
    decreases b,
{
    lemma_erase_stmts(push_scope(st), b.stmts);
}

pub proof fn lemma_erase_stmts(st: RState, ss: Seq<SStmt<Parsed>>)
    ensures
        erase_stmts(rs_stmts(st, ss).0) == ss,
    decreases ss,
{
    if ss.len() > 0 {
        lemma_erase_stmts(st, ss.drop_last());
        let (rs, st1) = rs_stmts(st, ss.drop_last());
        lemma_erase_stmt(st1, ss.last());
        let r = rs_stmt(st1, ss.last()).0;
        assert(rs.push(r).drop_last() =~= rs);
        assert(ss.drop_last().push(ss.last()) =~= ss);
    }
}

pub proof fn lemma_erase_else_ifs(st: RState, bs: Seq<(SExpr<Parsed>, SBlock<Parsed>)>)
    ensures
        erase_else_ifs(rs_else_ifs(st, bs).0) == bs,
    decreases bs,
{
    if bs.len() > 0 {
        lemma_erase_else_ifs(st, bs.drop_last());
        let (rs, st1) = rs_else_ifs(st, bs.drop_last());
        lemma_erase_expr(st1.scopes, st1.symbols, bs.last().0);
        let (rc, dc) = rs_expr(st1.scopes, st1.symbols, bs.last().0);
        lemma_erase_block(emit_all(st1, dc), bs.last().1);
        let rb = rs_block(emit_all(st1, dc), bs.last().1).0;
        assert(rs.push((rc, rb)).drop_last() =~= rs);
        assert(bs.drop_last().push(bs.last()) =~= bs);
    }
}

pub open spec fn erase_param(p: SParam<Resolved>) -> SParam<Parsed> {
    SParam {
        ann: p.ann,
        kind: match p.kind {
            SParamKind::SelfParam { ty } => SParamKind::SelfParam { ty: erase_opt_type(ty) },
            SParamKind::Named { name, ty } => SParamKind::Named {
                name: erase_ident(name),
                ty: erase_type(ty),
            },
        },
    }
}

pub open spec fn erase_params(ps: Seq<SParam<Resolved>>) -> Seq<SParam<Parsed>>
    decreases ps.len(),
{
    if ps.len() == 0 {
        Seq::empty()
    } else {
        erase_params(ps.drop_last()).push(erase_param(ps.last()))
    }
}

pub open spec fn erase_fn(f: SFnDecl<Resolved>) -> SFnDecl<Parsed> {
    SFnDecl {
        ann: f.ann,
        name: erase_ident(f.name),
        params: erase_params(f.params),
        ret_ty: erase_type(f.ret_ty),
        body: erase_block(f.body),
    }
}

pub open spec fn erase_fns(fs: Seq<SFnDecl<Resolved>>) -> Seq<SFnDecl<Parsed>>
    decreases fs.len(),
{
    if fs.len() == 0 {
        Seq::empty()
    } else {
        erase_fns(fs.drop_last()).push(erase_fn(fs.last()))
    }
}

pub open spec fn erase_field_decls(fs: Seq<SFieldDecl<Resolved>>) -> Seq<SFieldDecl<Parsed>>
    decreases fs.len(),
{
    if fs.len() == 0 {
        Seq::empty()
    } else {
        erase_field_decls(fs.drop_last()).push(
            SFieldDecl { ann: fs.last().ann, name: fs.last().name, ty: erase_type(fs.last().ty) },
        )
    }
}

pub open spec fn erase_decl(d: SDecl<Resolved>) -> SDecl<Parsed> {
    match d {
        SDecl::Fn(f) => SDecl::Fn(erase_fn(f)),
        SDecl::Struct(s) => SDecl::Struct(
            SStructDecl {
                ann: s.ann,
                name: erase_ident(s.name),
                fields: erase_field_decls(s.fields),
                methods: erase_fns(s.methods),
            },
        ),
    }
}

pub open spec fn erase_decls(ds: Seq<SDecl<Resolved>>) -> Seq<SDecl<Parsed>>
    decreases ds.len(),
{
    if ds.len() == 0 {
        Seq::empty()
    } else {
        erase_decls(ds.drop_last()).push(erase_decl(ds.last()))
    }
}

/// A resolved program without its symbol ids.
pub open spec fn erase_program(p: SProgram<Resolved>) -> SProgram<Parsed> {
    SProgram { decls: erase_decls(p.decls) }
}

pub proof fn lemma_erase_params(st: RState, ps: Seq<SParam<Parsed>>)
    ensures
        erase_params(rs_params(st, ps).0) == ps,
    decreases ps.len(),
{
    if ps.len() > 0 {
        lemma_erase_params(st, ps.drop_last());
        let (rs, st1) = rs_params(st, ps.drop_last());
        let p = ps.last();
        let (id, st2) = crate::resolver::spec::define(
            st1,
            crate::resolver::spec::param_name(p),
            p.ann,
            crate::common::SymbolKindView::Param,
        );
        match p.kind {
            SParamKind::SelfParam { ty } => match ty {
                Some(t) => lemma_erase_type(st2.scopes, t),
                None => {},
            },
            SParamKind::Named { name, ty } => {
                lemma_erase_type(st2.scopes, ty);
                let u: () = name.id;
                lemma_unit(u);
            },
        }
        let r = rs_params(st, ps).0.last();
        assert(rs_params(st, ps).0 == rs.push(r));
        assert(rs.push(r).drop_last() =~= rs);
        assert(ps.drop_last().push(ps.last()) =~= ps);
    }
}

pub proof fn lemma_erase_fn_body(st: RState, f: SFnDecl<Parsed>, id: SymbolId)
    ensures
        erase_fn(rs_fn_body(st, f, id).0) == f,
{
    let st0 = push_scope(st);
    lemma_erase_params(st0, f.params);
    let st1 = rs_params(st0, f.params).1;
    lemma_erase_type(st1.scopes, f.ret_ty);
    let d = rs_type(st1.scopes, f.ret_ty).1;
    lemma_erase_block(emit_all(st1, d), f.body);
    let u: () = f.name.id;
    lemma_unit(u);
}

proof fn lemma_erase_methods(st: RState, ms: Seq<SFnDecl<Parsed>>, name: Seq<char>)
    ensures
        erase_fns(rs_methods(st, ms, name).0) == ms,
    decreases ms.len(),
{
    if ms.len() > 0 {
        lemma_erase_methods(st, ms.drop_last(), name);
        let (rs, st1) = rs_methods(st, ms.drop_last(), name);
        let m = ms.last();
        lemma_erase_fn_body(st1, m, method_id(st1, name, m.name.name));
        let r = rs_fn_body(st1, m, method_id(st1, name, m.name.name)).0;
        assert(rs.push(r).drop_last() =~= rs);
        assert(ms.drop_last().push(ms.last()) =~= ms);
    }
}

proof fn lemma_erase_field_decls(sc: Seq<ScopeView>, fs: Seq<SFieldDecl<Parsed>>)
    ensures
        erase_field_decls(rs_field_decls(sc, fs).0) == fs,
    decreases fs.len(),
{
    if fs.len() > 0 {
        lemma_erase_field_decls(sc, fs.drop_last());
        let rs = rs_field_decls(sc, fs.drop_last()).0;
        let f = fs.last();
        lemma_erase_type(sc, f.ty);
        let r = SFieldDecl { ann: f.ann, name: f.name, ty: rs_type(sc, f.ty).0 };
        assert(rs.push(r).drop_last() =~= rs);
        assert(fs.drop_last().push(fs.last()) =~= fs);
    }
}

proof fn lemma_erase_decls(st: RState, ds: Seq<SDecl<Parsed>>)
    ensures
        erase_decls(rs_decls(st, ds).0) == ds,
    decreases ds.len(),
{
    if ds.len() > 0 {
        lemma_erase_decls(st, ds.drop_last());
        let (rs, st1) = rs_decls(st, ds.drop_last());
        match ds.last() {
            SDecl::Fn(f) => {
                lemma_erase_fn_body(st1, f, lookup_or_unresolved(st1.scopes, f.name.name));
            },
            SDecl::Struct(s) => {
                lemma_erase_field_decls(st1.scopes, s.fields);
                let d1 = rs_field_decls(st1.scopes, s.fields).1;
                lemma_erase_methods(emit_all(st1, d1), s.methods, s.name.name);
                let u: () = s.name.id;
                lemma_unit(u);
            },
        }
        let r = rs_decl(st1, ds.last()).0;
        assert(rs.push(r).drop_last() =~= rs);
        assert(ds.drop_last().push(ds.last()) =~= ds);
    }
}

/// Resolution changes nothing in a program but its symbol ids: forgetting
/// them gives back the program as it was parsed.
pub proof fn law_resolution_keeps_program(p: SProgram<Parsed>)
    ensures
        rs_program(p) matches Ok((q, _)) ==> erase_program(q) == p,
{
    let st0 = push_scope(crate::resolver::spec::initial());
    let st1 = crate::resolver::spec::collect_decls(st0, p.decls);
    lemma_erase_decls(st1, p.decls);
}

} // verus!
