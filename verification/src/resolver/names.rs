//! Resolution that reports nothing binds every name to a symbol of that
//! name: each identifier of the resolved program refers to a symbol of the
//! table that carries the identifier's name.
use vstd::prelude::*;
use crate::ast::view::{SBlock, SDecl, SExprKind, SFnDecl, SParam, SParamKind, SProgram, SStmt, SStmtKind};
use crate::common::{Parsed, Resolved, Span, SymbolId, SymbolKindView, SymbolView};
use crate::resolver::laws::{
    decl_name, keeps, lemma_collect_decl_keeps, lemma_collect_decls_binding,
    lemma_collect_decls_keeps, lemma_collect_decls_split, lemma_collect_methods_keeps,
    lemma_decls_defs_split, lemma_redefined_fails, law_block_scopes, law_decls_scopes, law_fn_body_scopes, lemma_else_ifs_scopes,
    lemma_methods_scopes, lemma_params_scopes, lemma_stmt_scopes, lemma_stmts_scopes,
};
use crate::resolver::spec::{
    check_main, collect_decl, collect_decls, collect_methods, decl_defs, decls_defs,
    duplicate_fields, field_names, initial, lemma_decls_size_take, program_size, rs_program,
    define, emit_all, lookup, lookup_or_unresolved, method_id, param_name, rs_decls,
    rs_field_decls, rs_fn_body, rs_methods, rs_params, SFP, SPP, pop_scope, push_scope, rs_block, rs_callee, rs_else_ifs, rs_expr,
    rs_exprs, rs_field_inits, rs_stmt, rs_stmts, rs_type, scope_get, RState, ScopeView, SBP, SEP,
    SER, SSP,
};

verus! {

/// The symbol `id` of `sy` is named `name`.
pub open spec fn named(sy: Seq<SymbolView>, id: SymbolId, name: Seq<char>) -> bool {
    id.0 < sy.len() && sy[id.0 as int].name == name
}

/// `b` holds the symbols of `a`, unchanged, and maybe more after them.
pub open spec fn extends(a: Seq<SymbolView>, b: Seq<SymbolView>) -> bool {
    a.len() <= b.len() && forall|i: int| 0 <= i < a.len() ==> #[trigger] b[i] == a[i]
}

/// Every binding of the scope refers to a symbol of its name.
pub open spec fn scope_named(sc: ScopeView, sy: Seq<SymbolView>) -> bool {
    forall|j: int| 0 <= j < sc.len() ==> named(sy, (#[trigger] sc[j]).1, sc[j].0)
}

pub open spec fn scopes_named(scopes: Seq<ScopeView>, sy: Seq<SymbolView>) -> bool {
    forall|i: int| 0 <= i < scopes.len() ==> scope_named(#[trigger] scopes[i], sy)
}

/// Every identifier of `e` refers to a symbol of `sy` with its name.
pub open spec fn expr_named(e: SER, sy: Seq<SymbolView>) -> bool
    decreases e,
{
    match e.kind {
        SExprKind::Ident(i) => named(sy, i.id, i.name),
        SExprKind::Unary(_, x) => expr_named(*x, sy),
        SExprKind::Binary(_, a, b) => expr_named(*a, sy) && expr_named(*b, sy),
        SExprKind::Assign { lhs, rhs } => expr_named(*lhs, sy) && expr_named(*rhs, sy),
        SExprKind::Call { callee, args } => expr_named(*callee, sy) && exprs_named(args, sy),
        SExprKind::Field { base, .. } => expr_named(*base, sy),
        SExprKind::Index { base, index } => expr_named(*base, sy) && expr_named(*index, sy),
        SExprKind::MethodCall { base, args, .. } => expr_named(*base, sy) && exprs_named(args, sy),
        SExprKind::StaticCall { args, .. } => exprs_named(args, sy),
        SExprKind::StdCall { args, .. } => exprs_named(args, sy),
        SExprKind::StructLit { fields, .. } => field_inits_named(fields, sy),
        SExprKind::Alloc { count, .. } => expr_named(*count, sy),
        SExprKind::Free { expr } => expr_named(*expr, sy),
        _ => true,
    }
}

pub open spec fn exprs_named(es: Seq<SER>, sy: Seq<SymbolView>) -> bool
    decreases es,
{
    if es.len() == 0 {
        true
    } else {
        exprs_named(es.drop_last(), sy) && expr_named(es.last(), sy)
    }
}

pub open spec fn field_inits_named(fs: Seq<(Seq<char>, SER)>, sy: Seq<SymbolView>) -> bool
    decreases fs,
{
    if fs.len() == 0 {
        true
    } else {
        field_inits_named(fs.drop_last(), sy) && expr_named(fs.last().1, sy)
    }
}

proof fn lemma_scope_get_named(sc: ScopeView, name: Seq<char>, sy: Seq<SymbolView>)
    requires
        scope_named(sc, sy),
    ensures
        scope_get(sc, name) matches Some(id) ==> named(sy, id, name),
    decreases sc.len(),
{
    if sc.len() > 0 {
        assert(sc.last() == sc[sc.len() - 1]);
        if sc.last().0 != name {
            assert forall|j: int| 0 <= j < sc.drop_last().len() implies named(
                sy,
                (#[trigger] sc.drop_last()[j]).1,
                sc.drop_last()[j].0,
            ) by {
                assert(sc.drop_last()[j] == sc[j]);
            }
            lemma_scope_get_named(sc.drop_last(), name, sy);
        }
    }
}

/// A name looks up, in scopes whose bindings are named, to a symbol of
/// that name.
pub proof fn lemma_lookup_named(scopes: Seq<ScopeView>, name: Seq<char>, sy: Seq<SymbolView>)
    requires
        scopes_named(scopes, sy),
    ensures
        lookup(scopes, name) matches Some(id) ==> named(sy, id, name),
    decreases scopes.len(),
{
    if scopes.len() > 0 {
        assert(scope_named(scopes[scopes.len() - 1], sy));
        lemma_scope_get_named(scopes.last(), name, sy);
        assert forall|i: int| 0 <= i < scopes.drop_last().len() implies scope_named(
            #[trigger] scopes.drop_last()[i],
            sy,
        ) by {
            assert(scopes.drop_last()[i] == scopes[i]);
        }
        lemma_lookup_named(scopes.drop_last(), name, sy);
    }
}

proof fn lemma_named_extends(scopes: Seq<ScopeView>, a: Seq<SymbolView>, b: Seq<SymbolView>)
    requires
        scopes_named(scopes, a),
        extends(a, b),
    ensures
        scopes_named(scopes, b),
{
    assert forall|i: int| 0 <= i < scopes.len() implies scope_named(#[trigger] scopes[i], b) by {
        assert(scope_named(scopes[i], a));
        assert forall|j: int| 0 <= j < scopes[i].len() implies named(
            b,
            (#[trigger] scopes[i][j]).1,
            scopes[i][j].0,
        ) by {
            assert(named(a, scopes[i][j].1, scopes[i][j].0));
        }
    }
}

pub proof fn lemma_expr_named(sc: Seq<ScopeView>, sy0: Seq<SymbolView>, e: SEP, sy: Seq<SymbolView>)
    requires
        scopes_named(sc, sy),
        rs_expr(sc, sy0, e).1.len() == 0,
    ensures
        expr_named(rs_expr(sc, sy0, e).0, sy),
    decreases e,
{
    match e.kind {
        SExprKind::Ident(i) => lemma_lookup_named(sc, i.name, sy),
        SExprKind::Unary(_, x) => lemma_expr_named(sc, sy0, *x, sy),
        SExprKind::Binary(_, a, b) => {
            lemma_expr_named(sc, sy0, *a, sy);
            lemma_expr_named(sc, sy0, *b, sy);
        },
        SExprKind::Assign { lhs, rhs } => {
            lemma_expr_named(sc, sy0, *lhs, sy);
            lemma_expr_named(sc, sy0, *rhs, sy);
        },
        SExprKind::Call { callee, args } => {
            let (rc, dc) = rs_callee(sc, sy0, *callee);
            assert(dc.len() == 0);
            match callee.kind {
                SExprKind::Ident(i) => {
                    lemma_lookup_named(sc, i.name, sy);
                    assert(expr_named(rc, sy));
                },
                _ => {
                    assert(rs_callee(sc, sy0, *callee) == rs_expr(sc, sy0, *callee));
                    lemma_expr_named(sc, sy0, *callee, sy);
                },
            }
            lemma_exprs_named(sc, sy0, args, sy);
        },
        SExprKind::Field { base, .. } => lemma_expr_named(sc, sy0, *base, sy),
        SExprKind::Index { base, index } => {
            lemma_expr_named(sc, sy0, *base, sy);
            lemma_expr_named(sc, sy0, *index, sy);
        },
        SExprKind::MethodCall { base, args, .. } => {
            lemma_expr_named(sc, sy0, *base, sy);
            lemma_exprs_named(sc, sy0, args, sy);
        },
        SExprKind::StaticCall { args, .. } => lemma_exprs_named(sc, sy0, args, sy),
        SExprKind::StdCall { args, .. } => lemma_exprs_named(sc, sy0, args, sy),
        SExprKind::StructLit { fields, .. } => lemma_field_inits_named(sc, sy0, fields, sy),
        SExprKind::Alloc { count, .. } => lemma_expr_named(sc, sy0, *count, sy),
        SExprKind::Free { expr } => lemma_expr_named(sc, sy0, *expr, sy),
        _ => {},
    }
}

pub proof fn lemma_exprs_named(sc: Seq<ScopeView>, sy0: Seq<SymbolView>, es: Seq<SEP>, sy: Seq<SymbolView>)
    requires
        scopes_named(sc, sy),
        rs_exprs(sc, sy0, es).1.len() == 0,
    ensures
        exprs_named(rs_exprs(sc, sy0, es).0, sy),
    decreases es,
{
    if es.len() > 0 {
        lemma_exprs_named(sc, sy0, es.drop_last(), sy);
        lemma_expr_named(sc, sy0, es.last(), sy);
        let rs = rs_exprs(sc, sy0, es.drop_last()).0;
        let r = rs_expr(sc, sy0, es.last()).0;
        assert(rs.push(r).drop_last() =~= rs);
    }
}

pub proof fn lemma_field_inits_named(
    sc: Seq<ScopeView>,
    sy0: Seq<SymbolView>,
    fs: Seq<(Seq<char>, SEP)>,
    sy: Seq<SymbolView>,
)
    requires
        scopes_named(sc, sy),
        rs_field_inits(sc, sy0, fs).1.len() == 0,
    ensures
        field_inits_named(rs_field_inits(sc, sy0, fs).0, sy),
    decreases fs,
{
    if fs.len() > 0 {
        lemma_field_inits_named(sc, sy0, fs.drop_last(), sy);
        lemma_expr_named(sc, sy0, fs.last().1, sy);
        let rs = rs_field_inits(sc, sy0, fs.drop_last()).0;
        let r = rs_expr(sc, sy0, fs.last().1).0;
        assert(rs.push((fs.last().0, r)).drop_last() =~= rs);
    }
}

pub open spec fn stmt_named(s: SStmt<Resolved>, sy: Seq<SymbolView>) -> bool
    decreases s,
{
    match s.kind {
        SStmtKind::Expr(e) => expr_named(e, sy),
        SStmtKind::VarDecl { name, init, .. } => named(sy, name.id, name.name) && expr_named(init, sy),
        SStmtKind::ConstDecl { name, init, .. } => named(sy, name.id, name.name) && expr_named(init, sy),
        SStmtKind::Return(e) => match e {
            Some(x) => expr_named(x, sy),
            None => true,
        },
        SStmtKind::If { cond, then_block, else_ifs, else_block } => expr_named(cond, sy)
            && block_named(then_block, sy) && else_ifs_named(else_ifs, sy) && match else_block {
            Some(b) => block_named(b, sy),
            None => true,
        },
        SStmtKind::While { cond, body } => expr_named(cond, sy) && block_named(body, sy),
        _ => true,
    }
}

pub open spec fn block_named(b: SBlock<Resolved>, sy: Seq<SymbolView>) -> bool
    decreases b,
{
    stmts_named(b.stmts, sy)
}

pub open spec fn stmts_named(ss: Seq<SStmt<Resolved>>, sy: Seq<SymbolView>) -> bool
    decreases ss,
{
    if ss.len() == 0 {
        true
    } else {
        stmts_named(ss.drop_last(), sy) && stmt_named(ss.last(), sy)
    }
}

pub open spec fn else_ifs_named(bs: Seq<(SER, SBlock<Resolved>)>, sy: Seq<SymbolView>) -> bool
    decreases bs,
{
    if bs.len() == 0 {
        true
    } else {
        else_ifs_named(bs.drop_last(), sy) && expr_named(bs.last().0, sy) && block_named(
            bs.last().1,
            sy,
        )
    }
}

/// A resolver state whose scopes bind every name to a symbol of that name.
pub open spec fn state_named(st: RState) -> bool {
    scopes_named(st.scopes, st.symbols)
}

proof fn lemma_define_named(st: RState, name: Seq<char>, span: Span, kind: SymbolKindView)
    requires
        state_named(st),
        st.scopes.len() > 0,
        st.symbols.len() < u32::MAX,
    ensures
        state_named(define(st, name, span, kind).1),
        named(define(st, name, span, kind).1.symbols, define(st, name, span, kind).0, name),
        extends(st.symbols, define(st, name, span, kind).1.symbols),
{
    let (id, st2) = define(st, name, span, kind);
    let sy = st2.symbols;
    assert(extends(st.symbols, sy));
    lemma_named_extends(st.scopes, st.symbols, sy);
    let last = st.scopes.len() - 1;
    assert forall|i: int| 0 <= i < st2.scopes.len() implies scope_named(#[trigger] st2.scopes[i], sy) by {
        if i == last {
            let sc = st2.scopes[i];
            assert(sc == st.scopes[last].push((name, id)));
            assert(scope_named(st.scopes[last], sy));
            assert forall|j: int| 0 <= j < sc.len() implies named(sy, (#[trigger] sc[j]).1, sc[j].0) by {
                if j < st.scopes[last].len() {
                    assert(sc[j] == st.scopes[last][j]);
                }
            }
        } else {
            assert(st2.scopes[i] == st.scopes[i]);
        }
    }
}

proof fn lemma_extends_trans(a: Seq<SymbolView>, b: Seq<SymbolView>, c: Seq<SymbolView>)
    requires
        extends(a, b),
        extends(b, c),
    ensures
        extends(a, c),
{
    assert forall|i: int| 0 <= i < a.len() implies #[trigger] c[i] == a[i] by {
        assert(c[i] == b[i]);
    }
}

pub proof fn lemma_stmt_named(st: RState, s: SSP, sy: Seq<SymbolView>)
    requires
        state_named(st),
        st.scopes.len() > 0,
        rs_stmt(st, s).1.diags.len() == st.diags.len(),
        extends(rs_stmt(st, s).1.symbols, sy),
        rs_stmt(st, s).1.symbols.len() <= u32::MAX,
    ensures
        stmt_named(rs_stmt(st, s).0, sy),
        state_named(rs_stmt(st, s).1),
    decreases s,
{
    lemma_stmt_scopes(st, s);
    let st9 = rs_stmt(st, s).1;
    lemma_extends_trans(st.symbols, st9.symbols, sy);
    lemma_named_extends(st.scopes, st.symbols, sy);
    match s.kind {
        SStmtKind::Expr(e) => {
            lemma_expr_named(st.scopes, st.symbols, e, sy);
        },
        SStmtKind::VarDecl { name, ty, init } => {
            let d1 = rs_expr(st.scopes, st.symbols, init).1;
            let d2 = match ty {
                Some(t) => rs_type(st.scopes, t).1,
                None => Seq::empty(),
            };
            let sta = emit_all(st, d1 + d2);
            assert(d1.len() == 0);
            lemma_expr_named(st.scopes, st.symbols, init, sy);
            lemma_define_named(sta, name.name, s.ann, SymbolKindView::Var);
        },
        SStmtKind::ConstDecl { name, ty, init } => {
            let d1 = rs_expr(st.scopes, st.symbols, init).1;
            let d2 = rs_type(st.scopes, ty).1;
            let sta = emit_all(st, d1 + d2);
            assert(d1.len() == 0);
            lemma_expr_named(st.scopes, st.symbols, init, sy);
            lemma_define_named(sta, name.name, s.ann, SymbolKindView::Const);
        },
        SStmtKind::Return(e) => {
            match e {
                Some(x) => lemma_expr_named(st.scopes, st.symbols, x, sy),
                None => {},
            }
        },
        SStmtKind::If { cond, then_block, else_ifs, else_block } => {
            let dc = rs_expr(st.scopes, st.symbols, cond).1;
            let st0 = emit_all(st, dc);
            law_block_scopes(st0, then_block);
            let st1 = rs_block(st0, then_block).1;
            lemma_else_ifs_scopes(st1, else_ifs);
            let st3 = rs_else_ifs(st1, else_ifs).1;
            match else_block {
                Some(b) => {
                    law_block_scopes(st3, b);
                },
                None => {},
            }
            assert(dc.len() == 0);
            lemma_expr_named(st.scopes, st.symbols, cond, sy);
            lemma_extends_trans(st1.symbols, st3.symbols, st9.symbols);
            lemma_extends_trans(st1.symbols, st9.symbols, sy);
            lemma_block_named(st0, then_block, sy);
            lemma_extends_trans(st3.symbols, st9.symbols, sy);
            lemma_else_ifs_named(st1, else_ifs, sy);
            match else_block {
                Some(b) => {
                    lemma_block_named(st3, b, sy);
                },
                None => {},
            }
        },
        SStmtKind::While { cond, body } => {
            let st0 = RState { loop_depth: st.loop_depth + 1, ..st };
            let dc = rs_expr(st0.scopes, st0.symbols, cond).1;
            law_block_scopes(emit_all(st0, dc), body);
            assert(dc.len() == 0);
            lemma_expr_named(st.scopes, st.symbols, cond, sy);
            lemma_block_named(emit_all(st0, dc), body, sy);
        },
        _ => {},
    }
}

pub proof fn lemma_stmts_named(st: RState, ss: Seq<SSP>, sy: Seq<SymbolView>)
    requires
        state_named(st),
        st.scopes.len() > 0,
        rs_stmts(st, ss).1.diags.len() == st.diags.len(),
        extends(rs_stmts(st, ss).1.symbols, sy),
        rs_stmts(st, ss).1.symbols.len() <= u32::MAX,
    ensures
        stmts_named(rs_stmts(st, ss).0, sy),
        state_named(rs_stmts(st, ss).1),
    decreases ss,
{
    if ss.len() > 0 {
        lemma_stmts_scopes(st, ss.drop_last());
        let st1 = rs_stmts(st, ss.drop_last()).1;
        lemma_stmt_scopes(st1, ss.last());
        let st2 = rs_stmt(st1, ss.last()).1;
        lemma_extends_trans(st1.symbols, st2.symbols, sy);
        lemma_stmts_named(st, ss.drop_last(), sy);
        lemma_stmt_named(st1, ss.last(), sy);
        let rs = rs_stmts(st, ss.drop_last()).0;
        let r = rs_stmt(st1, ss.last()).0;
        assert(rs.push(r).drop_last() =~= rs);
    }
}

pub proof fn lemma_block_named(st: RState, b: SBP, sy: Seq<SymbolView>)
    requires
        state_named(st),
        rs_block(st, b).1.diags.len() == st.diags.len(),
        extends(rs_block(st, b).1.symbols, sy),
        rs_block(st, b).1.symbols.len() <= u32::MAX,
    ensures
        block_named(rs_block(st, b).0, sy),
        state_named(rs_block(st, b).1),
    decreases b,
{
    let st0 = push_scope(st);
    assert(state_named(st0)) by {
        assert forall|i: int| 0 <= i < st0.scopes.len() implies scope_named(#[trigger] st0.scopes[i], st0.symbols) by {
            if i < st.scopes.len() {
                assert(st0.scopes[i] == st.scopes[i]);
            }
        }
    }
    lemma_stmts_scopes(st0, b.stmts);
    lemma_stmts_named(st0, b.stmts, sy);
    let st1 = rs_stmts(st0, b.stmts).1;
    let st2 = pop_scope(st1);
    assert forall|i: int| 0 <= i < st2.scopes.len() implies scope_named(#[trigger] st2.scopes[i], st2.symbols) by {
        assert(st2.scopes[i] == st1.scopes[i]);
    }
}

pub proof fn lemma_else_ifs_named(st: RState, bs: Seq<(SEP, SBP)>, sy: Seq<SymbolView>)
    requires
        state_named(st),
        rs_else_ifs(st, bs).1.diags.len() == st.diags.len(),
        extends(rs_else_ifs(st, bs).1.symbols, sy),
        rs_else_ifs(st, bs).1.symbols.len() <= u32::MAX,
    ensures
        else_ifs_named(rs_else_ifs(st, bs).0, sy),
        state_named(rs_else_ifs(st, bs).1),
    decreases bs,
{
    if bs.len() > 0 {
        lemma_else_ifs_scopes(st, bs.drop_last());
        let st1 = rs_else_ifs(st, bs.drop_last()).1;
        let dc = rs_expr(st1.scopes, st1.symbols, bs.last().0).1;
        law_block_scopes(emit_all(st1, dc), bs.last().1);
        let st2 = rs_block(emit_all(st1, dc), bs.last().1).1;
        lemma_extends_trans(st1.symbols, st2.symbols, sy);
        lemma_else_ifs_named(st, bs.drop_last(), sy);
        assert(dc.len() == 0);
        lemma_named_extends(st1.scopes, st1.symbols, sy);
        lemma_expr_named(st1.scopes, st1.symbols, bs.last().0, sy);
        lemma_block_named(emit_all(st1, dc), bs.last().1, sy);
        let rs = rs_else_ifs(st, bs.drop_last()).0;
        let rc = rs_expr(st1.scopes, st1.symbols, bs.last().0).0;
        let rb = rs_block(emit_all(st1, dc), bs.last().1).0;
        assert(rs.push((rc, rb)).drop_last() =~= rs);
    }
}

pub open spec fn params_named(ps: Seq<SParam<Resolved>>, sy: Seq<SymbolView>) -> bool
    decreases ps.len(),
{
    if ps.len() == 0 {
        true
    } else {
        params_named(ps.drop_last(), sy) && match ps.last().kind {
            SParamKind::Named { name, .. } => named(sy, name.id, name.name),
            SParamKind::SelfParam { .. } => true,
        }
    }
}

/// A function's name, its parameters and its body refer to symbols of
/// their names.
pub open spec fn fn_named(f: SFnDecl<Resolved>, sy: Seq<SymbolView>) -> bool {
    named(sy, f.name.id, f.name.name) && params_named(f.params, sy) && block_named(f.body, sy)
}

pub open spec fn fns_named(fs: Seq<SFnDecl<Resolved>>, sy: Seq<SymbolView>) -> bool
    decreases fs.len(),
{
    if fs.len() == 0 {
        true
    } else {
        fns_named(fs.drop_last(), sy) && fn_named(fs.last(), sy)
    }
}

pub open spec fn decl_named(d: SDecl<Resolved>, sy: Seq<SymbolView>) -> bool {
    match d {
        SDecl::Fn(f) => fn_named(f, sy),
        SDecl::Struct(s) => named(sy, s.name.id, s.name.name) && fns_named(s.methods, sy),
    }
}

pub open spec fn decls_named(ds: Seq<SDecl<Resolved>>, sy: Seq<SymbolView>) -> bool
    decreases ds.len(),
{
    if ds.len() == 0 {
        true
    } else {
        decls_named(ds.drop_last(), sy) && decl_named(ds.last(), sy)
    }
}

/// Every name of a resolved program refers to a symbol of `sy` that
/// carries that name.
pub open spec fn program_named(p: SProgram<Resolved>, sy: Seq<SymbolView>) -> bool {
    decls_named(p.decls, sy)
}

pub proof fn lemma_params_named(st: RState, ps: Seq<SPP>, sy: Seq<SymbolView>)
    requires
        state_named(st),
        st.scopes.len() > 0,
        rs_params(st, ps).1.diags.len() == st.diags.len(),
        extends(rs_params(st, ps).1.symbols, sy),
        rs_params(st, ps).1.symbols.len() <= u32::MAX,
    ensures
        params_named(rs_params(st, ps).0, sy),
        state_named(rs_params(st, ps).1),
    decreases ps.len(),
{
    if ps.len() > 0 {
        lemma_params_scopes(st, ps.drop_last());
        let st1 = rs_params(st, ps.drop_last()).1;
        let p = ps.last();
        let (id, st2) = define(st1, param_name(p), p.ann, SymbolKindView::Param);
        let st3 = rs_params(st, ps).1;
        assert(st3.symbols == st2.symbols);
        assert(extends(st1.symbols, st2.symbols));
        lemma_extends_trans(st1.symbols, st3.symbols, sy);
        lemma_params_named(st, ps.drop_last(), sy);
        lemma_define_named(st1, param_name(p), p.ann, SymbolKindView::Param);
        let rs = rs_params(st, ps.drop_last()).0;
        let r = rs_params(st, ps).0;
        assert(r.drop_last() =~= rs);
    }
}

pub proof fn lemma_fn_body_named(st: RState, f: SFP, id: SymbolId, sy: Seq<SymbolView>)
    requires
        state_named(st),
        rs_fn_body(st, f, id).1.diags.len() == st.diags.len(),
        extends(rs_fn_body(st, f, id).1.symbols, sy),
        rs_fn_body(st, f, id).1.symbols.len() <= u32::MAX,
        named(sy, id, f.name.name),
    ensures
        fn_named(rs_fn_body(st, f, id).0, sy),
        state_named(rs_fn_body(st, f, id).1),
{
    let st0 = push_scope(st);
    assert(state_named(st0)) by {
        assert forall|i: int| 0 <= i < st0.scopes.len() implies scope_named(#[trigger] st0.scopes[i], st0.symbols) by {
            if i < st.scopes.len() {
                assert(st0.scopes[i] == st.scopes[i]);
            }
        }
    }
    lemma_params_scopes(st0, f.params);
    let st1 = rs_params(st0, f.params).1;
    let d = rs_type(st1.scopes, f.ret_ty).1;
    law_block_scopes(emit_all(st1, d), f.body);
    let st2 = rs_block(emit_all(st1, d), f.body).1;
    lemma_extends_trans(st1.symbols, st2.symbols, sy);
    lemma_params_named(st0, f.params, sy);
    lemma_block_named(emit_all(st1, d), f.body, sy);
    let st3 = pop_scope(st2);
    assert forall|i: int| 0 <= i < st3.scopes.len() implies scope_named(#[trigger] st3.scopes[i], st3.symbols) by {
        assert(st3.scopes[i] == st2.scopes[i]);
    }
}

/// The method `m` of the struct named `sname` has a symbol named `m`, which
/// the struct's symbol lists.
pub open spec fn method_named(st: RState, sname: Seq<char>, m: Seq<char>) -> bool {
    match lookup(st.scopes, sname) {
        Some(sid) => sid.0 < st.symbols.len() && match st.symbols[sid.0 as int].kind {
            SymbolKindView::Struct(info) => match scope_get(info.fns, m) {
                Some(id) => named(st.symbols, id, m),
                None => false,
            },
            _ => false,
        },
        None => false,
    }
}

proof fn lemma_method_named_kept(st: RState, st1: RState, sname: Seq<char>, m: Seq<char>)
    requires
        method_named(st, sname, m),
        extends(st.symbols, st1.symbols),
        st1.scopes == st.scopes,
    ensures
        method_named(st1, sname, m),
        method_id(st1, sname, m) == method_id(st, sname, m),
        named(st.symbols, method_id(st, sname, m), m),
{
    let sid = lookup(st.scopes, sname)->Some_0;
    assert(st1.symbols[sid.0 as int] == st.symbols[sid.0 as int]);
    let id = method_id(st, sname, m);
    assert(st1.symbols[id.0 as int] == st.symbols[id.0 as int]);
}

pub proof fn lemma_methods_named(st: RState, ms: Seq<SFP>, sname: Seq<char>, sy: Seq<SymbolView>)
    requires
        state_named(st),
        forall|j: int| 0 <= j < ms.len() ==> method_named(st, sname, #[trigger] ms[j].name.name),
        rs_methods(st, ms, sname).1.diags.len() == st.diags.len(),
        extends(rs_methods(st, ms, sname).1.symbols, sy),
        rs_methods(st, ms, sname).1.symbols.len() <= u32::MAX,
    ensures
        fns_named(rs_methods(st, ms, sname).0, sy),
        state_named(rs_methods(st, ms, sname).1),
    decreases ms.len(),
{
    if ms.len() > 0 {
        lemma_methods_scopes(st, ms.drop_last(), sname);
        let st1 = rs_methods(st, ms.drop_last(), sname).1;
        let m = ms.last();
        let id = method_id(st1, sname, m.name.name);
        law_fn_body_scopes(st1, m, id);
        let st2 = rs_fn_body(st1, m, id).1;
        lemma_extends_trans(st1.symbols, st2.symbols, sy);
        assert forall|j: int| 0 <= j < ms.drop_last().len() implies method_named(
            st,
            sname,
            #[trigger] ms.drop_last()[j].name.name,
        ) by {
            assert(ms.drop_last()[j] == ms[j]);
        }
        lemma_methods_named(st, ms.drop_last(), sname, sy);
        assert(method_named(st, sname, ms[ms.len() - 1].name.name));
        lemma_method_named_kept(st, st1, sname, m.name.name);
        lemma_lookup_named(st1.scopes, sname, st1.symbols);
        assert(named(st1.symbols, id, m.name.name));
        assert(named(sy, id, m.name.name)) by {
            assert(sy[id.0 as int] == st1.symbols[id.0 as int]);
        }
        lemma_fn_body_named(st1, m, id, sy);
        let rs = rs_methods(st, ms.drop_last(), sname).0;
        let r = rs_methods(st, ms, sname).0;
        assert(r.drop_last() =~= rs);
    }
}

/// The names a declaration needs are there and named: its own name, and
/// for a struct the symbol of each of its methods.
pub open spec fn decl_found_named(st: RState, d: SDecl<Parsed>) -> bool {
    match d {
        SDecl::Fn(f) => lookup(st.scopes, f.name.name) is Some,
        SDecl::Struct(s) => lookup(st.scopes, s.name.name) is Some && forall|j: int|
            0 <= j < s.methods.len() ==> method_named(st, s.name.name, #[trigger] s.methods[j].name.name),
    }
}

proof fn lemma_decl_found_named_kept(st: RState, st1: RState, d: SDecl<Parsed>)
    requires
        decl_found_named(st, d),
        extends(st.symbols, st1.symbols),
        st1.scopes == st.scopes,
    ensures
        decl_found_named(st1, d),
{
    if let SDecl::Struct(s) = d {
        assert forall|j: int| 0 <= j < s.methods.len() implies method_named(
            st1,
            s.name.name,
            #[trigger] s.methods[j].name.name,
        ) by {
            lemma_method_named_kept(st, st1, s.name.name, s.methods[j].name.name);
        }
    }
}

pub proof fn lemma_decls_named(st: RState, ds: Seq<SDecl<Parsed>>, sy: Seq<SymbolView>)
    requires
        state_named(st),
        forall|k: int| 0 <= k < ds.len() ==> decl_found_named(st, #[trigger] ds[k]),
        rs_decls(st, ds).1.diags.len() == st.diags.len(),
        extends(rs_decls(st, ds).1.symbols, sy),
        rs_decls(st, ds).1.symbols.len() <= u32::MAX,
    ensures
        decls_named(rs_decls(st, ds).0, sy),
        state_named(rs_decls(st, ds).1),
    decreases ds.len(),
{
    if ds.len() > 0 {
        law_decls_scopes(st, ds.drop_last());
        let st1 = rs_decls(st, ds.drop_last()).1;
        law_decls_scopes(st, ds);
        let d = ds.last();
        match d {
            SDecl::Fn(f) => {
                law_fn_body_scopes(st1, f, lookup_or_unresolved(st1.scopes, f.name.name));
            },
            SDecl::Struct(s) => {
                let d1 = rs_field_decls(st1.scopes, s.fields).1;
                lemma_methods_scopes(emit_all(st1, d1), s.methods, s.name.name);
            },
        }
        let st2 = rs_decls(st, ds).1;
        lemma_extends_trans(st1.symbols, st2.symbols, sy);
        assert forall|k: int| 0 <= k < ds.drop_last().len() implies decl_found_named(
            st,
            #[trigger] ds.drop_last()[k],
        ) by {
            assert(ds.drop_last()[k] == ds[k]);
        }
        lemma_decls_named(st, ds.drop_last(), sy);
        assert(decl_found_named(st, ds[ds.len() - 1]));
        lemma_decl_found_named_kept(st, st1, d);
        lemma_lookup_named(st1.scopes, crate::resolver::laws::decl_name(d), st1.symbols);
        match d {
            SDecl::Fn(f) => {
                let id = lookup_or_unresolved(st1.scopes, f.name.name);
                assert(sy[id.0 as int] == st1.symbols[id.0 as int]);
                lemma_fn_body_named(st1, f, id, sy);
            },
            SDecl::Struct(s) => {
                let id = lookup_or_unresolved(st1.scopes, s.name.name);
                assert(sy[id.0 as int] == st1.symbols[id.0 as int]);
                let d1 = rs_field_decls(st1.scopes, s.fields).1;
                let st3 = emit_all(st1, d1);
                assert forall|j: int| 0 <= j < s.methods.len() implies method_named(
                    st3,
                    s.name.name,
                    #[trigger] s.methods[j].name.name,
                ) by {
                    lemma_method_named_kept(st1, st3, s.name.name, s.methods[j].name.name);
                }
                lemma_methods_named(st3, s.methods, s.name.name, sy);
            },
        }
        let rs = rs_decls(st, ds.drop_last()).0;
        let r = rs_decls(st, ds).0;
        assert(r.drop_last() =~= rs);
    }
}

proof fn lemma_collect_methods_named(st: RState, ms: Seq<SFP>)
    requires
        st.symbols.len() + ms.len() <= u32::MAX,
    ensures
        collect_methods(st, ms).0.len() == ms.len(),
        forall|j: int|
            0 <= j < ms.len() ==> (#[trigger] collect_methods(st, ms).0[j]).0 == ms[j].name.name
                && collect_methods(st, ms).0[j].1.0 == st.symbols.len() + j
                && named(collect_methods(st, ms).1.symbols, collect_methods(st, ms).0[j].1, ms[j].name.name),
    decreases ms.len(),
{
    if ms.len() > 0 {
        lemma_collect_methods_named(st, ms.drop_last());
        lemma_collect_methods_keeps(st, ms.drop_last());
        let (fns, st1) = collect_methods(st, ms.drop_last());
        let (fns2, st2) = collect_methods(st, ms);
        assert forall|j: int| 0 <= j < ms.len() implies (#[trigger] fns2[j]).0 == ms[j].name.name
            && fns2[j].1.0 == st.symbols.len() + j && named(st2.symbols, fns2[j].1, ms[j].name.name) by {
            if j < ms.len() - 1 {
                assert(fns2[j] == fns[j]);
                assert(ms.drop_last()[j] == ms[j]);
                assert(st2.symbols[fns[j].1.0 as int] == st1.symbols[fns[j].1.0 as int]);
            }
        }
    }
}

/// The symbol `sid` is a struct whose method table gives each of the
/// methods `ms` a symbol of that method's name.
pub open spec fn struct_methods_named(syms: Seq<SymbolView>, sid: SymbolId, ms: Seq<SFP>) -> bool {
    sid.0 < syms.len() && match syms[sid.0 as int].kind {
        SymbolKindView::Struct(info) => forall|j: int|
            0 <= j < ms.len() ==> (scope_get(info.fns, #[trigger] ms[j].name.name) matches Some(
                id,
            ) && named(syms, id, ms[j].name.name)),
        _ => false,
    }
}

proof fn lemma_collect_struct_named(st: RState, d: SDecl<Parsed>)
    requires
        st.scopes.len() > 0,
        st.symbols.len() + decl_defs(d) <= u32::MAX,
        d is Struct,
    ensures
        struct_methods_named(collect_decl(st, d).symbols, SymbolId(st.symbols.len() as u32), d->Struct_0.methods),
{
    crate::resolver::bound::lemma_collect_struct(st, d);
    let s = d->Struct_0;
    let sta = emit_all(st, duplicate_fields(s.name.name, s.fields));
    let names = field_names(s.fields);
    let kind = SymbolKindView::Struct(crate::common::StructInfoView { fields: names, fns: Seq::empty() });
    let (sid, st2) = define(sta, s.name.name, s.ann, kind);
    lemma_collect_methods_named(st2, s.methods);
    lemma_collect_methods_keeps(st2, s.methods);
    let (fns, st3) = collect_methods(st2, s.methods);
    let stb = collect_decl(st, d);
    assert(sid.0 == st.symbols.len());
    if fns.len() > 0 {
        assert(stb.symbols[sid.0 as int].kind == SymbolKindView::Struct(
            crate::common::StructInfoView { fields: names, fns },
        ));
        assert(scope_named(fns, stb.symbols)) by {
            assert forall|j: int| 0 <= j < fns.len() implies named(stb.symbols, (#[trigger] fns[j]).1, fns[j].0) by {
                assert(stb.symbols[fns[j].1.0 as int] == st3.symbols[fns[j].1.0 as int]);
            }
        }
        assert forall|j: int| 0 <= j < s.methods.len() implies (scope_get(
            fns,
            #[trigger] s.methods[j].name.name,
        ) matches Some(id) && named(stb.symbols, id, s.methods[j].name.name)) by {
            lemma_scope_get_named(fns, s.methods[j].name.name, stb.symbols);
        }
    }
}

proof fn lemma_collect_decls_named(st: RState, ds: Seq<SDecl<Parsed>>)
    requires
        state_named(st),
        st.scopes.len() > 0,
        st.symbols.len() + decls_defs(ds) <= u32::MAX,
    ensures
        state_named(collect_decls(st, ds)),
    decreases ds.len(),
{
    if ds.len() > 0 {
        lemma_collect_decls_named(st, ds.drop_last());
        lemma_collect_decls_keeps(st, ds.drop_last());
        let st1 = collect_decls(st, ds.drop_last());
        let d = ds.last();
        match d {
            SDecl::Fn(f) => {
                lemma_define_named(st1, f.name.name, f.ann, SymbolKindView::Fn(crate::resolver::spec::fn_sig_view(f)));
            },
            SDecl::Struct(s) => {
                let sta = emit_all(st1, duplicate_fields(s.name.name, s.fields));
                let kind = SymbolKindView::Struct(
                    crate::common::StructInfoView { fields: field_names(s.fields), fns: Seq::empty() },
                );
                lemma_define_named(sta, s.name.name, s.ann, kind);
                let (sid, st2) = define(sta, s.name.name, s.ann, kind);
                lemma_collect_methods_keeps(st2, s.methods);
                let st3 = collect_methods(st2, s.methods).1;
                lemma_named_extends(st2.scopes, st2.symbols, st3.symbols);
                let st4 = collect_decl(st1, d);
                assert(st4.scopes == st3.scopes);
                assert(st4.symbols.len() == st3.symbols.len());
                assert(st4.symbols[sid.0 as int].name == st3.symbols[sid.0 as int].name);
                assert forall|i: int| 0 <= i < st4.scopes.len() implies scope_named(#[trigger] st4.scopes[i], st4.symbols) by {
                    assert(scope_named(st3.scopes[i], st3.symbols));
                    assert forall|j: int| 0 <= j < st4.scopes[i].len() implies named(
                        st4.symbols,
                        (#[trigger] st4.scopes[i][j]).1,
                        st4.scopes[i][j].0,
                    ) by {
                        let id = st4.scopes[i][j].1;
                        assert(named(st3.symbols, id, st4.scopes[i][j].0));
                        if id.0 != sid.0 {
                            assert(st4.symbols[id.0 as int] == st3.symbols[id.0 as int]);
                        }
                    }
                }
            },
        }
    }
}

/// Collecting the declarations of a program without a report binds the
/// name of each, and gives each method of a struct a symbol of its name
/// that its struct lists.
proof fn lemma_collect_found_named(ds: Seq<SDecl<Parsed>>)
    requires
        decls_defs(ds) <= u32::MAX,
        collect_decls(push_scope(initial()), ds).diags.len() == 0,
    ensures
        forall|k: int|
            0 <= k < ds.len() ==> decl_found_named(collect_decls(push_scope(initial()), ds), #[trigger] ds[k]),
{
    let st0 = push_scope(initial());
    let st1 = collect_decls(st0, ds);
    lemma_collect_decls_keeps(st0, ds);
    assert(st1.scopes.drop_last() =~= Seq::<ScopeView>::empty());
    assert forall|k: int| 0 <= k < ds.len() implies decl_found_named(st1, #[trigger] ds[k]) by {
        let a = ds.take(k);
        let rest = ds.skip(k + 1);
        lemma_decls_size_take(ds, k);
        lemma_decls_size_take(ds, k + 1);
        assert(ds.take(k + 1).drop_last() =~= a);
        assert(ds =~= ds.take(k + 1) + rest);
        lemma_decls_defs_split(ds.take(k + 1), rest);
        lemma_collect_decls_split(st0, ds.take(k + 1), rest);
        lemma_collect_decls_keeps(st0, a);
        let sta = collect_decls(st0, a);
        let d = ds[k];
        let stb = collect_decl(sta, d);
        assert(collect_decls(st0, ds.take(k + 1)) == stb);
        let name = decl_name(d);
        lemma_collect_decl_keeps(sta, d);
        match d {
            SDecl::Fn(f) => {
                let kind = SymbolKindView::Fn(crate::resolver::spec::fn_sig_view(f));
                let (id, st2) = define(sta, f.name.name, f.ann, kind);
                assert(st2.scopes.last() =~= sta.scopes.last().push((f.name.name, id)));
            },
            SDecl::Struct(_) => {
                crate::resolver::bound::lemma_collect_struct(sta, d);
                lemma_collect_struct_named(sta, d);
            },
        }
        assert(scope_get(stb.scopes.last(), name) is Some);
        if exists|j: int| 0 <= j < rest.len() && decl_name(#[trigger] rest[j]) == name {
            let j = choose|j: int| 0 <= j < rest.len() && decl_name(#[trigger] rest[j]) == name;
            lemma_redefined_fails(stb, rest, j, name);
        }
        lemma_collect_decls_binding(stb, rest, name);
        lemma_collect_decls_keeps(stb, rest);
        assert(lookup(st1.scopes, name) == scope_get(st1.scopes.last(), name));
        if let SDecl::Struct(s) = d {
            let sid = SymbolId(sta.symbols.len() as u32);
            assert(st1.symbols[sid.0 as int] == stb.symbols[sid.0 as int]);
            assert forall|j: int| 0 <= j < s.methods.len() implies method_named(
                st1,
                s.name.name,
                #[trigger] s.methods[j].name.name,
            ) by {
                let info = stb.symbols[sid.0 as int].kind->Struct_0;
                assert(scope_get(info.fns, s.methods[j].name.name) is Some);
                let id = scope_get(info.fns, s.methods[j].name.name)->Some_0;
                assert(named(stb.symbols, id, s.methods[j].name.name));
                assert(st1.symbols[id.0 as int] == stb.symbols[id.0 as int]);
            }
        }
    }
}

/// Resolution that reports nothing binds every name to a symbol of that
/// name: each identifier, each defined name and each function and method
/// of the resolved program refers to a symbol of its table that carries
/// the same name.
pub proof fn law_resolution_names_match(p: SProgram<Parsed>)
    requires
        program_size(p) < u32::MAX,
    ensures
        rs_program(p) matches Ok((q, syms)) ==> (syms.len() <= u32::MAX ==> program_named(q, syms)),
{
    let ds = p.decls;
    let st0 = push_scope(initial());
    let st1 = collect_decls(st0, ds);
    let st2 = rs_decls(st1, ds).1;
    let st3 = pop_scope(check_main(st2));
    law_decls_scopes(st1, ds);
    if st3.diags.len() == 0 && st3.symbols.len() <= u32::MAX {
        assert(check_main(st2).diags.len() >= st2.diags.len());
        assert(st1.diags.len() == 0);
        lemma_collect_found_named(ds);
        lemma_collect_decls_keeps(st0, ds);
        assert(state_named(st0)) by {
            assert forall|i: int| 0 <= i < st0.scopes.len() implies scope_named(#[trigger] st0.scopes[i], st0.symbols) by {
                assert(st0.scopes[i].len() == 0);
            }
        }
        lemma_collect_decls_named(st0, ds);
        assert(extends(st2.symbols, st2.symbols));
        lemma_decls_named(st1, ds, st2.symbols);
    }
}

} // verus!
