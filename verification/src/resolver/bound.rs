//! Resolution that reports nothing binds every name: each identifier of the
//! resolved program refers to a symbol of its table.
use vstd::prelude::*;
use crate::ast::view::{SBlock, SDecl, SExprKind, SFnDecl, SParam, SParamKind, SProgram, SStmt, SStmtKind};
use crate::common::{Parsed, Resolved, Span, SymbolId, SymbolKindView, SymbolView};
use crate::resolver::laws::{
    decl_name, keeps, lemma_collect_decl_keeps, lemma_collect_decls_binding, lemma_collect_decls_keeps,
    lemma_collect_decls_split, lemma_collect_methods_keeps, lemma_decls_defs_split,
    lemma_redefined_fails, law_block_scopes, law_decls_scopes, law_define_then_lookup,
    law_fn_body_scopes, lemma_else_ifs_scopes, lemma_methods_scopes, lemma_params_scopes,
    lemma_stmt_scopes, lemma_stmts_scopes,
};
use crate::resolver::spec::{
    check_main, collect_decl, collect_decls, collect_methods, decl_defs, decls_defs, initial,
    lemma_decls_size_take, program_size, rs_program, define, duplicate_fields, emit_all, field_names, lookup, lookup_or_unresolved, method_id, param_name, pop_scope, push_scope,
    rs_block, rs_decls, rs_else_ifs, rs_expr, rs_exprs, rs_field_decls, rs_field_inits,
    rs_fn_body, rs_methods, rs_params, rs_stmt, rs_stmts, rs_type, scope_get, RState, ScopeView,
    SBP, SEP, SER, SFP, SPP, SSP,
};

verus! {

/// Every identifier of `e` refers to one of the first `n` symbols.
pub open spec fn expr_bound(e: SER, n: nat) -> bool
    decreases e,
{
    match e.kind {
        SExprKind::Ident(i) => i.id.0 < n,
        SExprKind::Unary(_, x) => expr_bound(*x, n),
        SExprKind::Binary(_, a, b) => expr_bound(*a, n) && expr_bound(*b, n),
        SExprKind::Assign { lhs, rhs } => expr_bound(*lhs, n) && expr_bound(*rhs, n),
        SExprKind::Call { callee, args } => expr_bound(*callee, n) && exprs_bound(args, n),
        SExprKind::Field { base, .. } => expr_bound(*base, n),
        SExprKind::Index { base, index } => expr_bound(*base, n) && expr_bound(*index, n),
        SExprKind::MethodCall { base, args, .. } => expr_bound(*base, n) && exprs_bound(args, n),
        SExprKind::StaticCall { args, .. } => exprs_bound(args, n),
        SExprKind::StdCall { args, .. } => exprs_bound(args, n),
        SExprKind::StructLit { fields, .. } => field_inits_bound(fields, n),
        SExprKind::Alloc { count, .. } => expr_bound(*count, n),
        SExprKind::Free { expr } => expr_bound(*expr, n),
        _ => true,
    }
}

pub open spec fn exprs_bound(es: Seq<SER>, n: nat) -> bool
    decreases es,
{
    if es.len() == 0 {
        true
    } else {
        exprs_bound(es.drop_last(), n) && expr_bound(es.last(), n)
    }
}

pub open spec fn field_inits_bound(fs: Seq<(Seq<char>, SER)>, n: nat) -> bool
    decreases fs,
{
    if fs.len() == 0 {
        true
    } else {
        field_inits_bound(fs.drop_last(), n) && expr_bound(fs.last().1, n)
    }
}

/// Every binding of the scopes refers to one of the first `n` symbols.
pub open spec fn scopes_below(scopes: Seq<ScopeView>, n: nat) -> bool {
    forall|i: int, j: int|
        0 <= i < scopes.len() && 0 <= j < scopes[i].len() ==> (#[trigger] scopes[i][j]).1.0 < n
}

proof fn lemma_scope_get_below(scopes: Seq<ScopeView>, i: int, name: Seq<char>, n: nat)
    requires
        scopes_below(scopes, n),
        0 <= i < scopes.len(),
    ensures
        scope_get(scopes[i], name) matches Some(id) ==> id.0 < n,
    decreases scopes[i].len(),
{
    let sc = scopes[i];
    if sc.len() > 0 && sc.last().0 != name {
        let s2 = scopes.update(i, sc.drop_last());
        assert forall|a: int, b: int|
            0 <= a < s2.len() && 0 <= b < s2[a].len() implies (#[trigger] s2[a][b]).1.0 < n by {
            if a == i {
                assert(s2[a][b] == sc[b]);
            } else {
                assert(s2[a] == scopes[a]);
            }
        }
        lemma_scope_get_below(s2, i, name, n);
    } else if sc.len() > 0 {
        assert(sc.last() == scopes[i][sc.len() - 1]);
    }
}

/// What a name looks up to in scopes bound by `n` is bound by `n`.
pub proof fn lemma_lookup_below(scopes: Seq<ScopeView>, name: Seq<char>, n: nat)
    requires
        scopes_below(scopes, n),
    ensures
        lookup(scopes, name) matches Some(id) ==> id.0 < n,
    decreases scopes.len(),
{
    if scopes.len() > 0 {
        lemma_scope_get_below(scopes, scopes.len() - 1, name, n);
        let s2 = scopes.drop_last();
        assert forall|a: int, b: int|
            0 <= a < s2.len() && 0 <= b < s2[a].len() implies (#[trigger] s2[a][b]).1.0 < n by {
            assert(s2[a] == scopes[a]);
        }
        lemma_lookup_below(s2, name, n);
    }
}

/// An expression resolved without a report, in scopes bound by `n`, refers
/// only to symbols below `n`.
pub proof fn lemma_expr_bound(sc: Seq<ScopeView>, sy: Seq<SymbolView>, e: SEP, n: nat)
    requires
        scopes_below(sc, n),
        rs_expr(sc, sy, e).1.len() == 0,
    ensures
        expr_bound(rs_expr(sc, sy, e).0, n),
    decreases e,
{
    match e.kind {
        SExprKind::Ident(i) => lemma_lookup_below(sc, i.name, n),
        SExprKind::Unary(_, x) => lemma_expr_bound(sc, sy, *x, n),
        SExprKind::Binary(_, a, b) => {
            lemma_expr_bound(sc, sy, *a, n);
            lemma_expr_bound(sc, sy, *b, n);
        },
        SExprKind::Assign { lhs, rhs } => {
            lemma_expr_bound(sc, sy, *lhs, n);
            lemma_expr_bound(sc, sy, *rhs, n);
        },
        SExprKind::Call { callee, args } => {
            let (rc, dc) = crate::resolver::spec::rs_callee(sc, sy, *callee);
            assert(dc.len() == 0);
            match callee.kind {
                SExprKind::Ident(i) => {
                    lemma_lookup_below(sc, i.name, n);
                    assert(expr_bound(rc, n));
                },
                _ => {
                    assert(crate::resolver::spec::rs_callee(sc, sy, *callee) == rs_expr(sc, sy, *callee));
                    lemma_expr_bound(sc, sy, *callee, n);
                },
            }
            lemma_exprs_bound(sc, sy, args, n);
        },
        SExprKind::Field { base, .. } => lemma_expr_bound(sc, sy, *base, n),
        SExprKind::Index { base, index } => {
            lemma_expr_bound(sc, sy, *base, n);
            lemma_expr_bound(sc, sy, *index, n);
        },
        SExprKind::MethodCall { base, args, .. } => {
            lemma_expr_bound(sc, sy, *base, n);
            lemma_exprs_bound(sc, sy, args, n);
        },
        SExprKind::StaticCall { args, .. } => lemma_exprs_bound(sc, sy, args, n),
        SExprKind::StdCall { args, .. } => lemma_exprs_bound(sc, sy, args, n),
        SExprKind::StructLit { fields, .. } => lemma_field_inits_bound(sc, sy, fields, n),
        SExprKind::Alloc { count, .. } => lemma_expr_bound(sc, sy, *count, n),
        SExprKind::Free { expr } => lemma_expr_bound(sc, sy, *expr, n),
        _ => {},
    }
}

pub proof fn lemma_exprs_bound(sc: Seq<ScopeView>, sy: Seq<SymbolView>, es: Seq<SEP>, n: nat)
    requires
        scopes_below(sc, n),
        rs_exprs(sc, sy, es).1.len() == 0,
    ensures
        exprs_bound(rs_exprs(sc, sy, es).0, n),
    decreases es,
{
    if es.len() > 0 {
        lemma_exprs_bound(sc, sy, es.drop_last(), n);
        lemma_expr_bound(sc, sy, es.last(), n);
        let rs = rs_exprs(sc, sy, es.drop_last()).0;
        let r = rs_expr(sc, sy, es.last()).0;
        assert(rs.push(r).drop_last() =~= rs);
    }
}

pub proof fn lemma_field_inits_bound(
    sc: Seq<ScopeView>,
    sy: Seq<SymbolView>,
    fs: Seq<(Seq<char>, SEP)>,
    n: nat,
)
    requires
        scopes_below(sc, n),
        rs_field_inits(sc, sy, fs).1.len() == 0,
    ensures
        field_inits_bound(rs_field_inits(sc, sy, fs).0, n),
    decreases fs,
{
    if fs.len() > 0 {
        lemma_field_inits_bound(sc, sy, fs.drop_last(), n);
        lemma_expr_bound(sc, sy, fs.last().1, n);
        let rs = rs_field_inits(sc, sy, fs.drop_last()).0;
        let r = rs_expr(sc, sy, fs.last().1).0;
        assert(rs.push((fs.last().0, r)).drop_last() =~= rs);
    }
}

/// Every name a statement defines or uses refers to one of the first `n`
/// symbols.
pub open spec fn stmt_bound(s: SStmt<Resolved>, n: nat) -> bool
    decreases s,
{
    match s.kind {
        SStmtKind::Expr(e) => expr_bound(e, n),
        SStmtKind::VarDecl { name, init, .. } => name.id.0 < n && expr_bound(init, n),
        SStmtKind::ConstDecl { name, init, .. } => name.id.0 < n && expr_bound(init, n),
        SStmtKind::Return(e) => match e {
            Some(x) => expr_bound(x, n),
            None => true,
        },
        SStmtKind::If { cond, then_block, else_ifs, else_block } => expr_bound(cond, n)
            && block_bound(then_block, n) && else_ifs_bound(else_ifs, n) && match else_block {
            Some(b) => block_bound(b, n),
            None => true,
        },
        SStmtKind::While { cond, body } => expr_bound(cond, n) && block_bound(body, n),
        _ => true,
    }
}

pub open spec fn block_bound(b: SBlock<Resolved>, n: nat) -> bool
    decreases b,
{
    stmts_bound(b.stmts, n)
}

pub open spec fn stmts_bound(ss: Seq<SStmt<Resolved>>, n: nat) -> bool
    decreases ss,
{
    if ss.len() == 0 {
        true
    } else {
        stmts_bound(ss.drop_last(), n) && stmt_bound(ss.last(), n)
    }
}

pub open spec fn else_ifs_bound(bs: Seq<(SER, SBlock<Resolved>)>, n: nat) -> bool
    decreases bs,
{
    if bs.len() == 0 {
        true
    } else {
        else_ifs_bound(bs.drop_last(), n) && expr_bound(bs.last().0, n) && block_bound(
            bs.last().1,
            n,
        )
    }
}

/// The state of a resolver whose scopes refer only to symbols it has.
pub open spec fn state_below(st: RState) -> bool {
    scopes_below(st.scopes, st.symbols.len())
}

/// Defining a name gives a symbol below the new number of symbols, the next
/// one while ids do not wrap, and keeps the scopes bound.
proof fn lemma_define_below(st: RState, name: Seq<char>, span: Span, kind: SymbolKindView)
    requires
        state_below(st),
        st.scopes.len() > 0,
    ensures
        define(st, name, span, kind).0.0 < define(st, name, span, kind).1.symbols.len(),
        define(st, name, span, kind).1.symbols.len() == st.symbols.len() + 1,
        state_below(define(st, name, span, kind).1),
        st.symbols.len() <= u32::MAX ==> define(st, name, span, kind).0.0 == st.symbols.len(),
{
    let (id, st2) = define(st, name, span, kind);
    assert(st2.symbols.len() == st.symbols.len() + 1);
    let last = st.scopes.len() - 1;
    assert forall|i: int, j: int|
        0 <= i < st2.scopes.len() && 0 <= j < st2.scopes[i].len() implies (
        #[trigger] st2.scopes[i][j]).1.0 < st2.symbols.len() by {
        if i == last && j == st.scopes[last].len() {
            assert(st2.scopes[i][j] == (name, id));
        } else if i == last {
            assert(st2.scopes[i][j] == st.scopes[i][j]);
        } else {
            assert(st2.scopes[i] == st.scopes[i]);
        }
    }
}

proof fn lemma_below_mono(sc: Seq<ScopeView>, n: nat, m: nat)
    requires
        scopes_below(sc, n),
        n <= m,
    ensures
        scopes_below(sc, m),
{
}

/// A statement resolved without a report, from a bound state, refers only
/// to symbols below any `n` at least the number of symbols after it.
pub proof fn lemma_stmt_bound(st: RState, s: SSP, n: nat)
    requires
        state_below(st),
        st.scopes.len() > 0,
        rs_stmt(st, s).1.diags.len() == st.diags.len(),
        rs_stmt(st, s).1.symbols.len() <= n,
    ensures
        stmt_bound(rs_stmt(st, s).0, n),
        state_below(rs_stmt(st, s).1),
    decreases s,
{
    lemma_stmt_scopes(st, s);
    let st9 = rs_stmt(st, s).1;
    lemma_below_mono(st.scopes, st.symbols.len(), n);
    match s.kind {
        SStmtKind::Expr(e) => {
            lemma_expr_bound(st.scopes, st.symbols, e, n);
        },
        SStmtKind::VarDecl { name, ty, init } => {
            let d1 = rs_expr(st.scopes, st.symbols, init).1;
            let d2 = match ty {
                Some(t) => rs_type(st.scopes, t).1,
                None => Seq::empty(),
            };
            let sta = emit_all(st, d1 + d2);
            law_define_then_lookup(sta, name.name, s.ann, SymbolKindView::Var, seq![]);
            assert(d1.len() == 0);
            lemma_expr_bound(st.scopes, st.symbols, init, n);
            lemma_define_below(sta, name.name, s.ann, SymbolKindView::Var);
        },
        SStmtKind::ConstDecl { name, ty, init } => {
            let d1 = rs_expr(st.scopes, st.symbols, init).1;
            let d2 = rs_type(st.scopes, ty).1;
            let sta = emit_all(st, d1 + d2);
            law_define_then_lookup(sta, name.name, s.ann, SymbolKindView::Const, seq![]);
            assert(d1.len() == 0);
            lemma_expr_bound(st.scopes, st.symbols, init, n);
            lemma_define_below(sta, name.name, s.ann, SymbolKindView::Const);
        },
        SStmtKind::Return(e) => {
            match e {
                Some(x) => lemma_expr_bound(st.scopes, st.symbols, x, n),
                None => {},
            }
        },
        SStmtKind::If { cond, then_block, else_ifs, else_block } => {
            let dc = rs_expr(st.scopes, st.symbols, cond).1;
            let st0 = emit_all(st, dc);
            law_block_scopes(st0, then_block);
            let st1 = rs_block(st0, then_block).1;
            lemma_else_ifs_scopes(st1, else_ifs);
            let st3 = rs_else_ifs(st1, else_ifs).1;
            match else_block {
                Some(b) => {
                    law_block_scopes(st3, b);
                },
                None => {},
            }
            assert(dc.len() == 0);
            lemma_expr_bound(st.scopes, st.symbols, cond, n);
            lemma_block_bound(st0, then_block, n);
            lemma_else_ifs_bound(st1, else_ifs, n);
            match else_block {
                Some(b) => {
                    lemma_block_bound(st3, b, n);
                },
                None => {},
            }
        },
        SStmtKind::While { cond, body } => {
            let st0 = RState { loop_depth: st.loop_depth + 1, ..st };
            let dc = rs_expr(st0.scopes, st0.symbols, cond).1;
            law_block_scopes(emit_all(st0, dc), body);
            assert(dc.len() == 0);
            lemma_expr_bound(st.scopes, st.symbols, cond, n);
            lemma_block_bound(emit_all(st0, dc), body, n);
        },
        _ => {},
    }
}

pub proof fn lemma_stmts_bound(st: RState, ss: Seq<SSP>, n: nat)
    requires
        state_below(st),
        st.scopes.len() > 0,
        rs_stmts(st, ss).1.diags.len() == st.diags.len(),
        rs_stmts(st, ss).1.symbols.len() <= n,
    ensures
        stmts_bound(rs_stmts(st, ss).0, n),
        state_below(rs_stmts(st, ss).1),
    decreases ss,
{
    if ss.len() > 0 {
        lemma_stmts_scopes(st, ss.drop_last());
        let st1 = rs_stmts(st, ss.drop_last()).1;
        lemma_stmt_scopes(st1, ss.last());
        lemma_stmts_bound(st, ss.drop_last(), n);
        lemma_stmt_bound(st1, ss.last(), n);
        let rs = rs_stmts(st, ss.drop_last()).0;
        let r = rs_stmt(st1, ss.last()).0;
        assert(rs.push(r).drop_last() =~= rs);
    }
}

pub proof fn lemma_block_bound(st: RState, b: SBP, n: nat)
    requires
        state_below(st),
        rs_block(st, b).1.diags.len() == st.diags.len(),
        rs_block(st, b).1.symbols.len() <= n,
    ensures
        block_bound(rs_block(st, b).0, n),
        state_below(rs_block(st, b).1),
    decreases b,
{
    let st0 = push_scope(st);
    assert(state_below(st0)) by {
        assert forall|i: int, j: int|
            0 <= i < st0.scopes.len() && 0 <= j < st0.scopes[i].len() implies (
            #[trigger] st0.scopes[i][j]).1.0 < st0.symbols.len() by {
            assert(st0.scopes[i] == st.scopes[i]);
        }
    }
    lemma_stmts_scopes(st0, b.stmts);
    lemma_stmts_bound(st0, b.stmts, n);
    let st1 = rs_stmts(st0, b.stmts).1;
    let st2 = pop_scope(st1);
    assert forall|i: int, j: int|
        0 <= i < st2.scopes.len() && 0 <= j < st2.scopes[i].len() implies (
        #[trigger] st2.scopes[i][j]).1.0 < st2.symbols.len() by {
        assert(st2.scopes[i] == st1.scopes[i]);
    }
}

pub proof fn lemma_else_ifs_bound(st: RState, bs: Seq<(SEP, SBP)>, n: nat)
    requires
        state_below(st),
        rs_else_ifs(st, bs).1.diags.len() == st.diags.len(),
        rs_else_ifs(st, bs).1.symbols.len() <= n,
    ensures
        else_ifs_bound(rs_else_ifs(st, bs).0, n),
        state_below(rs_else_ifs(st, bs).1),
    decreases bs,
{
    if bs.len() > 0 {
        lemma_else_ifs_scopes(st, bs.drop_last());
        let st1 = rs_else_ifs(st, bs.drop_last()).1;
        let dc = rs_expr(st1.scopes, st1.symbols, bs.last().0).1;
        law_block_scopes(emit_all(st1, dc), bs.last().1);
        lemma_else_ifs_bound(st, bs.drop_last(), n);
        assert(dc.len() == 0);
        lemma_below_mono(st1.scopes, st1.symbols.len(), n);
        lemma_expr_bound(st1.scopes, st1.symbols, bs.last().0, n);
        lemma_block_bound(emit_all(st1, dc), bs.last().1, n);
        let rs = rs_else_ifs(st, bs.drop_last()).0;
        let rc = rs_expr(st1.scopes, st1.symbols, bs.last().0).0;
        let rb = rs_block(emit_all(st1, dc), bs.last().1).0;
        assert(rs.push((rc, rb)).drop_last() =~= rs);
    }
}

pub open spec fn params_bound(ps: Seq<SParam<Resolved>>, n: nat) -> bool
    decreases ps.len(),
{
    if ps.len() == 0 {
        true
    } else {
        params_bound(ps.drop_last(), n) && match ps.last().kind {
            SParamKind::Named { name, .. } => name.id.0 < n,
            SParamKind::SelfParam { .. } => true,
        }
    }
}

/// A function's name, its parameters and its body refer to symbols below
/// `n`.
pub open spec fn fn_bound(f: SFnDecl<Resolved>, n: nat) -> bool {
    f.name.id.0 < n && params_bound(f.params, n) && block_bound(f.body, n)
}

pub open spec fn fns_bound(fs: Seq<SFnDecl<Resolved>>, n: nat) -> bool
    decreases fs.len(),
{
    if fs.len() == 0 {
        true
    } else {
        fns_bound(fs.drop_last(), n) && fn_bound(fs.last(), n)
    }
}

pub open spec fn decl_bound(d: SDecl<Resolved>, n: nat) -> bool {
    match d {
        SDecl::Fn(f) => fn_bound(f, n),
        SDecl::Struct(s) => s.name.id.0 < n && fns_bound(s.methods, n),
    }
}

pub open spec fn decls_bound(ds: Seq<SDecl<Resolved>>, n: nat) -> bool
    decreases ds.len(),
{
    if ds.len() == 0 {
        true
    } else {
        decls_bound(ds.drop_last(), n) && decl_bound(ds.last(), n)
    }
}

/// Every name of a resolved program refers to one of the first `n` symbols.
pub open spec fn program_bound(p: SProgram<Resolved>, n: nat) -> bool {
    decls_bound(p.decls, n)
}

pub proof fn lemma_params_bound(st: RState, ps: Seq<SPP>, n: nat)
    requires
        state_below(st),
        st.scopes.len() > 0,
        rs_params(st, ps).1.diags.len() == st.diags.len(),
        rs_params(st, ps).1.symbols.len() <= n,
    ensures
        params_bound(rs_params(st, ps).0, n),
        state_below(rs_params(st, ps).1),
    decreases ps.len(),
{
    if ps.len() > 0 {
        lemma_params_scopes(st, ps.drop_last());
        let st1 = rs_params(st, ps.drop_last()).1;
        let p = ps.last();
        lemma_params_bound(st, ps.drop_last(), n);
        lemma_define_below(st1, param_name(p), p.ann, SymbolKindView::Param);
        let (id, st2) = define(st1, param_name(p), p.ann, SymbolKindView::Param);
        let rs = rs_params(st, ps.drop_last()).0;
        let r = rs_params(st, ps).0;
        assert(r.drop_last() =~= rs);
    }
}

pub proof fn lemma_fn_body_bound(st: RState, f: SFP, id: SymbolId, n: nat)
    requires
        state_below(st),
        rs_fn_body(st, f, id).1.diags.len() == st.diags.len(),
        rs_fn_body(st, f, id).1.symbols.len() <= n,
        id.0 < n,
    ensures
        fn_bound(rs_fn_body(st, f, id).0, n),
        state_below(rs_fn_body(st, f, id).1),
{
    let st0 = push_scope(st);
    assert(state_below(st0)) by {
        assert forall|i: int, j: int|
            0 <= i < st0.scopes.len() && 0 <= j < st0.scopes[i].len() implies (
            #[trigger] st0.scopes[i][j]).1.0 < st0.symbols.len() by {
            assert(st0.scopes[i] == st.scopes[i]);
        }
    }
    lemma_params_scopes(st0, f.params);
    let st1 = rs_params(st0, f.params).1;
    let d = rs_type(st1.scopes, f.ret_ty).1;
    law_block_scopes(emit_all(st1, d), f.body);
    let st2 = rs_block(emit_all(st1, d), f.body).1;
    lemma_params_bound(st0, f.params, n);
    lemma_block_bound(emit_all(st1, d), f.body, n);
    let st3 = pop_scope(st2);
    assert forall|i: int, j: int|
        0 <= i < st3.scopes.len() && 0 <= j < st3.scopes[i].len() implies (
        #[trigger] st3.scopes[i][j]).1.0 < st3.symbols.len() by {
        assert(st3.scopes[i] == st2.scopes[i]);
    }
}

/// The method `m` of the struct named `sname` has a symbol: the struct's
/// symbol lists it.
pub open spec fn method_found(st: RState, sname: Seq<char>, m: Seq<char>) -> bool {
    match lookup(st.scopes, sname) {
        Some(sid) => sid.0 < st.symbols.len() && match st.symbols[sid.0 as int].kind {
            SymbolKindView::Struct(info) => match scope_get(info.fns, m) {
                Some(id) => id.0 < st.symbols.len(),
                None => false,
            },
            _ => false,
        },
        None => false,
    }
}

proof fn lemma_method_found_kept(st: RState, st1: RState, sname: Seq<char>, m: Seq<char>)
    requires
        method_found(st, sname, m),
        keeps(st, st1),
        st1.scopes == st.scopes,
    ensures
        method_found(st1, sname, m),
        method_id(st1, sname, m) == method_id(st, sname, m),
        method_id(st, sname, m).0 < st.symbols.len(),
{
    let sid = lookup(st.scopes, sname)->Some_0;
    assert(st1.symbols[sid.0 as int] == st.symbols[sid.0 as int]);
}

pub proof fn lemma_methods_bound(st: RState, ms: Seq<SFP>, sname: Seq<char>, n: nat)
    requires
        state_below(st),
        forall|j: int| 0 <= j < ms.len() ==> method_found(st, sname, #[trigger] ms[j].name.name),
        rs_methods(st, ms, sname).1.diags.len() == st.diags.len(),
        rs_methods(st, ms, sname).1.symbols.len() <= n,
    ensures
        fns_bound(rs_methods(st, ms, sname).0, n),
        state_below(rs_methods(st, ms, sname).1),
    decreases ms.len(),
{
    if ms.len() > 0 {
        lemma_methods_scopes(st, ms.drop_last(), sname);
        let st1 = rs_methods(st, ms.drop_last(), sname).1;
        let m = ms.last();
        assert forall|j: int| 0 <= j < ms.drop_last().len() implies method_found(
            st,
            sname,
            #[trigger] ms.drop_last()[j].name.name,
        ) by {
            assert(ms.drop_last()[j] == ms[j]);
        }
        let id = method_id(st1, sname, m.name.name);
        law_fn_body_scopes(st1, m, id);
        lemma_methods_bound(st, ms.drop_last(), sname, n);
        assert(method_found(st, sname, ms[ms.len() - 1].name.name));
        lemma_method_found_kept(st, st1, sname, m.name.name);
        lemma_fn_body_bound(st1, m, id, n);
        let rs = rs_methods(st, ms.drop_last(), sname).0;
        let r = rs_methods(st, ms, sname).0;
        assert(r.drop_last() =~= rs);
    }
}

/// The names a declaration needs are there: its own name, and for a struct
/// the symbol of each of its methods.
pub open spec fn decl_found(st: RState, d: SDecl<Parsed>) -> bool {
    match d {
        SDecl::Fn(f) => lookup(st.scopes, f.name.name) is Some,
        SDecl::Struct(s) => lookup(st.scopes, s.name.name) is Some && forall|j: int|
            0 <= j < s.methods.len() ==> method_found(st, s.name.name, #[trigger] s.methods[j].name.name),
    }
}

proof fn lemma_decl_found_kept(st: RState, st1: RState, d: SDecl<Parsed>)
    requires
        decl_found(st, d),
        keeps(st, st1),
        st1.scopes == st.scopes,
    ensures
        decl_found(st1, d),
{
    if let SDecl::Struct(s) = d {
        assert forall|j: int| 0 <= j < s.methods.len() implies method_found(
            st1,
            s.name.name,
            #[trigger] s.methods[j].name.name,
        ) by {
            lemma_method_found_kept(st, st1, s.name.name, s.methods[j].name.name);
        }
    }
}

pub proof fn lemma_decls_bound(st: RState, ds: Seq<SDecl<Parsed>>, n: nat)
    requires
        state_below(st),
        forall|k: int| 0 <= k < ds.len() ==> decl_found(st, #[trigger] ds[k]),
        rs_decls(st, ds).1.diags.len() == st.diags.len(),
        rs_decls(st, ds).1.symbols.len() <= n,
    ensures
        decls_bound(rs_decls(st, ds).0, n),
        state_below(rs_decls(st, ds).1),
    decreases ds.len(),
{
    if ds.len() > 0 {
        law_decls_scopes(st, ds.drop_last());
        let st1 = rs_decls(st, ds.drop_last()).1;
        law_decls_scopes(st, ds);
        assert forall|k: int| 0 <= k < ds.drop_last().len() implies decl_found(
            st,
            #[trigger] ds.drop_last()[k],
        ) by {
            assert(ds.drop_last()[k] == ds[k]);
        }
        let d = ds.last();
        match d {
            SDecl::Fn(f) => {
                law_fn_body_scopes(st1, f, lookup_or_unresolved(st1.scopes, f.name.name));
            },
            SDecl::Struct(s) => {
                let d1 = rs_field_decls(st1.scopes, s.fields).1;
                lemma_methods_scopes(emit_all(st1, d1), s.methods, s.name.name);
            },
        }
        lemma_decls_bound(st, ds.drop_last(), n);
        assert(decl_found(st, ds[ds.len() - 1]));
        lemma_decl_found_kept(st, st1, d);
        lemma_lookup_below(st1.scopes, decl_name(d), st1.symbols.len());
        match d {
            SDecl::Fn(f) => {
                let id = lookup_or_unresolved(st1.scopes, f.name.name);
                law_fn_body_scopes(st1, f, id);
                lemma_fn_body_bound(st1, f, id, n);
            },
            SDecl::Struct(s) => {
                let d1 = rs_field_decls(st1.scopes, s.fields).1;
                let st2 = emit_all(st1, d1);
                lemma_methods_scopes(st2, s.methods, s.name.name);
                assert forall|j: int| 0 <= j < s.methods.len() implies method_found(
                    st2,
                    s.name.name,
                    #[trigger] s.methods[j].name.name,
                ) by {
                    lemma_method_found_kept(st1, st2, s.name.name, s.methods[j].name.name);
                }
                lemma_methods_bound(st2, s.methods, s.name.name, n);
            },
        }
        let rs = rs_decls(st, ds.drop_last()).0;
        let r = rs_decls(st, ds).0;
        assert(r.drop_last() =~= rs);
    }
}

/// The symbol `sid` is a struct whose method table has a symbol for each of
/// the methods `ms`.
pub open spec fn struct_lists_methods(syms: Seq<SymbolView>, sid: SymbolId, ms: Seq<SFP>) -> bool {
    sid.0 < syms.len() && match syms[sid.0 as int].kind {
        SymbolKindView::Struct(info) => forall|j: int|
            0 <= j < ms.len() ==> (scope_get(info.fns, #[trigger] ms[j].name.name) matches Some(
                id,
            ) && id.0 < syms.len()),
        _ => false,
    }
}

/// A binding of `n` makes `scope_get` find some binding of `n`, one of the
/// scope's.
proof fn lemma_scope_get_some(sc: ScopeView, j: int, n: Seq<char>, bound: nat)
    requires
        0 <= j < sc.len(),
        sc[j].0 == n,
        forall|i: int| 0 <= i < sc.len() ==> (#[trigger] sc[i]).1.0 < bound,
    ensures
        scope_get(sc, n) matches Some(id) && id.0 < bound,
    decreases sc.len(),
{
    if sc.last().0 != n {
        assert(j < sc.len() - 1);
        assert(sc.drop_last()[j] == sc[j]);
        assert forall|i: int| 0 <= i < sc.drop_last().len() implies (#[trigger] sc.drop_last()[i]).1.0
            < bound by {
            assert(sc.drop_last()[i] == sc[i]);
        }
        lemma_scope_get_some(sc.drop_last(), j, n, bound);
    } else {
        assert(sc.last() == sc[sc.len() - 1]);
    }
}

proof fn lemma_collect_methods_fns(st: RState, ms: Seq<SFP>)
    requires
        st.symbols.len() + ms.len() <= u32::MAX,
    ensures
        collect_methods(st, ms).0.len() == ms.len(),
        forall|j: int|
            0 <= j < ms.len() ==> (#[trigger] collect_methods(st, ms).0[j]).0 == ms[j].name.name
                && collect_methods(st, ms).0[j].1.0 < collect_methods(st, ms).1.symbols.len(),
    decreases ms.len(),
{
    if ms.len() > 0 {
        lemma_collect_methods_fns(st, ms.drop_last());
        lemma_collect_methods_keeps(st, ms.drop_last());
        let (fns, st1) = collect_methods(st, ms.drop_last());
        let fns2 = collect_methods(st, ms).0;
        assert forall|j: int| 0 <= j < ms.len() implies (#[trigger] fns2[j]).0 == ms[j].name.name
            && fns2[j].1.0 < collect_methods(st, ms).1.symbols.len() by {
            if j < ms.len() - 1 {
                assert(fns2[j] == fns[j]);
                assert(ms.drop_last()[j] == ms[j]);
            }
        }
    }
}

/// Collecting a struct binds its name, in the innermost scope, to a symbol
/// that lists its methods.
pub(crate) proof fn lemma_collect_struct(st: RState, d: SDecl<Parsed>)
    requires
        st.scopes.len() > 0,
        st.symbols.len() + decl_defs(d) <= u32::MAX,
        d is Struct,
    ensures
        scope_get(collect_decl(st, d).scopes.last(), decl_name(d)) == Some(SymbolId(st.symbols.len() as u32)),
        struct_lists_methods(collect_decl(st, d).symbols, SymbolId(st.symbols.len() as u32), d->Struct_0.methods),
{
    let s = d->Struct_0;
    let sta = emit_all(st, duplicate_fields(s.name.name, s.fields));
    let names = field_names(s.fields);
    let kind = SymbolKindView::Struct(crate::common::StructInfoView { fields: names, fns: Seq::empty() });
    let (sid, st2) = define(sta, s.name.name, s.ann, kind);
    assert(st2.scopes.last() =~= sta.scopes.last().push((s.name.name, sid)));
    lemma_collect_methods_keeps(st2, s.methods);
    lemma_collect_methods_fns(st2, s.methods);
    let (fns, st3) = collect_methods(st2, s.methods);
    let stb = collect_decl(st, d);
    assert(sid.0 == st.symbols.len());
    if fns.len() > 0 {
        assert(stb.symbols[sid.0 as int].kind == SymbolKindView::Struct(
            crate::common::StructInfoView { fields: names, fns },
        ));
        assert forall|j: int| 0 <= j < s.methods.len() implies (scope_get(
            fns,
            #[trigger] s.methods[j].name.name,
        ) matches Some(id) && id.0 < stb.symbols.len()) by {
            assert(fns[j].0 == s.methods[j].name.name);
            assert forall|i: int| 0 <= i < fns.len() implies (#[trigger] fns[i]).1.0 < stb.symbols.len() by {
                assert(fns[i].1.0 < st3.symbols.len());
            }
            lemma_scope_get_some(fns, j, s.methods[j].name.name, stb.symbols.len());
        }
    }
}

pub(crate) proof fn lemma_struct_lists_kept(a: RState, b: RState, sid: SymbolId, ms: Seq<SFP>)
    requires
        struct_lists_methods(a.symbols, sid, ms),
        keeps(a, b),
    ensures
        struct_lists_methods(b.symbols, sid, ms),
{
    assert(b.symbols[sid.0 as int] == a.symbols[sid.0 as int]);
}

/// Collecting the declarations of a program without a report binds the
/// name of each, and each method of a struct has a symbol its struct
/// lists.
proof fn lemma_collect_found(ds: Seq<SDecl<Parsed>>)
    requires
        decls_defs(ds) <= u32::MAX,
        collect_decls(push_scope(initial()), ds).diags.len() == 0,
    ensures
        forall|k: int|
            0 <= k < ds.len() ==> decl_found(collect_decls(push_scope(initial()), ds), #[trigger] ds[k]),
{
    let st0 = push_scope(initial());
    let st1 = collect_decls(st0, ds);
    lemma_collect_decls_keeps(st0, ds);
    assert(st1.scopes.drop_last() =~= Seq::<ScopeView>::empty());
    assert forall|k: int| 0 <= k < ds.len() implies decl_found(st1, #[trigger] ds[k]) by {
        let a = ds.take(k);
        let rest = ds.skip(k + 1);
        lemma_decls_size_take(ds, k);
        lemma_decls_size_take(ds, k + 1);
        assert(ds.take(k + 1).drop_last() =~= a);
        assert(ds =~= ds.take(k + 1) + rest);
        lemma_decls_defs_split(ds.take(k + 1), rest);
        lemma_collect_decls_split(st0, ds.take(k + 1), rest);
        lemma_collect_decls_keeps(st0, a);
        let sta = collect_decls(st0, a);
        let d = ds[k];
        let stb = collect_decl(sta, d);
        assert(collect_decls(st0, ds.take(k + 1)) == stb);
        let name = decl_name(d);
        lemma_collect_decl_keeps(sta, d);
        match d {
            SDecl::Fn(f) => {
                let kind = SymbolKindView::Fn(crate::resolver::spec::fn_sig_view(f));
                let (id, st2) = define(sta, f.name.name, f.ann, kind);
                assert(st2.scopes.last() =~= sta.scopes.last().push((f.name.name, id)));
            },
            SDecl::Struct(_) => {
                lemma_collect_struct(sta, d);
            },
        }
        assert(scope_get(stb.scopes.last(), name) is Some);
        if exists|j: int| 0 <= j < rest.len() && decl_name(#[trigger] rest[j]) == name {
            let j = choose|j: int| 0 <= j < rest.len() && decl_name(#[trigger] rest[j]) == name;
            lemma_redefined_fails(stb, rest, j, name);
        }
        lemma_collect_decls_binding(stb, rest, name);
        lemma_collect_decls_keeps(stb, rest);
        assert(lookup(st1.scopes, name) == scope_get(st1.scopes.last(), name));
        if let SDecl::Struct(s) = d {
            let sid = SymbolId(sta.symbols.len() as u32);
            lemma_struct_lists_kept(stb, st1, sid, s.methods);
            assert forall|j: int| 0 <= j < s.methods.len() implies method_found(
                st1,
                s.name.name,
                #[trigger] s.methods[j].name.name,
            ) by {
                assert(scope_get(
                    match st1.symbols[sid.0 as int].kind {
                        SymbolKindView::Struct(info) => info.fns,
                        _ => Seq::empty(),
                    },
                    s.methods[j].name.name,
                ) is Some);
            }
        }
    }
}

/// Resolution that reports nothing binds every name: each identifier, each
/// defined name and each function and method of the resolved program
/// refers to a symbol of the table it comes with.
pub proof fn law_resolution_binds_every_name(p: SProgram<Parsed>)
    requires
        program_size(p) < u32::MAX,
    ensures
        rs_program(p) matches Ok((q, syms)) ==> program_bound(q, syms.len()),
{
    let ds = p.decls;
    let st0 = push_scope(initial());
    let st1 = collect_decls(st0, ds);
    let st2 = rs_decls(st1, ds).1;
    let st3 = pop_scope(check_main(st2));
    law_decls_scopes(st1, ds);
    if st3.diags.len() == 0 {
        assert(check_main(st2).diags.len() >= st2.diags.len());
        assert(st1.diags.len() == 0);
        lemma_collect_found(ds);
        lemma_collect_decls_keeps(st0, ds);
        assert(state_below(st0)) by {
            assert forall|i: int, j: int|
                0 <= i < st0.scopes.len() && 0 <= j < st0.scopes[i].len() implies (
                #[trigger] st0.scopes[i][j]).1.0 < st0.symbols.len() by {
                assert(st0.scopes[i].len() == 0);
            }
        }
        lemma_collect_decls_below(st0, ds);
        lemma_decls_bound(st1, ds, st2.symbols.len());
    }
}

/// Collecting keeps the scopes bound by the symbols.
pub(crate) proof fn lemma_collect_decls_below(st: RState, ds: Seq<SDecl<Parsed>>)
    requires
        state_below(st),
        st.scopes.len() > 0,
        st.symbols.len() + decls_defs(ds) <= u32::MAX,
    ensures
        state_below(collect_decls(st, ds)),
    decreases ds.len(),
{
    if ds.len() > 0 {
        lemma_collect_decls_below(st, ds.drop_last());
        lemma_collect_decls_keeps(st, ds.drop_last());
        let st1 = collect_decls(st, ds.drop_last());
        let d = ds.last();
        match d {
            SDecl::Fn(f) => {
                lemma_define_below(st1, f.name.name, f.ann, SymbolKindView::Fn(crate::resolver::spec::fn_sig_view(f)));
            },
            SDecl::Struct(s) => {
                let sta = emit_all(st1, duplicate_fields(s.name.name, s.fields));
                let kind = SymbolKindView::Struct(
                    crate::common::StructInfoView { fields: field_names(s.fields), fns: Seq::empty() },
                );
                lemma_define_below(sta, s.name.name, s.ann, kind);
                let st2 = define(sta, s.name.name, s.ann, kind).1;
                lemma_collect_methods_keeps(st2, s.methods);
                lemma_collect_decl_keeps(st1, d);
                let st4 = collect_decl(st1, d);
                assert forall|i: int, j: int|
                    0 <= i < st4.scopes.len() && 0 <= j < st4.scopes[i].len() implies (
                    #[trigger] st4.scopes[i][j]).1.0 < st4.symbols.len() by {
                    assert(st4.scopes[i][j] == st2.scopes[i][j]);
                }
            },
        }
    }
}

} // verus!
