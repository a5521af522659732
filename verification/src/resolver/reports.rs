//! What the resolver reports is its own: every diagnostic it gives is an
//! error of the resolver phase with an `E02..` code.
use vstd::prelude::*;
use crate::ast::view::{SDecl, SExprKind, SParamKind, SProgram, SStmtKind, SType};
use crate::common::{Parsed, Span, SymbolId, SymbolKindView, SymbolView};
use crate::diagnostic::{Phase, Severity};
use crate::resolver::spec::{
    check_main, collect_decl, collect_decls, collect_methods, define, duplicate_fields,
    emit_all, field_checks, initial, method_checks, pop_scope, push_scope, receiver_checks,
    rs_block, rs_callee, rs_decl, rs_decls, rs_else_ifs, rs_expr, rs_exprs, rs_field_decls,
    rs_field_inits, rs_fn_body, rs_methods, rs_params, rs_program, rs_stmt, rs_stmts, rs_type,
    rs_types, struct_lit_checks, unknown_fields, RState, ScopeView, DV, SBP, SEP, SFP, SPP, SSP,
};

verus! {

/// A code of the resolver phase: `E02` and two more characters.
pub open spec fn resolver_code(c: Seq<char>) -> bool {
    c.len() == 5 && c.take(3) == "E02"@
}

/// A diagnostic of the resolver: an error of its phase with a resolver code.
pub open spec fn resolver_report(d: DV) -> bool {
    &&& d.phase == Phase::Resolver
    &&& d.severity == Severity::Error
    &&& d.code matches Some(c) && resolver_code(c)
}

/// Every diagnostic of `ds` is the resolver's.
pub open spec fn all_reports(ds: Seq<DV>) -> bool {
    forall|i: int| 0 <= i < ds.len() ==> resolver_report(#[trigger] ds[i])
}

/// A report of `break` or `continue` outside a loop.
pub open spec fn loop_report(d: DV) -> bool {
    d.code == Some("E0211"@) || d.code == Some("E0212"@)
}

/// Every diagnostic of `ds` is the resolver's, and none is about a loop:
/// what resolving types and expressions reports.
pub open spec fn all_expr_reports(ds: Seq<DV>) -> bool {
    forall|i: int| 0 <= i < ds.len() ==> resolver_report(#[trigger] ds[i]) && !loop_report(ds[i])
}

pub(crate) proof fn lemma_codes()
    ensures
        resolver_code("E0201"@),
        resolver_code("E0202"@),
        resolver_code("E0203"@),
        resolver_code("E0204"@),
        resolver_code("E0205"@),
        resolver_code("E0206"@),
        resolver_code("E0207"@),
        resolver_code("E0208"@),
        resolver_code("E0209"@),
        resolver_code("E0210"@),
        resolver_code("E0211"@),
        resolver_code("E0212"@),
        "E0201"@ != "E0211"@ && "E0201"@ != "E0212"@,
        "E0202"@ != "E0211"@ && "E0202"@ != "E0212"@,
        "E0203"@ != "E0211"@ && "E0203"@ != "E0212"@,
        "E0204"@ != "E0211"@ && "E0204"@ != "E0212"@,
        "E0205"@ != "E0211"@ && "E0205"@ != "E0212"@,
        "E0206"@ != "E0211"@ && "E0206"@ != "E0212"@,
        "E0209"@ != "E0211"@ && "E0209"@ != "E0212"@,
        "E0210"@ != "E0211"@ && "E0210"@ != "E0212"@,
        "E0207"@ != "E0211"@ && "E0207"@ != "E0212"@,
        "E0208"@ != "E0211"@ && "E0208"@ != "E0212"@,
        "E0211"@ != "E0212"@,
{
    reveal_strlit("E02");
    reveal_strlit("E0201");
    reveal_strlit("E0202");
    reveal_strlit("E0203");
    reveal_strlit("E0204");
    reveal_strlit("E0205");
    reveal_strlit("E0206");
    reveal_strlit("E0207");
    reveal_strlit("E0208");
    reveal_strlit("E0209");
    reveal_strlit("E0210");
    reveal_strlit("E0211");
    reveal_strlit("E0212");
    assert("E0201"@.take(3) =~= "E02"@);
    assert("E0202"@.take(3) =~= "E02"@);
    assert("E0203"@.take(3) =~= "E02"@);
    assert("E0204"@.take(3) =~= "E02"@);
    assert("E0205"@.take(3) =~= "E02"@);
    assert("E0206"@.take(3) =~= "E02"@);
    assert("E0207"@.take(3) =~= "E02"@);
    assert("E0208"@.take(3) =~= "E02"@);
    assert("E0209"@.take(3) =~= "E02"@);
    assert("E0210"@.take(3) =~= "E02"@);
    assert("E0211"@.take(3) =~= "E02"@);
    assert("E0212"@.take(3) =~= "E02"@);
    assert("E0201"@[3] != "E0211"@[3]);
    assert("E0201"@[3] != "E0212"@[3]);
    assert("E0202"@[3] != "E0211"@[3]);
    assert("E0202"@[3] != "E0212"@[3]);
    assert("E0203"@[3] != "E0211"@[3]);
    assert("E0203"@[3] != "E0212"@[3]);
    assert("E0204"@[3] != "E0211"@[3]);
    assert("E0204"@[3] != "E0212"@[3]);
    assert("E0205"@[3] != "E0211"@[3]);
    assert("E0205"@[3] != "E0212"@[3]);
    assert("E0206"@[3] != "E0211"@[3]);
    assert("E0206"@[3] != "E0212"@[3]);
    assert("E0209"@[3] != "E0211"@[3]);
    assert("E0209"@[3] != "E0212"@[3]);
    assert("E0210"@[4] != "E0211"@[4]);
    assert("E0210"@[4] != "E0212"@[4]);
    assert("E0207"@[3] != "E0211"@[3]);
    assert("E0207"@[3] != "E0212"@[3]);
    assert("E0208"@[3] != "E0211"@[3]);
    assert("E0208"@[3] != "E0212"@[3]);
    assert("E0211"@[4] != "E0212"@[4]);
}

pub(crate) proof fn lemma_concat_expr(a: Seq<DV>, b: Seq<DV>)
    requires
        all_expr_reports(a),
        all_expr_reports(b),
    ensures
        all_expr_reports(a + b),
{
    assert forall|i: int| 0 <= i < (a + b).len() implies resolver_report(#[trigger] (a + b)[i])
        && !loop_report((a + b)[i]) by {
        if i < a.len() {
            assert((a + b)[i] == a[i]);
        } else {
            assert((a + b)[i] == b[i - a.len()]);
        }
    }
}

proof fn lemma_concat(a: Seq<DV>, b: Seq<DV>)
    requires
        all_reports(a),
        all_reports(b),
    ensures
        all_reports(a + b),
{
    assert forall|i: int| 0 <= i < (a + b).len() implies resolver_report(#[trigger] (a + b)[i]) by {
        if i < a.len() {
            assert((a + b)[i] == a[i]);
        } else {
            assert((a + b)[i] == b[i - a.len()]);
        }
    }
}

pub(crate) proof fn lemma_type_reports(sc: Seq<ScopeView>, t: SType<Parsed>)
    ensures
        all_expr_reports(rs_type(sc, t).1),
    decreases t,
{
    lemma_codes();
    match t {
        SType::Ptr(_, x) => lemma_type_reports(sc, *x),
        SType::Span(_, x) => lemma_type_reports(sc, *x),
        SType::Readonly(_, x) => lemma_type_reports(sc, *x),
        SType::Fn { params, ret, .. } => {
            lemma_types_reports(sc, params);
            lemma_type_reports(sc, *ret);
            lemma_concat_expr(rs_types(sc, params).1, rs_type(sc, *ret).1);
        },
        _ => {},
    }
}

proof fn lemma_types_reports(sc: Seq<ScopeView>, ts: Seq<SType<Parsed>>)
    ensures
        all_expr_reports(rs_types(sc, ts).1),
    decreases ts,
{
    if ts.len() > 0 {
        lemma_types_reports(sc, ts.drop_last());
        lemma_type_reports(sc, ts.last());
        lemma_concat_expr(rs_types(sc, ts.drop_last()).1, rs_type(sc, ts.last()).1);
    }
}

proof fn lemma_unknown_fields_reports(
    known: Seq<Seq<char>>,
    fs: Seq<(Seq<char>, SEP)>,
    name: Seq<char>,
    span: Span,
)
    ensures
        all_expr_reports(unknown_fields(known, fs, name, span)),
    decreases fs.len(),
{
    lemma_codes();
    if fs.len() > 0 {
        lemma_unknown_fields_reports(known, fs.drop_last(), name, span);
        let extra = if known.contains(fs.last().0) {
            Seq::<DV>::empty()
        } else {
            seq![crate::resolver::spec::undefined_field(name, fs.last().0, span)]
        };
        lemma_concat_expr(unknown_fields(known, fs.drop_last(), name, span), extra);
    }
}

proof fn lemma_checks_reports(
    sc: Seq<ScopeView>,
    sy: Seq<SymbolView>,
    e: SEP,
)
    ensures
        e.kind matches SExprKind::StructLit { name, fields } ==> all_expr_reports(
            struct_lit_checks(sc, sy, name, fields, e.ann),
        ),
        e.kind matches SExprKind::StaticCall { receiver, .. } ==> all_expr_reports(
            receiver_checks(sc, receiver, e.ann),
        ),
        e.kind matches SExprKind::Field { field, .. } ==> all_expr_reports(field_checks(sy, field, e.ann)),
        e.kind matches SExprKind::MethodCall { method, .. } ==> all_expr_reports(
            method_checks(sy, method, e.ann),
        ),
{
    lemma_codes();
    if let SExprKind::StructLit { name, fields } = e.kind {
        if let Some(id) = crate::resolver::spec::lookup(sc, name) {
            if id.0 < sy.len() {
                if let SymbolKindView::Struct(info) = sy[id.0 as int].kind {
                    lemma_unknown_fields_reports(info.fields, fields, name, e.ann);
                }
            }
        }
    }
}

pub proof fn lemma_expr_reports(sc: Seq<ScopeView>, sy: Seq<SymbolView>, e: SEP)
    ensures
        all_expr_reports(rs_expr(sc, sy, e).1),
    decreases e, 1nat,
{
    lemma_codes();
    lemma_checks_reports(sc, sy, e);
    match e.kind {
        SExprKind::Unary(_, x) => lemma_expr_reports(sc, sy, *x),
        SExprKind::Binary(_, a, b) => {
            lemma_expr_reports(sc, sy, *a);
            lemma_expr_reports(sc, sy, *b);
            lemma_concat_expr(rs_expr(sc, sy, *a).1, rs_expr(sc, sy, *b).1);
        },
        SExprKind::Assign { lhs, rhs } => {
            lemma_expr_reports(sc, sy, *lhs);
            lemma_expr_reports(sc, sy, *rhs);
            lemma_concat_expr(rs_expr(sc, sy, *lhs).1, rs_expr(sc, sy, *rhs).1);
        },
        SExprKind::Call { callee, args } => {
            lemma_callee_reports(sc, sy, *callee);
            lemma_exprs_reports(sc, sy, args);
            lemma_concat_expr(rs_callee(sc, sy, *callee).1, rs_exprs(sc, sy, args).1);
        },
        SExprKind::Field { base, field } => {
            lemma_expr_reports(sc, sy, *base);
            lemma_concat_expr(rs_expr(sc, sy, *base).1, field_checks(sy, field, e.ann));
        },
        SExprKind::Index { base, index } => {
            lemma_expr_reports(sc, sy, *base);
            lemma_expr_reports(sc, sy, *index);
            lemma_concat_expr(rs_expr(sc, sy, *base).1, rs_expr(sc, sy, *index).1);
        },
        SExprKind::MethodCall { base, method, args } => {
            lemma_expr_reports(sc, sy, *base);
            lemma_exprs_reports(sc, sy, args);
            lemma_concat_expr(rs_expr(sc, sy, *base).1, method_checks(sy, method, e.ann));
            lemma_concat_expr(
                rs_expr(sc, sy, *base).1 + method_checks(sy, method, e.ann),
                rs_exprs(sc, sy, args).1,
            );
        },
        SExprKind::StaticCall { receiver, args, .. } => {
            lemma_exprs_reports(sc, sy, args);
            lemma_concat_expr(receiver_checks(sc, receiver, e.ann), rs_exprs(sc, sy, args).1);
        },
        SExprKind::StdCall { args, .. } => lemma_exprs_reports(sc, sy, args),
        SExprKind::StructLit { name, fields } => {
            lemma_field_inits_reports(sc, sy, fields);
            lemma_concat_expr(
                struct_lit_checks(sc, sy, name, fields, e.ann),
                rs_field_inits(sc, sy, fields).1,
            );
        },
        SExprKind::Alloc { ty, count } => {
            lemma_type_reports(sc, ty);
            lemma_expr_reports(sc, sy, *count);
            lemma_concat_expr(rs_type(sc, ty).1, rs_expr(sc, sy, *count).1);
        },
        SExprKind::Free { expr } => lemma_expr_reports(sc, sy, *expr),
        _ => {},
    }
}

pub proof fn lemma_callee_reports(sc: Seq<ScopeView>, sy: Seq<SymbolView>, c: SEP)
    ensures
        all_expr_reports(rs_callee(sc, sy, c).1),
    decreases c, 2nat,
{
    lemma_codes();
    match c.kind {
        SExprKind::Ident(_) => {},
        _ => lemma_expr_reports(sc, sy, c),
    }
}

pub proof fn lemma_exprs_reports(sc: Seq<ScopeView>, sy: Seq<SymbolView>, es: Seq<SEP>)
    ensures
        all_expr_reports(rs_exprs(sc, sy, es).1),
    decreases es, 1nat,
{
    if es.len() > 0 {
        lemma_exprs_reports(sc, sy, es.drop_last());
        lemma_expr_reports(sc, sy, es.last());
        lemma_concat_expr(rs_exprs(sc, sy, es.drop_last()).1, rs_expr(sc, sy, es.last()).1);
    }
}

pub proof fn lemma_field_inits_reports(
    sc: Seq<ScopeView>,
    sy: Seq<SymbolView>,
    fs: Seq<(Seq<char>, SEP)>,
)
    ensures
        all_expr_reports(rs_field_inits(sc, sy, fs).1),
    decreases fs, 1nat,
{
    if fs.len() > 0 {
        lemma_field_inits_reports(sc, sy, fs.drop_last());
        lemma_expr_reports(sc, sy, fs.last().1);
        lemma_concat_expr(rs_field_inits(sc, sy, fs.drop_last()).1, rs_expr(sc, sy, fs.last().1).1);
    }
}

/// Reporting one of the resolver's diagnostics keeps all of them its own.
proof fn lemma_emit_reports(ds: Seq<DV>, d: DV)
    requires
        all_reports(ds),
        resolver_report(d),
    ensures
        all_reports(ds.push(d)),
{
    assert(ds.push(d) =~= ds + seq![d]);
    lemma_concat(ds, seq![d]);
}

proof fn lemma_define_reports(st: RState, name: Seq<char>, span: Span, kind: SymbolKindView)
    requires
        all_reports(st.diags),
    ensures
        all_reports(define(st, name, span, kind).1.diags),
{
    lemma_codes();
    let st1 = if crate::ast::expr::is_reserved(name) {
        lemma_emit_reports(st.diags, crate::resolver::spec::reserved_identifier(name, span));
        crate::resolver::spec::emit(st, crate::resolver::spec::reserved_identifier(name, span))
    } else {
        st
    };
    if crate::resolver::spec::scope_get(st1.scopes.last(), name) is Some {
        lemma_emit_reports(st1.diags, crate::resolver::spec::duplicate_definition(name, span));
    }
}

proof fn lemma_stmt_reports(st: RState, s: SSP)
    requires
        all_reports(st.diags),
    ensures
        all_reports(rs_stmt(st, s).1.diags),
    decreases s,
{
    lemma_codes();
    match s.kind {
        SStmtKind::Expr(e) => {
            lemma_expr_reports(st.scopes, st.symbols, e);
            lemma_concat(st.diags, rs_expr(st.scopes, st.symbols, e).1);
        },
        SStmtKind::VarDecl { name, ty, init } => {
            let d1 = rs_expr(st.scopes, st.symbols, init).1;
            let d2 = match ty {
                Some(t) => rs_type(st.scopes, t).1,
                None => Seq::empty(),
            };
            lemma_expr_reports(st.scopes, st.symbols, init);
            if let Some(t) = ty {
                lemma_type_reports(st.scopes, t);
            }
            lemma_concat(d1, d2);
            lemma_concat(st.diags, d1 + d2);
            lemma_define_reports(emit_all(st, d1 + d2), name.name, s.ann, SymbolKindView::Var);
        },
        SStmtKind::ConstDecl { name, ty, init } => {
            let d1 = rs_expr(st.scopes, st.symbols, init).1;
            let d2 = rs_type(st.scopes, ty).1;
            lemma_expr_reports(st.scopes, st.symbols, init);
            lemma_type_reports(st.scopes, ty);
            lemma_concat(d1, d2);
            lemma_concat(st.diags, d1 + d2);
            lemma_define_reports(emit_all(st, d1 + d2), name.name, s.ann, SymbolKindView::Const);
        },
        SStmtKind::Return(e) => {
            if let Some(x) = e {
                lemma_expr_reports(st.scopes, st.symbols, x);
                lemma_concat(st.diags, rs_expr(st.scopes, st.symbols, x).1);
            }
        },
        SStmtKind::If { cond, then_block, else_ifs, else_block } => {
            let dc = rs_expr(st.scopes, st.symbols, cond).1;
            lemma_expr_reports(st.scopes, st.symbols, cond);
            lemma_concat(st.diags, dc);
            let st0 = emit_all(st, dc);
            lemma_block_reports(st0, then_block);
            let st1 = rs_block(st0, then_block).1;
            lemma_else_ifs_reports(st1, else_ifs);
            let st3 = rs_else_ifs(st1, else_ifs).1;
            if let Some(b) = else_block {
                lemma_block_reports(st3, b);
            }
        },
        SStmtKind::While { cond, body } => {
            let st0 = RState { loop_depth: st.loop_depth + 1, ..st };
            let dc = rs_expr(st0.scopes, st0.symbols, cond).1;
            lemma_expr_reports(st0.scopes, st0.symbols, cond);
            lemma_concat(st0.diags, dc);
            lemma_block_reports(emit_all(st0, dc), body);
        },
        SStmtKind::Break => {
            if st.loop_depth == 0 {
                lemma_emit_reports(st.diags, crate::resolver::spec::break_outside_loop(s.ann));
            }
        },
        SStmtKind::Continue => {
            if st.loop_depth == 0 {
                lemma_emit_reports(st.diags, crate::resolver::spec::continue_outside_loop(s.ann));
            }
        },
    }
}

proof fn lemma_stmts_reports(st: RState, ss: Seq<SSP>)
    requires
        all_reports(st.diags),
    ensures
        all_reports(rs_stmts(st, ss).1.diags),
    decreases ss,
{
    if ss.len() > 0 {
        lemma_stmts_reports(st, ss.drop_last());
        lemma_stmt_reports(rs_stmts(st, ss.drop_last()).1, ss.last());
    }
}

proof fn lemma_block_reports(st: RState, b: SBP)
    requires
        all_reports(st.diags),
    ensures
        all_reports(rs_block(st, b).1.diags),
    decreases b,
{
    lemma_stmts_reports(push_scope(st), b.stmts);
}

proof fn lemma_else_ifs_reports(st: RState, bs: Seq<(SEP, SBP)>)
    requires
        all_reports(st.diags),
    ensures
        all_reports(rs_else_ifs(st, bs).1.diags),
    decreases bs,
{
    if bs.len() > 0 {
        lemma_else_ifs_reports(st, bs.drop_last());
        let st1 = rs_else_ifs(st, bs.drop_last()).1;
        let dc = rs_expr(st1.scopes, st1.symbols, bs.last().0).1;
        lemma_expr_reports(st1.scopes, st1.symbols, bs.last().0);
        lemma_concat(st1.diags, dc);
        lemma_block_reports(emit_all(st1, dc), bs.last().1);
    }
}

proof fn lemma_params_reports(st: RState, ps: Seq<SPP>)
    requires
        all_reports(st.diags),
    ensures
        all_reports(rs_params(st, ps).1.diags),
    decreases ps.len(),
{
    if ps.len() > 0 {
        lemma_params_reports(st, ps.drop_last());
        let st1 = rs_params(st, ps.drop_last()).1;
        let p = ps.last();
        let name = crate::resolver::spec::param_name(p);
        lemma_define_reports(st1, name, p.ann, SymbolKindView::Param);
        let st2 = define(st1, name, p.ann, SymbolKindView::Param).1;
        match p.kind {
            SParamKind::SelfParam { ty } => {
                if let Some(t) = ty {
                    lemma_type_reports(st2.scopes, t);
                    lemma_concat(st2.diags, rs_type(st2.scopes, t).1);
                } else {
                    assert(st2.diags + Seq::<DV>::empty() =~= st2.diags);
                }
            },
            SParamKind::Named { ty, .. } => {
                lemma_type_reports(st2.scopes, ty);
                lemma_concat(st2.diags, rs_type(st2.scopes, ty).1);
            },
        }
    }
}

proof fn lemma_fn_body_reports(st: RState, f: SFP, id: SymbolId)
    requires
        all_reports(st.diags),
    ensures
        all_reports(rs_fn_body(st, f, id).1.diags),
{
    lemma_params_reports(push_scope(st), f.params);
    let st1 = rs_params(push_scope(st), f.params).1;
    lemma_type_reports(st1.scopes, f.ret_ty);
    lemma_concat(st1.diags, rs_type(st1.scopes, f.ret_ty).1);
    lemma_block_reports(emit_all(st1, rs_type(st1.scopes, f.ret_ty).1), f.body);
}

proof fn lemma_methods_reports(st: RState, ms: Seq<SFP>, name: Seq<char>)
    requires
        all_reports(st.diags),
    ensures
        all_reports(rs_methods(st, ms, name).1.diags),
    decreases ms.len(),
{
    if ms.len() > 0 {
        lemma_methods_reports(st, ms.drop_last(), name);
        let st1 = rs_methods(st, ms.drop_last(), name).1;
        lemma_fn_body_reports(st1, ms.last(), crate::resolver::spec::method_id(st1, name, ms.last().name.name));
    }
}

proof fn lemma_field_decls_reports(sc: Seq<ScopeView>, fs: Seq<crate::ast::view::SFieldDecl<Parsed>>)
    ensures
        all_expr_reports(rs_field_decls(sc, fs).1),
    decreases fs.len(),
{
    if fs.len() > 0 {
        lemma_field_decls_reports(sc, fs.drop_last());
        lemma_type_reports(sc, fs.last().ty);
        lemma_concat_expr(rs_field_decls(sc, fs.drop_last()).1, rs_type(sc, fs.last().ty).1);
    }
}

proof fn lemma_decls_reports(st: RState, ds: Seq<SDecl<Parsed>>)
    requires
        all_reports(st.diags),
    ensures
        all_reports(rs_decls(st, ds).1.diags),
    decreases ds.len(),
{
    if ds.len() > 0 {
        lemma_decls_reports(st, ds.drop_last());
        let st1 = rs_decls(st, ds.drop_last()).1;
        match ds.last() {
            SDecl::Fn(f) => {
                lemma_fn_body_reports(st1, f, crate::resolver::spec::lookup_or_unresolved(st1.scopes, f.name.name));
            },
            SDecl::Struct(s) => {
                let d1 = rs_field_decls(st1.scopes, s.fields).1;
                lemma_field_decls_reports(st1.scopes, s.fields);
                lemma_concat(st1.diags, d1);
                lemma_methods_reports(emit_all(st1, d1), s.methods, s.name.name);
            },
        }
    }
}

proof fn lemma_duplicate_fields_reports(name: Seq<char>, fs: Seq<crate::ast::view::SFieldDecl<Parsed>>)
    ensures
        all_reports(duplicate_fields(name, fs)),
    decreases fs.len(),
{
    lemma_codes();
    if fs.len() > 0 {
        lemma_duplicate_fields_reports(name, fs.drop_last());
        let extra = if crate::resolver::spec::field_names(fs.drop_last()).contains(fs.last().name) {
            seq![crate::resolver::spec::duplicate_field(name, fs.last().name, fs.last().ann)]
        } else {
            Seq::<DV>::empty()
        };
        lemma_concat(duplicate_fields(name, fs.drop_last()), extra);
    }
}

proof fn lemma_collect_reports(st: RState, ds: Seq<SDecl<Parsed>>)
    requires
        all_reports(st.diags),
    ensures
        all_reports(collect_decls(st, ds).diags),
    decreases ds.len(),
{
    if ds.len() > 0 {
        lemma_collect_reports(st, ds.drop_last());
        let st1 = collect_decls(st, ds.drop_last());
        match ds.last() {
            SDecl::Fn(f) => {
                lemma_define_reports(st1, f.name.name, f.ann, SymbolKindView::Fn(crate::resolver::spec::fn_sig_view(f)));
            },
            SDecl::Struct(s) => {
                let d = duplicate_fields(s.name.name, s.fields);
                lemma_duplicate_fields_reports(s.name.name, s.fields);
                lemma_concat(st1.diags, d);
                let kind = SymbolKindView::Struct(
                    crate::common::StructInfoView {
                        fields: crate::resolver::spec::field_names(s.fields),
                        fns: Seq::empty(),
                    },
                );
                lemma_define_reports(emit_all(st1, d), s.name.name, s.ann, kind);
                let st2 = define(emit_all(st1, d), s.name.name, s.ann, kind).1;
                crate::resolver::laws::lemma_collect_methods_scopes(st2, s.methods);
            },
        }
    }
}

/// Everything a run of the resolver on `p` reports, in the order reported.
pub open spec fn emitted(p: SProgram<Parsed>) -> Seq<DV> {
    let st0 = push_scope(initial());
    let st1 = collect_decls(st0, p.decls);
    let st2 = rs_decls(st1, p.decls).1;
    pop_scope(check_main(st2)).diags
}

/// The resolver reports only its own errors, and all of them: a program
/// resolves exactly when nothing is reported; otherwise the error holds
/// every diagnostic reported (checking goes on past the first), and each
/// is an error of the resolver phase whose code starts with `E02`.
pub proof fn law_resolver_reports(p: SProgram<Parsed>)
    ensures
        rs_program(p) is Ok <==> emitted(p).len() == 0,
        rs_program(p) matches Err(ds) ==> ds == emitted(p) && ds.len() > 0 && all_reports(ds),
        all_reports(emitted(p)),
{
    lemma_codes();
    let st0 = push_scope(initial());
    lemma_collect_reports(st0, p.decls);
    let st1 = collect_decls(st0, p.decls);
    lemma_decls_reports(st1, p.decls);
    let st2 = rs_decls(st1, p.decls).1;
    match crate::resolver::spec::lookup(st2.scopes, "main"@) {
        None => lemma_emit_reports(st2.diags, crate::resolver::spec::main_not_found()),
        Some(id) => if id.0 < st2.symbols.len() {
            match st2.symbols[id.0 as int].kind {
                SymbolKindView::Fn(sig) => {
                    let non_void = !crate::resolver::spec::starts_with_void(sig.ret_ty);
                    let text = "fn main("@ + crate::resolver::spec::join(sig.params) + ")"@ + if non_void {
                        " -> ..."@
                    } else {
                        Seq::empty()
                    };
                    lemma_emit_reports(
                        st2.diags,
                        crate::resolver::spec::invalid_main_signature(text, st2.symbols[id.0 as int].span),
                    );
                },
                _ => lemma_emit_reports(st2.diags, crate::resolver::spec::main_not_found()),
            }
        },
    }
}

} // verus!
