//! Where `break` and `continue` are reported: exactly where no loop
//! encloses them.
use vstd::prelude::*;
use crate::ast::view::SStmtKind;
use crate::common::{Span, SymbolKindView};
use crate::resolver::reports::{
    all_expr_reports, lemma_codes, lemma_concat_expr, lemma_expr_reports, lemma_type_reports,
    loop_report,
};
use crate::resolver::spec::{
    break_outside_loop, continue_outside_loop, define, emit, emit_all, push_scope, rs_block,
    rs_else_ifs, rs_expr, rs_stmt, rs_stmts, rs_type, RState, DV, SBP, SEP, SSP,
};

verus! {

/// How many of `ds` report `break` or `continue` outside a loop.
pub open spec fn count_loop(ds: Seq<DV>) -> nat
    decreases ds.len(),
{
    if ds.len() == 0 {
        0
    } else {
        count_loop(ds.drop_last()) + if loop_report(ds.last()) {
            1nat
        } else {
            0nat
        }
    }
}

/// The `break` and `continue` statements of a statement that no `while` of
/// it encloses.
pub open spec fn loose_stmt(s: SSP) -> nat
    decreases s,
{
    match s.kind {
        SStmtKind::Break | SStmtKind::Continue => 1,
        SStmtKind::If { then_block, else_ifs, else_block, .. } => loose_block(then_block)
            + loose_else_ifs(else_ifs) + match else_block {
            Some(b) => loose_block(b),
            None => 0,
        },
        _ => 0,
    }
}

pub open spec fn loose_block(b: SBP) -> nat
    decreases b,
{
    loose_stmts(b.stmts)
}

pub open spec fn loose_stmts(ss: Seq<SSP>) -> nat
    decreases ss,
{
    if ss.len() == 0 {
        0
    } else {
        loose_stmts(ss.drop_last()) + loose_stmt(ss.last())
    }
}

pub open spec fn loose_else_ifs(bs: Seq<(SEP, SBP)>) -> nat
    decreases bs,
{
    if bs.len() == 0 {
        0
    } else {
        loose_else_ifs(bs.drop_last()) + loose_block(bs.last().1)
    }
}

proof fn lemma_count_concat(a: Seq<DV>, b: Seq<DV>)
    ensures
        count_loop(a + b) == count_loop(a) + count_loop(b),
    decreases b.len(),
{
    if b.len() == 0 {
        assert(a + b =~= a);
    } else {
        assert((a + b).drop_last() =~= a + b.drop_last());
        lemma_count_concat(a, b.drop_last());
    }
}

proof fn lemma_count_expr(ds: Seq<DV>)
    requires
        all_expr_reports(ds),
    ensures
        count_loop(ds) == 0,
    decreases ds.len(),
{
    if ds.len() > 0 {
        assert(!loop_report(ds[ds.len() - 1]));
        lemma_count_expr(ds.drop_last());
    }
}

/// Reporting what an expression or type reports counts no loop report.
proof fn lemma_emit_expr_count(st: RState, d: Seq<DV>)
    requires
        all_expr_reports(d),
    ensures
        count_loop(emit_all(st, d).diags) == count_loop(st.diags),
{
    lemma_count_expr(d);
    lemma_count_concat(st.diags, d);
}

proof fn lemma_emit_count(st: RState, d: DV)
    ensures
        count_loop(emit(st, d).diags) == count_loop(st.diags) + if loop_report(d) {
            1nat
        } else {
            0nat
        },
{
    assert(emit(st, d).diags.drop_last() =~= st.diags);
}

proof fn lemma_define_count(st: RState, name: Seq<char>, span: Span, kind: SymbolKindView)
    ensures
        count_loop(define(st, name, span, kind).1.diags) == count_loop(st.diags),
        define(st, name, span, kind).1.loop_depth == st.loop_depth,
{
    lemma_codes();
    let st1 = if crate::ast::expr::is_reserved(name) {
        let d = crate::resolver::spec::reserved_identifier(name, span);
        lemma_emit_count(st, d);
        emit(st, d)
    } else {
        st
    };
    if crate::resolver::spec::scope_get(st1.scopes.last(), name) is Some {
        lemma_emit_count(st1, crate::resolver::spec::duplicate_definition(name, span));
    }
}

/// `break` and `continue` are reported exactly where no loop encloses them:
/// resolving a statement outside any loop reports one for each of its loose
/// `break` and `continue` statements, inside a loop none; and it leaves the
/// loop depth as it was.
pub proof fn law_loop_reports(st: RState, s: SSP)
    requires
        st.loop_depth >= 0,
    ensures
        rs_stmt(st, s).1.loop_depth == st.loop_depth,
        count_loop(rs_stmt(st, s).1.diags) == count_loop(st.diags) + if st.loop_depth == 0 {
            loose_stmt(s)
        } else {
            0
        },
    decreases s,
{
    lemma_codes();
    match s.kind {
        SStmtKind::Expr(e) => {
            lemma_expr_reports(st.scopes, st.symbols, e);
            lemma_emit_expr_count(st, rs_expr(st.scopes, st.symbols, e).1);
        },
        SStmtKind::VarDecl { name, ty, init } => {
            let d1 = rs_expr(st.scopes, st.symbols, init).1;
            let d2 = match ty {
                Some(t) => rs_type(st.scopes, t).1,
                None => Seq::empty(),
            };
            lemma_expr_reports(st.scopes, st.symbols, init);
            if let Some(t) = ty {
                lemma_type_reports(st.scopes, t);
            }
            lemma_concat_expr(d1, d2);
            lemma_emit_expr_count(st, d1 + d2);
            lemma_define_count(emit_all(st, d1 + d2), name.name, s.ann, SymbolKindView::Var);
        },
        SStmtKind::ConstDecl { name, ty, init } => {
            let d1 = rs_expr(st.scopes, st.symbols, init).1;
            let d2 = rs_type(st.scopes, ty).1;
            lemma_expr_reports(st.scopes, st.symbols, init);
            lemma_type_reports(st.scopes, ty);
            lemma_concat_expr(d1, d2);
            lemma_emit_expr_count(st, d1 + d2);
            lemma_define_count(emit_all(st, d1 + d2), name.name, s.ann, SymbolKindView::Const);
        },
        SStmtKind::Return(e) => {
            if let Some(x) = e {
                lemma_expr_reports(st.scopes, st.symbols, x);
                lemma_emit_expr_count(st, rs_expr(st.scopes, st.symbols, x).1);
            }
        },
        SStmtKind::If { cond, then_block, else_ifs, else_block } => {
            let dc = rs_expr(st.scopes, st.symbols, cond).1;
            lemma_expr_reports(st.scopes, st.symbols, cond);
            lemma_emit_expr_count(st, dc);
            let st0 = emit_all(st, dc);
            law_loop_reports_block(st0, then_block);
            let st1 = rs_block(st0, then_block).1;
            lemma_else_ifs_loops(st1, else_ifs);
            let st3 = rs_else_ifs(st1, else_ifs).1;
            if let Some(b) = else_block {
                law_loop_reports_block(st3, b);
            }
        },
        SStmtKind::While { cond, body } => {
            let st0 = RState { loop_depth: st.loop_depth + 1, ..st };
            let dc = rs_expr(st0.scopes, st0.symbols, cond).1;
            lemma_expr_reports(st0.scopes, st0.symbols, cond);
            lemma_emit_expr_count(st0, dc);
            law_loop_reports_block(emit_all(st0, dc), body);
        },
        SStmtKind::Break => {
            if st.loop_depth == 0 {
                lemma_emit_count(st, break_outside_loop(s.ann));
            }
        },
        SStmtKind::Continue => {
            if st.loop_depth == 0 {
                lemma_emit_count(st, continue_outside_loop(s.ann));
            }
        },
    }
}

proof fn lemma_stmts_loops(st: RState, ss: Seq<SSP>)
    requires
        st.loop_depth >= 0,
    ensures
        rs_stmts(st, ss).1.loop_depth == st.loop_depth,
        count_loop(rs_stmts(st, ss).1.diags) == count_loop(st.diags) + if st.loop_depth == 0 {
            loose_stmts(ss)
        } else {
            0
        },
    decreases ss,
{
    if ss.len() > 0 {
        lemma_stmts_loops(st, ss.drop_last());
        law_loop_reports(rs_stmts(st, ss.drop_last()).1, ss.last());
    }
}

/// What `law_loop_reports` says of a statement holds of a block.
pub proof fn law_loop_reports_block(st: RState, b: SBP)
    requires
        st.loop_depth >= 0,
    ensures
        rs_block(st, b).1.loop_depth == st.loop_depth,
        count_loop(rs_block(st, b).1.diags) == count_loop(st.diags) + if st.loop_depth == 0 {
            loose_block(b)
        } else {
            0
        },
    decreases b,
{
    lemma_stmts_loops(push_scope(st), b.stmts);
}

/// Resolving a statement leaves the resolver as deep in loops and scopes as
/// it found it: the loop depth is restored, the scope stack has the same
/// length, and every enclosing scope is unchanged (only the innermost one
/// gains the names the statement declares).
pub proof fn law_stmt_restores_depth(st: RState, s: SSP)
    requires
        st.loop_depth >= 0,
        st.scopes.len() > 0,
    ensures
        rs_stmt(st, s).1.loop_depth == st.loop_depth,
        rs_stmt(st, s).1.scopes.len() == st.scopes.len(),
        rs_stmt(st, s).1.scopes.drop_last() == st.scopes.drop_last(),
{
    law_loop_reports(st, s);
    crate::resolver::laws::lemma_stmt_scopes(st, s);
}

proof fn lemma_else_ifs_loops(st: RState, bs: Seq<(SEP, SBP)>)
    requires
        st.loop_depth >= 0,
    ensures
        rs_else_ifs(st, bs).1.loop_depth == st.loop_depth,
        count_loop(rs_else_ifs(st, bs).1.diags) == count_loop(st.diags) + if st.loop_depth == 0 {
            loose_else_ifs(bs)
        } else {
            0
        },
    decreases bs,
{
    if bs.len() > 0 {
        lemma_else_ifs_loops(st, bs.drop_last());
        let st1 = rs_else_ifs(st, bs.drop_last()).1;
        let dc = rs_expr(st1.scopes, st1.symbols, bs.last().0).1;
        lemma_expr_reports(st1.scopes, st1.symbols, bs.last().0);
        lemma_emit_expr_count(st1, dc);
        law_loop_reports_block(emit_all(st1, dc), bs.last().1);
    }
}

} // verus!
