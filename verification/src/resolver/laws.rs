//! What name resolution guarantees of every program.
use vstd::prelude::*;
use crate::ast::view::{SBlock, SDecl, SFieldDecl, SFnDecl, SStmt};
use crate::common::{Parsed, Span, SymbolId, SymbolKindView};
use crate::ast::view::{SProgram, SType};
use crate::ast::expr::is_reserved;
use crate::common::SymbolView;
use crate::resolver::spec::{
    duplicate_definition, duplicate_field, duplicate_fields, field_names, reserved_identifier, DV,
    check_main, decl_defs, decls_defs, lemma_decls_size_take, program_size, starts_with_void, type_debug,
    collect_decl, collect_decls, collect_methods, define, emit_all, initial, lookup, push_scope,
    rs_block, rs_decl, rs_decls, rs_else_ifs, rs_fn_body, rs_methods, rs_params, rs_program,
    rs_stmt, rs_stmts, scope_get, RState, ScopeView, SBP, SEP, SFP, SSP,
};

verus! {

/// The name a top-level declaration introduces.
pub open spec fn decl_name(d: SDecl<Parsed>) -> Seq<char> {
    match d {
        SDecl::Fn(f) => f.name.name,
        SDecl::Struct(s) => s.name.name,
    }
}

/// Two scope stacks that differ at most in the bindings of their innermost
/// scope.
pub open spec fn same_outer(a: Seq<ScopeView>, b: Seq<ScopeView>) -> bool {
    a.len() == b.len() && a.drop_last() == b.drop_last()
}

/// What a later state keeps of an earlier one: every symbol already
/// defined, unchanged, and every diagnostic already reported.
pub open spec fn keeps(a: RState, b: RState) -> bool {
    &&& a.symbols.len() <= b.symbols.len()
    &&& forall|i: int| 0 <= i < a.symbols.len() ==> #[trigger] b.symbols[i] == a.symbols[i]
    &&& a.diags.len() <= b.diags.len()
}

/// A name just defined refers to the new symbol, hiding any other binding
/// of it, in this scope or an enclosing one; every other name keeps its
/// meaning.
pub proof fn law_define_then_lookup(st: RState, name: Seq<char>, span: Span, kind: SymbolKindView, other: Seq<char>)
    requires
        st.scopes.len() > 0,
    ensures
        lookup(define(st, name, span, kind).1.scopes, name) == Some(define(st, name, span, kind).0),
        other != name ==> lookup(define(st, name, span, kind).1.scopes, other) == lookup(
            st.scopes,
            other,
        ),
        same_outer(st.scopes, define(st, name, span, kind).1.scopes),
{
    let (id, st2) = define(st, name, span, kind);
    let last = st2.scopes.last();
    assert(st2.scopes.drop_last() =~= st.scopes.drop_last());
    assert(last.drop_last() =~= st.scopes.last());
}

/// Defining a name makes a new symbol, numbered by the symbols before it,
/// and reports, in this order, E0209 if the name is a reserved builtin and
/// E0206 if the innermost scope already binds it; the name is bound to the
/// new symbol either way.
pub proof fn law_define_reports(st: RState, name: Seq<char>, span: Span, kind: SymbolKindView)
    requires
        st.scopes.len() > 0,
        st.symbols.len() < u32::MAX,
    ensures
        ({
            let (id, st2) = define(st, name, span, kind);
            let reserved: Seq<DV> = if is_reserved(name) {
                seq![reserved_identifier(name, span)]
            } else {
                Seq::empty()
            };
            let dup: Seq<DV> = if scope_get(st.scopes.last(), name) is Some {
                seq![duplicate_definition(name, span)]
            } else {
                Seq::empty()
            };
            &&& id.0 == st.symbols.len()
            &&& st2.symbols == st.symbols.push(SymbolView { id, name, kind, span })
            &&& st2.diags == st.diags + reserved + dup
            &&& reserved_identifier(name, span).code == Some("E0209"@)
            &&& duplicate_definition(name, span).code == Some("E0206"@)
            &&& scope_get(st2.scopes.last(), name) == Some(id)
        }),
{
    let (id, st2) = define(st, name, span, kind);
    let reserved: Seq<DV> = if is_reserved(name) {
        seq![reserved_identifier(name, span)]
    } else {
        Seq::empty()
    };
    let dup: Seq<DV> = if scope_get(st.scopes.last(), name) is Some {
        seq![duplicate_definition(name, span)]
    } else {
        Seq::empty()
    };
    assert(st2.diags =~= st.diags + reserved + dup);
    assert(st2.scopes.last().last() == (name, id));
}

/// A struct's fields are checked against all the fields before them: going
/// from the first `j` fields to the first `j + 1`, field `j` is reported
/// (once, as E0210, at its own span) exactly when some earlier field has
/// its name, whether or not that field stands right before it.
pub proof fn law_duplicate_fields(name: Seq<char>, fs: Seq<SFieldDecl<Parsed>>, j: int)
    requires
        0 <= j < fs.len(),
    ensures
        duplicate_fields(name, Seq::empty()) == Seq::<DV>::empty(),
        duplicate_fields(name, fs.take(j + 1)) == duplicate_fields(name, fs.take(j)) + if exists|i: int|
            0 <= i < j && #[trigger] fs[i].name == fs[j].name {
            seq![duplicate_field(name, fs[j].name, fs[j].ann)]
        } else {
            Seq::<DV>::empty()
        },
        duplicate_field(name, fs[j].name, fs[j].ann).code == Some("E0210"@),
{
    let pre = fs.take(j + 1);
    assert(pre.drop_last() =~= fs.take(j));
    assert(pre.last() == fs[j]);
    let names = field_names(fs.take(j));
    if exists|i: int| 0 <= i < j && #[trigger] fs[i].name == fs[j].name {
        let i = choose|i: int| 0 <= i < j && #[trigger] fs[i].name == fs[j].name;
        assert(names[i] == fs[i].name);
        assert(names.contains(fs[j].name));
    } else {
        if names.contains(fs[j].name) {
            let i = choose|i: int| 0 <= i < names.len() && names[i] == fs[j].name;
            assert(fs.take(j)[i] == fs[i]);
            assert(false);
        }
    }
}

pub(crate) proof fn lemma_params_scopes(st: RState, ps: Seq<crate::resolver::spec::SPP>)
    requires
        st.scopes.len() > 0,
    ensures
        same_outer(st.scopes, rs_params(st, ps).1.scopes),
        keeps(st, rs_params(st, ps).1),
    decreases ps.len(),
{
    if ps.len() > 0 {
        lemma_params_scopes(st, ps.drop_last());
        let st1 = rs_params(st, ps.drop_last()).1;
        let p = ps.last();
        law_define_then_lookup(st1, crate::resolver::spec::param_name(p), p.ann, SymbolKindView::Param, seq![]);
    }
}

pub(crate) proof fn lemma_stmt_scopes(st: RState, s: SSP)
    requires
        st.scopes.len() > 0,
    ensures
        same_outer(st.scopes, rs_stmt(st, s).1.scopes),
        keeps(st, rs_stmt(st, s).1),
    decreases s,
{
    match s.kind {
        crate::ast::view::SStmtKind::VarDecl { name, .. } => {
            let (ri, d1) = crate::resolver::spec::rs_expr(st.scopes, st.symbols, s.kind->VarDecl_init);
            let d2 = match s.kind->VarDecl_ty {
                Some(t) => crate::resolver::spec::rs_type(st.scopes, t).1,
                None => Seq::empty(),
            };
            law_define_then_lookup(emit_all(st, d1 + d2), name.name, s.ann, SymbolKindView::Var, seq![]);
        },
        crate::ast::view::SStmtKind::ConstDecl { name, ty, init } => {
            let d1 = crate::resolver::spec::rs_expr(st.scopes, st.symbols, init).1;
            let d2 = crate::resolver::spec::rs_type(st.scopes, ty).1;
            law_define_then_lookup(emit_all(st, d1 + d2), name.name, s.ann, SymbolKindView::Const, seq![]);
        },
        crate::ast::view::SStmtKind::If { cond, then_block, else_ifs, else_block } => {
            let dc = crate::resolver::spec::rs_expr(st.scopes, st.symbols, cond).1;
            let st0 = emit_all(st, dc);
            law_block_scopes(st0, then_block);
            let st1 = rs_block(st0, then_block).1;
            lemma_else_ifs_scopes(st1, else_ifs);
            let st3 = rs_else_ifs(st1, else_ifs).1;
            match else_block {
                Some(b) => {
                    law_block_scopes(st3, b);
                },
                None => {},
            }
        },
        crate::ast::view::SStmtKind::While { cond, body } => {
            let st0 = RState { loop_depth: st.loop_depth + 1, ..st };
            let dc = crate::resolver::spec::rs_expr(st0.scopes, st0.symbols, cond).1;
            law_block_scopes(emit_all(st0, dc), body);
        },
        _ => {},
    }
}

pub(crate) proof fn lemma_stmts_scopes(st: RState, ss: Seq<SSP>)
    requires
        st.scopes.len() > 0,
    ensures
        same_outer(st.scopes, rs_stmts(st, ss).1.scopes),
        keeps(st, rs_stmts(st, ss).1),
    decreases ss,
{
    if ss.len() > 0 {
        lemma_stmts_scopes(st, ss.drop_last());
        lemma_stmt_scopes(rs_stmts(st, ss.drop_last()).1, ss.last());
    }
}

pub(crate) proof fn lemma_else_ifs_scopes(st: RState, bs: Seq<(SEP, SBP)>)
    ensures
        rs_else_ifs(st, bs).1.scopes == st.scopes,
        keeps(st, rs_else_ifs(st, bs).1),
    decreases bs,
{
    if bs.len() > 0 {
        lemma_else_ifs_scopes(st, bs.drop_last());
        let st1 = rs_else_ifs(st, bs.drop_last()).1;
        let dc = crate::resolver::spec::rs_expr(st1.scopes, st1.symbols, bs.last().0).1;
        law_block_scopes(emit_all(st1, dc), bs.last().1);
    }
}

/// Names defined inside a block are not visible after it: resolving a block
/// leaves the enclosing scopes exactly as they were, and keeps every symbol
/// and diagnostic already there.
pub proof fn law_block_scopes(st: RState, b: SBP)
    ensures
        rs_block(st, b).1.scopes == st.scopes,
        keeps(st, rs_block(st, b).1),
    decreases b,
{
    let st0 = push_scope(st);
    lemma_stmts_scopes(st0, b.stmts);
    let st1 = rs_stmts(st0, b.stmts).1;
    assert(st1.scopes.drop_last() =~= st.scopes);
}

/// Resolving a function's parameters and body leaves the scopes as they
/// were, and keeps every symbol and diagnostic already there.
pub proof fn law_fn_body_scopes(st: RState, f: SFP, id: SymbolId)
    ensures
        rs_fn_body(st, f, id).1.scopes == st.scopes,
        keeps(st, rs_fn_body(st, f, id).1),
{
    let st0 = push_scope(st);
    lemma_params_scopes(st0, f.params);
    let st1 = rs_params(st0, f.params).1;
    let d = crate::resolver::spec::rs_type(st1.scopes, f.ret_ty).1;
    law_block_scopes(emit_all(st1, d), f.body);
    let st2 = rs_block(emit_all(st1, d), f.body).1;
    assert(st2.scopes.drop_last() =~= st.scopes);
}

pub(crate) proof fn lemma_methods_scopes(st: RState, ms: Seq<SFP>, name: Seq<char>)
    ensures
        rs_methods(st, ms, name).1.scopes == st.scopes,
        keeps(st, rs_methods(st, ms, name).1),
    decreases ms.len(),
{
    if ms.len() > 0 {
        lemma_methods_scopes(st, ms.drop_last(), name);
        let st1 = rs_methods(st, ms.drop_last(), name).1;
        law_fn_body_scopes(st1, ms.last(), crate::resolver::spec::method_id(st1, name, ms.last().name.name));
    }
}

/// Resolving the declarations of a program leaves its scopes as they were,
/// and keeps every symbol and diagnostic already there.
pub proof fn law_decls_scopes(st: RState, ds: Seq<SDecl<Parsed>>)
    ensures
        rs_decls(st, ds).1.scopes == st.scopes,
        keeps(st, rs_decls(st, ds).1),
    decreases ds.len(),
{
    if ds.len() > 0 {
        law_decls_scopes(st, ds.drop_last());
        let st1 = rs_decls(st, ds.drop_last()).1;
        match ds.last() {
            SDecl::Fn(f) => {
                law_fn_body_scopes(st1, f, crate::resolver::spec::lookup_or_unresolved(st1.scopes, f.name.name));
            },
            SDecl::Struct(s) => {
                let d1 = crate::resolver::spec::rs_field_decls(st1.scopes, s.fields).1;
                lemma_methods_scopes(emit_all(st1, d1), s.methods, s.name.name);
            },
        }
    }
}

pub(crate) proof fn lemma_collect_methods_scopes(st: RState, ms: Seq<SFP>)
    ensures
        collect_methods(st, ms).1.scopes == st.scopes,
        collect_methods(st, ms).1.diags == st.diags,
    decreases ms.len(),
{
    if ms.len() > 0 {
        lemma_collect_methods_scopes(st, ms.drop_last());
    }
}

/// Collecting declarations none of which is named `n` leaves what the
/// innermost scope binds `n` to as it was.
pub(crate) proof fn lemma_collect_decls_binding(st: RState, ds: Seq<SDecl<Parsed>>, n: Seq<char>)
    requires
        st.scopes.len() > 0,
        forall|k: int| 0 <= k < ds.len() ==> decl_name(#[trigger] ds[k]) != n,
    ensures
        same_outer(st.scopes, collect_decls(st, ds).scopes),
        scope_get(collect_decls(st, ds).scopes.last(), n) == scope_get(st.scopes.last(), n),
    decreases ds.len(),
{
    if ds.len() > 0 {
        let ds0 = ds.drop_last();
        assert forall|k: int| 0 <= k < ds0.len() implies decl_name(#[trigger] ds0[k]) != n by {
            assert(ds0[k] == ds[k]);
        }
        lemma_collect_decls_binding(st, ds0, n);
        let st1 = collect_decls(st, ds0);
        let d = ds.last();
        assert(decl_name(d) != n);
        match d {
            SDecl::Fn(f) => {
                let (id, st2) = define(st1, f.name.name, f.ann, SymbolKindView::Fn(crate::resolver::spec::fn_sig_view(f)));
                law_define_then_lookup(st1, f.name.name, f.ann, SymbolKindView::Fn(crate::resolver::spec::fn_sig_view(f)), n);
                assert(st2.scopes.last() =~= st1.scopes.last().push((f.name.name, id)));
                assert(st2.scopes.last().drop_last() =~= st1.scopes.last());
            },
            SDecl::Struct(s) => {
                let sta = emit_all(st1, crate::resolver::spec::duplicate_fields(s.name.name, s.fields));
                let kind = SymbolKindView::Struct(
                    crate::common::StructInfoView {
                        fields: crate::resolver::spec::field_names(s.fields),
                        fns: Seq::empty(),
                    },
                );
                let (sid, st2) = define(sta, s.name.name, s.ann, kind);
                law_define_then_lookup(sta, s.name.name, s.ann, kind, n);
                assert(st2.scopes.last() =~= sta.scopes.last().push((s.name.name, sid)));
                assert(st2.scopes.last().drop_last() =~= sta.scopes.last());
                lemma_collect_methods_scopes(st2, s.methods);
                let st3 = collect_methods(st2, s.methods).1;
                assert(collect_decl(st1, d).scopes == st3.scopes);
            },
        }
    }
}

/// A program that declares nothing named `main` does not resolve: its entry
/// point is missing.
pub proof fn law_main_required(p: crate::ast::view::SProgram<Parsed>)
    requires
        forall|k: int| 0 <= k < p.decls.len() ==> decl_name(#[trigger] p.decls[k]) != "main"@,
    ensures
        rs_program(p) is Err,
{
    let st0 = push_scope(initial());
    assert(st0.scopes.last() =~= Seq::<(Seq<char>, SymbolId)>::empty());
    lemma_collect_decls_binding(st0, p.decls, "main"@);
    let st1 = collect_decls(st0, p.decls);
    law_decls_scopes(st1, p.decls);
    let st2 = rs_decls(st1, p.decls).1;
    assert(st2.scopes.len() == 1);
    assert(scope_get(st0.scopes.last(), "main"@) is None);
    assert(scope_get(st2.scopes.last(), "main"@) is None);
    assert(st2.scopes.drop_last() =~= Seq::<ScopeView>::empty());
    assert(lookup(st2.scopes.drop_last(), "main"@) is None);
    assert(lookup(st2.scopes, "main"@) is None);
}

/// A scope that binds everything `a` binds, in the same order, and maybe
/// more after it.
pub(crate) open spec fn extends_scope(a: ScopeView, b: ScopeView) -> bool {
    a.len() <= b.len() && b.subrange(0, a.len() as int) == a
}

pub(crate) proof fn lemma_extends_scope_get(a: ScopeView, b: ScopeView, n: Seq<char>)
    requires
        extends_scope(a, b),
        scope_get(a, n) is Some,
    ensures
        scope_get(b, n) is Some,
    decreases b.len(),
{
    if b.len() == a.len() {
        assert(b =~= a);
    } else if b.last().0 != n {
        assert(b.drop_last().subrange(0, a.len() as int) =~= b.subrange(0, a.len() as int));
        lemma_extends_scope_get(a, b.drop_last(), n);
    }
}

pub(crate) proof fn lemma_collect_methods_keeps(st: RState, ms: Seq<SFP>)
    requires
        st.symbols.len() + ms.len() <= u32::MAX,
    ensures
        collect_methods(st, ms).1.symbols.len() == st.symbols.len() + ms.len(),
        keeps(st, collect_methods(st, ms).1),
        collect_methods(st, ms).1.scopes == st.scopes,
        collect_methods(st, ms).1.diags == st.diags,
    decreases ms.len(),
{
    if ms.len() > 0 {
        lemma_collect_methods_keeps(st, ms.drop_last());
    }
}

/// Collecting a declaration defines `decl_defs(d)` symbols and keeps what
/// was there; the innermost scope only gains bindings.
pub(crate) proof fn lemma_collect_decl_keeps(st: RState, d: SDecl<Parsed>)
    requires
        st.scopes.len() > 0,
        st.symbols.len() + decl_defs(d) <= u32::MAX,
    ensures
        collect_decl(st, d).symbols.len() == st.symbols.len() + decl_defs(d),
        keeps(st, collect_decl(st, d)),
        same_outer(st.scopes, collect_decl(st, d).scopes),
        extends_scope(st.scopes.last(), collect_decl(st, d).scopes.last()),
{
    match d {
        SDecl::Fn(f) => {
            let kind = SymbolKindView::Fn(crate::resolver::spec::fn_sig_view(f));
            law_define_then_lookup(st, f.name.name, f.ann, kind, seq![]);
            let st2 = define(st, f.name.name, f.ann, kind).1;
            assert(st2.scopes.last().subrange(0, st.scopes.last().len() as int) =~= st.scopes.last());
        },
        SDecl::Struct(s) => {
            let sta = emit_all(st, crate::resolver::spec::duplicate_fields(s.name.name, s.fields));
            let names = crate::resolver::spec::field_names(s.fields);
            let kind = SymbolKindView::Struct(
                crate::common::StructInfoView { fields: names, fns: Seq::empty() },
            );
            law_define_then_lookup(sta, s.name.name, s.ann, kind, seq![]);
            let (sid, st2) = define(sta, s.name.name, s.ann, kind);
            assert(st2.scopes.last().subrange(0, st.scopes.last().len() as int) =~= st.scopes.last());
            lemma_collect_methods_keeps(st2, s.methods);
            assert(sid.0 == st.symbols.len());
        },
    }
}

pub(crate) proof fn lemma_collect_decls_keeps(st: RState, ds: Seq<SDecl<Parsed>>)
    requires
        st.scopes.len() > 0,
        st.symbols.len() + decls_defs(ds) <= u32::MAX,
    ensures
        collect_decls(st, ds).symbols.len() == st.symbols.len() + decls_defs(ds),
        keeps(st, collect_decls(st, ds)),
        same_outer(st.scopes, collect_decls(st, ds).scopes),
        extends_scope(st.scopes.last(), collect_decls(st, ds).scopes.last()),
    decreases ds.len(),
{
    if ds.len() == 0 {
        assert(st.scopes.last().subrange(0, st.scopes.last().len() as int) =~= st.scopes.last());
    } else {
        lemma_collect_decls_keeps(st, ds.drop_last());
        let st1 = collect_decls(st, ds.drop_last());
        lemma_collect_decl_keeps(st1, ds.last());
        let st2 = collect_decl(st1, ds.last());
        let (x, y, z) = (st.scopes.last(), st1.scopes.last(), st2.scopes.last());
        assert forall|i: int| 0 <= i < x.len() implies #[trigger] z[i] == x[i] by {
            assert(z.subrange(0, y.len() as int)[i] == z[i]);
            assert(y.subrange(0, x.len() as int)[i] == y[i]);
        }
        assert(z.subrange(0, x.len() as int) =~= x);
    }
}

pub(crate) proof fn lemma_collect_decls_split(st: RState, a: Seq<SDecl<Parsed>>, b: Seq<SDecl<Parsed>>)
    ensures
        collect_decls(st, a + b) == collect_decls(collect_decls(st, a), b),
    decreases b.len(),
{
    if b.len() == 0 {
        assert(a + b =~= a);
    } else {
        assert((a + b).drop_last() =~= a + b.drop_last());
        lemma_collect_decls_split(st, a, b.drop_last());
    }
}

pub(crate) proof fn lemma_decls_defs_split(a: Seq<SDecl<Parsed>>, b: Seq<SDecl<Parsed>>)
    ensures
        decls_defs(a + b) == decls_defs(a) + decls_defs(b),
    decreases b.len(),
{
    if b.len() == 0 {
        assert(a + b =~= a);
    } else {
        assert((a + b).drop_last() =~= a + b.drop_last());
        lemma_decls_defs_split(a, b.drop_last());
    }
}

/// The `Debug` form of a type starts with `Void` exactly when it is `void`.
proof fn lemma_type_debug_void(t: SType<Parsed>)
    ensures
        starts_with_void(type_debug(t)) <==> t is Void,
{
    reveal_strlit("Void");
    reveal_strlit("Int(");
    reveal_strlit("Char(");
    reveal_strlit("Void(");
    reveal_strlit("Ptr(");
    reveal_strlit("Span(");
    reveal_strlit("Readonly(");
    reveal_strlit("Fn { ann: ");
    reveal_strlit("Named(");
    let d = type_debug(t);
    match t {
        SType::Int(_) => assert(d[0] == 'I'),
        SType::Char(_) => assert(d[0] == 'C'),
        SType::Void(_) => assert(d.subrange(0, 4) =~= "Void"@),
        SType::Ptr(..) => assert(d[0] == 'P'),
        SType::Span(..) => assert(d[0] == 'S'),
        SType::Readonly(..) => assert(d[0] == 'R'),
        SType::Fn { .. } => assert(d[0] == 'F'),
        SType::Named(..) => assert(d[0] == 'N'),
    }
    if !(t is Void) && d.len() >= 4 {
        assert(d.subrange(0, 4)[0] != "Void"@[0]);
    }
}

/// `main` must be declared as `fn main()`: a program with a function named
/// `main` that takes parameters, or whose return type is not `void`, does
/// not resolve.
/// A name the innermost scope binds is reported as a duplicate when a later
/// top-level declaration defines it again.
pub(crate) proof fn lemma_redefined_fails(st: RState, ds: Seq<SDecl<Parsed>>, j: int, n: Seq<char>)
    requires
        st.scopes.len() > 0,
        scope_get(st.scopes.last(), n) is Some,
        0 <= j < ds.len(),
        decl_name(ds[j]) == n,
        st.symbols.len() + decls_defs(ds) <= u32::MAX,
    ensures
        collect_decls(st, ds).diags.len() > 0,
{
    let mid = ds.take(j);
    let one = seq![ds[j]];
    let tail = ds.skip(j + 1);
    assert(ds =~= mid + one + tail);
    lemma_decls_defs_split(mid, one);
    lemma_decls_defs_split(mid + one, tail);
    lemma_collect_decls_split(st, mid + one, tail);
    lemma_collect_decls_split(st, mid, one);
    lemma_collect_decls_keeps(st, mid);
    let stj = collect_decls(st, mid);
    lemma_extends_scope_get(st.scopes.last(), stj.scopes.last(), n);
    assert(one.last() == ds[j]);
    assert(one.drop_last() =~= Seq::<SDecl<Parsed>>::empty());
    assert(decls_defs(one.drop_last()) == 0);
    assert(collect_decls(stj, one.drop_last()) == stj);
    assert(decls_defs(one) == decl_defs(ds[j]));
    let stj1 = collect_decl(stj, ds[j]);
    assert(collect_decls(stj, one) == stj1);
    lemma_collect_decl_keeps(stj, ds[j]);
    assert(scope_get(stj.scopes.last(), n) is Some);
    match ds[j] {
        SDecl::Fn(g) => {
            assert(g.name.name == n);
            let kind = SymbolKindView::Fn(crate::resolver::spec::fn_sig_view(g));
            assert(stj1 == define(stj, n, g.ann, kind).1);
        },
        SDecl::Struct(t) => {
            assert(t.name.name == n);
            let sta = emit_all(stj, crate::resolver::spec::duplicate_fields(t.name.name, t.fields));
            assert(sta.scopes == stj.scopes);
            let kind = SymbolKindView::Struct(
                crate::common::StructInfoView {
                    fields: crate::resolver::spec::field_names(t.fields),
                    fns: Seq::empty(),
                },
            );
            let stm = define(sta, n, t.ann, kind).1;
            assert(stm.diags.len() > 0);
            lemma_collect_methods_keeps(stm, t.methods);
        },
    }
    assert(stj1.diags.len() > 0);
    lemma_collect_decls_keeps(stj1, tail);
}

/// `main` must be declared as `fn main()`: a program with a function named
/// `main` that takes parameters, or whose return type is not `void`, does
/// not resolve.
#[verifier::spinoff_prover]
pub proof fn law_main_signature(p: SProgram<Parsed>, k: int)
    requires
        0 <= k < p.decls.len(),
        p.decls[k] matches SDecl::Fn(f) && f.name.name == "main"@ && (f.params.len() > 0
            || !(f.ret_ty is Void)),
        program_size(p) < u32::MAX,
    ensures
        rs_program(p) is Err,
{
    let ds = p.decls;
    let f = ds[k]->Fn_0;
    let main = "main"@;
    let st0 = push_scope(initial());
    lemma_decls_size_take(ds, k);
    lemma_decls_size_take(ds, k + 1);
    let a = ds.take(k);
    assert(ds.take(k + 1).drop_last() =~= a);
    let rest = ds.skip(k + 1);
    assert(ds =~= ds.take(k + 1) + rest);
    lemma_decls_defs_split(ds.take(k + 1), rest);
    lemma_collect_decls_split(st0, ds.take(k + 1), rest);
    lemma_collect_decls_keeps(st0, a);
    let sta = collect_decls(st0, a);
    let kind = SymbolKindView::Fn(crate::resolver::spec::fn_sig_view(f));
    let (idm, stb) = define(sta, main, f.ann, kind);
    assert(collect_decls(st0, ds.take(k + 1)) == stb);
    law_define_then_lookup(sta, main, f.ann, kind, seq![]);
    assert(stb.scopes.last() =~= sta.scopes.last().push((main, idm)));
    assert(scope_get(stb.scopes.last(), main) == Some(idm));
    let st1 = collect_decls(st0, ds);
    assert(st1 == collect_decls(stb, rest));
    law_decls_scopes(st1, ds);
    let st2 = rs_decls(st1, ds).1;
    let st3 = check_main(st2);
    if exists|j: int| 0 <= j < rest.len() && decl_name(#[trigger] rest[j]) == main {
        let j = choose|j: int| 0 <= j < rest.len() && decl_name(#[trigger] rest[j]) == main;
        lemma_redefined_fails(stb, rest, j, main);
        assert(st3.diags.len() >= st2.diags.len());
    } else {
        lemma_collect_decls_binding(stb, rest, main);
        lemma_collect_decls_keeps(stb, rest);
        assert(st2.scopes.drop_last() =~= Seq::<ScopeView>::empty());
        assert(lookup(st2.scopes, main) == Some(idm));
        assert(idm.0 == sta.symbols.len());
        assert(st2.symbols[idm.0 as int] == stb.symbols[idm.0 as int]);
        lemma_type_debug_void(f.ret_ty);
        assert(st3.diags.len() > 0);
    }
}

/// The entry point must be a function: a program with a struct named `main`
/// does not resolve.
#[verifier::spinoff_prover]
pub proof fn law_main_is_a_function(p: SProgram<Parsed>, k: int)
    requires
        0 <= k < p.decls.len(),
        p.decls[k] is Struct,
        decl_name(p.decls[k]) == "main"@,
        program_size(p) < u32::MAX,
    ensures
        rs_program(p) is Err,
{
    let ds = p.decls;
    let main = "main"@;
    let st0 = push_scope(initial());
    lemma_decls_size_take(ds, k);
    lemma_decls_size_take(ds, k + 1);
    let a = ds.take(k);
    assert(ds.take(k + 1).drop_last() =~= a);
    let rest = ds.skip(k + 1);
    assert(ds =~= ds.take(k + 1) + rest);
    lemma_decls_defs_split(ds.take(k + 1), rest);
    lemma_collect_decls_split(st0, ds.take(k + 1), rest);
    lemma_collect_decls_keeps(st0, a);
    let sta = collect_decls(st0, a);
    let stb = collect_decl(sta, ds[k]);
    assert(collect_decls(st0, ds.take(k + 1)) == stb);
    lemma_collect_decl_keeps(sta, ds[k]);
    crate::resolver::bound::lemma_collect_struct(sta, ds[k]);
    let sid = SymbolId(sta.symbols.len() as u32);
    let st1 = collect_decls(st0, ds);
    assert(st1 == collect_decls(stb, rest));
    law_decls_scopes(st1, ds);
    let st2 = rs_decls(st1, ds).1;
    let st3 = check_main(st2);
    if exists|j: int| 0 <= j < rest.len() && decl_name(#[trigger] rest[j]) == main {
        let j = choose|j: int| 0 <= j < rest.len() && decl_name(#[trigger] rest[j]) == main;
        lemma_redefined_fails(stb, rest, j, main);
        assert(st3.diags.len() >= st2.diags.len());
    } else {
        lemma_collect_decls_binding(stb, rest, main);
        lemma_collect_decls_keeps(stb, rest);
        assert(st2.scopes.drop_last() =~= Seq::<ScopeView>::empty());
        assert(lookup(st2.scopes, main) == Some(sid));
        let ms = ds[k]->Struct_0.methods;
        crate::resolver::bound::lemma_struct_lists_kept(stb, st1, sid, ms);
        crate::resolver::bound::lemma_struct_lists_kept(st1, st2, sid, ms);
        assert(st2.symbols[sid.0 as int].kind is Struct);
        assert(st3.diags.len() > 0);
    }
}

} // verus!
