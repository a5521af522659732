//! Name resolution as a function on syntax-tree values: which symbol each
//! name refers to, which symbols a program defines, and what is reported.
use vstd::prelude::*;
use crate::ast::expr::is_reserved;
use crate::ast::view::{
    SBlock, SDecl, SExpr, SExprKind, SFieldDecl, SFnDecl, SIdent, SParam, SParamKind, SProgram,
    SReceiver, SStmt, SStmtKind, SStructDecl, SType,
};
use crate::common::{
    FnSigView, Parsed, Resolved, Span, StructInfoView, SymbolId, SymbolKindView, SymbolView,
};
use crate::diagnostic::{error_view, DiagnosticView, Phase};
use crate::text::{decimal, str_debug};

verus! {

pub type DV = DiagnosticView;

/// The bindings of one scope, in the order they were made; a later binding
/// of a name hides an earlier one.
pub type ScopeView = Seq<(Seq<char>, SymbolId)>;

/// What the resolver knows while it walks a program: its scopes, innermost
/// last; how many loops enclose the current statement; what it reported; and
/// the symbols defined so far, the symbol with id `i` at position `i`.
pub struct RState {
    pub scopes: Seq<ScopeView>,
    pub loop_depth: int,
    pub diags: Seq<DV>,
    pub symbols: Seq<SymbolView>,
}

/// The id given to a name that refers to nothing.
pub open spec fn unresolved() -> SymbolId {
    SymbolId(u32::MAX)
}

// ── Diagnostics ──

pub open spec fn rerr(message: Seq<char>, code: Seq<char>, span: Span) -> DV {
    error_view(Phase::Resolver, span, message, code)
}

pub open spec fn undefined_variable(name: Seq<char>, span: Span) -> DV {
    rerr("undefined variable '"@ + name + "'"@, "E0201"@, span)
}

pub open spec fn undefined_function(name: Seq<char>, span: Span) -> DV {
    rerr("undefined function '"@ + name + "'"@, "E0202"@, span)
}

pub open spec fn undefined_method(struct_name: Seq<char>, method: Seq<char>, span: Span) -> DV {
    rerr("struct '"@ + struct_name + "' has no method '"@ + method + "'"@, "E0205"@, span)
}

pub open spec fn undefined_type(name: Seq<char>, span: Span) -> DV {
    rerr("undefined type '"@ + name + "'"@, "E0203"@, span)
}

pub open spec fn undefined_field(struct_name: Seq<char>, field: Seq<char>, span: Span) -> DV {
    rerr("struct '"@ + struct_name + "' has no field '"@ + field + "'"@, "E0204"@, span)
}

pub open spec fn duplicate_definition(name: Seq<char>, span: Span) -> DV {
    rerr("duplicate definition of '"@ + name + "'"@, "E0206"@, span)
}

pub open spec fn duplicate_field(struct_name: Seq<char>, field: Seq<char>, span: Span) -> DV {
    rerr("duplicate field '"@ + field + "' in struct '"@ + struct_name + "'"@, "E0210"@, span)
}

pub open spec fn main_not_found() -> DV {
    rerr("entry point 'main' function not found"@, "E0207"@, Span { start: 0, end: 0 })
}

pub open spec fn invalid_main_signature(signature: Seq<char>, span: Span) -> DV {
    rerr(
        "invalid main signature: expected 'fn main()', found '"@ + signature + "'"@,
        "E0208"@,
        span,
    )
}

pub open spec fn reserved_identifier(name: Seq<char>, span: Span) -> DV {
    rerr(
        "'"@ + name
            + "' is a reserved builtin identifier and cannot be used as a variable or function name"@,
        "E0209"@,
        span,
    )
}

pub open spec fn break_outside_loop(span: Span) -> DV {
    rerr("'break' used outside of a loop"@, "E0211"@, span)
}

pub open spec fn continue_outside_loop(span: Span) -> DV {
    rerr("'continue' used outside of a loop"@, "E0212"@, span)
}

// ── Scopes ──

/// The id a scope binds `name` to: its latest binding.
pub open spec fn scope_get(sc: ScopeView, name: Seq<char>) -> Option<SymbolId>
    decreases sc.len(),
{
    if sc.len() == 0 {
        None
    } else if sc.last().0 == name {
        Some(sc.last().1)
    } else {
        scope_get(sc.drop_last(), name)
    }
}

/// The id `name` refers to: its binding in the innermost scope that has one.
pub open spec fn lookup(scopes: Seq<ScopeView>, name: Seq<char>) -> Option<SymbolId>
    decreases scopes.len(),
{
    if scopes.len() == 0 {
        None
    } else {
        match scope_get(scopes.last(), name) {
            Some(id) => Some(id),
            None => lookup(scopes.drop_last(), name),
        }
    }
}

pub open spec fn emit(st: RState, d: DV) -> RState {
    RState { diags: st.diags.push(d), ..st }
}

pub open spec fn emit_all(st: RState, ds: Seq<DV>) -> RState {
    RState { diags: st.diags + ds, ..st }
}

pub proof fn lemma_emit_all_assoc(st: RState, a: Seq<DV>, b: Seq<DV>)
    ensures
        emit_all(emit_all(st, a), b) == emit_all(st, a + b),
        emit_all(st, Seq::empty()) == st,
{
    assert(st.diags + a + b =~= st.diags + (a + b));
    assert(st.diags + Seq::empty() =~= st.diags);
}

pub open spec fn push_scope(st: RState) -> RState {
    RState { scopes: st.scopes.push(Seq::empty()), ..st }
}

pub open spec fn pop_scope(st: RState) -> RState {
    RState { scopes: st.scopes.drop_last(), ..st }
}

/// Defines `name` in the innermost scope as a new symbol of `kind`,
/// reporting a reserved name and a name the scope already binds.
pub open spec fn define(st: RState, name: Seq<char>, span: Span, kind: SymbolKindView) -> (
    SymbolId,
    RState,
) {
    let st1 = if is_reserved(name) {
        emit(st, reserved_identifier(name, span))
    } else {
        st
    };
    let id = SymbolId(st1.symbols.len() as u32);
    let st2 = if scope_get(st1.scopes.last(), name) is Some {
        emit(st1, duplicate_definition(name, span))
    } else {
        st1
    };
    (
        id,
        RState {
            scopes: st2.scopes.update(st2.scopes.len() - 1, st2.scopes.last().push((name, id))),
            symbols: st2.symbols.push(SymbolView { id, name, kind, span }),
            ..st2
        },
    )
}

// ── Types ──

/// A type with its struct names checked: each one that refers to nothing
/// is reported.
pub open spec fn rs_type(scopes: Seq<ScopeView>, t: SType<Parsed>) -> (SType<Resolved>, Seq<DV>)
    decreases t,
{
    match t {
        SType::Int(a) => (SType::Int(a), Seq::empty()),
        SType::Char(a) => (SType::Char(a), Seq::empty()),
        SType::Void(a) => (SType::Void(a), Seq::empty()),
        SType::Ptr(a, inner) => {
            let (r, d) = rs_type(scopes, *inner);
            (SType::Ptr(a, Box::new(r)), d)
        },
        SType::Span(a, inner) => {
            let (r, d) = rs_type(scopes, *inner);
            (SType::Span(a, Box::new(r)), d)
        },
        SType::Readonly(a, inner) => {
            let (r, d) = rs_type(scopes, *inner);
            (SType::Readonly(a, Box::new(r)), d)
        },
        SType::Fn { ann, params, ret } => {
            let (ps, d1) = rs_types(scopes, params);
            let (r, d2) = rs_type(scopes, *ret);
            (SType::Fn { ann, params: ps, ret: Box::new(r) }, d1 + d2)
        },
        SType::Named(a, n) => (
            SType::Named(a, n),
            if lookup(scopes, n) is None {
                seq![undefined_type(n, a)]
            } else {
                Seq::empty()
            },
        ),
    }
}

pub open spec fn rs_types(scopes: Seq<ScopeView>, ts: Seq<SType<Parsed>>) -> (
    Seq<SType<Resolved>>,
    Seq<DV>,
)
    decreases ts,
{
    if ts.len() == 0 {
        (Seq::empty(), Seq::empty())
    } else {
        let (ps, d1) = rs_types(scopes, ts.drop_last());
        let (t, d2) = rs_type(scopes, ts.last());
        (ps.push(t), d1 + d2)
    }
}

// ── Expressions ──

pub type SEP = SExpr<Parsed>;

pub type SER = SExpr<Resolved>;

/// The field names of the struct literal `fs` that `known` lacks, each
/// reported against the struct `name` at `span`, in order.
pub open spec fn unknown_fields(
    known: Seq<Seq<char>>,
    fs: Seq<(Seq<char>, SEP)>,
    name: Seq<char>,
    span: Span,
) -> Seq<DV>
    decreases fs.len(),
{
    if fs.len() == 0 {
        Seq::empty()
    } else {
        unknown_fields(known, fs.drop_last(), name, span) + if known.contains(fs.last().0) {
            Seq::empty()
        } else {
            seq![undefined_field(name, fs.last().0, span)]
        }
    }
}

/// What a struct literal naming `name` at `span` reports about the struct
/// and its fields.
pub open spec fn struct_lit_checks(
    scopes: Seq<ScopeView>,
    symbols: Seq<SymbolView>,
    name: Seq<char>,
    fs: Seq<(Seq<char>, SEP)>,
    span: Span,
) -> Seq<DV> {
    match lookup(scopes, name) {
        Some(id) => if id.0 < symbols.len() {
            match symbols[id.0 as int].kind {
                SymbolKindView::Struct(info) => unknown_fields(info.fields, fs, name, span),
                _ => Seq::empty(),
            }
        } else {
            Seq::empty()
        },
        None => seq![undefined_type(name, span)],
    }
}

/// What a static call reports about its receiver: a struct name that refers
/// to nothing.
pub open spec fn receiver_checks(scopes: Seq<ScopeView>, receiver: SReceiver, span: Span) -> Seq<DV> {
    match receiver {
        SReceiver::Named(n) => if lookup(scopes, n) is None {
            seq![undefined_type(n, span)]
        } else {
            Seq::empty()
        },
        _ => Seq::empty(),
    }
}

/// Whether the symbol kind `k` is a struct with a field named `f`.
pub open spec fn struct_has_field(k: SymbolKindView, f: Seq<char>) -> bool {
    match k {
        SymbolKindView::Struct(info) => info.fields.contains(f),
        _ => false,
    }
}

/// Whether the symbol kind `k` is a struct with a method named `m`.
pub open spec fn struct_has_method(k: SymbolKindView, m: Seq<char>) -> bool {
    match k {
        SymbolKindView::Struct(info) => exists|j: int| 0 <= j < info.fns.len() && (#[trigger] info.fns[j]).0 == m,
        _ => false,
    }
}

pub proof fn lemma_struct_has_method(info: StructInfoView, m: Seq<char>, j: int)
    requires
        0 <= j < info.fns.len(),
        info.fns[j].0 == m,
    ensures
        struct_has_method(SymbolKindView::Struct(info), m),
{
    let k = SymbolKindView::Struct(info);
    assert(exists|jj: int| 0 <= jj < info.fns.len() && (#[trigger] info.fns[jj]).0 == m);
    assert(k is Struct);
    assert(k->Struct_0 == info);
}

/// The struct name that a member access reports: the resolver does not know
/// the type of the value it accesses, only that no struct has the member.
pub open spec fn some_struct() -> Seq<char> {
    "?"@
}

/// What a field access `.f` or `->f` reports: a name that is neither a
/// field of `span` (`len`, `ptr`) nor a field of any struct.
pub open spec fn field_checks(symbols: Seq<SymbolView>, f: Seq<char>, span: Span) -> Seq<DV> {
    if f == "len"@ || f == "ptr"@ || exists|i: int|
        0 <= i < symbols.len() && struct_has_field(#[trigger] symbols[i].kind, f) {
        Seq::empty()
    } else {
        seq![undefined_field(some_struct(), f, span)]
    }
}

/// What a method call reports: a name that is no struct's method.
pub open spec fn method_checks(symbols: Seq<SymbolView>, m: Seq<char>, span: Span) -> Seq<DV> {
    if exists|i: int| 0 <= i < symbols.len() && struct_has_method(#[trigger] symbols[i].kind, m) {
        Seq::empty()
    } else {
        seq![undefined_method(some_struct(), m, span)]
    }
}

/// A callee that is a bare name refers to a function: a name that refers to
/// nothing is reported as an undefined function.
pub open spec fn rs_callee(scopes: Seq<ScopeView>, symbols: Seq<SymbolView>, c: SEP) -> (SER, Seq<DV>)
    decreases c, 2nat,
{
    match c.kind {
        SExprKind::Ident(i) => match lookup(scopes, i.name) {
            Some(id) => (SExpr { ann: c.ann, ty: (), kind: SExprKind::Ident(SIdent { name: i.name, id }) }, Seq::empty()),
            None => (
                SExpr { ann: c.ann, ty: (), kind: SExprKind::Ident(SIdent { name: i.name, id: unresolved() }) },
                seq![undefined_function(i.name, c.ann)],
            ),
        },
        _ => rs_expr(scopes, symbols, c),
    }
}

/// An expression with its names resolved, and what resolving it reports.
/// Expressions define nothing.
pub open spec fn rs_expr(scopes: Seq<ScopeView>, symbols: Seq<SymbolView>, e: SEP) -> (SER, Seq<DV>)
    decreases e, 1nat,
{
    let (kind, d): (SExprKind<Resolved>, Seq<DV>) = match e.kind {
        SExprKind::IntLit(v) => (SExprKind::IntLit(v), Seq::empty()),
        SExprKind::CharLit(v) => (SExprKind::CharLit(v), Seq::empty()),
        SExprKind::StrLit(v) => (SExprKind::StrLit(v), Seq::empty()),
        SExprKind::Ident(i) => match lookup(scopes, i.name) {
            Some(id) => (SExprKind::Ident(SIdent { name: i.name, id }), Seq::empty()),
            None => (
                SExprKind::Ident(SIdent { name: i.name, id: unresolved() }),
                seq![undefined_variable(i.name, e.ann)],
            ),
        },
        SExprKind::Unary(op, x) => {
            let (rx, dx) = rs_expr(scopes, symbols, *x);
            (SExprKind::Unary(op, Box::new(rx)), dx)
        },
        SExprKind::Binary(op, a, b) => {
            let (ra, da) = rs_expr(scopes, symbols, *a);
            let (rb, db) = rs_expr(scopes, symbols, *b);
            (SExprKind::Binary(op, Box::new(ra), Box::new(rb)), da + db)
        },
        SExprKind::Assign { lhs, rhs } => {
            let (rl, dl) = rs_expr(scopes, symbols, *lhs);
            let (rr, dr) = rs_expr(scopes, symbols, *rhs);
            (SExprKind::Assign { lhs: Box::new(rl), rhs: Box::new(rr) }, dl + dr)
        },
        SExprKind::Call { callee, args } => {
            let (rc, dc) = rs_callee(scopes, symbols, *callee);
            let (ra, da) = rs_exprs(scopes, symbols, args);
            (SExprKind::Call { callee: Box::new(rc), args: ra }, dc + da)
        },
        SExprKind::Field { base, field } => {
            let (rb, db) = rs_expr(scopes, symbols, *base);
            (SExprKind::Field { base: Box::new(rb), field }, db + field_checks(symbols, field, e.ann))
        },
        SExprKind::Index { base, index } => {
            let (rb, db) = rs_expr(scopes, symbols, *base);
            let (ri, di) = rs_expr(scopes, symbols, *index);
            (SExprKind::Index { base: Box::new(rb), index: Box::new(ri) }, db + di)
        },
        SExprKind::MethodCall { base, method, args } => {
            let (rb, db) = rs_expr(scopes, symbols, *base);
            let (ra, da) = rs_exprs(scopes, symbols, args);
            (
                SExprKind::MethodCall { base: Box::new(rb), method, args: ra },
                db + method_checks(symbols, method, e.ann) + da,
            )
        },
        SExprKind::StaticCall { receiver, method, args } => {
            let d0 = receiver_checks(scopes, receiver, e.ann);
            let (ra, da) = rs_exprs(scopes, symbols, args);
            (SExprKind::StaticCall { receiver, method, args: ra }, d0 + da)
        },
        SExprKind::StdCall { func, args } => {
            let (ra, da) = rs_exprs(scopes, symbols, args);
            (SExprKind::StdCall { func, args: ra }, da)
        },
        SExprKind::StructLit { name, fields } => {
            let d0 = struct_lit_checks(scopes, symbols, name, fields, e.ann);
            let (rf, df) = rs_field_inits(scopes, symbols, fields);
            (SExprKind::StructLit { name, fields: rf }, d0 + df)
        },
        SExprKind::Alloc { ty, count } => {
            let (rt, dt) = rs_type(scopes, ty);
            let (rc, dc) = rs_expr(scopes, symbols, *count);
            (SExprKind::Alloc { ty: rt, count: Box::new(rc) }, dt + dc)
        },
        SExprKind::Free { expr } => {
            let (rx, dx) = rs_expr(scopes, symbols, *expr);
            (SExprKind::Free { expr: Box::new(rx) }, dx)
        },
    };
    (SExpr { ann: e.ann, ty: (), kind }, d)
}

pub open spec fn rs_exprs(scopes: Seq<ScopeView>, symbols: Seq<SymbolView>, es: Seq<SEP>) -> (
    Seq<SER>,
    Seq<DV>,
)
    decreases es, 1nat,
{
    if es.len() == 0 {
        (Seq::empty(), Seq::empty())
    } else {
        let (rs, d1) = rs_exprs(scopes, symbols, es.drop_last());
        let (r, d2) = rs_expr(scopes, symbols, es.last());
        (rs.push(r), d1 + d2)
    }
}

pub open spec fn rs_field_inits(
    scopes: Seq<ScopeView>,
    symbols: Seq<SymbolView>,
    fs: Seq<(Seq<char>, SEP)>,
) -> (Seq<(Seq<char>, SER)>, Seq<DV>)
    decreases fs, 1nat,
{
    if fs.len() == 0 {
        (Seq::empty(), Seq::empty())
    } else {
        let (rs, d1) = rs_field_inits(scopes, symbols, fs.drop_last());
        let (r, d2) = rs_expr(scopes, symbols, fs.last().1);
        (rs.push((fs.last().0, r)), d1 + d2)
    }
}

// ── Statements ──

pub type SSP = SStmt<Parsed>;

pub type SBP = SBlock<Parsed>;

/// A statement with its names resolved, and the state after it: `var` and
/// `const` define their name once their initializer and type are resolved;
/// `break` and `continue` outside a loop are reported.
pub open spec fn rs_stmt(st: RState, s: SSP) -> (SStmt<Resolved>, RState)
    decreases s,
{
    let (kind, st2): (SStmtKind<Resolved>, RState) = match s.kind {
        SStmtKind::Expr(e) => {
            let (re, d) = rs_expr(st.scopes, st.symbols, e);
            (SStmtKind::Expr(re), emit_all(st, d))
        },
        SStmtKind::VarDecl { name, ty, init } => {
            let (ri, d1) = rs_expr(st.scopes, st.symbols, init);
            let (rt, d2): (Option<SType<Resolved>>, Seq<DV>) = match ty {
                Some(t) => {
                    let (r, d) = rs_type(st.scopes, t);
                    (Some(r), d)
                },
                None => (None, Seq::empty()),
            };
            let (id, st3) = define(emit_all(st, d1 + d2), name.name, s.ann, SymbolKindView::Var);
            (SStmtKind::VarDecl { name: SIdent { name: name.name, id }, ty: rt, init: ri }, st3)
        },
        SStmtKind::ConstDecl { name, ty, init } => {
            let (ri, d1) = rs_expr(st.scopes, st.symbols, init);
            let (rt, d2) = rs_type(st.scopes, ty);
            let (id, st3) = define(emit_all(st, d1 + d2), name.name, s.ann, SymbolKindView::Const);
            (SStmtKind::ConstDecl { name: SIdent { name: name.name, id }, ty: rt, init: ri }, st3)
        },
        SStmtKind::Return(e) => match e {
            Some(x) => {
                let (r, d) = rs_expr(st.scopes, st.symbols, x);
                (SStmtKind::Return(Some(r)), emit_all(st, d))
            },
            None => (SStmtKind::Return(None), st),
        },
        SStmtKind::If { cond, then_block, else_ifs, else_block } => {
            let (rc, dc) = rs_expr(st.scopes, st.symbols, cond);
            let (rb, st1) = rs_block(emit_all(st, dc), then_block);
            let (rei, st3) = rs_else_ifs(st1, else_ifs);
            let (reb, st4): (Option<SBlock<Resolved>>, RState) = match else_block {
                Some(b) => {
                    let (r, s2) = rs_block(st3, b);
                    (Some(r), s2)
                },
                None => (None, st3),
            };
            (SStmtKind::If { cond: rc, then_block: rb, else_ifs: rei, else_block: reb }, st4)
        },
        SStmtKind::While { cond, body } => {
            let st0 = RState { loop_depth: st.loop_depth + 1, ..st };
            let (rc, dc) = rs_expr(st0.scopes, st0.symbols, cond);
            let (rb, st1) = rs_block(emit_all(st0, dc), body);
            (SStmtKind::While { cond: rc, body: rb }, RState { loop_depth: st1.loop_depth - 1, ..st1 })
        },
        SStmtKind::Break => (
            SStmtKind::Break,
            if st.loop_depth == 0 {
                emit(st, break_outside_loop(s.ann))
            } else {
                st
            },
        ),
        SStmtKind::Continue => (
            SStmtKind::Continue,
            if st.loop_depth == 0 {
                emit(st, continue_outside_loop(s.ann))
            } else {
                st
            },
        ),
    };
    (SStmt { ann: s.ann, kind }, st2)
}

/// A block, resolved in a scope of its own.
pub open spec fn rs_block(st: RState, b: SBP) -> (SBlock<Resolved>, RState)
    decreases b,
{
    let (ss, st1) = rs_stmts(push_scope(st), b.stmts);
    (SBlock { ann: b.ann, stmts: ss }, pop_scope(st1))
}

pub open spec fn rs_stmts(st: RState, ss: Seq<SSP>) -> (Seq<SStmt<Resolved>>, RState)
    decreases ss,
{
    if ss.len() == 0 {
        (Seq::empty(), st)
    } else {
        let (rs, st1) = rs_stmts(st, ss.drop_last());
        let (r, st2) = rs_stmt(st1, ss.last());
        (rs.push(r), st2)
    }
}

pub open spec fn rs_else_ifs(st: RState, bs: Seq<(SEP, SBP)>) -> (
    Seq<(SER, SBlock<Resolved>)>,
    RState,
)
    decreases bs,
{
    if bs.len() == 0 {
        (Seq::empty(), st)
    } else {
        let (rs, st1) = rs_else_ifs(st, bs.drop_last());
        let (rc, dc) = rs_expr(st1.scopes, st1.symbols, bs.last().0);
        let (rb, st2) = rs_block(emit_all(st1, dc), bs.last().1);
        (rs.push((rc, rb)), st2)
    }
}

// ── Declarations ──

pub type SPP = SParam<Parsed>;

pub type SFP = SFnDecl<Parsed>;

/// The name a parameter binds: `self` for the receiver.
pub open spec fn param_name(p: SPP) -> Seq<char> {
    match p.kind {
        SParamKind::SelfParam { .. } => "self"@,
        SParamKind::Named { name, .. } => name.name,
    }
}

/// Parameters, each defined in the innermost scope before its type is
/// resolved.
pub open spec fn rs_params(st: RState, ps: Seq<SPP>) -> (Seq<SParam<Resolved>>, RState)
    decreases ps.len(),
{
    if ps.len() == 0 {
        (Seq::empty(), st)
    } else {
        let (rs, st1) = rs_params(st, ps.drop_last());
        let p = ps.last();
        let (id, st2) = define(st1, param_name(p), p.ann, SymbolKindView::Param);
        let (kind, d): (SParamKind<Resolved>, Seq<DV>) = match p.kind {
            SParamKind::SelfParam { ty } => match ty {
                Some(t) => {
                    let (r, d) = rs_type(st2.scopes, t);
                    (SParamKind::SelfParam { ty: Some(r) }, d)
                },
                None => (SParamKind::SelfParam { ty: None }, Seq::empty()),
            },
            SParamKind::Named { name, ty } => {
                let (r, d) = rs_type(st2.scopes, ty);
                (SParamKind::Named { name: SIdent { name: name.name, id }, ty: r }, d)
            },
        };
        (rs.push(SParam { ann: p.ann, kind }), emit_all(st2, d))
    }
}

/// How a type is written in `Debug` form.
pub open spec fn span_debug(s: Span) -> Seq<char> {
    "Span { start: "@ + decimal(s.start as nat) + ", end: "@ + decimal(s.end as nat) + " }"@
}

/// A parsed type in `Debug` form, as the symbol table records return types.
pub open spec fn type_debug(t: SType<Parsed>) -> Seq<char>
    decreases t,
{
    match t {
        SType::Int(a) => "Int("@ + span_debug(a) + ")"@,
        SType::Char(a) => "Char("@ + span_debug(a) + ")"@,
        SType::Void(a) => "Void("@ + span_debug(a) + ")"@,
        SType::Ptr(a, inner) => "Ptr("@ + span_debug(a) + ", "@ + type_debug(*inner) + ")"@,
        SType::Span(a, inner) => "Span("@ + span_debug(a) + ", "@ + type_debug(*inner) + ")"@,
        SType::Readonly(a, inner) => "Readonly("@ + span_debug(a) + ", "@ + type_debug(*inner)
            + ")"@,
        SType::Fn { ann, params, ret } => "Fn { ann: "@ + span_debug(ann) + ", params: ["@
            + types_debug(params) + "], ret: "@ + type_debug(*ret) + " }"@,
        SType::Named(a, n) => "Named("@ + span_debug(a) + ", "@ + str_debug(n) + ")"@,
    }
}

/// Types in `Debug` form, separated by `, `.
pub open spec fn types_debug(ts: Seq<SType<Parsed>>) -> Seq<char>
    decreases ts,
{
    if ts.len() == 0 {
        Seq::empty()
    } else if ts.len() == 1 {
        type_debug(ts[0])
    } else {
        types_debug(ts.drop_last()) + ", "@ + type_debug(ts.last())
    }
}

/// The signature a function declaration records: its parameter names and
/// its return type in `Debug` form.
pub open spec fn fn_sig_view(f: SFP) -> FnSigView {
    FnSigView { params: f.params.map_values(|p: SPP| param_name(p)), ret_ty: type_debug(f.ret_ty) }
}

/// A function's parameters, return type and body, resolved in a scope of
/// their own, with `id` as the function's symbol.
pub open spec fn rs_fn_body(st: RState, f: SFP, id: SymbolId) -> (SFnDecl<Resolved>, RState) {
    let (ps, st1) = rs_params(push_scope(st), f.params);
    let (rt, d) = rs_type(st1.scopes, f.ret_ty);
    let (rb, st2) = rs_block(emit_all(st1, d), f.body);
    (
        SFnDecl { ann: f.ann, name: SIdent { name: f.name.name, id }, params: ps, ret_ty: rt, body: rb },
        pop_scope(st2),
    )
}

/// The symbol a name refers to, or `unresolved()`.
pub open spec fn lookup_or_unresolved(scopes: Seq<ScopeView>, name: Seq<char>) -> SymbolId {
    match lookup(scopes, name) {
        Some(id) => id,
        None => unresolved(),
    }
}

/// The symbol of the method `method` of the struct named `struct_name`, or
/// `unresolved()`.
pub open spec fn method_id(st: RState, struct_name: Seq<char>, method: Seq<char>) -> SymbolId {
    match lookup(st.scopes, struct_name) {
        Some(sid) => if sid.0 < st.symbols.len() {
            match st.symbols[sid.0 as int].kind {
                SymbolKindView::Struct(info) => match scope_get(info.fns, method) {
                    Some(id) => id,
                    None => unresolved(),
                },
                _ => unresolved(),
            }
        } else {
            unresolved()
        },
        None => unresolved(),
    }
}

pub open spec fn rs_methods(st: RState, ms: Seq<SFP>, struct_name: Seq<char>) -> (
    Seq<SFnDecl<Resolved>>,
    RState,
)
    decreases ms.len(),
{
    if ms.len() == 0 {
        (Seq::empty(), st)
    } else {
        let (rs, st1) = rs_methods(st, ms.drop_last(), struct_name);
        let m = ms.last();
        let (r, st2) = rs_fn_body(st1, m, method_id(st1, struct_name, m.name.name));
        (rs.push(r), st2)
    }
}

pub open spec fn rs_field_decls(scopes: Seq<ScopeView>, fs: Seq<SFieldDecl<Parsed>>) -> (
    Seq<SFieldDecl<Resolved>>,
    Seq<DV>,
)
    decreases fs.len(),
{
    if fs.len() == 0 {
        (Seq::empty(), Seq::empty())
    } else {
        let (rs, d1) = rs_field_decls(scopes, fs.drop_last());
        let f = fs.last();
        let (t, d2) = rs_type(scopes, f.ty);
        (rs.push(SFieldDecl { ann: f.ann, name: f.name, ty: t }), d1 + d2)
    }
}

pub open spec fn rs_decl(st: RState, d: SDecl<Parsed>) -> (SDecl<Resolved>, RState) {
    match d {
        SDecl::Fn(f) => {
            let (r, st1) = rs_fn_body(st, f, lookup_or_unresolved(st.scopes, f.name.name));
            (SDecl::Fn(r), st1)
        },
        SDecl::Struct(s) => {
            let (fs, d1) = rs_field_decls(st.scopes, s.fields);
            let (ms, st1) = rs_methods(emit_all(st, d1), s.methods, s.name.name);
            (
                SDecl::Struct(
                    SStructDecl {
                        ann: s.ann,
                        name: SIdent {
                            name: s.name.name,
                            id: lookup_or_unresolved(st.scopes, s.name.name),
                        },
                        fields: fs,
                        methods: ms,
                    },
                ),
                st1,
            )
        },
    }
}

pub open spec fn rs_decls(st: RState, ds: Seq<SDecl<Parsed>>) -> (Seq<SDecl<Resolved>>, RState)
    decreases ds.len(),
{
    if ds.len() == 0 {
        (Seq::empty(), st)
    } else {
        let (rs, st1) = rs_decls(st, ds.drop_last());
        let (r, st2) = rs_decl(st1, ds.last());
        (rs.push(r), st2)
    }
}

// ── Collecting declarations ──

pub open spec fn field_names(fs: Seq<SFieldDecl<Parsed>>) -> Seq<Seq<char>> {
    fs.map_values(|f: SFieldDecl<Parsed>| f.name)
}

/// A field whose name an earlier field of the struct `name` has is
/// reported, once for each repetition.
pub open spec fn duplicate_fields(name: Seq<char>, fs: Seq<SFieldDecl<Parsed>>) -> Seq<DV>
    decreases fs.len(),
{
    if fs.len() == 0 {
        Seq::empty()
    } else {
        duplicate_fields(name, fs.drop_last()) + if field_names(fs.drop_last()).contains(
            fs.last().name,
        ) {
            seq![duplicate_field(name, fs.last().name, fs.last().ann)]
        } else {
            Seq::empty()
        }
    }
}

/// Methods, each a new symbol numbered after the last one, bound by name in
/// the struct's method table `fns` (not in any scope).
pub open spec fn collect_methods(st: RState, ms: Seq<SFP>) -> (ScopeView, RState)
    decreases ms.len(),
{
    if ms.len() == 0 {
        (Seq::empty(), st)
    } else {
        let (fns, st1) = collect_methods(st, ms.drop_last());
        let m = ms.last();
        let id = SymbolId(st1.symbols.len() as u32);
        (
            fns.push((m.name.name, id)),
            RState {
                symbols: st1.symbols.push(
                    SymbolView {
                        id,
                        name: m.name.name,
                        kind: SymbolKindView::Fn(fn_sig_view(m)),
                        span: m.ann,
                    },
                ),
                ..st1
            },
        )
    }
}

/// Defines a top-level declaration: a function with its signature; a
/// struct with its field names, then each of its methods.
pub open spec fn collect_decl(st: RState, d: SDecl<Parsed>) -> RState {
    match d {
        SDecl::Fn(f) => define(st, f.name.name, f.ann, SymbolKindView::Fn(fn_sig_view(f))).1,
        SDecl::Struct(s) => {
            let st1 = emit_all(st, duplicate_fields(s.name.name, s.fields));
            let names = field_names(s.fields);
            let (sid, st2) = define(
                st1,
                s.name.name,
                s.ann,
                SymbolKindView::Struct(StructInfoView { fields: names, fns: Seq::empty() }),
            );
            let (fns, st3) = collect_methods(st2, s.methods);
            if fns.len() > 0 {
                RState {
                    symbols: st3.symbols.update(
                        sid.0 as int,
                        SymbolView {
                            kind: SymbolKindView::Struct(StructInfoView { fields: names, fns }),
                            ..st3.symbols[sid.0 as int]
                        },
                    ),
                    ..st3
                }
            } else {
                st3
            }
        },
    }
}

pub open spec fn collect_decls(st: RState, ds: Seq<SDecl<Parsed>>) -> RState
    decreases ds.len(),
{
    if ds.len() == 0 {
        st
    } else {
        collect_decl(collect_decls(st, ds.drop_last()), ds.last())
    }
}

// ── `main` ──

/// Names separated by `, `.
pub open spec fn join(names: Seq<Seq<char>>) -> Seq<char>
    decreases names.len(),
{
    if names.len() == 0 {
        Seq::empty()
    } else if names.len() == 1 {
        names[0]
    } else {
        join(names.drop_last()) + ", "@ + names.last()
    }
}

pub open spec fn starts_with_void(s: Seq<char>) -> bool {
    s.len() >= 4 && s.subrange(0, 4) == "Void"@
}

/// `main` must exist as a function, taking no parameters and returning
/// `void`.
pub open spec fn check_main(st: RState) -> RState {
    match lookup(st.scopes, "main"@) {
        None => emit(st, main_not_found()),
        Some(id) => if id.0 < st.symbols.len() {
            match st.symbols[id.0 as int].kind {
                SymbolKindView::Fn(sig) => {
                    let has_params = sig.params.len() > 0;
                    let non_void = !starts_with_void(sig.ret_ty);
                    if has_params || non_void {
                        emit(
                            st,
                            invalid_main_signature(
                                "fn main("@ + join(sig.params) + ")"@ + if non_void {
                                    " -> ..."@
                                } else {
                                    Seq::empty()
                                },
                                st.symbols[id.0 as int].span,
                            ),
                        )
                    } else {
                        st
                    }
                },
                _ => emit(st, main_not_found()),
            }
        } else {
            st
        },
    }
}

/// The state a resolver starts from.
pub open spec fn initial() -> RState {
    RState { scopes: Seq::empty(), loop_depth: 0, diags: Seq::empty(), symbols: Seq::empty() }
}

/// Resolving a program: collect the top-level declarations into the global
/// scope, resolve every declaration, check `main`. The result is the
/// resolved program and its symbols, or every diagnostic if there is one.
pub open spec fn rs_program(p: SProgram<Parsed>) -> Result<
    (SProgram<Resolved>, Seq<SymbolView>),
    Seq<DV>,
> {
    let st0 = push_scope(initial());
    let st1 = collect_decls(st0, p.decls);
    let (ds, st2) = rs_decls(st1, p.decls);
    let st3 = pop_scope(check_main(st2));
    if st3.diags.len() == 0 {
        Ok((SProgram { decls: ds }, st3.symbols))
    } else {
        Err(st3.diags)
    }
}

// ── Sizes ──

/// A bound on what resolving a statement adds: the symbols it defines and
/// the loops it nests.
pub open spec fn stmt_size(s: SSP) -> nat
    decreases s,
{
    match s.kind {
        SStmtKind::If { then_block, else_ifs, else_block, .. } => 1 + block_size(then_block)
            + else_ifs_size(else_ifs) + match else_block {
            Some(b) => block_size(b),
            None => 0,
        },
        SStmtKind::While { body, .. } => 1 + block_size(body),
        _ => 1,
    }
}

pub open spec fn block_size(b: SBP) -> nat
    decreases b,
{
    stmts_size(b.stmts)
}

pub open spec fn stmts_size(ss: Seq<SSP>) -> nat
    decreases ss,
{
    if ss.len() == 0 {
        0
    } else {
        stmts_size(ss.drop_last()) + stmt_size(ss.last())
    }
}

pub open spec fn else_ifs_size(bs: Seq<(SEP, SBP)>) -> nat
    decreases bs,
{
    if bs.len() == 0 {
        0
    } else {
        else_ifs_size(bs.drop_last()) + block_size(bs.last().1)
    }
}

/// A bound on the symbols a function's parameters and body define.
pub open spec fn fn_body_size(f: SFP) -> nat {
    f.params.len() + block_size(f.body)
}

pub open spec fn methods_body_size(ms: Seq<SFP>) -> nat
    decreases ms.len(),
{
    if ms.len() == 0 {
        0
    } else {
        methods_body_size(ms.drop_last()) + fn_body_size(ms.last())
    }
}

pub open spec fn decl_body_size(d: SDecl<Parsed>) -> nat {
    match d {
        SDecl::Fn(f) => fn_body_size(f),
        SDecl::Struct(s) => methods_body_size(s.methods),
    }
}

pub open spec fn decls_body_size(ds: Seq<SDecl<Parsed>>) -> nat
    decreases ds.len(),
{
    if ds.len() == 0 {
        0
    } else {
        decls_body_size(ds.drop_last()) + decl_body_size(ds.last())
    }
}

/// The symbols a top-level declaration defines when it is collected: the
/// function, or the struct and each of its methods.
pub open spec fn decl_defs(d: SDecl<Parsed>) -> nat {
    match d {
        SDecl::Fn(_) => 1,
        SDecl::Struct(s) => 1 + s.methods.len(),
    }
}

pub open spec fn decls_defs(ds: Seq<SDecl<Parsed>>) -> nat
    decreases ds.len(),
{
    if ds.len() == 0 {
        0
    } else {
        decls_defs(ds.drop_last()) + decl_defs(ds.last())
    }
}

/// A bound on the symbols a program defines and the loops it nests.
pub open spec fn program_size(p: SProgram<Parsed>) -> nat {
    decls_defs(p.decls) + decls_body_size(p.decls)
}

pub proof fn lemma_stmts_size_take(ss: Seq<SSP>, i: int)
    requires
        0 <= i <= ss.len(),
    ensures
        stmts_size(ss.take(i)) <= stmts_size(ss),
        i < ss.len() ==> stmts_size(ss.take(i + 1)) == stmts_size(ss.take(i)) + stmt_size(ss[i]),
    decreases ss.len(),
{
    if i < ss.len() {
        assert(ss.take(i + 1).drop_last() =~= ss.take(i));
        lemma_stmts_size_take(ss.drop_last(), i);
        assert(ss.drop_last().take(i) =~= ss.take(i));
    } else {
        assert(ss.take(i) =~= ss);
    }
}

pub proof fn lemma_else_ifs_size_take(bs: Seq<(SEP, SBP)>, i: int)
    requires
        0 <= i <= bs.len(),
    ensures
        else_ifs_size(bs.take(i)) <= else_ifs_size(bs),
        i < bs.len() ==> else_ifs_size(bs.take(i + 1)) == else_ifs_size(bs.take(i)) + block_size(
            bs[i].1,
        ),
    decreases bs.len(),
{
    if i < bs.len() {
        assert(bs.take(i + 1).drop_last() =~= bs.take(i));
        lemma_else_ifs_size_take(bs.drop_last(), i);
        assert(bs.drop_last().take(i) =~= bs.take(i));
    } else {
        assert(bs.take(i) =~= bs);
    }
}

pub proof fn lemma_methods_body_size_take(ms: Seq<SFP>, i: int)
    requires
        0 <= i <= ms.len(),
    ensures
        methods_body_size(ms.take(i)) <= methods_body_size(ms),
        i < ms.len() ==> methods_body_size(ms.take(i + 1)) == methods_body_size(ms.take(i))
            + fn_body_size(ms[i]),
    decreases ms.len(),
{
    if i < ms.len() {
        assert(ms.take(i + 1).drop_last() =~= ms.take(i));
        lemma_methods_body_size_take(ms.drop_last(), i);
        assert(ms.drop_last().take(i) =~= ms.take(i));
    } else {
        assert(ms.take(i) =~= ms);
    }
}

pub proof fn lemma_decls_size_take(ds: Seq<SDecl<Parsed>>, i: int)
    requires
        0 <= i <= ds.len(),
    ensures
        decls_body_size(ds.take(i)) <= decls_body_size(ds),
        decls_defs(ds.take(i)) <= decls_defs(ds),
        i < ds.len() ==> decls_body_size(ds.take(i + 1)) == decls_body_size(ds.take(i))
            + decl_body_size(ds[i]),
        i < ds.len() ==> decls_defs(ds.take(i + 1)) == decls_defs(ds.take(i)) + decl_defs(ds[i]),
    decreases ds.len(),
{
    if i < ds.len() {
        assert(ds.take(i + 1).drop_last() =~= ds.take(i));
        lemma_decls_size_take(ds.drop_last(), i);
        assert(ds.drop_last().take(i) =~= ds.take(i));
    } else {
        assert(ds.take(i) =~= ds);
    }
}

/// Every id that a scope binds names a symbol already defined.
pub open spec fn scopes_wf(st: RState) -> bool {
    forall|i: int, j: int|
        0 <= i < st.scopes.len() && 0 <= j < st.scopes[i].len() ==> (
        #[trigger] st.scopes[i][j]).1.0 < st.symbols.len()
}

} // verus!
