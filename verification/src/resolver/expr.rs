//! Resolving the names in types and expressions.
use vstd::prelude::*;
use crate::ast::expr::{Expr, ExprKind, FieldInit, StaticReceiver};
use crate::ast::ty::TypeExpr;
use crate::ast::view::{exprs_view, field_inits_view, lemma_exprs_view_index, lemma_exprs_view_push, lemma_field_inits_view_index, lemma_field_inits_view_push, lemma_types_view_index, lemma_types_view_push, types_view, SExpr, SType};
use crate::common::{Ident, Parsed, Resolved, Span, StructInfo, SymbolId};
use crate::errors::ResolverError;
use crate::resolver::spec::{
    emit_all, field_checks, lemma_emit_all_assoc, method_checks, rs_callee, rs_expr,
    struct_has_field, struct_has_method, rs_exprs, rs_field_inits, rs_type, rs_types,
    unknown_fields, unresolved, DV, SEP, SER,
};
use crate::resolver::Resolver;

verus! {

/// The names of a sequence of strings.
pub open spec fn names_view(v: Seq<String>) -> Seq<Seq<char>> {
    v.map_values(|s: String| s@)
}

/// The field names of a struct.
fn field_names_of(info: &StructInfo) -> (r: Vec<String>)
    ensures
        names_view(r@) == info@.fields,
{
    let mut r: Vec<String> = Vec::new();
    let mut i: usize = 0;
    while i < info.fields.len()
        invariant
            i <= info.fields.len(),
            names_view(r@) == info@.fields.take(i as int),
        decreases info.fields.len() - i,
    {
        let ghost r0 = r@;
        r.push(info.fields[i].name.clone());
        assert(info@.fields[i as int] == info.fields@[i as int].name@);
        assert(names_view(r@) =~= names_view(r0).push(info@.fields[i as int]));
        assert(info@.fields.take(i + 1) =~= info@.fields.take(i as int).push(info@.fields[i as int]));
        i = i + 1;
    }
    assert(info@.fields.take(i as int) =~= info@.fields);
    r
}

/// Whether `names` holds `name`.
pub(crate) fn contains_name(names: &Vec<String>, name: &String) -> (r: bool)
    ensures
        r == names_view(names@).contains(name@),
{
    let mut i: usize = 0;
    while i < names.len()
        invariant
            i <= names.len(),
            forall|j: int| 0 <= j < i ==> names_view(names@)[j] != name@,
        decreases names.len() - i,
    {
        if names[i] == *name {
            assert(names_view(names@)[i as int] == name@);
            return true;
        }
        i = i + 1;
    }
    false
}

impl Resolver {
    /// Whether `field` names a field of `span` or of some struct.
    fn field_known(&self, field: &String) -> (r: bool)
        requires
            self.wf(),
        ensures
            r == (field_checks(self@.symbols, field@, Span { start: 0, end: 0 }).len() == 0),
    {
        proof {
            reveal_strlit("len");
            reveal_strlit("ptr");
        }
        if crate::text::string_eq_str(field, "len") || crate::text::string_eq_str(field, "ptr") {
            return true;
        }
        let n = self.symbols.len();
        let mut i: usize = 0;
        while i < n
            invariant
                self.wf(),
                n == self@.symbols.len(),
                i <= n,
                forall|j: int| 0 <= j < i ==> !struct_has_field(#[trigger] self@.symbols[j].kind, field@),
            decreases n - i,
        {
            proof {
                self.lemma_symbols_fit();
            }
            if let Some(info) = self.symbols.get_struct_info(SymbolId(i as u32)) {
                let names = field_names_of(info);
                if contains_name(&names, field) {
                    return true;
                }
            }
            i = i + 1;
        }
        false
    }

    /// Whether `method` names a method of some struct.
    fn method_known(&self, method: &String) -> (r: bool)
        requires
            self.wf(),
        ensures
            r == (method_checks(self@.symbols, method@, Span { start: 0, end: 0 }).len() == 0),
    {
        let n = self.symbols.len();
        let mut i: usize = 0;
        while i < n
            invariant
                self.wf(),
                n == self@.symbols.len(),
                i <= n,
                forall|j: int| 0 <= j < i ==> !struct_has_method(#[trigger] self@.symbols[j].kind, method@),
            decreases n - i,
        {
            proof {
                self.lemma_symbols_fit();
            }
            if let Some(info) = self.symbols.get_struct_info(SymbolId(i as u32)) {
                let mut k: usize = 0;
                while k < info.fns.len()
                    invariant
                        k <= info.fns.len(),
                        i < n,
                        n == self@.symbols.len(),
                        self@.symbols[i as int].kind == crate::common::SymbolKindView::Struct(info@),
                        forall|j: int| 0 <= j < k ==> (#[trigger] info@.fns[j]).0 != method@,
                    decreases info.fns.len() - k,
                {
                    assert(info@.fns[k as int] == (info.fns@[k as int].0@, info.fns@[k as int].1));
                    if info.fns[k].0 == *method {
                        assert(info@.fns[k as int].0 == method@);
                        assert(0 <= k < info@.fns.len());
                        proof {
                            crate::resolver::spec::lemma_struct_has_method(info@, method@, k as int);
                        }
                        assert(struct_has_method(self@.symbols[i as int].kind, method@));
                        return true;
                    }
                    k = k + 1;
                }
            }
            i = i + 1;
        }
        false
    }

    /// A callee: a bare name that refers to nothing is an undefined
    /// function.
    fn resolve_callee(&mut self, callee: &Expr<Parsed>) -> (r: Expr<Resolved>)
        requires
            old(self).wf(),
        ensures
            final(self).wf(),
            r@ == rs_callee(old(self)@.scopes, old(self)@.symbols, callee@).0,
            final(self)@ == emit_all(
                old(self)@,
                rs_callee(old(self)@.scopes, old(self)@.symbols, callee@).1,
            ),
        decreases callee, 2nat,
    {
        if let ExprKind::Ident(ident) = &callee.kind {
            if self.lookup(&ident.name).is_none() {
                let ghost st0 = self@;
                self.emit(ResolverError::UndefinedFunction { name: ident.name.clone() }, callee.ann);
                assert(self@.diags =~= st0.diags + seq![
                    crate::resolver::spec::undefined_function(ident.name@, callee.ann),
                ]);
                return Expr {
                    ann: callee.ann,
                    ty: (),
                    kind: ExprKind::Ident(Ident { name: ident.name.clone(), id: SymbolId(u32::MAX) }),
                };
            }
        }
        self.resolve_expr(callee)
    }

    /// A type with its struct names checked.
    #[verifier::spinoff_prover]
    pub(crate) fn resolve_type_expr(&mut self, ty: &TypeExpr<Parsed>) -> (r: TypeExpr<Resolved>)
        requires
            old(self).wf(),
        ensures
            final(self).wf(),
            r@ == rs_type(old(self)@.scopes, ty@).0,
            final(self)@ == emit_all(old(self)@, rs_type(old(self)@.scopes, ty@).1),
        decreases ty,
    {
        proof {
            lemma_emit_all_assoc(self@, Seq::empty(), Seq::empty());
        }
        match ty {
            TypeExpr::Int(ann) => TypeExpr::Int(*ann),
            TypeExpr::Char(ann) => TypeExpr::Char(*ann),
            TypeExpr::Void(ann) => TypeExpr::Void(*ann),
            TypeExpr::Ptr(ann, inner) => {
                let r = self.resolve_type_expr(inner);
                TypeExpr::Ptr(*ann, Box::new(r))
            },
            TypeExpr::Span(ann, inner) => {
                let r = self.resolve_type_expr(inner);
                TypeExpr::Span(*ann, Box::new(r))
            },
            TypeExpr::Readonly(ann, inner) => {
                let r = self.resolve_type_expr(inner);
                TypeExpr::Readonly(*ann, Box::new(r))
            },
            TypeExpr::Fn { ann, params, ret } => {
                let ghost st0 = self@;
                let ps = self.resolve_type_list(params);
                let ghost st1 = self@;
                let r = self.resolve_type_expr(ret);
                proof {
                    lemma_emit_all_assoc(
                        st0,
                        rs_types(st0.scopes, types_view(params@)).1,
                        rs_type(st0.scopes, ret@).1,
                    );
                }
                let ghost pv = types_view(ps@);
                let ghost rv = r@;
                let t = TypeExpr::Fn { ann: *ann, params: ps, ret: Box::new(r) };
                assert(t@ == SType::Fn { ann: *ann, params: pv, ret: Box::new(rv) });
                t
            },
            TypeExpr::Named(ann, name) => {
                if self.lookup(name).is_none() {
                    self.emit(ResolverError::UndefinedType { name: name.clone() }, *ann);
                    assert(self@.diags =~= old(self)@.diags + seq![
                        crate::resolver::spec::undefined_type(name@, *ann),
                    ]);
                }
                TypeExpr::Named(*ann, name.clone())
            },
        }
    }

    /// Types, in order.
    #[verifier::spinoff_prover]
    fn resolve_type_list(&mut self, ts: &Vec<TypeExpr<Parsed>>) -> (r: Vec<TypeExpr<Resolved>>)
        requires
            old(self).wf(),
        ensures
            final(self).wf(),
            types_view(r@) == rs_types(old(self)@.scopes, types_view(ts@)).0,
            final(self)@ == emit_all(old(self)@, rs_types(old(self)@.scopes, types_view(ts@)).1),
        decreases ts,
    {
        let ghost st0 = self@;
        let ghost tv = types_view(ts@);
        let mut r: Vec<TypeExpr<Resolved>> = Vec::new();
        let mut i: usize = 0;
        proof {
            lemma_emit_all_assoc(st0, Seq::empty(), Seq::empty());
            lemma_types_view_index(ts@);
            assert(tv.take(0) =~= Seq::<SType<Parsed>>::empty());
            assert(types_view(r@) =~= Seq::<SType<Resolved>>::empty());
        }
        while i < ts.len()
            invariant
                self.wf(),
                i <= ts.len(),
                tv == types_view(ts@),
                tv.len() == ts.len(),
                self@.scopes == st0.scopes,
                types_view(r@) == rs_types(st0.scopes, tv.take(i as int)).0,
                self@ == emit_all(st0, rs_types(st0.scopes, tv.take(i as int)).1),
            decreases ts.len() - i,
        {
            let ghost before = self@;
            let t = self.resolve_type_expr(&ts[i]);
            proof {
                assert(tv.take(i + 1).drop_last() =~= tv.take(i as int));
                lemma_types_view_index(ts@);
                assert(tv.take(i + 1).last() == ts@[i as int]@);
                lemma_emit_all_assoc(
                    st0,
                    rs_types(st0.scopes, tv.take(i as int)).1,
                    rs_type(st0.scopes, ts@[i as int]@).1,
                );
                lemma_types_view_push(r@, t);
            }
            r.push(t);
            i = i + 1;
        }
        assert(tv.take(i as int) =~= tv);
        r
    }

    /// An expression with its names resolved.
    #[verifier::spinoff_prover]
    pub(crate) fn resolve_expr(&mut self, expr: &Expr<Parsed>) -> (r: Expr<Resolved>)
        requires
            old(self).wf(),
        ensures
            final(self).wf(),
            r@ == rs_expr(old(self)@.scopes, old(self)@.symbols, expr@).0,
            final(self)@ == emit_all(
                old(self)@,
                rs_expr(old(self)@.scopes, old(self)@.symbols, expr@).1,
            ),
        decreases expr, 1nat,
    {
        let ghost st0 = self@;
        let ghost sc = st0.scopes;
        let ghost sy = st0.symbols;
        proof {
            lemma_emit_all_assoc(st0, Seq::empty(), Seq::empty());
        }
        let kind = match &expr.kind {
            ExprKind::IntLit(v) => ExprKind::IntLit(*v),
            ExprKind::CharLit(v) => ExprKind::CharLit(*v),
            ExprKind::StrLit(v) => ExprKind::StrLit(v.clone()),
            ExprKind::Ident(ident) => match self.lookup(&ident.name) {
                Some(id) => ExprKind::Ident(Ident { name: ident.name.clone(), id }),
                None => {
                    self.emit(ResolverError::UndefinedVariable { name: ident.name.clone() }, expr.ann);
                    assert(self@.diags =~= st0.diags + seq![
                        crate::resolver::spec::undefined_variable(ident.name@, expr.ann),
                    ]);
                    ExprKind::Ident(Ident { name: ident.name.clone(), id: SymbolId(u32::MAX) })
                },
            },
            ExprKind::Unary(op, operand) => {
                let x = self.resolve_expr(operand);
                ExprKind::Unary(*op, Box::new(x))
            },
            ExprKind::Binary(op, lhs, rhs) => {
                let a = self.resolve_expr(lhs);
                let b = self.resolve_expr(rhs);
                proof {
                    lemma_emit_all_assoc(st0, rs_expr(sc, sy, lhs@).1, rs_expr(sc, sy, rhs@).1);
                }
                ExprKind::Binary(*op, Box::new(a), Box::new(b))
            },
            ExprKind::Assign { lhs, rhs } => {
                let a = self.resolve_expr(lhs);
                let b = self.resolve_expr(rhs);
                proof {
                    lemma_emit_all_assoc(st0, rs_expr(sc, sy, lhs@).1, rs_expr(sc, sy, rhs@).1);
                }
                ExprKind::Assign { lhs: Box::new(a), rhs: Box::new(b) }
            },
            ExprKind::Call { callee, args } => {
                let c = self.resolve_callee(callee);
                let a = self.resolve_exprs(args);
                proof {
                    lemma_emit_all_assoc(
                        st0,
                        rs_callee(sc, sy, callee@).1,
                        rs_exprs(sc, sy, exprs_view(args@)).1,
                    );
                }
                ExprKind::Call { callee: Box::new(c), args: a }
            },
            ExprKind::Field { base, field } => {
                let b = self.resolve_expr(base);
                let ghost st1 = self@;
                if !self.field_known(field) {
                    self.emit(
                        ResolverError::UndefinedField {
                            struct_name: String::from_str("?"),
                            field: field.clone(),
                        },
                        expr.ann,
                    );
                    proof {
                        reveal_strlit("?");
                        assert(self@.diags =~= st1.diags + field_checks(sy, field@, expr.ann));
                    }
                }
                proof {
                    lemma_emit_all_assoc(st0, rs_expr(sc, sy, base@).1, field_checks(sy, field@, expr.ann));
                }
                ExprKind::Field { base: Box::new(b), field: field.clone() }
            },
            ExprKind::Index { base, index } => {
                let b = self.resolve_expr(base);
                let i = self.resolve_expr(index);
                proof {
                    lemma_emit_all_assoc(st0, rs_expr(sc, sy, base@).1, rs_expr(sc, sy, index@).1);
                }
                ExprKind::Index { base: Box::new(b), index: Box::new(i) }
            },
            ExprKind::MethodCall { base, method, args } => {
                let b = self.resolve_expr(base);
                let ghost st1 = self@;
                if !self.method_known(method) {
                    self.emit(
                        ResolverError::UndefinedMethod {
                            struct_name: String::from_str("?"),
                            method: method.clone(),
                        },
                        expr.ann,
                    );
                    proof {
                        reveal_strlit("?");
                        assert(self@.diags =~= st1.diags + method_checks(sy, method@, expr.ann));
                    }
                }
                let ghost st2 = self@;
                let a = self.resolve_exprs(args);
                proof {
                    lemma_emit_all_assoc(st0, rs_expr(sc, sy, base@).1, method_checks(sy, method@, expr.ann));
                    lemma_emit_all_assoc(
                        st0,
                        rs_expr(sc, sy, base@).1 + method_checks(sy, method@, expr.ann),
                        rs_exprs(sc, sy, exprs_view(args@)).1,
                    );
                }
                ExprKind::MethodCall { base: Box::new(b), method: method.clone(), args: a }
            },
            ExprKind::StaticCall { receiver, method, args } => {
                self.check_receiver(receiver, expr.ann);
                let a = self.resolve_exprs(args);
                proof {
                    lemma_emit_all_assoc(
                        st0,
                        crate::resolver::spec::receiver_checks(sc, receiver@, expr.ann),
                        rs_exprs(sc, sy, exprs_view(args@)).1,
                    );
                }
                ExprKind::StaticCall { receiver: receiver.clone(), method: method.clone(), args: a }
            },
            ExprKind::StdCall { func, args } => {
                let a = self.resolve_exprs(args);
                ExprKind::StdCall { func: func.clone(), args: a }
            },
            ExprKind::StructLit { name, fields } => {
                self.check_struct_lit(name, fields, expr.ann);
                let ghost st1 = self@;
                let f = self.resolve_field_inits(fields);
                proof {
                    lemma_emit_all_assoc(
                        st0,
                        crate::resolver::spec::struct_lit_checks(
                            sc,
                            sy,
                            name@,
                            field_inits_view(fields@),
                            expr.ann,
                        ),
                        rs_field_inits(sc, sy, field_inits_view(fields@)).1,
                    );
                }
                ExprKind::StructLit { name: name.clone(), fields: f }
            },
            ExprKind::Alloc { ty, count } => {
                let t = self.resolve_type_expr(ty);
                let c = self.resolve_expr(count);
                proof {
                    lemma_emit_all_assoc(st0, rs_type(sc, ty@).1, rs_expr(sc, sy, count@).1);
                }
                ExprKind::Alloc { ty: t, count: Box::new(c) }
            },
            ExprKind::Free { expr: inner } => {
                let x = self.resolve_expr(inner);
                ExprKind::Free { expr: Box::new(x) }
            },
        };
        let r = Expr { ann: expr.ann, ty: (), kind };
        assert(r@ == rs_expr(sc, sy, expr@).0);
        r
    }

    /// Expressions, in order.
    #[verifier::spinoff_prover]
    fn resolve_exprs(&mut self, es: &Vec<Expr<Parsed>>) -> (r: Vec<Expr<Resolved>>)
        requires
            old(self).wf(),
        ensures
            final(self).wf(),
            exprs_view(r@) == rs_exprs(old(self)@.scopes, old(self)@.symbols, exprs_view(es@)).0,
            final(self)@ == emit_all(
                old(self)@,
                rs_exprs(old(self)@.scopes, old(self)@.symbols, exprs_view(es@)).1,
            ),
        decreases es, 1nat,
    {
        let ghost st0 = self@;
        let ghost ev = exprs_view(es@);
        let mut r: Vec<Expr<Resolved>> = Vec::new();
        let mut i: usize = 0;
        proof {
            lemma_emit_all_assoc(st0, Seq::empty(), Seq::empty());
            lemma_exprs_view_index(es@);
            assert(ev.take(0) =~= Seq::<SEP>::empty());
            assert(exprs_view(r@) =~= Seq::<SER>::empty());
        }
        while i < es.len()
            invariant
                self.wf(),
                i <= es.len(),
                ev == exprs_view(es@),
                ev.len() == es.len(),
                self@.scopes == st0.scopes,
                self@.symbols == st0.symbols,
                exprs_view(r@) == rs_exprs(st0.scopes, st0.symbols, ev.take(i as int)).0,
                self@ == emit_all(st0, rs_exprs(st0.scopes, st0.symbols, ev.take(i as int)).1),
            decreases es.len() - i,
        {
            let e = self.resolve_expr(&es[i]);
            proof {
                lemma_exprs_view_index(es@);
                assert(ev.take(i + 1).drop_last() =~= ev.take(i as int));
                assert(ev.take(i + 1).last() == es@[i as int]@);
                lemma_emit_all_assoc(
                    st0,
                    rs_exprs(st0.scopes, st0.symbols, ev.take(i as int)).1,
                    rs_expr(st0.scopes, st0.symbols, es@[i as int]@).1,
                );
                lemma_exprs_view_push(r@, e);
            }
            r.push(e);
            i = i + 1;
        }
        assert(ev.take(i as int) =~= ev);
        r
    }

    /// The values of a struct literal's fields, in order.
    #[verifier::spinoff_prover]
    fn resolve_field_inits(&mut self, fs: &Vec<FieldInit<Parsed>>) -> (r: Vec<FieldInit<Resolved>>)
        requires
            old(self).wf(),
        ensures
            final(self).wf(),
            field_inits_view(r@) == rs_field_inits(
                old(self)@.scopes,
                old(self)@.symbols,
                field_inits_view(fs@),
            ).0,
            final(self)@ == emit_all(
                old(self)@,
                rs_field_inits(old(self)@.scopes, old(self)@.symbols, field_inits_view(fs@)).1,
            ),
        decreases fs, 1nat,
    {
        let ghost st0 = self@;
        let ghost fv = field_inits_view(fs@);
        let mut r: Vec<FieldInit<Resolved>> = Vec::new();
        let mut i: usize = 0;
        proof {
            lemma_emit_all_assoc(st0, Seq::empty(), Seq::empty());
            lemma_field_inits_view_index(fs@);
            assert(fv.take(0) =~= Seq::<(Seq<char>, SEP)>::empty());
            assert(field_inits_view(r@) =~= Seq::<(Seq<char>, SER)>::empty());
        }
        while i < fs.len()
            invariant
                self.wf(),
                i <= fs.len(),
                fv == field_inits_view(fs@),
                fv.len() == fs.len(),
                self@.scopes == st0.scopes,
                self@.symbols == st0.symbols,
                field_inits_view(r@) == rs_field_inits(st0.scopes, st0.symbols, fv.take(i as int)).0,
                self@ == emit_all(st0, rs_field_inits(st0.scopes, st0.symbols, fv.take(i as int)).1),
            decreases fs.len() - i,
        {
            let value = self.resolve_expr(&fs[i].value);
            let f = FieldInit { name: fs[i].name.clone(), value };
            proof {
                lemma_field_inits_view_index(fs@);
                assert(fv.take(i + 1).drop_last() =~= fv.take(i as int));
                assert(fv.take(i + 1).last() == (fs@[i as int].name@, fs@[i as int].value@));
                lemma_emit_all_assoc(
                    st0,
                    rs_field_inits(st0.scopes, st0.symbols, fv.take(i as int)).1,
                    rs_expr(st0.scopes, st0.symbols, fs@[i as int].value@).1,
                );
                lemma_field_inits_view_push(r@, f);
            }
            r.push(f);
            i = i + 1;
        }
        assert(fv.take(i as int) =~= fv);
        r
    }

    /// Reports the receiver of a static call if it names no struct.
    fn check_receiver(&mut self, receiver: &StaticReceiver, span: Span)
        requires
            old(self).wf(),
        ensures
            final(self).wf(),
            final(self)@ == emit_all(
                old(self)@,
                crate::resolver::spec::receiver_checks(old(self)@.scopes, receiver@, span),
            ),
    {
        proof {
            lemma_emit_all_assoc(self@, Seq::empty(), Seq::empty());
        }
        if let StaticReceiver::Named(name) = receiver {
            if self.lookup(name).is_none() {
                let ghost st0 = self@;
                self.emit(ResolverError::UndefinedType { name: name.clone() }, span);
                assert(self@.diags =~= st0.diags + seq![
                    crate::resolver::spec::undefined_type(name@, span),
                ]);
            }
        }
    }

    /// Reports a struct literal whose struct is unknown, and each of its
    /// field names that the struct lacks.
    #[verifier::spinoff_prover]
    fn check_struct_lit(&mut self, name: &String, fs: &Vec<FieldInit<Parsed>>, span: Span)
        requires
            old(self).wf(),
        ensures
            final(self).wf(),
            final(self)@ == emit_all(
                old(self)@,
                crate::resolver::spec::struct_lit_checks(
                    old(self)@.scopes,
                    old(self)@.symbols,
                    name@,
                    field_inits_view(fs@),
                    span,
                ),
            ),
    {
        let ghost st0 = self@;
        proof {
            lemma_emit_all_assoc(st0, Seq::empty(), Seq::empty());
        }
        match self.lookup(name) {
            Some(id) => {
                let known = match self.symbols.get_struct_info(id) {
                    Some(info) => field_names_of(info),
                    None => return,
                };
                let ghost fv = field_inits_view(fs@);
                let ghost kv = names_view(known@);
                let mut i: usize = 0;
                proof {
                    lemma_field_inits_view_index(fs@);
                    assert(fv.take(0) =~= Seq::<(Seq<char>, SEP)>::empty());
                }
                while i < fs.len()
                    invariant
                        self.wf(),
                        i <= fs.len(),
                        fv == field_inits_view(fs@),
                        fv.len() == fs.len(),
                        kv == names_view(known@),
                        self@ == emit_all(st0, unknown_fields(kv, fv.take(i as int), name@, span)),
                    decreases fs.len() - i,
                {
                    let ghost before = self@;
                    proof {
                        lemma_field_inits_view_index(fs@);
                        assert(fv.take(i + 1).drop_last() =~= fv.take(i as int));
                        assert(fv.take(i + 1).last().0 == fs@[i as int].name@);
                    }
                    if !contains_name(&known, &fs[i].name) {
                        self.emit(
                            ResolverError::UndefinedField {
                                struct_name: name.clone(),
                                field: fs[i].name.clone(),
                            },
                            span,
                        );
                        proof {
                            lemma_emit_all_assoc(
                                st0,
                                unknown_fields(kv, fv.take(i as int), name@, span),
                                seq![
                                    crate::resolver::spec::undefined_field(
                                        name@,
                                        fs@[i as int].name@,
                                        span,
                                    ),
                                ],
                            );
                            assert(self@.diags =~= before.diags + seq![
                                crate::resolver::spec::undefined_field(
                                    name@,
                                    fs@[i as int].name@,
                                    span,
                                ),
                            ]);
                        }
                    } else {
                        proof {
                            lemma_emit_all_assoc(
                                st0,
                                unknown_fields(kv, fv.take(i as int), name@, span),
                                Seq::empty(),
                            );
                            assert(unknown_fields(kv, fv.take(i as int), name@, span)
                                + Seq::<DV>::empty() =~= unknown_fields(
                                kv,
                                fv.take(i as int),
                                name@,
                                span,
                            ));
                        }
                    }
                    i = i + 1;
                }
                assert(fv.take(i as int) =~= fv);
            },
            None => {
                self.emit(ResolverError::UndefinedType { name: name.clone() }, span);
                assert(self@.diags =~= st0.diags + seq![
                    crate::resolver::spec::undefined_type(name@, span),
                ]);
            },
        }
    }
}

} // verus!
