//! Resolving declarations and whole programs: collecting the top-level
//! names, resolving each body, and checking `main`.
use vstd::prelude::*;
use crate::ast::decl::{Decl, FieldDecl, FnDecl, Param, ParamKind, Program, StructDecl};
use crate::ast::ty::TypeExpr;
use crate::ast::view::{
    decls_view, field_decls_view, fn_decls_view, lemma_types_view_index, params_view,
    types_view, SDecl, SFieldDecl, SFnDecl, SParam, SType,
};
use crate::common::{
    bindings_view, field_info_names, param_info_names, FieldInfo, FnSig, Parsed, ParamInfo, Resolved, Span, StructInfo, Symbol, SymbolId,
    SymbolKind, SymbolTable,
};
use crate::diagnostic::{diags_view, Diagnostic};
use crate::errors::ResolverError;
use crate::resolver::spec::{
    check_main, collect_decl, collect_decls, collect_methods, decl_body_size, decl_defs,
    decls_body_size, decls_defs, define, duplicate_fields, emit_all, field_names, fn_body_size,
    fn_sig_view, initial, join, lemma_decls_size_take, lemma_emit_all_assoc,
    lemma_methods_body_size_take, lookup, lookup_or_unresolved, method_id, methods_body_size,
    param_name, pop_scope, program_size, push_scope, rs_decl, rs_decls, rs_field_decls,
    rs_fn_body, rs_methods, rs_params, rs_program, rs_type, scope_get, span_debug,
    starts_with_void, type_debug, types_debug, unresolved, RState, ScopeView, DV, SFP, SPP,
};
use crate::resolver::stmt::{kept, room};
use crate::resolver::{binding_lookup, Resolver};
use crate::resolver::expr::{contains_name, names_view};
use crate::text::{chars_of, push_decimal, str_debug_text};

verus! {

// ── Rendering types ──

fn push_span_debug(s: &mut String, span: Span)
    ensures
        final(s)@ == old(s)@ + span_debug(span),
{
    let ghost s0 = s@;
    s.append("Span { start: ");
    push_decimal(s, span.start as u64);
    s.append(", end: ");
    push_decimal(s, span.end as u64);
    s.append(" }");
    assert(s@ =~= s0 + span_debug(span));
}

/// Appends a parsed type in `Debug` form.
fn push_type_debug(s: &mut String, t: &TypeExpr<Parsed>)
    ensures
        final(s)@ == old(s)@ + type_debug(t@),
    decreases t,
{
    let ghost s0 = s@;
    match t {
        TypeExpr::Int(a) => {
            s.append("Int(");
            push_span_debug(s, *a);
            s.append(")");
        },
        TypeExpr::Char(a) => {
            s.append("Char(");
            push_span_debug(s, *a);
            s.append(")");
        },
        TypeExpr::Void(a) => {
            s.append("Void(");
            push_span_debug(s, *a);
            s.append(")");
        },
        TypeExpr::Ptr(a, inner) => {
            s.append("Ptr(");
            push_span_debug(s, *a);
            s.append(", ");
            push_type_debug(s, inner);
            s.append(")");
        },
        TypeExpr::Span(a, inner) => {
            s.append("Span(");
            push_span_debug(s, *a);
            s.append(", ");
            push_type_debug(s, inner);
            s.append(")");
        },
        TypeExpr::Readonly(a, inner) => {
            s.append("Readonly(");
            push_span_debug(s, *a);
            s.append(", ");
            push_type_debug(s, inner);
            s.append(")");
        },
        TypeExpr::Fn { ann, params, ret } => {
            s.append("Fn { ann: ");
            push_span_debug(s, *ann);
            s.append(", params: [");
            push_types_debug(s, params);
            s.append("], ret: ");
            push_type_debug(s, ret);
            s.append(" }");
        },
        TypeExpr::Named(a, name) => {
            s.append("Named(");
            push_span_debug(s, *a);
            s.append(", ");
            let d = str_debug_text(name.as_str());
            s.append(d.as_str());
            s.append(")");
        },
    }
    assert(s@ =~= s0 + type_debug(t@));
}

/// Appends types in `Debug` form, separated by `, `.
fn push_types_debug(s: &mut String, ts: &Vec<TypeExpr<Parsed>>)
    ensures
        final(s)@ == old(s)@ + types_debug(types_view(ts@)),
    decreases ts,
{
    let ghost s0 = s@;
    let ghost tv = types_view(ts@);
    proof {
        lemma_types_view_index(ts@);
        assert(tv.take(0) =~= Seq::<SType<Parsed>>::empty());
    }
    let mut i: usize = 0;
    while i < ts.len()
        invariant
            i <= ts.len(),
            tv == types_view(ts@),
            tv.len() == ts.len(),
            s@ == s0 + types_debug(tv.take(i as int)),
        decreases ts.len() - i,
    {
        proof {
            lemma_types_view_index(ts@);
            assert(tv.take(i + 1).drop_last() =~= tv.take(i as int));
            assert(tv.take(i + 1).last() == ts@[i as int]@);
        }
        if i > 0 {
            s.append(", ");
        }
        push_type_debug(s, &ts[i]);
        proof {
            if i == 0 {
                assert(tv.take(1)[0] == ts@[0]@);
            }
            assert(s@ =~= s0 + types_debug(tv.take(i + 1)));
        }
        i = i + 1;
    }
    assert(tv.take(i as int) =~= tv);
}

// ── Signatures ──

/// The name a parameter binds: `self` for the receiver.
fn param_name_of(p: &Param<Parsed>) -> (r: String)
    ensures
        r@ == param_name(p@),
{
    match &p.kind {
        ParamKind::SelfParam { .. } => String::from_str("self"),
        ParamKind::Named { name, .. } => name.name.clone(),
    }
}

/// The signature a function declaration records.
fn build_fn_sig(f: &FnDecl<Parsed>) -> (r: FnSig)
    ensures
        r@ == fn_sig_view(f@),
{
    let ghost pv = params_view(f.params@);
    let mut params: Vec<ParamInfo> = Vec::new();
    let mut i: usize = 0;
    while i < f.params.len()
        invariant
            i <= f.params.len(),
            pv == params_view(f.params@),
            param_info_names(params@) =~= pv.take(i as int).map_values(|p: SPP| param_name(p)),
        decreases f.params.len() - i,
    {
        let ghost p0 = params@;
        let name = param_name_of(&f.params[i]);
        params.push(ParamInfo { name });
        assert(param_info_names(params@) =~= param_info_names(p0).push(name@));
        assert(pv.take(i + 1) =~= pv.take(i as int).push(pv[i as int]));
        i = i + 1;
    }
    assert(pv.take(i as int) =~= pv);
    let mut ret_ty = String::new();
    push_type_debug(&mut ret_ty, &f.ret_ty);
    assert(ret_ty@ =~= type_debug(f.ret_ty@));
    FnSig { params, ret_ty }
}

/// The field names of a struct declaration, as the symbol table records them.
fn field_infos(fs: &Vec<FieldDecl<Parsed>>) -> (r: Vec<FieldInfo>)
    ensures
        field_info_names(r@) == field_names(field_decls_view(fs@)),
{
    let ghost fv = field_decls_view(fs@);
    let mut r: Vec<FieldInfo> = Vec::new();
    let mut i: usize = 0;
    while i < fs.len()
        invariant
            i <= fs.len(),
            fv == field_decls_view(fs@),
            field_info_names(r@) =~= field_names(fv.take(i as int)),
        decreases fs.len() - i,
    {
        let ghost r0 = r@;
        r.push(FieldInfo { name: fs[i].name.clone() });
        assert(field_info_names(r@) =~= field_info_names(r0).push(fs@[i as int].name@));
        assert(fv.take(i + 1) =~= fv.take(i as int).push(fv[i as int]));
        i = i + 1;
    }
    assert(fv.take(i as int) =~= fv);
    r
}

/// Names separated by `, `.
fn join_names(names: &Vec<ParamInfo>) -> (r: String)
    ensures
        r@ == join(param_info_names(names@)),
{
    let ghost nv = param_info_names(names@);
    let mut r = String::new();
    let mut i: usize = 0;
    assert(nv.take(0) =~= Seq::<Seq<char>>::empty());
    while i < names.len()
        invariant
            i <= names.len(),
            nv == param_info_names(names@),
            r@ == join(nv.take(i as int)),
        decreases names.len() - i,
    {
        assert(nv.take(i + 1).drop_last() =~= nv.take(i as int));
        if i > 0 {
            r.append(", ");
        }
        r.append(names[i].name.as_str());
        proof {
            if i == 0 {
                assert(nv.take(1)[0] == nv[0]);
            }
            assert(r@ =~= join(nv.take(i + 1)));
        }
        i = i + 1;
    }
    assert(nv.take(i as int) =~= nv);
    r
}

/// Whether a text begins with `Void`.
fn starts_with_void_text(s: &String) -> (r: bool)
    ensures
        r == starts_with_void(s@),
{
    proof {
        reveal_strlit("Void");
    }
    let cs = chars_of(s.as_str());
    if cs.len() < 4 {
        return false;
    }
    let r = cs[0] == 'V' && cs[1] == 'o' && cs[2] == 'i' && cs[3] == 'd';
    proof {
        assert("Void"@ =~= seq!['V', 'o', 'i', 'd']);
        if r {
            assert(s@.subrange(0, 4) =~= "Void"@);
        } else {
            if s@.subrange(0, 4) == "Void"@ {
                assert(s@.subrange(0, 4)[0] == 'V');
                assert(s@.subrange(0, 4)[1] == 'o');
                assert(s@.subrange(0, 4)[2] == 'i');
                assert(s@.subrange(0, 4)[3] == 'd');
            }
        }
    }
    r
}

impl Resolver {
    /// Parameters, each defined in the innermost scope before its type is
    /// resolved.
    #[verifier::spinoff_prover]
    fn resolve_params(&mut self, ps: &Vec<Param<Parsed>>) -> (r: Vec<Param<Resolved>>)
        requires
            old(self).wf(),
            old(self)@.scopes.len() > 0,
            old(self)@.symbols.len() + ps.len() <= u32::MAX,
        ensures
            final(self).wf(),
            (params_view(r@), final(self)@) == rs_params(old(self)@, params_view(ps@)),
            final(self)@.scopes.len() == old(self)@.scopes.len(),
            final(self)@.loop_depth == old(self)@.loop_depth,
            final(self)@.symbols.len() == old(self)@.symbols.len() + ps.len(),
    {
        let ghost st0 = self@;
        let ghost pv = params_view(ps@);
        let mut r: Vec<Param<Resolved>> = Vec::new();
        let mut i: usize = 0;
        assert(pv.take(0) =~= Seq::<SPP>::empty());
        assert(params_view(r@) =~= Seq::<SParam<Resolved>>::empty());
        while i < ps.len()
            invariant
                self.wf(),
                i <= ps.len(),
                pv == params_view(ps@),
                st0.symbols.len() + ps.len() <= u32::MAX,
                (params_view(r@), self@) == rs_params(st0, pv.take(i as int)),
                self@.scopes.len() == st0.scopes.len(),
                self@.scopes.len() > 0,
                self@.loop_depth == st0.loop_depth,
                self@.symbols.len() == st0.symbols.len() + i,
            decreases ps.len() - i,
        {
            let ghost st1 = self@;
            assert(pv.take(i + 1).drop_last() =~= pv.take(i as int));
            assert(pv.take(i + 1).last() == ps@[i as int]@);
            let p = &ps[i];
            let name = param_name_of(p);
            let id = self.define(&name, p.ann, SymbolKind::Param);
            let ghost st2 = self@;
            proof {
                lemma_emit_all_assoc(st2, Seq::empty(), Seq::empty());
            }
            let kind = match &p.kind {
                ParamKind::SelfParam { ty } => match ty {
                    Some(t) => ParamKind::SelfParam { ty: Some(self.resolve_type_expr(t)) },
                    None => ParamKind::SelfParam { ty: None },
                },
                ParamKind::Named { name, ty } => {
                    let t = self.resolve_type_expr(ty);
                    ParamKind::Named { name: crate::common::Ident { name: name.name.clone(), id }, ty: t }
                },
            };
            let rp = Param { ann: p.ann, kind };
            assert(params_view(r@.push(rp)) =~= params_view(r@).push(rp@));
            r.push(rp);
            i = i + 1;
        }
        assert(pv.take(i as int) =~= pv);
        r
    }

    /// A function's parameters, return type and body, resolved in a scope
    /// of their own, with `id` as the function's symbol.
    #[verifier::spinoff_prover]
    fn resolve_fn_body(&mut self, f: &FnDecl<Parsed>, id: SymbolId) -> (r: FnDecl<Resolved>)
        requires
            old(self).wf(),
            room(old(self)@, fn_body_size(f@)),
        ensures
            final(self).wf(),
            (r@, final(self)@) == rs_fn_body(old(self)@, f@, id),
            kept(old(self)@, final(self)@, fn_body_size(f@)),
    {
        let ghost st0 = self@;
        self.push_scope();
        let params = self.resolve_params(&f.params);
        let ghost st1 = self@;
        let ret_ty = self.resolve_type_expr(&f.ret_ty);
        let body = self.resolve_block(&f.body);
        self.pop_scope();
        let ghost pv = params_view(params@);
        let r = FnDecl {
            ann: f.ann,
            name: crate::common::Ident { name: f.name.name.clone(), id },
            params,
            ret_ty,
            body,
        };
        assert(r@.params == pv);
        r
    }

    /// The symbol of the method `method` of the struct named `struct_name`.
    fn method_id_of(&self, struct_name: &String, method: &String) -> (r: SymbolId)
        requires
            self.wf(),
        ensures
            r == method_id(self@, struct_name@, method@),
    {
        match self.lookup(struct_name) {
            Some(sid) => match self.symbols.get_struct_info(sid) {
                Some(info) => match binding_lookup(&info.fns, method) {
                    Some(id) => id,
                    None => SymbolId(u32::MAX),
                },
                None => SymbolId(u32::MAX),
            },
            None => SymbolId(u32::MAX),
        }
    }

    /// A declaration with its names resolved.
    #[verifier::spinoff_prover]
    fn resolve_decl(&mut self, decl: &Decl<Parsed>) -> (r: Decl<Resolved>)
        requires
            old(self).wf(),
            room(old(self)@, decl_body_size(decl@)),
        ensures
            final(self).wf(),
            (r@, final(self)@) == rs_decl(old(self)@, decl@),
            kept(old(self)@, final(self)@, decl_body_size(decl@)),
    {
        match decl {
            Decl::Fn(f) => {
                let id = match self.lookup(&f.name.name) {
                    Some(id) => id,
                    None => SymbolId(u32::MAX),
                };
                Decl::Fn(self.resolve_fn_body(f, id))
            },
            Decl::Struct(s) => Decl::Struct(self.resolve_struct_decl(s)),
        }
    }

    #[verifier::spinoff_prover]
    fn resolve_struct_decl(&mut self, s: &StructDecl<Parsed>) -> (r: StructDecl<Resolved>)
        requires
            old(self).wf(),
            room(old(self)@, methods_body_size(fn_decls_view(s.methods@))),
        ensures
            final(self).wf(),
            (SDecl::Struct(r@), final(self)@) == rs_decl(old(self)@, SDecl::Struct(s@)),
            kept(old(self)@, final(self)@, methods_body_size(fn_decls_view(s.methods@))),
    {
        let ghost st0 = self@;
        let name_id = match self.lookup(&s.name.name) {
            Some(id) => id,
            None => SymbolId(u32::MAX),
        };
        // fields
        let ghost fv = field_decls_view(s.fields@);
        let mut fields: Vec<FieldDecl<Resolved>> = Vec::new();
        let mut i: usize = 0;
        proof {
            lemma_emit_all_assoc(st0, Seq::empty(), Seq::empty());
            assert(fv.take(0) =~= Seq::<SFieldDecl<Parsed>>::empty());
            assert(field_decls_view(fields@) =~= Seq::<SFieldDecl<Resolved>>::empty());
        }
        while i < s.fields.len()
            invariant
                self.wf(),
                i <= s.fields.len(),
                fv == field_decls_view(s.fields@),
                self@.scopes == st0.scopes,
                (field_decls_view(fields@), self@) == ({
                    let (rf, d) = rs_field_decls(st0.scopes, fv.take(i as int));
                    (rf, emit_all(st0, d))
                }),
            decreases s.fields.len() - i,
        {
            assert(fv.take(i + 1).drop_last() =~= fv.take(i as int));
            assert(fv.take(i + 1).last() == s.fields@[i as int]@);
            let ghost d0 = rs_field_decls(st0.scopes, fv.take(i as int)).1;
            let t = self.resolve_type_expr(&s.fields[i].ty);
            proof {
                lemma_emit_all_assoc(st0, d0, rs_type(st0.scopes, s.fields@[i as int].ty@).1);
            }
            let f = FieldDecl { ann: s.fields[i].ann, name: s.fields[i].name.clone(), ty: t };
            assert(field_decls_view(fields@.push(f)) =~= field_decls_view(fields@).push(f@));
            fields.push(f);
            i = i + 1;
        }
        assert(fv.take(i as int) =~= fv);
        // methods
        let ghost st1 = self@;
        let ghost mv = fn_decls_view(s.methods@);
        let mut methods: Vec<FnDecl<Resolved>> = Vec::new();
        let mut j: usize = 0;
        assert(mv.take(0) =~= Seq::<SFP>::empty());
        assert(fn_decls_view(methods@) =~= Seq::<SFnDecl<Resolved>>::empty());
        while j < s.methods.len()
            invariant
                self.wf(),
                j <= s.methods.len(),
                mv == fn_decls_view(s.methods@),
                room(st1, methods_body_size(mv)),
                st1.symbols.len() == st0.symbols.len(),
                st1.loop_depth == st0.loop_depth,
                st1.scopes == st0.scopes,
                (fn_decls_view(methods@), self@) == rs_methods(st1, mv.take(j as int), s@.name.name),
                kept(st1, self@, methods_body_size(mv.take(j as int))),
            decreases s.methods.len() - j,
        {
            proof {
                lemma_methods_body_size_take(mv, j as int);
                lemma_methods_body_size_take(mv, j + 1);
                assert(mv.take(j + 1).drop_last() =~= mv.take(j as int));
                assert(mv.take(j + 1).last() == s.methods@[j as int]@);
            }
            let id = self.method_id_of(&s.name.name, &s.methods[j].name.name);
            let m = self.resolve_fn_body(&s.methods[j], id);
            assert(fn_decls_view(methods@.push(m)) =~= fn_decls_view(methods@).push(m@));
            methods.push(m);
            j = j + 1;
        }
        assert(mv.take(j as int) =~= mv);
        StructDecl {
            ann: s.ann,
            name: crate::common::Ident { name: s.name.name.clone(), id: name_id },
            fields,
            methods,
        }
    }

    /// Declarations, in order.
    #[verifier::spinoff_prover]
    fn resolve_decls(&mut self, ds: &Vec<Decl<Parsed>>) -> (r: Vec<Decl<Resolved>>)
        requires
            old(self).wf(),
            room(old(self)@, decls_body_size(decls_view(ds@))),
        ensures
            final(self).wf(),
            (decls_view(r@), final(self)@) == rs_decls(old(self)@, decls_view(ds@)),
            kept(old(self)@, final(self)@, decls_body_size(decls_view(ds@))),
    {
        let ghost st0 = self@;
        let ghost dv = decls_view(ds@);
        let mut r: Vec<Decl<Resolved>> = Vec::new();
        let mut i: usize = 0;
        assert(dv.take(0) =~= Seq::<SDecl<Parsed>>::empty());
        assert(decls_view(r@) =~= Seq::<SDecl<Resolved>>::empty());
        while i < ds.len()
            invariant
                self.wf(),
                i <= ds.len(),
                dv == decls_view(ds@),
                room(st0, decls_body_size(dv)),
                (decls_view(r@), self@) == rs_decls(st0, dv.take(i as int)),
                kept(st0, self@, decls_body_size(dv.take(i as int))),
            decreases ds.len() - i,
        {
            proof {
                lemma_decls_size_take(dv, i as int);
                lemma_decls_size_take(dv, i + 1);
                assert(dv.take(i + 1).drop_last() =~= dv.take(i as int));
                assert(dv.take(i + 1).last() == ds@[i as int]@);
            }
            let d = self.resolve_decl(&ds[i]);
            assert(decls_view(r@.push(d)) =~= decls_view(r@).push(d@));
            r.push(d);
            i = i + 1;
        }
        assert(dv.take(i as int) =~= dv);
        r
    }

    /// Reports each field of `s` whose name an earlier field has.
    fn check_duplicate_fields(&mut self, s: &StructDecl<Parsed>)
        requires
            old(self).wf(),
        ensures
            final(self).wf(),
            final(self)@ == emit_all(
                old(self)@,
                duplicate_fields(s.name.name@, field_decls_view(s.fields@)),
            ),
    {
        let ghost st0 = self@;
        let ghost fv = field_decls_view(s.fields@);
        let mut seen: Vec<String> = Vec::new();
        let mut i: usize = 0;
        proof {
            lemma_emit_all_assoc(st0, Seq::empty(), Seq::empty());
            assert(fv.take(0) =~= Seq::<SFieldDecl<Parsed>>::empty());
        }
        while i < s.fields.len()
            invariant
                self.wf(),
                i <= s.fields.len(),
                fv == field_decls_view(s.fields@),
                names_view(seen@) =~= field_names(fv.take(i as int)),
                self@ == emit_all(st0, duplicate_fields(s.name.name@, fv.take(i as int))),
            decreases s.fields.len() - i,
        {
            let ghost before = self@;
            assert(fv.take(i + 1).drop_last() =~= fv.take(i as int));
            assert(fv.take(i + 1).last() == s.fields@[i as int]@);
            let ghost d0 = duplicate_fields(s.name.name@, fv.take(i as int));
            if contains_name(&seen, &s.fields[i].name) {
                self.emit(
                    ResolverError::DuplicateField {
                        struct_name: s.name.name.clone(),
                        field: s.fields[i].name.clone(),
                    },
                    s.fields[i].ann,
                );
                proof {
                    let d = crate::resolver::spec::duplicate_field(
                        s.name.name@,
                        s.fields@[i as int].name@,
                        s.fields@[i as int].ann,
                    );
                    lemma_emit_all_assoc(st0, d0, seq![d]);
                    assert(self@.diags =~= before.diags + seq![d]);
                }
            } else {
                proof {
                    lemma_emit_all_assoc(st0, d0, Seq::empty());
                    assert(d0 + Seq::<DV>::empty() =~= d0);
                }
            }
            let ghost sn = seen@;
            seen.push(s.fields[i].name.clone());
            assert(names_view(seen@) =~= names_view(sn).push(s.fields@[i as int].name@));
            assert(field_names(fv.take(i + 1)) =~= field_names(fv.take(i as int)).push(
                fv[i as int].name,
            ));
            i = i + 1;
        }
        assert(fv.take(i as int) =~= fv);
    }

    /// The methods of a struct, each a new symbol numbered after the last
    /// one; gives their names and ids.
    #[verifier::spinoff_prover]
    fn collect_methods(&mut self, ms: &Vec<FnDecl<Parsed>>) -> (r: Vec<(String, SymbolId)>)
        requires
            old(self).wf(),
            old(self)@.symbols.len() + ms.len() <= u32::MAX,
        ensures
            final(self).wf(),
            (bindings_view(r@), final(self)@) == collect_methods(old(self)@, fn_decls_view(ms@)),
            final(self)@.symbols.len() == old(self)@.symbols.len() + ms.len(),
            final(self)@.scopes == old(self)@.scopes,
            final(self)@.loop_depth == old(self)@.loop_depth,
    {
        let ghost st0 = self@;
        let ghost mv = fn_decls_view(ms@);
        let mut fns: Vec<(String, SymbolId)> = Vec::new();
        let mut i: usize = 0;
        assert(mv.take(0) =~= Seq::<SFP>::empty());
        assert(bindings_view(fns@) =~= Seq::<(Seq<char>, SymbolId)>::empty());
        while i < ms.len()
            invariant
                self.wf(),
                i <= ms.len(),
                mv == fn_decls_view(ms@),
                st0.symbols.len() + ms.len() <= u32::MAX,
                (bindings_view(fns@), self@) == collect_methods(st0, mv.take(i as int)),
                self@.symbols.len() == st0.symbols.len() + i,
                self@.scopes == st0.scopes,
                self@.loop_depth == st0.loop_depth,
            decreases ms.len() - i,
        {
            assert(mv.take(i + 1).drop_last() =~= mv.take(i as int));
            assert(mv.take(i + 1).last() == ms@[i as int]@);
            let ghost st1 = self@;
            let m = &ms[i];
            let sig = build_fn_sig(m);
            let id = SymbolId(self.next_id);
            self.next_id = self.next_id + 1;
            self.symbols.insert(
                Symbol { id, name: m.name.name.clone(), kind: SymbolKind::Fn(sig), span: m.ann },
            );
            assert(self@.scopes == st1.scopes);
            let ghost f0 = fns@;
            fns.push((m.name.name.clone(), id));
            assert(bindings_view(fns@) =~= bindings_view(f0).push((m.name.name@, id)));
            i = i + 1;
        }
        assert(mv.take(i as int) =~= mv);
        fns
    }

    /// Defines a top-level declaration: a function with its signature; a
    /// struct with its field names, then each of its methods.
    #[verifier::spinoff_prover]
    fn collect_decl(&mut self, decl: &Decl<Parsed>)
        requires
            old(self).wf(),
            old(self)@.scopes.len() > 0,
            old(self)@.symbols.len() + decl_defs(decl@) <= u32::MAX,
        ensures
            final(self).wf(),
            final(self)@ == collect_decl(old(self)@, decl@),
            final(self)@.scopes.len() == old(self)@.scopes.len(),
            final(self)@.loop_depth == old(self)@.loop_depth,
            final(self)@.symbols.len() == old(self)@.symbols.len() + decl_defs(decl@),
    {
        match decl {
            Decl::Fn(f) => {
                let sig = build_fn_sig(f);
                let ghost kv = SymbolKind::Fn(sig)@;
                self.define(&f.name.name, f.ann, SymbolKind::Fn(sig));
                assert(self@ == define(old(self)@, f.name.name@, f.ann, kv).1);
                assert(self@ == collect_decl(old(self)@, decl@));
            },
            Decl::Struct(s) => {
                self.check_duplicate_fields(s);
                let fields = field_infos(&s.fields);
                let no_fns: Vec<(String, SymbolId)> = Vec::new();
                assert(bindings_view(no_fns@) =~= Seq::<(Seq<char>, SymbolId)>::empty());
                let sid = self.define(
                    &s.name.name,
                    s.ann,
                    SymbolKind::Struct(StructInfo { fields, fns: no_fns }),
                );
                let ghost st2 = self@;
                let fns = self.collect_methods(&s.methods);
                if fns.len() > 0 {
                    let fields = field_infos(&s.fields);
                    let ghost st3 = self@;
                    let sym = self.symbols.get_mut(sid);
                    sym.kind = SymbolKind::Struct(StructInfo { fields, fns });
                    proof {
                        assert(self@.scopes == st3.scopes);
                        assert forall|i: int|
                            0 <= i < self.symbols@.len() implies (#[trigger] self.symbols@[i]).id.0
                            == i by {
                            if i != sid.0 {
                                assert(self.symbols@[i] == st3.symbols[i]);
                            }
                        }
                    }
                }
            },
        }
    }

    /// Defines every top-level declaration, in order.
    #[verifier::spinoff_prover]
    fn collect_decls(&mut self, ds: &Vec<Decl<Parsed>>)
        requires
            old(self).wf(),
            old(self)@.scopes.len() > 0,
            old(self)@.symbols.len() + decls_defs(decls_view(ds@)) <= u32::MAX,
        ensures
            final(self).wf(),
            final(self)@ == collect_decls(old(self)@, decls_view(ds@)),
            final(self)@.scopes.len() == old(self)@.scopes.len(),
            final(self)@.loop_depth == old(self)@.loop_depth,
            final(self)@.symbols.len() == old(self)@.symbols.len() + decls_defs(decls_view(ds@)),
    {
        let ghost st0 = self@;
        let ghost dv = decls_view(ds@);
        let mut i: usize = 0;
        assert(dv.take(0) =~= Seq::<SDecl<Parsed>>::empty());
        while i < ds.len()
            invariant
                self.wf(),
                i <= ds.len(),
                dv == decls_view(ds@),
                st0.symbols.len() + decls_defs(dv) <= u32::MAX,
                self@ == collect_decls(st0, dv.take(i as int)),
                self@.scopes.len() == st0.scopes.len(),
                st0.scopes.len() > 0,
                self@.loop_depth == st0.loop_depth,
                self@.symbols.len() == st0.symbols.len() + decls_defs(dv.take(i as int)),
            decreases ds.len() - i,
        {
            proof {
                lemma_decls_size_take(dv, i as int);
                lemma_decls_size_take(dv, i + 1);
                assert(dv.take(i + 1).drop_last() =~= dv.take(i as int));
                assert(dv.take(i + 1).last() == ds@[i as int]@);
            }
            self.collect_decl(&ds[i]);
            i = i + 1;
        }
        assert(dv.take(i as int) =~= dv);
    }

    /// Reports a missing `main`, and a `main` function that takes
    /// parameters or returns a value.
    #[verifier::spinoff_prover]
    fn check_main(&mut self)
        requires
            old(self).wf(),
        ensures
            final(self).wf(),
            final(self)@ == check_main(old(self)@),
    {
        let main_name = String::from_str("main");
        let found = match self.lookup(&main_name) {
            None => {
                self.emit(ResolverError::MainNotFound, Span { start: 0, end: 0 });
                return;
            },
            Some(id) => id,
        };
        let is_fn = match &self.symbols.get(found).kind {
            SymbolKind::Fn(_) => true,
            _ => false,
        };
        if !is_fn {
            self.emit(ResolverError::MainNotFound, Span { start: 0, end: 0 });
            return;
        }
        let bad = {
            let sym = self.symbols.get(found);
            match &sym.kind {
                SymbolKind::Fn(sig) => {
                    let has_params = sig.params.len() > 0;
                    let has_non_void_ret = !starts_with_void_text(&sig.ret_ty);
                    if has_params || has_non_void_ret {
                        let mut signature = String::from_str("fn main(");
                        let params = join_names(&sig.params);
                        signature.append(params.as_str());
                        signature.append(")");
                        if has_non_void_ret {
                            signature.append(" -> ...");
                        }
                        Some((signature, sym.span))
                    } else {
                        None
                    }
                },
                _ => None,
            }
        };
        match bad {
            Some((signature, span)) => {
                let ghost sig_text = signature@;
                self.emit(ResolverError::InvalidMainSignature { signature }, span);
                proof {
                    let sig = self@.symbols[found.0 as int].kind->Fn_0;
                    let non_void = !starts_with_void(sig.ret_ty);
                    assert(sig_text =~= "fn main("@ + join(sig.params) + ")"@ + if non_void {
                        " -> ..."@
                    } else {
                        Seq::empty()
                    });
                }
            },
            None => {},
        }
    }

    /// Resolves a program: collects its top-level declarations into the
    /// global scope, resolves every declaration, and checks `main`. Gives
    /// the resolved program and its symbol table, or every diagnostic.
    #[verifier::spinoff_prover]
    pub fn resolve(self, program: &Program<Parsed>) -> (r: Result<
        (Program<Resolved>, SymbolTable),
        Vec<Diagnostic>,
    >)
        requires
            self.wf(),
            self@ == initial(),
            program_size(program@) < u32::MAX,
        ensures
            match r {
                Ok((p, t)) => rs_program(program@) == Ok::<
                    (crate::ast::view::SProgram<Resolved>, Seq<crate::common::SymbolView>),
                    Seq<DV>,
                >((p@, t@)) && t.wf() && t@.len() <= u32::MAX,
                Err(ds) => rs_program(program@) == Err::<
                    (crate::ast::view::SProgram<Resolved>, Seq<crate::common::SymbolView>),
                    Seq<DV>,
                >(diags_view(ds@)),
            },
    {
        let mut this = self;
        this.push_scope();
        this.collect_decls(&program.decls);
        let decls = this.resolve_decls(&program.decls);
        this.check_main();
        this.pop_scope();
        if this.diagnostics.len() == 0 {
            let p = Program { decls };
            assert(p@ == crate::ast::view::SProgram { decls: decls_view(p.decls@) });
            Ok((p, this.symbols))
        } else {
            Err(this.diagnostics)
        }
    }
}

} // verus!
