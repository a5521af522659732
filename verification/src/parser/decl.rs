//! Parsing declarations and whole programs, with recovery after a
//! declaration that fails.
use vstd::prelude::*;
use crate::ast::decl::{Decl, FieldDecl, FnDecl, Param, ParamKind, Program, StructDecl};
use crate::ast::ty::TypeExpr;
use crate::ast::view::{decls_view, field_decls_view, fn_decls_view, params_view, SParam};
use crate::common::{Ident, Parsed};
use crate::diagnostic::{diags_view, Diagnostic};
use crate::lexer::token::{Token, TokView};
use crate::parser::spec::{
    at_end, check, group_token_steps, mark, moved, peek_tok, rem, res_view, res_views, sp_decl,
    sp_field_decl, sp_fn_decl, sp_param, sp_params, sp_params_rest, sp_program, sp_program_rest,
    sp_struct_body, sp_struct_decl, span_from, DV, SPar,
};
use crate::parser::stmt::one;
use crate::parser::{err_unexpected_eof, err_unexpected_token, Parser};

verus! {

broadcast use group_token_steps;

impl Parser {
    /// A whole program: every declaration, or, if any failed, every
    /// diagnostic. It reads all the tokens.
    #[verifier::spinoff_prover]
    pub fn parse(&mut self) -> (r: Result<Program<Parsed>, Vec<Diagnostic>>)
        requires
            old(self).wf(),
        ensures
            (res_views(r), final(self)@) == sp_program(old(self)@),
            moved(old(self)@, final(self)@),
            at_end(final(self)@),
    {
        reveal(sp_program);
        let mut decls: Vec<Decl<Parsed>> = Vec::new();
        let mut errors: Vec<Diagnostic> = Vec::new();
        assert(decls_view(decls@) =~= Seq::empty());
        assert(diags_view(errors@) =~= Seq::<DV>::empty());
        let ghost target = sp_program_rest(self@, decls_view(decls@), diags_view(errors@));
        while !self.at_end()
            invariant
                self.wf(),
                moved(old(self)@, self@),
                sp_program_rest(self@, decls_view(decls@), diags_view(errors@)) == target,
            decreases rem(self@),
        {
            reveal(sp_program_rest);
            let ghost before = self@;
            match self.parse_decl() {
                Ok(decl) => {
                    assert(decls_view(decls@.push(decl)) =~= decls_view(decls@).push(decl@));
                    decls.push(decl);
                },
                Err(mut errs) => {
                    let ghost e1 = diags_view(errors@);
                    let ghost e2 = diags_view(errs@);
                    errors.append(&mut errs);
                    assert(diags_view(errors@) =~= e1 + e2);
                    self.synchronize_top_level();
                },
            }
            assert(rem(self@) < rem(before));
        }
        proof {
            reveal(sp_program_rest);
        }
        if errors.len() > 0 {
            return Err(errors);
        }
        Ok(Program { decls })
    }

    /// A declaration: a function or a struct.
    #[verifier::spinoff_prover]
    fn parse_decl(&mut self) -> (r: Result<Decl<Parsed>, Vec<Diagnostic>>)
        requires
            old(self).wf(),
        ensures
            (res_views(r), final(self)@) == sp_decl(old(self)@),
            moved(old(self)@, final(self)@),
            r is Ok ==> final(self)@.pos > old(self)@.pos,
            final(self)@.pos == old(self)@.pos ==> final(self)@ == old(self)@ && match peek_tok(
                old(self)@,
            ) {
                Some(t) => !(t is Fn || t is Struct),
                None => true,
            },
    {
        reveal(sp_decl);
        let start = self.mark();
        match self.peek_token() {
            Some(Token::Fn) => match self.parse_fn_decl(start) {
                Ok(f) => Ok(Decl::Fn(f)),
                Err(es) => Err(es),
            },
            Some(Token::Struct) => match self.parse_struct_decl(start) {
                Ok(s) => Ok(Decl::Struct(s)),
                Err(es) => Err(es),
            },
            Some(_) => Err(
                one(
                    err_unexpected_token(
                        String::from_str("fn or struct"),
                        self.found_text(),
                        self.span_from(start),
                    ),
                ),
            ),
            None => Err(
                one(err_unexpected_eof(String::from_str("declaration"), self.span_from(start))),
            ),
        }
    }

    /// `fn name(params) [-> type] block`, at the `fn`; `void` is the return
    /// type when none is given.
    #[verifier::spinoff_prover]
    fn parse_fn_decl(&mut self, start: usize) -> (r: Result<FnDecl<Parsed>, Vec<Diagnostic>>)
        requires
            old(self).wf(),
            !at_end(old(self)@),
        ensures
            (res_views(r), final(self)@) == sp_fn_decl(old(self)@, start),
            moved(old(self)@, final(self)@),
            final(self)@.pos > old(self)@.pos,
    {
        reveal(sp_fn_decl);
        self.advance();
        let name_str = match self.expect_ident() {
            Ok(n) => n,
            Err(e) => return Err(one(e)),
        };
        let name = Ident { name: name_str, id: () };
        let params = match self.parse_params() {
            Ok(p) => p,
            Err(e) => return Err(one(e)),
        };
        let ret_ty = if self.eat(&Token::Arrow).is_some() {
            match self.parse_type() {
                Ok(t) => t,
                Err(e) => return Err(one(e)),
            }
        } else {
            TypeExpr::Void(self.span_from(start))
        };
        let body = match self.parse_block() {
            Ok(b) => b,
            Err(es) => return Err(es),
        };
        Ok(FnDecl { ann: self.span_from(start), name, params, ret_ty, body })
    }

    /// `( [param {, param}] )`
    #[verifier::spinoff_prover]
    fn parse_params(&mut self) -> (r: Result<Vec<Param<Parsed>>, Diagnostic>)
        requires
            old(self).wf(),
        ensures
            (
                match r {
                    Ok(ps) => Ok(params_view(ps@)),
                    Err(e) => Err(e@),
                },
                final(self)@,
            ) == sp_params(old(self)@),
            moved(old(self)@, final(self)@),
    {
        reveal(sp_params);
        if let Err(e) = self.expect(&Token::LParen) {
            return Err(e);
        }
        let mut params: Vec<Param<Parsed>> = Vec::new();
        assert(params_view(params@) =~= Seq::<SPar>::empty());
        if !self.check(&Token::RParen) {
            match self.parse_param() {
                Ok(p) => {
                    assert(params_view(params@.push(p)) =~= seq![p@]);
                    params.push(p);
                },
                Err(e) => return Err(e),
            }
            if let Err(e) = self.parse_params_rest(&mut params) {
                return Err(e);
            }
        }
        if let Err(e) = self.expect(&Token::RParen) {
            return Err(e);
        }
        Ok(params)
    }

    /// More `, param` after the parameters in `params`, which it extends.
    #[verifier::spinoff_prover]
    fn parse_params_rest(&mut self, params: &mut Vec<Param<Parsed>>) -> (r: Result<(), Diagnostic>)
        requires
            old(self).wf(),
        ensures
            (
                match r {
                    Ok(_) => Ok(params_view(final(params)@)),
                    Err(e) => Err(e@),
                },
                final(self)@,
            ) == sp_params_rest(old(self)@, params_view(old(params)@)),
            moved(old(self)@, final(self)@),
    {
        loop
            invariant_except_break
                self.wf(),
                moved(old(self)@, self@),
                sp_params_rest(self@, params_view(params@)) == sp_params_rest(
                    old(self)@,
                    params_view(old(params)@),
                ),
            ensures
                moved(old(self)@, self@),
                sp_params_rest(old(self)@, params_view(old(params)@)) == (
                    Ok::<Seq<SPar>, DV>(params_view(params@)),
                    self@,
                ),
            decreases rem(self@),
        {
            reveal(sp_params_rest);
            let ghost before = self@;
            if self.eat(&Token::Comma).is_none() {
                break;
            }
            match self.parse_param() {
                Ok(p) => {
                    assert(params_view(params@.push(p)) =~= params_view(params@).push(p@));
                    params.push(p);
                },
                Err(e) => return Err(e),
            }
            assert(rem(self@) < rem(before));
        }
        Ok(())
    }

    /// A parameter: `self [: type]` or `name: type`.
    #[verifier::spinoff_prover]
    fn parse_param(&mut self) -> (r: Result<Param<Parsed>, Diagnostic>)
        requires
            old(self).wf(),
        ensures
            (res_view(r), final(self)@) == sp_param(old(self)@),
            moved(old(self)@, final(self)@),
            r is Ok ==> final(self)@.pos > old(self)@.pos,
    {
        reveal(sp_param);
        let start = self.mark();
        if self.check(&Token::SelfKw) {
            self.advance();
            let ty = if self.eat(&Token::Colon).is_some() {
                match self.parse_type() {
                    Ok(t) => Some(t),
                    Err(e) => return Err(e),
                }
            } else {
                None
            };
            return Ok(Param { ann: self.span_from(start), kind: ParamKind::SelfParam { ty } });
        }
        let name_str = match self.expect_ident() {
            Ok(n) => n,
            Err(e) => return Err(e),
        };
        let name = Ident { name: name_str, id: () };
        if let Err(e) = self.expect(&Token::Colon) {
            return Err(e);
        }
        let ty = match self.parse_type() {
            Ok(t) => t,
            Err(e) => return Err(e),
        };
        Ok(Param { ann: self.span_from(start), kind: ParamKind::Named { name, ty } })
    }

    /// `struct Name { member* }`, at the `struct`. A struct whose members
    /// produced diagnostics fails with all of them once its `}` is read; a
    /// missing `}` adds its own.
    #[verifier::spinoff_prover]
    fn parse_struct_decl(&mut self, start: usize) -> (r: Result<StructDecl<Parsed>, Vec<Diagnostic>>)
        requires
            old(self).wf(),
            !at_end(old(self)@),
        ensures
            (res_views(r), final(self)@) == sp_struct_decl(old(self)@, start),
            moved(old(self)@, final(self)@),
            final(self)@.pos > old(self)@.pos,
    {
        reveal(sp_struct_decl);
        self.advance();
        let name_str = match self.expect_ident() {
            Ok(n) => n,
            Err(e) => return Err(one(e)),
        };
        let name = Ident { name: name_str, id: () };
        if let Err(e) = self.expect(&Token::LBrace) {
            return Err(one(e));
        }
        let mut fields: Vec<FieldDecl<Parsed>> = Vec::new();
        let mut methods: Vec<FnDecl<Parsed>> = Vec::new();
        let mut errors: Vec<Diagnostic> = Vec::new();
        assert(field_decls_view(fields@) =~= Seq::empty());
        assert(fn_decls_view(methods@) =~= Seq::empty());
        assert(diags_view(errors@) =~= Seq::<DV>::empty());
        let ghost target = sp_struct_body(
            self@,
            field_decls_view(fields@),
            fn_decls_view(methods@),
            diags_view(errors@),
        );
        while !self.check(&Token::RBrace) && !self.at_end()
            invariant
                self.wf(),
                moved(old(self)@, self@),
                self@.pos > old(self)@.pos,
                sp_struct_body(
                    self@,
                    field_decls_view(fields@),
                    fn_decls_view(methods@),
                    diags_view(errors@),
                ) == target,
            decreases rem(self@),
        {
            reveal(sp_struct_body);
            let ghost before = self@;
            let pos_before = self.pos;
            if self.check(&Token::Fn) {
                let method_start = self.mark();
                match self.parse_fn_decl(method_start) {
                    Ok(m) => {
                        assert(fn_decls_view(methods@.push(m)) =~= fn_decls_view(methods@).push(
                            m@,
                        ));
                        methods.push(m);
                    },
                    Err(mut errs) => {
                        let ghost e1 = diags_view(errors@);
                        let ghost e2 = diags_view(errs@);
                        errors.append(&mut errs);
                        assert(diags_view(errors@) =~= e1 + e2);
                        self.synchronize_top_level();
                    },
                }
            } else {
                match self.parse_field_decl() {
                    Ok(f) => {
                        assert(field_decls_view(fields@.push(f)) =~= field_decls_view(
                            fields@,
                        ).push(f@));
                        fields.push(f);
                    },
                    Err(e) => {
                        assert(diags_view(errors@.push(e)) =~= diags_view(errors@).push(e@));
                        errors.push(e);
                        self.synchronize();
                        if self.pos == pos_before {
                            self.advance();
                        }
                    },
                }
            }
            assert(rem(self@) < rem(before));
        }
        proof {
            reveal(sp_struct_body);
        }
        if let Err(e) = self.expect(&Token::RBrace) {
            assert(diags_view(errors@.push(e)) =~= diags_view(errors@).push(e@));
            errors.push(e);
            return Err(errors);
        }
        if errors.len() > 0 {
            return Err(errors);
        }
        Ok(StructDecl { ann: self.span_from(start), name, fields, methods })
    }

    /// `name: type,` inside a struct.
    #[verifier::spinoff_prover]
    fn parse_field_decl(&mut self) -> (r: Result<FieldDecl<Parsed>, Diagnostic>)
        requires
            old(self).wf(),
        ensures
            (res_view(r), final(self)@) == sp_field_decl(old(self)@),
            moved(old(self)@, final(self)@),
            r is Ok ==> final(self)@.pos > old(self)@.pos,
    {
        reveal(sp_field_decl);
        let start = self.mark();
        let name = match self.expect_ident() {
            Ok(n) => n,
            Err(e) => return Err(e),
        };
        if let Err(e) = self.expect(&Token::Colon) {
            return Err(e);
        }
        let ty = match self.parse_type() {
            Ok(t) => t,
            Err(e) => return Err(e),
        };
        if let Err(e) = self.expect(&Token::Comma) {
            return Err(e);
        }
        Ok(FieldDecl { ann: self.span_from(start), name, ty })
    }
}

} // verus!
