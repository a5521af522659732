//! Parsing types.
use vstd::prelude::*;
use crate::ast::ty::TypeExpr;
use crate::ast::view::{SType, lemma_types_view_push, types_view};
use crate::common::{Parsed, Span};
use crate::diagnostic::Diagnostic;
use crate::lexer::token::{Token, TokView};
use crate::parser::spec::{
    adv, check, expect_gt, moved, rem, res_view, sp_fn_type, sp_type, sp_type_list_rest, span_from, span_res,
    tokens_wf, group_token_steps, DV, STy,
};
use crate::parser::{err_expected_type, err_unexpected_eof, err_unexpected_token, Parser};

verus! {

broadcast use group_token_steps;

impl Parser {
    /// A type: `int`, `char`, `void`, `ptr<T>`, `span<T>`, `readonly T`,
    /// `fn(T, ..) -> R`, or the name of a struct.
    pub fn parse_type(&mut self) -> (r: Result<TypeExpr<Parsed>, Diagnostic>)
        requires
            old(self).wf(),
        ensures
            (res_view(r), final(self)@) == sp_type(old(self)@),
            moved(old(self)@, final(self)@),
            r is Ok ==> final(self)@.pos > old(self)@.pos,
        decreases rem(old(self)@), 3nat,
    {
        reveal(sp_type);
        reveal(sp_fn_type);
        reveal(sp_type_list_rest);
        let start = self.mark();
        if self.check(&Token::Readonly) {
            self.advance();
            let inner = match self.parse_type() {
                Ok(t) => t,
                Err(e) => return Err(e),
            };
            return Ok(TypeExpr::Readonly(self.span_from(start), Box::new(inner)));
        }
        if self.check(&Token::Fn) {
            return self.parse_fn_type(start);
        }
        let (token, span) = match self.peek_cloned() {
            Some(p) => p,
            None => {
                return Err(
                    err_unexpected_eof(String::from_str("type"), self.span_from(start)),
                );
            },
        };
        match token {
            Token::Int => {
                self.advance();
                Ok(TypeExpr::Int(span))
            },
            Token::Char => {
                self.advance();
                Ok(TypeExpr::Char(span))
            },
            Token::Void => {
                self.advance();
                Ok(TypeExpr::Void(span))
            },
            Token::Ptr | Token::Span => {
                let is_ptr = token.same(&Token::Ptr);
                self.advance();
                if let Err(e) = self.expect(&Token::Lt) {
                    return Err(e);
                }
                let inner = match self.parse_type() {
                    Ok(t) => t,
                    Err(e) => return Err(e),
                };
                if let Err(e) = self.expect_gt() {
                    return Err(e);
                }
                if is_ptr {
                    Ok(TypeExpr::Ptr(self.span_from(start), Box::new(inner)))
                } else {
                    Ok(TypeExpr::Span(self.span_from(start), Box::new(inner)))
                }
            },
            Token::Ident(name) => {
                self.advance();
                Ok(TypeExpr::Named(self.span_from(start), name))
            },
            _ => Err(err_expected_type(self.found_text(), self.span_from(start))),
        }
    }

    /// `fn(params) [-> ret]`, at the `fn`.
    fn parse_fn_type(&mut self, start: usize) -> (r: Result<TypeExpr<Parsed>, Diagnostic>)
        requires
            old(self).wf(),
            check(old(self)@, TokView::Fn),
        ensures
            (res_view(r), final(self)@) == sp_fn_type(old(self)@, start),
            moved(old(self)@, final(self)@),
            r is Ok ==> final(self)@.pos > old(self)@.pos,
        decreases rem(old(self)@), 2nat,
    {
        reveal(sp_type);
        reveal(sp_fn_type);
        reveal(sp_type_list_rest);
        self.advance();
        if let Err(e) = self.expect(&Token::LParen) {
            return Err(e);
        }
        let mut params: Vec<TypeExpr<Parsed>> = Vec::new();
        let ghost st1 = self@;
        assert(types_view(params@) =~= Seq::<STy>::empty());
        if !self.check(&Token::RParen) {
            match self.parse_type() {
                Ok(t) => {
                    params.push(t);
                    proof {
                        lemma_types_view_push(Seq::empty(), t);
                        assert(Seq::<TypeExpr<Parsed>>::empty().push(t) =~= params@);
                    }
                },
                Err(e) => return Err(e),
            }
            if let Err(e) = self.parse_type_list_rest(&mut params) {
                return Err(e);
            }
        }
        if let Err(e) = self.expect(&Token::RParen) {
            return Err(e);
        }
        let ret = if self.eat(&Token::Arrow).is_some() {
            match self.parse_type() {
                Ok(t) => t,
                Err(e) => return Err(e),
            }
        } else {
            TypeExpr::Void(self.span_from(start))
        };
        let ghost pv = types_view(params@);
        let ghost rv = ret@;
        let r = TypeExpr::Fn { ann: self.span_from(start), params, ret: Box::new(ret) };
        assert(r@ == SType::Fn { ann: span_from(self@, start), params: pv, ret: Box::new(rv) });
        Ok(r)
    }

    /// More `, type` after the types in `params`, which it extends.
    fn parse_type_list_rest(&mut self, params: &mut Vec<TypeExpr<Parsed>>) -> (r: Result<
        (),
        Diagnostic,
    >)
        requires
            old(self).wf(),
        ensures
            (
                match r {
                    Ok(_) => Ok(types_view(final(params)@)),
                    Err(e) => Err(e@),
                },
                final(self)@,
            ) == sp_type_list_rest(old(self)@, types_view(old(params)@)),
            moved(old(self)@, final(self)@),
        decreases rem(old(self)@), 1nat,
    {
        reveal(sp_type);
        reveal(sp_fn_type);
        reveal(sp_type_list_rest);
        loop
            invariant_except_break
                self.wf(),
                moved(old(self)@, self@),
                sp_type_list_rest(self@, types_view(params@)) == sp_type_list_rest(
                    old(self)@,
                    types_view(old(params)@),
                ),
            ensures
                moved(old(self)@, self@),
                sp_type_list_rest(old(self)@, types_view(old(params)@)) == (
                    Ok::<Seq<STy>, DV>(types_view(params@)),
                    self@,
                ),
            decreases rem(self@),
        {
            reveal(sp_type);
            reveal(sp_fn_type);
            reveal(sp_type_list_rest);
            let ghost before = self@;
            if self.eat(&Token::Comma).is_none() {
                break;
            }
            match self.parse_type() {
                Ok(t) => {
                    proof {
                        lemma_types_view_push(params@, t);
                    }
                    params.push(t);
                },
                Err(e) => return Err(e),
            }
            assert(rem(self@) < rem(before));
        }
        Ok(())
    }

    /// The `>` that closes a type argument list. A `>>` or `>=` here gives up
    /// its first character and stays, as `>` or `=`, to be read next.
    fn expect_gt(&mut self) -> (r: Result<Span, Diagnostic>)
        requires
            old(self).wf(),
        ensures
            (span_res(r), final(self)@) == expect_gt(old(self)@),
            moved(old(self)@, final(self)@),
    {
        reveal(expect_gt);
        match self.peek_cloned() {
            Some((Token::Gt, span)) => {
                self.advance();
                Ok(span)
            },
            Some((Token::Shr, span)) => {
                let first = Span { start: span.start, end: span.start + 1 };
                let second = Span { start: span.start + 1, end: span.end };
                let ghost old_toks = self.tokens@;
                self.tokens[self.pos] = (Token::Gt, second);
                proof {
                    assert forall|i: int|
                        0 <= i < self.tokens@.len() && (#[trigger] self.tokens@[i].0@ is Shr
                            || self.tokens@[i].0@ is GtEq) implies self.tokens@[i].1.start
                        < usize::MAX by {
                        assert(i != self.pos);
                        assert(self.tokens@[i] == old_toks[i]);
                    }
                }
                Ok(first)
            },
            Some((Token::GtEq, span)) => {
                let first = Span { start: span.start, end: span.start + 1 };
                let second = Span { start: span.start + 1, end: span.end };
                let ghost old_toks = self.tokens@;
                self.tokens[self.pos] = (Token::Eq, second);
                proof {
                    assert forall|i: int|
                        0 <= i < self.tokens@.len() && (#[trigger] self.tokens@[i].0@ is Shr
                            || self.tokens@[i].0@ is GtEq) implies self.tokens@[i].1.start
                        < usize::MAX by {
                        assert(i != self.pos);
                        assert(self.tokens@[i] == old_toks[i]);
                    }
                }
                Ok(first)
            },
            Some(_) => {
                let start = self.mark();
                Err(err_unexpected_token(String::from_str(">"), self.found_text(), self.span_from(start)))
            },
            None => {
                let start = self.mark();
                Err(err_unexpected_eof(String::from_str(">"), self.span_from(start)))
            },
        }
    }
}

} // verus!
