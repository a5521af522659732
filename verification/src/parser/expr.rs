//! Parsing expressions, by precedence climbing over the binary operators.
use vstd::prelude::*;
use crate::ast::expr::{is_reserved_name, BinOp, Expr, ExprKind, FieldInit, StaticReceiver, UnaryOp};
use crate::ast::ty::TypeExpr;
use crate::ast::view::{
    exprs_view, field_inits_view, lemma_exprs_view_push, lemma_field_inits_view_push, SExprKind,
};
use crate::common::{Ident, Parsed, Span};
use crate::diagnostic::Diagnostic;
use crate::lexer::token::{Token, TokView};
use crate::parser::spec::{
    adv, at_end, check, ex, expect_field_name, expect_ident, is_word, moved, peek_tok, rem,
    res_view, sid, sp_alloc, sp_args, sp_args_rest, sp_assignment, sp_binary, sp_binary_rest,
    sp_expr, sp_expr_no_struct_lit, sp_free, sp_postfix, sp_postfix_op, sp_postfix_rest, sp_primary,
    sp_static_call, sp_std_call, sp_struct_fields, sp_struct_lit, sp_type, sp_unary, span_from,
    spec_infix_rule, spec_unary_op, group_token_steps, DV, SE,
};
use crate::parser::{
    err_expected_expression, err_expected_identifier, err_unexpected_eof, Parser,
};
use crate::text::string_eq_str;

verus! {

broadcast use group_token_steps;

/// How a binary operator binds: its precedence (higher binds tighter) and
/// whether it associates to the right.
#[derive(Clone, Copy)]
struct InfixRule {
    op: BinOp,
    prec: u8,
    right_assoc: bool,
}

/// The binary operator that `token` stands for, if any.
fn infix_rule(token: &Token) -> (r: Option<InfixRule>)
    ensures
        match r {
            Some(rule) => spec_infix_rule(token@) == Some((rule.op, rule.prec, rule.right_assoc)),
            None => spec_infix_rule(token@) is None,
        },
{
    let (op, prec, right_assoc) = match token {
        Token::OrOr => (BinOp::Or, 1, false),
        Token::AndAnd => (BinOp::And, 2, false),
        Token::Pipe => (BinOp::BitOr, 3, false),
        Token::Caret => (BinOp::BitXor, 4, false),
        Token::Ampersand => (BinOp::BitAnd, 5, false),
        Token::EqEq => (BinOp::Eq, 6, false),
        Token::NotEq => (BinOp::Ne, 6, false),
        Token::Lt => (BinOp::Lt, 7, false),
        Token::LtEq => (BinOp::Le, 7, false),
        Token::Gt => (BinOp::Gt, 7, false),
        Token::GtEq => (BinOp::Ge, 7, false),
        Token::Shl => (BinOp::Shl, 8, false),
        Token::Shr => (BinOp::Shr, 8, false),
        Token::Plus => (BinOp::Add, 9, false),
        Token::Minus => (BinOp::Sub, 9, false),
        Token::Star => (BinOp::Mul, 10, false),
        Token::Slash => (BinOp::Div, 10, false),
        Token::Percent => (BinOp::Mod, 10, false),
        _ => return None,
    };
    Some(InfixRule { op, prec, right_assoc })
}

fn expr(span: Span, kind: ExprKind<Parsed>) -> (e: Expr<Parsed>)
    ensures
        e == (Expr::<Parsed> { ann: span, ty: (), kind }),
{
    Expr { ann: span, ty: (), kind }
}

impl Parser {
    /// An expression.
    #[verifier::spinoff_prover]
    pub fn parse_expr(&mut self) -> (r: Result<Expr<Parsed>, Diagnostic>)
        requires
            old(self).wf(),
        ensures
            (res_view(r), final(self)@) == sp_expr(old(self)@),
            moved(old(self)@, final(self)@),
            r is Ok ==> final(self)@.pos > old(self)@.pos,
            final(self)@.pos == old(self)@.pos ==> final(self)@ == old(self)@,
        decreases rem(old(self)@), 60nat,
    {
        reveal(sp_expr);
        reveal(sp_assignment);
        self.parse_assignment()
    }

    /// An expression in which a name followed by `{` is not a struct literal.
    #[verifier::spinoff_prover]
    pub(crate) fn parse_expr_no_struct_lit(&mut self) -> (r: Result<Expr<Parsed>, Diagnostic>)
        requires
            old(self).wf(),
        ensures
            (res_view(r), final(self)@) == sp_expr_no_struct_lit(old(self)@),
            moved(old(self)@, final(self)@),
            r is Ok ==> final(self)@.pos > old(self)@.pos,
            final(self)@.pos == old(self)@.pos ==> final(self)@ == old(self)@,
        decreases rem(old(self)@), 61nat,
    {
        reveal(sp_expr_no_struct_lit);
        reveal(sp_expr);
        let saved = self.allow_struct_lit;
        self.allow_struct_lit = false;
        let result = self.parse_expr();
        self.allow_struct_lit = saved;
        result
    }

    #[verifier::spinoff_prover]
    fn parse_assignment(&mut self) -> (r: Result<Expr<Parsed>, Diagnostic>)
        requires
            old(self).wf(),
        ensures
            (res_view(r), final(self)@) == sp_assignment(old(self)@),
            moved(old(self)@, final(self)@),
            r is Ok ==> final(self)@.pos > old(self)@.pos,
            final(self)@.pos == old(self)@.pos ==> final(self)@ == old(self)@,
        decreases rem(old(self)@), 59nat,
    {
        reveal(sp_assignment);
        reveal(sp_binary);
        let lhs = match self.parse_binary(0) {
            Ok(e) => e,
            Err(e) => return Err(e),
        };
        if self.eat(&Token::Eq).is_some() {
            let target = match &lhs.kind {
                ExprKind::Ident(_) | ExprKind::Field { .. } | ExprKind::Index { .. } => true,
                ExprKind::Unary(UnaryOp::Deref, _) => true,
                _ => false,
            };
            if !target {
                return Err(super::err_invalid_assignment_target(lhs.ann));
            }
            let rhs = match self.parse_assignment() {
                Ok(e) => e,
                Err(e) => return Err(e),
            };
            let start = lhs.ann.start;
            let ghost lv = lhs@;
            let ghost rv = rhs@;
            let e = expr(
                self.span_from(start),
                ExprKind::Assign { lhs: Box::new(lhs), rhs: Box::new(rhs) },
            );
            assert(e@ == ex(
                span_from(self@, start),
                SExprKind::Assign { lhs: Box::new(lv), rhs: Box::new(rv) },
            ));
            return Ok(e);
        }
        Ok(lhs)
    }

    /// Binary operators of precedence at least `min_prec`.
    #[verifier::spinoff_prover]
    fn parse_binary(&mut self, min_prec: u8) -> (r: Result<Expr<Parsed>, Diagnostic>)
        requires
            old(self).wf(),
        ensures
            (res_view(r), final(self)@) == sp_binary(old(self)@, min_prec),
            moved(old(self)@, final(self)@),
            r is Ok ==> final(self)@.pos > old(self)@.pos,
            final(self)@.pos == old(self)@.pos ==> final(self)@ == old(self)@,
        decreases rem(old(self)@), 58nat,
    {
        reveal(sp_binary);
        reveal(sp_unary);
        reveal(sp_binary_rest);
        let mut lhs = match self.parse_unary() {
            Ok(e) => e,
            Err(e) => return Err(e),
        };
        let ghost target = sp_binary_rest(self@, lhs@, min_prec);
        loop
            invariant_except_break
                self.wf(),
                moved(old(self)@, self@),
                self@.pos > old(self)@.pos,
                sp_binary(old(self)@, min_prec) == target,
                sp_binary_rest(self@, lhs@, min_prec) == target,
            ensures
                moved(old(self)@, self@),
                self@.pos > old(self)@.pos,
                target == (Ok::<SE, DV>(lhs@), self@),
                sp_binary(old(self)@, min_prec) == target,
            decreases rem(self@),
        {
            reveal(sp_binary_rest);
            reveal(sp_binary);
            let ghost before = self@;
            let rule = match self.peek_token() {
                Some(t) => match infix_rule(t) {
                    Some(rule) => rule,
                    None => break,
                },
                None => break,
            };
            if rule.prec < min_prec {
                break;
            }
            self.advance();
            let next_min_prec = if rule.right_assoc {
                rule.prec
            } else {
                rule.prec + 1
            };
            let rhs = match self.parse_binary(next_min_prec) {
                Ok(e) => e,
                Err(e) => return Err(e),
            };
            let span = self.span_from(lhs.ann.start);
            let ghost lv = lhs@;
            let ghost rv = rhs@;
            lhs = expr(span, ExprKind::Binary(rule.op, Box::new(lhs), Box::new(rhs)));
            assert(lhs@ == ex(span, SExprKind::Binary(rule.op, Box::new(lv), Box::new(rv))));
            assert(rem(self@) < rem(before));
        }
        Ok(lhs)
    }

    /// Prefix operators (`-`, `!`, `~`, `*`, `&`), then a postfix expression.
    #[verifier::spinoff_prover]
    fn parse_unary(&mut self) -> (r: Result<Expr<Parsed>, Diagnostic>)
        requires
            old(self).wf(),
        ensures
            (res_view(r), final(self)@) == sp_unary(old(self)@),
            moved(old(self)@, final(self)@),
            r is Ok ==> final(self)@.pos > old(self)@.pos,
            final(self)@.pos == old(self)@.pos ==> final(self)@ == old(self)@,
        decreases rem(old(self)@), 56nat,
    {
        reveal(sp_unary);
        reveal(sp_postfix);
        let start = self.mark();
        let op = match self.peek_token() {
            Some(Token::Minus) => UnaryOp::Neg,
            Some(Token::Bang) => UnaryOp::Not,
            Some(Token::Tilde) => UnaryOp::BitNot,
            Some(Token::Star) => UnaryOp::Deref,
            Some(Token::Ampersand) => UnaryOp::AddrOf,
            _ => return self.parse_postfix(),
        };
        self.advance();
        let operand = match self.parse_unary() {
            Ok(e) => e,
            Err(e) => return Err(e),
        };
        let ghost ov = operand@;
        let e = expr(self.span_from(start), ExprKind::Unary(op, Box::new(operand)));
        assert(e@ == ex(span_from(self@, start), SExprKind::Unary(op, Box::new(ov))));
        Ok(e)
    }

    /// A primary expression followed by `[index]`, `.name`, `->name`,
    /// method calls and calls.
    #[verifier::spinoff_prover]
    fn parse_postfix(&mut self) -> (r: Result<Expr<Parsed>, Diagnostic>)
        requires
            old(self).wf(),
        ensures
            (res_view(r), final(self)@) == sp_postfix(old(self)@),
            moved(old(self)@, final(self)@),
            r is Ok ==> final(self)@.pos > old(self)@.pos,
            final(self)@.pos == old(self)@.pos ==> final(self)@ == old(self)@,
        decreases rem(old(self)@), 55nat,
    {
        reveal(sp_postfix);
        reveal(sp_primary);
        reveal(sp_postfix_rest);
        let mut lhs = match self.parse_primary() {
            Ok(e) => e,
            Err(e) => return Err(e),
        };
        let ghost target = sp_postfix_rest(self@, lhs@);
        loop
            invariant_except_break
                self.wf(),
                moved(old(self)@, self@),
                self@.pos > old(self)@.pos,
                sp_postfix(old(self)@) == target,
                sp_postfix_rest(self@, lhs@) == target,
            ensures
                moved(old(self)@, self@),
                self@.pos > old(self)@.pos,
                target == (Ok::<SE, DV>(lhs@), self@),
                sp_postfix(old(self)@) == target,
            decreases rem(self@),
        {
            reveal(sp_postfix_rest);
            reveal(sp_postfix_op);
            reveal(sp_postfix);
            let ghost before = self@;
            if !(self.check(&Token::LBracket) || self.check(&Token::Arrow) || self.check(
                &Token::Dot,
            ) || self.check(&Token::LParen)) {
                break;
            }
            lhs = match self.parse_postfix_op(lhs) {
                Ok(e) => e,
                Err(e) => return Err(e),
            };
            assert(rem(self@) < rem(before));
        }
        Ok(lhs)
    }

    /// One postfix operation applied to `lhs`: `[index]`, `.name`,
    /// `.name(args)`, `->name`, `->name(args)` or `(args)`.
    #[verifier::spinoff_prover]
    fn parse_postfix_op(&mut self, lhs: Expr<Parsed>) -> (r: Result<Expr<Parsed>, Diagnostic>)
        requires
            old(self).wf(),
        ensures
            (res_view(r), final(self)@) == sp_postfix_op(old(self)@, lhs@),
            moved(old(self)@, final(self)@),
            r is Ok ==> final(self)@.pos > old(self)@.pos,
        decreases rem(old(self)@), 53nat,
    {
        reveal(sp_postfix_op);
        reveal(sp_expr);
        reveal(sp_args);
        let ghost bv = lhs@;
        if self.eat(&Token::LBracket).is_some() {
            let index = match self.parse_expr() {
                Ok(e) => e,
                Err(e) => return Err(e),
            };
            if let Err(e) = self.expect(&Token::RBracket) {
                return Err(e);
            }
            let span = self.span_from(lhs.ann.start);
            let ghost iv = index@;
            let e = expr(span, ExprKind::Index { base: Box::new(lhs), index: Box::new(index) });
            assert(e@ == ex(span, SExprKind::Index { base: Box::new(bv), index: Box::new(iv) }));
            Ok(e)
        } else if self.eat(&Token::Arrow).is_some() {
            let start = lhs.ann.start;
            let derefed = expr(self.span_from(start), ExprKind::Unary(UnaryOp::Deref, Box::new(lhs)));
            let ghost dv = derefed@;
            assert(dv == ex(span_from(self@, start), SExprKind::Unary(UnaryOp::Deref, Box::new(bv))));
            let name = match self.expect_field_name() {
                Ok(n) => n,
                Err(e) => return Err(e),
            };
            if self.check(&Token::LParen) {
                let args = match self.parse_args() {
                    Ok(a) => a,
                    Err(e) => return Err(e),
                };
                let span = self.span_from(start);
                let ghost av = exprs_view(args@);
                let e = expr(span, ExprKind::MethodCall { base: Box::new(derefed), method: name, args });
                assert(e@ == ex(
                    span,
                    SExprKind::MethodCall { base: Box::new(dv), method: name@, args: av },
                ));
                Ok(e)
            } else {
                let span = self.span_from(start);
                let e = expr(span, ExprKind::Field { base: Box::new(derefed), field: name });
                assert(e@ == ex(span, SExprKind::Field { base: Box::new(dv), field: name@ }));
                Ok(e)
            }
        } else if self.eat(&Token::Dot).is_some() {
            let name = match self.expect_field_name() {
                Ok(n) => n,
                Err(e) => return Err(e),
            };
            if self.check(&Token::LParen) {
                let args = match self.parse_args() {
                    Ok(a) => a,
                    Err(e) => return Err(e),
                };
                let span = self.span_from(lhs.ann.start);
                let ghost av = exprs_view(args@);
                let e = expr(span, ExprKind::MethodCall { base: Box::new(lhs), method: name, args });
                assert(e@ == ex(
                    span,
                    SExprKind::MethodCall { base: Box::new(bv), method: name@, args: av },
                ));
                Ok(e)
            } else {
                let span = self.span_from(lhs.ann.start);
                let e = expr(span, ExprKind::Field { base: Box::new(lhs), field: name });
                assert(e@ == ex(span, SExprKind::Field { base: Box::new(bv), field: name@ }));
                Ok(e)
            }
        } else {
            let args = match self.parse_args() {
                Ok(a) => a,
                Err(e) => return Err(e),
            };
            let span = self.span_from(lhs.ann.start);
            let ghost av = exprs_view(args@);
            let e = expr(span, ExprKind::Call { callee: Box::new(lhs), args });
            assert(e@ == ex(span, SExprKind::Call { callee: Box::new(bv), args: av }));
            Ok(e)
        }
    }

    /// `( [expr {, expr}] )`
    #[verifier::spinoff_prover]
    fn parse_args(&mut self) -> (r: Result<Vec<Expr<Parsed>>, Diagnostic>)
        requires
            old(self).wf(),
        ensures
            (
                match r {
                    Ok(a) => Ok(exprs_view(a@)),
                    Err(e) => Err(e@),
                },
                final(self)@,
            ) == sp_args(old(self)@),
            moved(old(self)@, final(self)@),
            r is Ok ==> final(self)@.pos > old(self)@.pos,
        decreases rem(old(self)@), 52nat,
    {
        reveal(sp_args);
        reveal(sp_expr);
        reveal(sp_args_rest);
        if let Err(e) = self.expect(&Token::LParen) {
            return Err(e);
        }
        let mut args: Vec<Expr<Parsed>> = Vec::new();
        assert(exprs_view(args@) =~= Seq::<SE>::empty());
        if !self.check(&Token::RParen) {
            match self.parse_expr() {
                Ok(e) => {
                    proof {
                        lemma_exprs_view_push(args@, e);
                    }
                    args.push(e);
                },
                Err(e) => return Err(e),
            }
            if let Err(e) = self.parse_args_rest(&mut args) {
                return Err(e);
            }
        }
        if let Err(e) = self.expect(&Token::RParen) {
            return Err(e);
        }
        Ok(args)
    }

    /// More `, expr` after the arguments in `args`, which it extends.
    #[verifier::spinoff_prover]
    fn parse_args_rest(&mut self, args: &mut Vec<Expr<Parsed>>) -> (r: Result<(), Diagnostic>)
        requires
            old(self).wf(),
        ensures
            (
                match r {
                    Ok(_) => Ok(exprs_view(final(args)@)),
                    Err(e) => Err(e@),
                },
                final(self)@,
            ) == sp_args_rest(old(self)@, exprs_view(old(args)@)),
            moved(old(self)@, final(self)@),
        decreases rem(old(self)@), 51nat,
    {
        loop
            invariant_except_break
                self.wf(),
                moved(old(self)@, self@),
                sp_args_rest(self@, exprs_view(args@)) == sp_args_rest(
                    old(self)@,
                    exprs_view(old(args)@),
                ),
            ensures
                moved(old(self)@, self@),
                sp_args_rest(old(self)@, exprs_view(old(args)@)) == (
                    Ok::<Seq<SE>, DV>(exprs_view(args@)),
                    self@,
                ),
            decreases rem(self@),
        {
            reveal(sp_args_rest);
            reveal(sp_expr);
            reveal(sp_args);
            let ghost before = self@;
            if self.eat(&Token::Comma).is_none() {
                break;
            }
            match self.parse_expr() {
                Ok(e) => {
                    proof {
                        lemma_exprs_view_push(args@, e);
                    }
                    args.push(e);
                },
                Err(e) => return Err(e),
            }
            assert(rem(self@) < rem(before));
        }
        Ok(())
    }

    /// A literal, a name, `self`, a parenthesized expression, a struct
    /// literal, or a builtin form: `alloc<T>(n)`, `free(e)`, `T::f(..)`,
    /// `std::f(..)`.
    #[verifier::spinoff_prover]
    fn parse_primary(&mut self) -> (r: Result<Expr<Parsed>, Diagnostic>)
        requires
            old(self).wf(),
        ensures
            (res_view(r), final(self)@) == sp_primary(old(self)@),
            moved(old(self)@, final(self)@),
            r is Ok ==> final(self)@.pos > old(self)@.pos,
            final(self)@.pos == old(self)@.pos ==> final(self)@ == old(self)@,
        decreases rem(old(self)@), 51nat,
    {
        reveal(sp_primary);
        reveal(sp_expr);
        reveal(sp_alloc);
        reveal(sp_free);
        reveal(sp_std_call);
        reveal(sp_static_call);
        reveal(sp_struct_lit);
        let start = self.mark();
        let (token, span) = match self.peek_cloned() {
            Some(t) => t,
            None => {
                return Err(err_unexpected_eof(String::from_str("expression"), self.span_from(start)));
            },
        };
        proof {
            reveal_strlit("alloc");
            reveal_strlit("free");
            reveal_strlit("std");
            assert("alloc"@ =~= seq!['a', 'l', 'l', 'o', 'c']);
            assert("free"@ =~= seq!['f', 'r', 'e', 'e']);
            assert("std"@ =~= seq!['s', 't', 'd']);
        }
        // whether `::` comes next, as in `span::new(..)`
        let path_follows = match self.peek_token_at(1) {
            Some(t) => t.same(&Token::ColonColon),
            None => false,
        };
        match token {
            Token::IntLit(n) => {
                self.advance();
                Ok(expr(span, ExprKind::IntLit(n)))
            },
            Token::CharLit(c) => {
                self.advance();
                Ok(expr(span, ExprKind::CharLit(c)))
            },
            Token::StringLit(s) => {
                self.advance();
                Ok(expr(span, ExprKind::StrLit(s)))
            },
            Token::LParen => {
                self.advance();
                let inner = match self.parse_expr() {
                    Ok(e) => e,
                    Err(e) => return Err(e),
                };
                if let Err(e) = self.expect(&Token::RParen) {
                    return Err(e);
                }
                Ok(inner)
            },
            Token::Ident(name) => {
                if is_reserved_name(&name) {
                    if string_eq_str(&name, "alloc") {
                        self.parse_alloc(start)
                    } else {
                        self.parse_free(start)
                    }
                } else if string_eq_str(&name, "std") {
                    self.parse_std_call(start)
                } else {
                    self.advance();
                    if self.check(&Token::ColonColon) {
                        return self.parse_static_call(start, StaticReceiver::Named(name));
                    }
                    if self.allow_struct_lit && self.check(&Token::LBrace) {
                        return self.parse_struct_lit(start, name);
                    }
                    let ghost nv = name@;
                    let e = expr(self.span_from(start), ExprKind::Ident(Ident { name, id: () }));
                    assert(e@ == ex(span_from(self@, start), SExprKind::Ident(sid(nv))));
                    Ok(e)
                }
            },
            Token::Span if path_follows => self.parse_type_static_call(start, StaticReceiver::Span),
            Token::Ptr if path_follows => self.parse_type_static_call(start, StaticReceiver::Ptr),
            Token::Int if path_follows => self.parse_type_static_call(start, StaticReceiver::Int),
            Token::Char if path_follows => self.parse_type_static_call(start, StaticReceiver::Char),
            Token::SelfKw => {
                self.advance();
                let e = expr(span, ExprKind::Ident(Ident { name: String::from_str("self"), id: () }));
                proof {
                    reveal_strlit("self");
                    assert("self"@ =~= seq!['s', 'e', 'l', 'f']);
                }
                Ok(e)
            },
            _ => Err(err_expected_expression(self.found_text(), self.span_from(start))),
        }
    }

    /// `alloc<T>(count)`, at the `alloc`.
    #[verifier::spinoff_prover]
    fn parse_alloc(&mut self, start: usize) -> (r: Result<Expr<Parsed>, Diagnostic>)
        requires
            old(self).wf(),
            !at_end(old(self)@),
        ensures
            (res_view(r), final(self)@) == sp_alloc(old(self)@, start),
            moved(old(self)@, final(self)@),
            final(self)@.pos > old(self)@.pos,
        decreases rem(old(self)@), 50nat,
    {
        reveal(sp_alloc);
        reveal(sp_expr);
        self.advance();
        if let Err(e) = self.expect(&Token::Lt) {
            return Err(e);
        }
        let ty = match self.parse_type() {
            Ok(t) => t,
            Err(e) => return Err(e),
        };
        if let Err(e) = self.expect(&Token::Gt) {
            return Err(e);
        }
        if let Err(e) = self.expect(&Token::LParen) {
            return Err(e);
        }
        let count = match self.parse_expr() {
            Ok(e) => e,
            Err(e) => return Err(e),
        };
        if let Err(e) = self.expect(&Token::RParen) {
            return Err(e);
        }
        let ghost tv = ty@;
        let ghost cv = count@;
        let e = expr(self.span_from(start), ExprKind::Alloc { ty, count: Box::new(count) });
        assert(e@ == ex(span_from(self@, start), SExprKind::Alloc { ty: tv, count: Box::new(cv) }));
        Ok(e)
    }

    /// `free(expr)`, at the `free`.
    #[verifier::spinoff_prover]
    fn parse_free(&mut self, start: usize) -> (r: Result<Expr<Parsed>, Diagnostic>)
        requires
            old(self).wf(),
            !at_end(old(self)@),
        ensures
            (res_view(r), final(self)@) == sp_free(old(self)@, start),
            moved(old(self)@, final(self)@),
            final(self)@.pos > old(self)@.pos,
        decreases rem(old(self)@), 50nat,
    {
        reveal(sp_free);
        reveal(sp_expr);
        self.advance();
        if let Err(e) = self.expect(&Token::LParen) {
            return Err(e);
        }
        let arg = match self.parse_expr() {
            Ok(e) => e,
            Err(e) => return Err(e),
        };
        if let Err(e) = self.expect(&Token::RParen) {
            return Err(e);
        }
        let ghost av = arg@;
        let e = expr(self.span_from(start), ExprKind::Free { expr: Box::new(arg) });
        assert(e@ == ex(span_from(self@, start), SExprKind::Free { expr: Box::new(av) }));
        Ok(e)
    }

    /// `T::method(args)` for a type keyword `T`, at the keyword.
    #[verifier::spinoff_prover]
    fn parse_type_static_call(&mut self, start: usize, receiver: StaticReceiver) -> (r: Result<
        Expr<Parsed>,
        Diagnostic,
    >)
        requires
            old(self).wf(),
            !at_end(old(self)@),
        ensures
            (res_view(r), final(self)@) == sp_static_call(adv(old(self)@), start, receiver@),
            moved(old(self)@, final(self)@),
            final(self)@.pos > old(self)@.pos,
        decreases rem(old(self)@), 50nat,
    {
        reveal(sp_static_call);
        reveal(sp_args);
        self.advance();
        self.parse_static_call(start, receiver)
    }

    /// `std::f(args)`, at the `std`.
    #[verifier::spinoff_prover]
    fn parse_std_call(&mut self, start: usize) -> (r: Result<Expr<Parsed>, Diagnostic>)
        requires
            old(self).wf(),
            !at_end(old(self)@),
        ensures
            (res_view(r), final(self)@) == sp_std_call(old(self)@, start),
            moved(old(self)@, final(self)@),
            final(self)@.pos > old(self)@.pos,
        decreases rem(old(self)@), 50nat,
    {
        reveal(sp_std_call);
        reveal(sp_args);
        self.advance();
        if let Err(e) = self.expect(&Token::ColonColon) {
            return Err(e);
        }
        let func = match self.expect_ident() {
            Ok(f) => f,
            Err(e) => return Err(e),
        };
        let args = match self.parse_args() {
            Ok(a) => a,
            Err(e) => return Err(e),
        };
        let ghost av = exprs_view(args@);
        let e = expr(self.span_from(start), ExprKind::StdCall { func, args });
        assert(e@ == ex(span_from(self@, start), SExprKind::StdCall { func: func@, args: av }));
        Ok(e)
    }

    /// `::method(args)` after the receiver.
    #[verifier::spinoff_prover]
    fn parse_static_call(&mut self, start: usize, receiver: StaticReceiver) -> (r: Result<
        Expr<Parsed>,
        Diagnostic,
    >)
        requires
            old(self).wf(),
        ensures
            (res_view(r), final(self)@) == sp_static_call(old(self)@, start, receiver@),
            moved(old(self)@, final(self)@),
            r is Ok ==> final(self)@.pos > old(self)@.pos,
        decreases rem(old(self)@), 49nat,
    {
        reveal(sp_static_call);
        reveal(sp_args);
        if let Err(e) = self.expect(&Token::ColonColon) {
            return Err(e);
        }
        let method = match self.expect_ident() {
            Ok(m) => m,
            Err(e) => return Err(e),
        };
        let args = match self.parse_args() {
            Ok(a) => a,
            Err(e) => return Err(e),
        };
        let ghost av = exprs_view(args@);
        let ghost rv = receiver@;
        let e = expr(self.span_from(start), ExprKind::StaticCall { receiver, method, args });
        assert(e@ == ex(
            span_from(self@, start),
            SExprKind::StaticCall { receiver: rv, method: method@, args: av },
        ));
        Ok(e)
    }

    /// `{ field: value, ... }` after the struct's name.
    #[verifier::spinoff_prover]
    fn parse_struct_lit(&mut self, start: usize, name: String) -> (r: Result<
        Expr<Parsed>,
        Diagnostic,
    >)
        requires
            old(self).wf(),
        ensures
            (res_view(r), final(self)@) == sp_struct_lit(old(self)@, start, name@),
            moved(old(self)@, final(self)@),
            r is Ok ==> final(self)@.pos > old(self)@.pos,
        decreases rem(old(self)@), 50nat,
    {
        reveal(sp_struct_lit);
        reveal(sp_struct_fields);
        if let Err(e) = self.expect(&Token::LBrace) {
            return Err(e);
        }
        let mut fields: Vec<FieldInit<Parsed>> = Vec::new();
        assert(field_inits_view(fields@) =~= Seq::<(Seq<char>, SE)>::empty());
        if let Err(e) = self.parse_struct_fields(&mut fields) {
            return Err(e);
        }
        if let Err(e) = self.expect(&Token::RBrace) {
            return Err(e);
        }
        let ghost fv = field_inits_view(fields@);
        let e = expr(self.span_from(start), ExprKind::StructLit { name, fields });
        assert(e@ == ex(span_from(self@, start), SExprKind::StructLit { name: name@, fields: fv }));
        Ok(e)
    }

    /// The `name: value` pairs of a struct literal after those in `fields`,
    /// which it extends.
    #[verifier::spinoff_prover]
    fn parse_struct_fields(&mut self, fields: &mut Vec<FieldInit<Parsed>>) -> (r: Result<
        (),
        Diagnostic,
    >)
        requires
            old(self).wf(),
        ensures
            (
                match r {
                    Ok(_) => Ok(field_inits_view(final(fields)@)),
                    Err(e) => Err(e@),
                },
                final(self)@,
            ) == sp_struct_fields(old(self)@, field_inits_view(old(fields)@)),
            moved(old(self)@, final(self)@),
        decreases rem(old(self)@), 49nat,
    {
        loop
            invariant_except_break
                self.wf(),
                moved(old(self)@, self@),
                sp_struct_fields(self@, field_inits_view(fields@)) == sp_struct_fields(
                    old(self)@,
                    field_inits_view(old(fields)@),
                ),
            ensures
                moved(old(self)@, self@),
                sp_struct_fields(old(self)@, field_inits_view(old(fields)@)) == (
                    Ok::<Seq<(Seq<char>, SE)>, DV>(field_inits_view(fields@)),
                    self@,
                ),
            decreases rem(self@),
        {
            reveal(sp_struct_fields);
            reveal(sp_expr);
            let ghost before = self@;
            if self.check(&Token::RBrace) || self.at_end() {
                break;
            }
            let field_name = match self.expect_ident() {
                Ok(n) => n,
                Err(e) => return Err(e),
            };
            if let Err(e) = self.expect(&Token::Colon) {
                return Err(e);
            }
            let value = match self.parse_expr() {
                Ok(e) => e,
                Err(e) => return Err(e),
            };
            let f = FieldInit { name: field_name, value };
            proof {
                lemma_field_inits_view_push(fields@, f);
            }
            fields.push(f);
            if self.eat(&Token::Comma).is_none() {
                break;
            }
            assert(rem(self@) < rem(before));
        }
        Ok(())
    }

    /// An identifier.
    pub(crate) fn expect_ident(&mut self) -> (r: Result<String, Diagnostic>)
        requires
            old(self).wf(),
        ensures
            (res_view(r), final(self)@) == expect_ident(old(self)@),
            moved(old(self)@, final(self)@),
    {
        reveal(expect_ident);
        let start = self.mark();
        match self.peek_cloned() {
            Some((Token::Ident(name), _)) => {
                self.advance();
                Ok(name)
            },
            Some(_) => Err(err_expected_identifier(self.found_text(), self.span_from(start))),
            None => Err(err_unexpected_eof(String::from_str("identifier"), self.span_from(start))),
        }
    }

    /// The name of a field or method: an identifier, or a type keyword taken
    /// as its text.
    fn expect_field_name(&mut self) -> (r: Result<String, Diagnostic>)
        requires
            old(self).wf(),
        ensures
            (res_view(r), final(self)@) == expect_field_name(old(self)@),
            moved(old(self)@, final(self)@),
    {
        reveal(expect_field_name);
        let start = self.mark();
        let keyword_name = match self.peek_token() {
            Some(Token::Int) => Some("int"),
            Some(Token::Char) => Some("char"),
            Some(Token::Void) => Some("void"),
            Some(Token::Fn) => Some("fn"),
            Some(Token::Ptr) => Some("ptr"),
            Some(Token::Span) => Some("span"),
            _ => None,
        };
        match self.peek_cloned() {
            Some((Token::Ident(name), _)) => {
                self.advance();
                Ok(name)
            },
            Some(_) => match keyword_name {
                Some(kw) => {
                    self.advance();
                    Ok(String::from_str(kw))
                },
                None => Err(err_expected_identifier(self.found_text(), self.span_from(start))),
            },
            None => Err(err_unexpected_eof(String::from_str("field name"), self.span_from(start))),
        }
    }
}

} // verus!
