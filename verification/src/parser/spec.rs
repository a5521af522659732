//! The grammar of Minuto as a function of the parser's state: for each rule,
//! what parsing it from a state yields, and the state after it.
use vstd::prelude::*;
pub use crate::parser::state::{
    DV, PState, SE, STy, adv, at_end, check, eat, expect, expect_block_open, expect_semicolon, expected_block, expected_semicolon, invalid_assignment_target, lemma_expect_block_open_step, lemma_expect_semicolon_step, expect_field_name, expect_gt, expect_ident, expected_expression, expected_identifier, expected_type, found_text, group_token_steps, last_end, lemma_eat_step, lemma_expect_gt_step, lemma_expect_field_name_step, lemma_expect_ident_step, lemma_expect_step, mark, moved, peek, peek_tok, peek_tok_at, perr, rem, span_from, state_wf, stmt_keyword, tokens_wf, unexpected_eof, unexpected_token,
};
use crate::ast::expr::{BinOp, UnaryOp};
use crate::ast::view::{
    SBlock, SDecl, SExpr, SExprKind, SFieldDecl, SFnDecl, SIdent, SParam, SParamKind, SProgram,
    SReceiver, SStmt, SStmtKind, SStructDecl, SType,
};
use crate::common::{Parsed, Span};
use crate::diagnostic::{diags_view, error_view, Diagnostic, DiagnosticView, Phase};
use crate::lexer::token::{token_text, Token, TokView};

verus! {

broadcast use group_token_steps;

/// The binary operator a token stands for, its precedence (higher binds
/// tighter) and whether it associates to the right.
pub open spec fn spec_infix_rule(t: TokView) -> Option<(BinOp, u8, bool)> {
    match t {
        TokView::OrOr => Some((BinOp::Or, 1, false)),
        TokView::AndAnd => Some((BinOp::And, 2, false)),
        TokView::Pipe => Some((BinOp::BitOr, 3, false)),
        TokView::Caret => Some((BinOp::BitXor, 4, false)),
        TokView::Ampersand => Some((BinOp::BitAnd, 5, false)),
        TokView::EqEq => Some((BinOp::Eq, 6, false)),
        TokView::NotEq => Some((BinOp::Ne, 6, false)),
        TokView::Lt => Some((BinOp::Lt, 7, false)),
        TokView::LtEq => Some((BinOp::Le, 7, false)),
        TokView::Gt => Some((BinOp::Gt, 7, false)),
        TokView::GtEq => Some((BinOp::Ge, 7, false)),
        TokView::Shl => Some((BinOp::Shl, 8, false)),
        TokView::Shr => Some((BinOp::Shr, 8, false)),
        TokView::Plus => Some((BinOp::Add, 9, false)),
        TokView::Minus => Some((BinOp::Sub, 9, false)),
        TokView::Star => Some((BinOp::Mul, 10, false)),
        TokView::Slash => Some((BinOp::Div, 10, false)),
        TokView::Percent => Some((BinOp::Mod, 10, false)),
        _ => None,
    }
}

/// The prefix operator a token stands for.
pub open spec fn spec_unary_op(t: TokView) -> Option<UnaryOp> {
    match t {
        TokView::Minus => Some(UnaryOp::Neg),
        TokView::Bang => Some(UnaryOp::Not),
        TokView::Tilde => Some(UnaryOp::BitNot),
        TokView::Star => Some(UnaryOp::Deref),
        TokView::Ampersand => Some(UnaryOp::AddrOf),
        _ => None,
    }
}

/// A result with its diagnostic taken by its view.
pub open spec fn span_res(r: Result<Span, Diagnostic>) -> Result<Span, DV> {
    match r {
        Ok(v) => Ok(v),
        Err(d) => Err(d@),
    }
}

/// A result with its value and its diagnostic taken by their views.
pub open spec fn res_view<T: View>(r: Result<T, Diagnostic>) -> Result<T::V, DV> {
    match r {
        Ok(v) => Ok(v@),
        Err(d) => Err(d@),
    }
}

/// A result with its value, and each of its diagnostics, taken by their views.
pub open spec fn res_views<T: View>(r: Result<T, Vec<Diagnostic>>) -> Result<T::V, Seq<DV>> {
    match r {
        Ok(v) => Ok(v@),
        Err(ds) => Err(diags_view(ds@)),
    }
}

pub open spec fn ex(ann: Span, kind: SExprKind<Parsed>) -> SE {
    SExpr { ann, ty: (), kind }
}

pub open spec fn sid(name: Seq<char>) -> SIdent<Parsed> {
    SIdent { name, id: () }
}

// ── Types ──

#[verifier::opaque]
pub open spec fn sp_type(st: PState) -> (Result<STy, DV>, PState)
    decreases rem(st), 3nat,
{
    let start = mark(st);
    if check(st, TokView::Readonly) {
        let st1 = adv(st);
        let (r, st2) = sp_type(st1);
        match r {
            Ok(inner) => (Ok(SType::Readonly(span_from(st2, start), Box::new(inner))), st2),
            Err(e) => (Err(e), st2),
        }
    } else if check(st, TokView::Fn) {
        sp_fn_type(st, start)
    } else {
        match peek(st) {
            None => (Err(unexpected_eof("type"@, span_from(st, start))), st),
            Some((t, span)) => match t@ {
                TokView::Int => (Ok(SType::Int(span)), adv(st)),
                TokView::Char => (Ok(SType::Char(span)), adv(st)),
                TokView::Void => (Ok(SType::Void(span)), adv(st)),
                TokView::Ptr | TokView::Span => {
                    let (r1, st1) = expect(adv(st), TokView::Lt);
                    match r1 {
                        Err(e) => (Err(e), st1),
                        Ok(_) => {
                            let (r2, st2) = sp_type(st1);
                            match r2 {
                                Err(e) => (Err(e), st2),
                                Ok(inner) => {
                                    let (r3, st3) = expect_gt(st2);
                                    match r3 {
                                        Err(e) => (Err(e), st3),
                                        Ok(_) => (
                                            Ok(
                                                if t@ is Ptr {
                                                    SType::Ptr(span_from(st3, start), Box::new(inner))
                                                } else {
                                                    SType::Span(span_from(st3, start), Box::new(inner))
                                                },
                                            ),
                                            st3,
                                        ),
                                    }
                                },
                            }
                        },
                    }
                },
                TokView::Ident(name) => (Ok(SType::Named(span_from(adv(st), start), name)), adv(st)),
                _ => (Err(expected_type(found_text(st), span_from(st, start))), st),
            },
        }
    }
}

/// `fn(params) [-> ret]`, with `void` as the return type when none is given.
#[verifier::opaque]
pub open spec fn sp_fn_type(st: PState, start: usize) -> (Result<STy, DV>, PState)
    decreases rem(st), 2nat,
{
    if !check(st, TokView::Fn) {
        (Err(unexpected_token(token_text(TokView::Fn), found_text(st), span_from(st, mark(st)))), st)
    } else {
        // the caller has seen `fn`
        let (r1, st1) = expect(adv(st), TokView::LParen);
        match r1 {
            Err(e) => (Err(e), st1),
            Ok(_) => {
                let (r2, st2) = if check(st1, TokView::RParen) {
                    (Ok(Seq::<STy>::empty()), st1)
                } else {
                    let (f, sa) = sp_type(st1);
                    match f {
                        Err(e) => (Err(e), sa),
                        Ok(first) => if rem(sa) < rem(st) {
                            sp_type_list_rest(sa, seq![first])
                        } else {
                            (Ok(seq![first]), sa)
                        },
                    }
                };
                match r2 {
                    Err(e) => (Err(e), st2),
                    Ok(params) => {
                        let (r3, st3) = expect(st2, TokView::RParen);
                        match r3 {
                            Err(e) => (Err(e), st3),
                            Ok(_) => {
                                let (ra, st4) = eat(st3, TokView::Arrow);
                                let (r5, st5) = if ra is Some {
                                    if rem(st4) < rem(st) {
                                        sp_type(st4)
                                    } else {
                                        (Ok(SType::Void(span_from(st4, start))), st4)
                                    }
                                } else {
                                    (Ok(SType::Void(span_from(st4, start))), st4)
                                };
                                match r5 {
                                    Err(e) => (Err(e), st5),
                                    Ok(ret) => (
                                        Ok(
                                            SType::Fn {
                                                ann: span_from(st5, start),
                                                params,
                                                ret: Box::new(ret),
                                            },
                                        ),
                                        st5,
                                    ),
                                }
                            },
                        }
                    },
                }
            },
        }
    }
}

/// More `, type` after the types `acc` of a list.
#[verifier::opaque]
pub open spec fn sp_type_list_rest(st: PState, acc: Seq<STy>) -> (Result<Seq<STy>, DV>, PState)
    decreases rem(st), 1nat,
{
    let (c, st1) = eat(st, TokView::Comma);
    if c is None {
        (Ok(acc), st)
    } else {
        let (r, st2) = sp_type(st1);
        match r {
            Err(e) => (Err(e), st2),
            Ok(t) => if rem(st2) < rem(st) {
                sp_type_list_rest(st2, acc.push(t))
            } else {
                (Ok(acc.push(t)), st2)
            },
        }
    }
}


// ── Expressions ──

#[verifier::opaque]
pub open spec fn sp_expr(st: PState) -> (Result<SE, DV>, PState)
    decreases rem(st), 60nat,
{
    sp_assignment(st)
}

/// An expression in which a name followed by `{` is not a struct literal
/// (the condition of `if` and `while`).
#[verifier::opaque]
pub open spec fn sp_expr_no_struct_lit(st: PState) -> (Result<SE, DV>, PState)
    decreases rem(st), 61nat,
{
    let (r, st1) = sp_expr(PState { allow: false, ..st });
    (r, PState { allow: st.allow, ..st1 })
}

/// `binary [= assignment]`: assignment associates to the right.
#[verifier::opaque]
pub open spec fn sp_assignment(st: PState) -> (Result<SE, DV>, PState)
    decreases rem(st), 59nat,
{
    let (r, st1) = sp_binary(st, 0);
    match r {
        Err(e) => (Err(e), st1),
        Ok(lhs) => {
            let (eq, st2) = eat(st1, TokView::Eq);
            if eq is None {
                (Ok(lhs), st1)
            } else if !assignable(lhs) {
                (Err(invalid_assignment_target(lhs.ann)), st2)
            } else if rem(st2) < rem(st) {
                let (r3, st3) = sp_assignment(st2);
                match r3 {
                    Err(e) => (Err(e), st3),
                    Ok(rhs) => (
                        Ok(
                            ex(
                                span_from(st3, lhs.ann.start),
                                SExprKind::Assign { lhs: Box::new(lhs), rhs: Box::new(rhs) },
                            ),
                        ),
                        st3,
                    ),
                }
            } else {
                (Ok(lhs), st2)
            }
        },
    }
}

/// What can stand left of `=`: a name, a field, an element, or what a
/// pointer points to.
pub open spec fn assignable(e: SE) -> bool {
    match e.kind {
        SExprKind::Ident(_) | SExprKind::Field { .. } | SExprKind::Index { .. } => true,
        SExprKind::Unary(op, _) => op == UnaryOp::Deref,
        _ => false,
    }
}

/// Binary operators of precedence at least `min_prec`, by precedence climbing.
#[verifier::opaque]
pub open spec fn sp_binary(st: PState, min_prec: u8) -> (Result<SE, DV>, PState)
    decreases rem(st), 58nat,
{
    let (r, st1) = sp_unary(st);
    match r {
        Err(e) => (Err(e), st1),
        Ok(lhs) => if rem(st1) < rem(st) {
            sp_binary_rest(st1, lhs, min_prec)
        } else {
            (Ok(lhs), st1)
        },
    }
}

/// The operators that follow the left operand `lhs`.
#[verifier::opaque]
pub open spec fn sp_binary_rest(st: PState, lhs: SE, min_prec: u8) -> (Result<SE, DV>, PState)
    decreases rem(st), 57nat,
{
    match peek_tok(st) {
        None => (Ok(lhs), st),
        Some(t) => match spec_infix_rule(t) {
            None => (Ok(lhs), st),
            Some((op, prec, right_assoc)) => if prec < min_prec {
                (Ok(lhs), st)
            } else {
                let next = if right_assoc {
                    prec
                } else {
                    (prec + 1) as u8
                };
                let (r, st2) = sp_binary(adv(st), next);
                match r {
                    Err(e) => (Err(e), st2),
                    Ok(rhs) => {
                        let l2 = ex(
                            span_from(st2, lhs.ann.start),
                            SExprKind::Binary(op, Box::new(lhs), Box::new(rhs)),
                        );
                        if rem(st2) < rem(st) {
                            sp_binary_rest(st2, l2, min_prec)
                        } else {
                            (Ok(l2), st2)
                        }
                    },
                }
            },
        },
    }
}

/// Prefix operators, then a postfix expression.
#[verifier::opaque]
pub open spec fn sp_unary(st: PState) -> (Result<SE, DV>, PState)
    decreases rem(st), 56nat,
{
    let start = mark(st);
    match peek_tok(st) {
        Some(t) => match spec_unary_op(t) {
            Some(op) => {
                let (r, st2) = sp_unary(adv(st));
                match r {
                    Err(e) => (Err(e), st2),
                    Ok(operand) => (
                        Ok(ex(span_from(st2, start), SExprKind::Unary(op, Box::new(operand)))),
                        st2,
                    ),
                }
            },
            None => sp_postfix(st),
        },
        None => sp_postfix(st),
    }
}

/// A primary expression followed by indexing, field accesses, method calls
/// and calls.
#[verifier::opaque]
pub open spec fn sp_postfix(st: PState) -> (Result<SE, DV>, PState)
    decreases rem(st), 55nat,
{
    let (r, st1) = sp_primary(st);
    match r {
        Err(e) => (Err(e), st1),
        Ok(lhs) => if rem(st1) < rem(st) {
            sp_postfix_rest(st1, lhs)
        } else {
            (Ok(lhs), st1)
        },
    }
}

/// Whether a postfix operation (`[`, `->`, `.`, `(`) comes next.
pub open spec fn at_postfix_op(st: PState) -> bool {
    check(st, TokView::LBracket) || check(st, TokView::Arrow) || check(st, TokView::Dot) || check(
        st,
        TokView::LParen,
    )
}

/// The postfix operations that follow `lhs`.
#[verifier::opaque]
pub open spec fn sp_postfix_rest(st: PState, lhs: SE) -> (Result<SE, DV>, PState)
    decreases rem(st), 54nat,
{
    if at_postfix_op(st) {
        let (r, st2) = sp_postfix_op(st, lhs);
        match r {
            Err(e) => (Err(e), st2),
            Ok(l2) => if rem(st2) < rem(st) {
                sp_postfix_rest(st2, l2)
            } else {
                (Ok(l2), st2)
            },
        }
    } else {
        (Ok(lhs), st)
    }
}

/// One postfix operation applied to `lhs`: `[index]`, `.name`, `.name(args)`,
/// `->name`, `->name(args)` or `(args)`. `a->x` reads as `(*a).x`.
#[verifier::opaque]
pub open spec fn sp_postfix_op(st: PState, lhs: SE) -> (Result<SE, DV>, PState)
    decreases rem(st), 53nat,
{
    if check(st, TokView::LBracket) {
        let (r1, st1) = sp_expr(adv(st));
        match r1 {
            Err(e) => (Err(e), st1),
            Ok(index) => {
                let (r2, st2) = expect(st1, TokView::RBracket);
                match r2 {
                    Err(e) => (Err(e), st2),
                    Ok(_) => (
                        Ok(
                            ex(
                                span_from(st2, lhs.ann.start),
                                SExprKind::Index { base: Box::new(lhs), index: Box::new(index) },
                            ),
                        ),
                        st2,
                    ),
                }
            },
        }
    } else if check(st, TokView::Arrow) {
        let st0 = adv(st);
        let start = lhs.ann.start;
        let derefed = ex(span_from(st0, start), SExprKind::Unary(UnaryOp::Deref, Box::new(lhs)));
        let (n, st1) = expect_field_name(st0);
        match n {
            Err(e) => (Err(e), st1),
            Ok(name) => if check(st1, TokView::LParen) {
                let (a, st2) = sp_args(st1);
                match a {
                    Err(e) => (Err(e), st2),
                    Ok(args) => (
                        Ok(
                            ex(
                                span_from(st2, start),
                                SExprKind::MethodCall { base: Box::new(derefed), method: name, args },
                            ),
                        ),
                        st2,
                    ),
                }
            } else {
                (
                    Ok(
                        ex(
                            span_from(st1, start),
                            SExprKind::Field { base: Box::new(derefed), field: name },
                        ),
                    ),
                    st1,
                )
            },
        }
    } else if check(st, TokView::Dot) {
        let (n, st1) = expect_field_name(adv(st));
        match n {
            Err(e) => (Err(e), st1),
            Ok(name) => if check(st1, TokView::LParen) {
                let (a, st2) = sp_args(st1);
                match a {
                    Err(e) => (Err(e), st2),
                    Ok(args) => (
                        Ok(
                            ex(
                                span_from(st2, lhs.ann.start),
                                SExprKind::MethodCall { base: Box::new(lhs), method: name, args },
                            ),
                        ),
                        st2,
                    ),
                }
            } else {
                (
                    Ok(
                        ex(
                            span_from(st1, lhs.ann.start),
                            SExprKind::Field { base: Box::new(lhs), field: name },
                        ),
                    ),
                    st1,
                )
            },
        }
    } else {
        let (a, st2) = sp_args(st);
        match a {
            Err(e) => (Err(e), st2),
            Ok(args) => (
                Ok(ex(span_from(st2, lhs.ann.start), SExprKind::Call { callee: Box::new(lhs), args })),
                st2,
            ),
        }
    }
}

/// `( [expr {, expr}] )`
#[verifier::opaque]
pub open spec fn sp_args(st: PState) -> (Result<Seq<SE>, DV>, PState)
    decreases rem(st), 52nat,
{
    let (r1, st1) = expect(st, TokView::LParen);
    match r1 {
        Err(e) => (Err(e), st1),
        Ok(_) => {
            let (r2, st2) = if check(st1, TokView::RParen) {
                (Ok(Seq::<SE>::empty()), st1)
            } else {
                let (f, sa) = sp_expr(st1);
                match f {
                    Err(e) => (Err(e), sa),
                    Ok(first) => if rem(sa) < rem(st) {
                        sp_args_rest(sa, seq![first])
                    } else {
                        (Ok(seq![first]), sa)
                    },
                }
            };
            match r2 {
                Err(e) => (Err(e), st2),
                Ok(args) => {
                    let (r3, st3) = expect(st2, TokView::RParen);
                    match r3 {
                        Err(e) => (Err(e), st3),
                        Ok(_) => (Ok(args), st3),
                    }
                },
            }
        },
    }
}

/// More `, expr` after the arguments `acc`.
#[verifier::opaque]
pub open spec fn sp_args_rest(st: PState, acc: Seq<SE>) -> (Result<Seq<SE>, DV>, PState)
    decreases rem(st), 51nat,
{
    let (c, st1) = eat(st, TokView::Comma);
    if c is None {
        (Ok(acc), st)
    } else {
        let (r, st2) = sp_expr(st1);
        match r {
            Err(e) => (Err(e), st2),
            Ok(a) => if rem(st2) < rem(st) {
                sp_args_rest(st2, acc.push(a))
            } else {
                (Ok(acc.push(a)), st2)
            },
        }
    }
}

pub open spec fn is_word(t: TokView, w: Seq<char>) -> bool {
    t matches TokView::Ident(n) && n == w
}

/// A literal, a name, a parenthesized expression, a struct literal, or a
/// builtin form (`alloc`, `free`, `T::f(..)`, `std::f(..)`).
#[verifier::opaque]
pub open spec fn sp_primary(st: PState) -> (Result<SE, DV>, PState)
    decreases rem(st), 51nat,
{
    let start = mark(st);
    match peek(st) {
        None => (Err(unexpected_eof("expression"@, span_from(st, start))), st),
        Some((t, span)) => match t@ {
            TokView::IntLit(n) => (Ok(ex(span, SExprKind::IntLit(n))), adv(st)),
            TokView::CharLit(c) => (Ok(ex(span, SExprKind::CharLit(c))), adv(st)),
            TokView::StringLit(s) => (Ok(ex(span, SExprKind::StrLit(s))), adv(st)),
            TokView::LParen => {
                let (r1, st1) = sp_expr(adv(st));
                match r1 {
                    Err(e) => (Err(e), st1),
                    Ok(inner) => {
                        let (r2, st2) = expect(st1, TokView::RParen);
                        match r2 {
                            Err(e) => (Err(e), st2),
                            Ok(_) => (Ok(inner), st2),
                        }
                    },
                }
            },
            TokView::Ident(name) => if name == seq!['a', 'l', 'l', 'o', 'c'] {
                sp_alloc(st, start)
            } else if name == seq!['f', 'r', 'e', 'e'] {
                sp_free(st, start)
            } else if name == seq!['s', 't', 'd'] {
                sp_std_call(st, start)
            } else {
                let st1 = adv(st);
                if check(st1, TokView::ColonColon) {
                    sp_static_call(st1, start, SReceiver::Named(name))
                } else if st.allow && check(st1, TokView::LBrace) {
                    sp_struct_lit(st1, start, name)
                } else {
                    (Ok(ex(span_from(st1, start), SExprKind::Ident(sid(name)))), st1)
                }
            },
            TokView::Span if peek_tok_at(st, 1) == Some(TokView::ColonColon) => sp_static_call(
                adv(st),
                start,
                SReceiver::Span,
            ),
            TokView::Ptr if peek_tok_at(st, 1) == Some(TokView::ColonColon) => sp_static_call(
                adv(st),
                start,
                SReceiver::Ptr,
            ),
            TokView::Int if peek_tok_at(st, 1) == Some(TokView::ColonColon) => sp_static_call(
                adv(st),
                start,
                SReceiver::Int,
            ),
            TokView::Char if peek_tok_at(st, 1) == Some(TokView::ColonColon) => sp_static_call(
                adv(st),
                start,
                SReceiver::Char,
            ),
            TokView::SelfKw => (
                Ok(ex(span, SExprKind::Ident(sid(seq!['s', 'e', 'l', 'f'])))),
                adv(st),
            ),
            _ => (Err(expected_expression(found_text(st), span_from(st, start))), st),
        },
    }
}

/// `alloc<T>(count)`, at the `alloc`.
#[verifier::opaque]
pub open spec fn sp_alloc(st: PState, start: usize) -> (Result<SE, DV>, PState)
    decreases rem(st), 50nat,
{
    if peek(st) is None {
        (Err(unexpected_eof("expression"@, span_from(st, start))), st)
    } else {
        let (r1, st1) = expect(adv(st), TokView::Lt);
        match r1 {
            Err(e) => (Err(e), st1),
            Ok(_) => {
                let (r2, st2) = sp_type(st1);
                match r2 {
                    Err(e) => (Err(e), st2),
                    Ok(ty) => {
                        let (r3, st3) = expect(st2, TokView::Gt);
                        match r3 {
                            Err(e) => (Err(e), st3),
                            Ok(_) => {
                                let (r4, st4) = expect(st3, TokView::LParen);
                                match r4 {
                                    Err(e) => (Err(e), st4),
                                    Ok(_) => if rem(st4) < rem(st) {
                                        let (r5, st5) = sp_expr(st4);
                                        match r5 {
                                            Err(e) => (Err(e), st5),
                                            Ok(count) => {
                                                let (r6, st6) = expect(st5, TokView::RParen);
                                                match r6 {
                                                    Err(e) => (Err(e), st6),
                                                    Ok(_) => (
                                                        Ok(
                                                            ex(
                                                                span_from(st6, start),
                                                                SExprKind::Alloc {
                                                                    ty,
                                                                    count: Box::new(count),
                                                                },
                                                            ),
                                                        ),
                                                        st6,
                                                    ),
                                                }
                                            },
                                        }
                                    } else {
                                        (Err(unexpected_eof("expression"@, span_from(st4, start))), st4)
                                    },
                                }
                            },
                        }
                    },
                }
            },
        }
    }
}

/// `free(expr)`, at the `free`.
#[verifier::opaque]
pub open spec fn sp_free(st: PState, start: usize) -> (Result<SE, DV>, PState)
    decreases rem(st), 50nat,
{
    if peek(st) is None {
        (Err(unexpected_eof("expression"@, span_from(st, start))), st)
    } else {
        let (r1, st1) = expect(adv(st), TokView::LParen);
        match r1 {
            Err(e) => (Err(e), st1),
            Ok(_) => {
                let (r2, st2) = sp_expr(st1);
                match r2 {
                    Err(e) => (Err(e), st2),
                    Ok(arg) => {
                        let (r3, st3) = expect(st2, TokView::RParen);
                        match r3 {
                            Err(e) => (Err(e), st3),
                            Ok(_) => (
                                Ok(ex(span_from(st3, start), SExprKind::Free { expr: Box::new(arg) })),
                                st3,
                            ),
                        }
                    },
                }
            },
        }
    }
}

/// `std::f(args)`, at the `std`.
#[verifier::opaque]
pub open spec fn sp_std_call(st: PState, start: usize) -> (Result<SE, DV>, PState)
    decreases rem(st), 50nat,
{
    if peek(st) is None {
        (Err(unexpected_eof("expression"@, span_from(st, start))), st)
    } else {
        let (r1, st1) = expect(adv(st), TokView::ColonColon);
        match r1 {
            Err(e) => (Err(e), st1),
            Ok(_) => {
                let (r2, st2) = expect_ident(st1);
                match r2 {
                    Err(e) => (Err(e), st2),
                    Ok(func) => {
                        let (r3, st3) = sp_args(st2);
                        match r3 {
                            Err(e) => (Err(e), st3),
                            Ok(args) => (
                                Ok(ex(span_from(st3, start), SExprKind::StdCall { func, args })),
                                st3,
                            ),
                        }
                    },
                }
            },
        }
    }
}

/// `::method(args)` after the receiver.
#[verifier::opaque]
pub open spec fn sp_static_call(st: PState, start: usize, receiver: SReceiver) -> (
    Result<SE, DV>,
    PState,
)
    decreases rem(st), 50nat,
{
    let (r1, st1) = expect(st, TokView::ColonColon);
    match r1 {
        Err(e) => (Err(e), st1),
        Ok(_) => {
            let (r2, st2) = expect_ident(st1);
            match r2 {
                Err(e) => (Err(e), st2),
                Ok(method) => {
                    let (r3, st3) = sp_args(st2);
                    match r3 {
                        Err(e) => (Err(e), st3),
                        Ok(args) => (
                            Ok(
                                ex(
                                    span_from(st3, start),
                                    SExprKind::StaticCall { receiver, method, args },
                                ),
                            ),
                            st3,
                        ),
                    }
                },
            }
        },
    }
}

/// `{ field: value, ... }` after the struct's name.
#[verifier::opaque]
pub open spec fn sp_struct_lit(st: PState, start: usize, name: Seq<char>) -> (
    Result<SE, DV>,
    PState,
)
    decreases rem(st), 50nat,
{
    let (r1, st1) = expect(st, TokView::LBrace);
    match r1 {
        Err(e) => (Err(e), st1),
        Ok(_) => {
            let (r2, st2) = if rem(st1) < rem(st) {
                sp_struct_fields(st1, Seq::empty())
            } else {
                (Ok(Seq::empty()), st1)
            };
            match r2 {
                Err(e) => (Err(e), st2),
                Ok(fields) => {
                    let (r3, st3) = expect(st2, TokView::RBrace);
                    match r3 {
                        Err(e) => (Err(e), st3),
                        Ok(_) => (
                            Ok(ex(span_from(st3, start), SExprKind::StructLit { name, fields })),
                            st3,
                        ),
                    }
                },
            }
        },
    }
}

/// The `name: value` pairs of a struct literal after `acc`, each but the last
/// followed by a comma (a trailing comma is allowed).
#[verifier::opaque]
pub open spec fn sp_struct_fields(st: PState, acc: Seq<(Seq<char>, SE)>) -> (
    Result<Seq<(Seq<char>, SE)>, DV>,
    PState,
)
    decreases rem(st), 49nat,
{
    if check(st, TokView::RBrace) || at_end(st) {
        (Ok(acc), st)
    } else {
        let (r1, st1) = expect_ident(st);
        match r1 {
            Err(e) => (Err(e), st1),
            Ok(fname) => {
                let (r2, st2) = expect(st1, TokView::Colon);
                match r2 {
                    Err(e) => (Err(e), st2),
                    Ok(_) => {
                        let (r3, st3) = sp_expr(st2);
                        match r3 {
                            Err(e) => (Err(e), st3),
                            Ok(value) => {
                                let acc2 = acc.push((fname, value));
                                let (c, st4) = eat(st3, TokView::Comma);
                                if c is None {
                                    (Ok(acc2), st3)
                                } else if rem(st4) < rem(st) {
                                    sp_struct_fields(st4, acc2)
                                } else {
                                    (Ok(acc2), st4)
                                }
                            },
                        }
                    },
                }
            },
        }
    }
}

// ── Statements ──

pub type SSt = SStmt<Parsed>;

pub type SBl = SBlock<Parsed>;

pub type SKind = SStmtKind<Parsed>;

/// Error recovery inside a block: skip to just after the next `;`, or to the
/// next `}` or statement keyword, whichever comes first.
#[verifier::opaque]
pub open spec fn sp_synchronize(st: PState) -> PState
    decreases rem(st),
{
    match peek_tok(st) {
        None => st,
        Some(TokView::Semicolon) => adv(st),
        Some(TokView::RBrace) | Some(TokView::Var) | Some(TokView::Const) | Some(TokView::Return)
        | Some(TokView::If) | Some(TokView::While) | Some(TokView::Break) | Some(
            TokView::Continue,
        ) => st,
        Some(_) => sp_synchronize(adv(st)),
    }
}

/// Error recovery between declarations: skip to the next `fn` or `struct`, or
/// to just after the next `}`.
#[verifier::opaque]
pub open spec fn sp_synchronize_top_level(st: PState) -> PState
    decreases rem(st),
{
    match peek_tok(st) {
        None => st,
        Some(TokView::Fn) | Some(TokView::Struct) => st,
        Some(TokView::RBrace) => adv(st),
        Some(_) => sp_synchronize_top_level(adv(st)),
    }
}

/// `var name [: type] = init;`, at the `var`.
#[verifier::opaque]
pub open spec fn sp_var_decl(st: PState) -> (Result<SKind, DV>, PState) {
    let (r1, st1) = expect_ident(adv(st));
    match r1 {
        Err(e) => (Err(e), st1),
        Ok(name) => {
            let (c, st2) = eat(st1, TokView::Colon);
            let (rt, st3) = if c is Some {
                let (t, s) = sp_type(st2);
                match t {
                    Err(e) => (Err(e), s),
                    Ok(t) => (Ok(Some(t)), s),
                }
            } else {
                (Ok(None), st2)
            };
            match rt {
                Err(e) => (Err(e), st3),
                Ok(ty) => {
                    let (r4, st4) = expect(st3, TokView::Eq);
                    match r4 {
                        Err(e) => (Err(e), st4),
                        Ok(_) => {
                            let (r5, st5) = sp_expr(st4);
                            match r5 {
                                Err(e) => (Err(e), st5),
                                Ok(init) => {
                                    let (r6, st6) = expect_semicolon(st5);
                                    match r6 {
                                        Err(e) => (Err(e), st6),
                                        Ok(_) => (
                                            Ok(SStmtKind::VarDecl { name: sid(name), ty, init }),
                                            st6,
                                        ),
                                    }
                                },
                            }
                        },
                    }
                },
            }
        },
    }
}

/// `const name: type = init;`, at the `const`.
#[verifier::opaque]
pub open spec fn sp_const_decl(st: PState) -> (Result<SKind, DV>, PState) {
    let (r1, st1) = expect_ident(adv(st));
    match r1 {
        Err(e) => (Err(e), st1),
        Ok(name) => {
            let (r2, st2) = expect(st1, TokView::Colon);
            match r2 {
                Err(e) => (Err(e), st2),
                Ok(_) => {
                    let (r3, st3) = sp_type(st2);
                    match r3 {
                        Err(e) => (Err(e), st3),
                        Ok(ty) => {
                            let (r4, st4) = expect(st3, TokView::Eq);
                            match r4 {
                                Err(e) => (Err(e), st4),
                                Ok(_) => {
                                    let (r5, st5) = sp_expr(st4);
                                    match r5 {
                                        Err(e) => (Err(e), st5),
                                        Ok(init) => {
                                            let (r6, st6) = expect_semicolon(st5);
                                            match r6 {
                                                Err(e) => (Err(e), st6),
                                                Ok(_) => (
                                                    Ok(
                                                        SStmtKind::ConstDecl {
                                                            name: sid(name),
                                                            ty,
                                                            init,
                                                        },
                                                    ),
                                                    st6,
                                                ),
                                            }
                                        },
                                    }
                                },
                            }
                        },
                    }
                },
            }
        },
    }
}

/// `return [expr];`, at the `return`.
#[verifier::opaque]
pub open spec fn sp_return_stmt(st: PState) -> (Result<SKind, DV>, PState) {
    let (s, st1) = eat(adv(st), TokView::Semicolon);
    if s is Some {
        (Ok(SStmtKind::Return(None)), st1)
    } else {
        let (r2, st2) = sp_expr(adv(st));
        match r2 {
            Err(e) => (Err(e), st2),
            Ok(e) => {
                let (r3, st3) = expect_semicolon(st2);
                match r3 {
                    Err(err) => (Err(err), st3),
                    Ok(_) => (Ok(SStmtKind::Return(Some(e))), st3),
                }
            },
        }
    }
}

/// A statement; a failure gives the diagnostics it produced.
#[verifier::opaque]
pub open spec fn sp_stmt(st: PState) -> (Result<SSt, Seq<DV>>, PState)
    decreases rem(st), 83nat,
{
    let start = mark(st);
    match peek_tok(st) {
        None => (Err(seq![unexpected_eof("statement"@, span_from(st, start))]), st),
        Some(t) => {
            let (r, st1): (Result<SKind, Seq<DV>>, PState) = match t {
                TokView::Var | TokView::Const | TokView::Return => {
                    let (r, s) = if t is Var {
                        sp_var_decl(st)
                    } else if t is Const {
                        sp_const_decl(st)
                    } else {
                        sp_return_stmt(st)
                    };
                    match r {
                        Err(e) => (Err(seq![e]), s),
                        Ok(k) => (Ok(k), s),
                    }
                },
                TokView::If => sp_if_stmt(st),
                TokView::While => sp_while_stmt(st),
                TokView::Break | TokView::Continue => {
                    let (r, s) = expect_semicolon(adv(st));
                    match r {
                        Err(e) => (Err(seq![e]), s),
                        Ok(_) => (
                            Ok(
                                if t is Break {
                                    SStmtKind::Break
                                } else {
                                    SStmtKind::Continue
                                },
                            ),
                            s,
                        ),
                    }
                },
                _ => {
                    let (r, s) = sp_expr(st);
                    match r {
                        Err(e) => (Err(seq![e]), s),
                        Ok(e) => {
                            let (r2, s2) = expect_semicolon(s);
                            match r2 {
                                Err(err) => (Err(seq![err]), s2),
                                Ok(_) => (Ok(SStmtKind::Expr(e)), s2),
                            }
                        },
                    }
                },
            };
            match r {
                Err(es) => (Err(es), st1),
                Ok(kind) => (Ok(SStmt { ann: span_from(st1, start), kind }), st1),
            }
        },
    }
}

/// `if cond block {else if cond block} [else block]`, at the `if`.
#[verifier::opaque]
pub open spec fn sp_if_stmt(st: PState) -> (Result<SKind, Seq<DV>>, PState)
    decreases rem(st), 82nat,
{
    let (rc, st1) = sp_expr_no_struct_lit(adv(st));
    match rc {
        Err(e) => (Err(seq![e]), st1),
        Ok(cond) => if rem(st1) < rem(st) {
            let (rb, st2) = sp_block(st1);
            match rb {
                Err(es) => (Err(es), st2),
                Ok(then_block) => if rem(st2) < rem(st) {
                    let (rr, st3) = sp_if_rest(st2, Seq::empty());
                    match rr {
                        Err(es) => (Err(es), st3),
                        Ok((else_ifs, else_block)) => (
                            Ok(SStmtKind::If { cond, then_block, else_ifs, else_block }),
                            st3,
                        ),
                    }
                } else {
                    (Ok(SStmtKind::If { cond, then_block, else_ifs: Seq::empty(), else_block: None }), st2)
                },
            }
        } else {
            (Err(Seq::empty()), st1)
        },
    }
}

/// The `else if` branches after `acc`, and the final `else` block if any.
#[verifier::opaque]
pub open spec fn sp_if_rest(st: PState, acc: Seq<(SE, SBl)>) -> (
    Result<(Seq<(SE, SBl)>, Option<SBl>), Seq<DV>>,
    PState,
)
    decreases rem(st), 81nat,
{
    let (e, st1) = eat(st, TokView::Else);
    if e is None {
        (Ok((acc, None)), st)
    } else if check(st1, TokView::If) {
        let (rc, st3) = sp_expr_no_struct_lit(adv(st1));
        match rc {
            Err(err) => (Err(seq![err]), st3),
            Ok(cond) => if rem(st3) < rem(st) {
                let (rb, st4) = sp_block(st3);
                match rb {
                    Err(es) => (Err(es), st4),
                    Ok(b) => if rem(st4) < rem(st) {
                        sp_if_rest(st4, acc.push((cond, b)))
                    } else {
                        (Ok((acc.push((cond, b)), None)), st4)
                    },
                }
            } else {
                (Err(Seq::empty()), st3)
            },
        }
    } else {
        let (rb, st2) = sp_block(st1);
        match rb {
            Err(es) => (Err(es), st2),
            Ok(b) => (Ok((acc, Some(b))), st2),
        }
    }
}

/// `while cond block`, at the `while`.
#[verifier::opaque]
pub open spec fn sp_while_stmt(st: PState) -> (Result<SKind, Seq<DV>>, PState)
    decreases rem(st), 82nat,
{
    let (rc, st1) = sp_expr_no_struct_lit(adv(st));
    match rc {
        Err(e) => (Err(seq![e]), st1),
        Ok(cond) => if rem(st1) < rem(st) {
            let (rb, st2) = sp_block(st1);
            match rb {
                Err(es) => (Err(es), st2),
                Ok(body) => (Ok(SStmtKind::While { cond, body }), st2),
            }
        } else {
            (Err(Seq::empty()), st1)
        },
    }
}

/// `{ stmt* }`. A statement that fails is skipped by `sp_synchronize` and
/// parsing goes on; the block then fails with every diagnostic collected.
/// A missing `}` fails with that diagnostic alone.
#[verifier::opaque]
pub open spec fn sp_block(st: PState) -> (Result<SBl, Seq<DV>>, PState)
    decreases rem(st), 80nat,
{
    let (r1, st1) = expect_block_open(st);
    match r1 {
        Err(e) => (Err(seq![e]), st1),
        Ok(_) => {
            let start = mark(st1);
            let (stmts, errs, st2) = sp_block_rest(st1, Seq::empty(), Seq::empty());
            let (r3, st3) = expect(st2, TokView::RBrace);
            match r3 {
                Err(e) => (Err(seq![e]), st3),
                Ok(_) => if errs.len() > 0 {
                    (Err(errs), st3)
                } else {
                    (Ok(SBlock { ann: span_from(st3, start), stmts }), st3)
                },
            }
        },
    }
}

/// The statements of a block after `stmts`, with the diagnostics `errs`
/// collected so far, up to the `}` or the end.
#[verifier::opaque]
pub open spec fn sp_block_rest(st: PState, stmts: Seq<SSt>, errs: Seq<DV>) -> (
    Seq<SSt>,
    Seq<DV>,
    PState,
)
    decreases rem(st), 84nat,
{
    if check(st, TokView::RBrace) || at_end(st) {
        (stmts, errs, st)
    } else {
        let (r, st1) = sp_stmt(st);
        let (stmts2, errs2, st2) = match r {
            Ok(s) => (stmts.push(s), errs, st1),
            Err(es) => (stmts, errs + es, sp_synchronize(st1)),
        };
        if rem(st2) < rem(st) {
            sp_block_rest(st2, stmts2, errs2)
        } else {
            (stmts2, errs2, st2)
        }
    }
}

// ── Declarations ──

pub type SFn = SFnDecl<Parsed>;

pub type SPar = SParam<Parsed>;

/// A parameter: `self [: type]` or `name: type`.
#[verifier::opaque]
pub open spec fn sp_param(st: PState) -> (Result<SPar, DV>, PState) {
    let start = mark(st);
    if check(st, TokView::SelfKw) {
        let (c, st1) = eat(adv(st), TokView::Colon);
        let (rt, st2) = if c is Some {
            let (t, s) = sp_type(st1);
            match t {
                Err(e) => (Err(e), s),
                Ok(t) => (Ok(Some(t)), s),
            }
        } else {
            (Ok(None), st1)
        };
        match rt {
            Err(e) => (Err(e), st2),
            Ok(ty) => (Ok(SParam { ann: span_from(st2, start), kind: SParamKind::SelfParam { ty } }), st2),
        }
    } else {
        let (r1, st1) = expect_ident(st);
        match r1 {
            Err(e) => (Err(e), st1),
            Ok(name) => {
                let (r2, st2) = expect(st1, TokView::Colon);
                match r2 {
                    Err(e) => (Err(e), st2),
                    Ok(_) => {
                        let (r3, st3) = sp_type(st2);
                        match r3 {
                            Err(e) => (Err(e), st3),
                            Ok(ty) => (
                                Ok(
                                    SParam {
                                        ann: span_from(st3, start),
                                        kind: SParamKind::Named { name: sid(name), ty },
                                    },
                                ),
                                st3,
                            ),
                        }
                    },
                }
            },
        }
    }
}

/// More `, param` after the parameters `acc`.
#[verifier::opaque]
pub open spec fn sp_params_rest(st: PState, acc: Seq<SPar>) -> (Result<Seq<SPar>, DV>, PState)
    decreases rem(st),
{
    let (c, st1) = eat(st, TokView::Comma);
    if c is None {
        (Ok(acc), st)
    } else {
        let (r, st2) = sp_param(st1);
        match r {
            Err(e) => (Err(e), st2),
            Ok(p) => if rem(st2) < rem(st) {
                sp_params_rest(st2, acc.push(p))
            } else {
                (Ok(acc.push(p)), st2)
            },
        }
    }
}

/// `( [param {, param}] )`
#[verifier::opaque]
pub open spec fn sp_params(st: PState) -> (Result<Seq<SPar>, DV>, PState) {
    let (r1, st1) = expect(st, TokView::LParen);
    match r1 {
        Err(e) => (Err(e), st1),
        Ok(_) => {
            let (r2, st2) = if check(st1, TokView::RParen) {
                (Ok(Seq::<SPar>::empty()), st1)
            } else {
                let (f, sa) = sp_param(st1);
                match f {
                    Err(e) => (Err(e), sa),
                    Ok(first) => sp_params_rest(sa, seq![first]),
                }
            };
            match r2 {
                Err(e) => (Err(e), st2),
                Ok(params) => {
                    let (r3, st3) = expect(st2, TokView::RParen);
                    match r3 {
                        Err(e) => (Err(e), st3),
                        Ok(_) => (Ok(params), st3),
                    }
                },
            }
        },
    }
}

/// `fn name(params) [-> type] block`, at the `fn`; `void` is the return type
/// when none is given.
#[verifier::opaque]
pub open spec fn sp_fn_decl(st: PState, start: usize) -> (Result<SFn, Seq<DV>>, PState) {
    let (r1, st1) = expect_ident(adv(st));
    match r1 {
        Err(e) => (Err(seq![e]), st1),
        Ok(name) => {
            let (r2, st2) = sp_params(st1);
            match r2 {
                Err(e) => (Err(seq![e]), st2),
                Ok(params) => {
                    let (a, st3) = eat(st2, TokView::Arrow);
                    let (r4, st4) = if a is Some {
                        sp_type(st3)
                    } else {
                        (Ok(SType::Void(span_from(st3, start))), st3)
                    };
                    match r4 {
                        Err(e) => (Err(seq![e]), st4),
                        Ok(ret_ty) => {
                            let (r5, st5) = sp_block(st4);
                            match r5 {
                                Err(es) => (Err(es), st5),
                                Ok(body) => (
                                    Ok(
                                        SFnDecl {
                                            ann: span_from(st5, start),
                                            name: sid(name),
                                            params,
                                            ret_ty,
                                            body,
                                        },
                                    ),
                                    st5,
                                ),
                            }
                        },
                    }
                },
            }
        },
    }
}

/// `name: type,` inside a struct.
#[verifier::opaque]
pub open spec fn sp_field_decl(st: PState) -> (Result<SFieldDecl<Parsed>, DV>, PState) {
    let start = mark(st);
    let (r1, st1) = expect_ident(st);
    match r1 {
        Err(e) => (Err(e), st1),
        Ok(name) => {
            let (r2, st2) = expect(st1, TokView::Colon);
            match r2 {
                Err(e) => (Err(e), st2),
                Ok(_) => {
                    let (r3, st3) = sp_type(st2);
                    match r3 {
                        Err(e) => (Err(e), st3),
                        Ok(ty) => {
                            let (r4, st4) = expect(st3, TokView::Comma);
                            match r4 {
                                Err(e) => (Err(e), st4),
                                Ok(_) => (Ok(SFieldDecl { ann: span_from(st4, start), name, ty }), st4),
                            }
                        },
                    }
                },
            }
        },
    }
}

/// The members of a struct after the fields `fields` and methods `methods`
/// read so far, with the diagnostics `errs`, up to the `}` or the end. A
/// method that fails is skipped by `sp_synchronize_top_level`; a field that
/// fails by `sp_synchronize`, and by one more token if that skipped nothing.
#[verifier::opaque]
pub open spec fn sp_struct_body(
    st: PState,
    fields: Seq<SFieldDecl<Parsed>>,
    methods: Seq<SFn>,
    errs: Seq<DV>,
) -> (Seq<SFieldDecl<Parsed>>, Seq<SFn>, Seq<DV>, PState)
    decreases rem(st),
{
    if check(st, TokView::RBrace) || at_end(st) {
        (fields, methods, errs, st)
    } else {
        let (f2, m2, e2, st2) = if check(st, TokView::Fn) {
            let (r, st1) = sp_fn_decl(st, mark(st));
            match r {
                Ok(m) => (fields, methods.push(m), errs, st1),
                Err(es) => (fields, methods, errs + es, sp_synchronize_top_level(st1)),
            }
        } else {
            let (r, st1) = sp_field_decl(st);
            match r {
                Ok(f) => (fields.push(f), methods, errs, st1),
                Err(e) => {
                    let s = sp_synchronize(st1);
                    (fields, methods, errs.push(e), if s.pos == st.pos {
                        adv(s)
                    } else {
                        s
                    })
                },
            }
        };
        if rem(st2) < rem(st) {
            sp_struct_body(st2, f2, m2, e2)
        } else {
            (f2, m2, e2, st2)
        }
    }
}

/// `struct Name { member* }`, at the `struct`. A struct whose members
/// produced diagnostics fails with all of them once its `}` is read; a
/// missing `}` adds its own.
#[verifier::opaque]
pub open spec fn sp_struct_decl(st: PState, start: usize) -> (
    Result<SStructDecl<Parsed>, Seq<DV>>,
    PState,
) {
    let (r1, st1) = expect_ident(adv(st));
    match r1 {
        Err(e) => (Err(seq![e]), st1),
        Ok(name) => {
            let (r2, st2) = expect(st1, TokView::LBrace);
            match r2 {
                Err(e) => (Err(seq![e]), st2),
                Ok(_) => {
                    let (fields, methods, errs, st3) = sp_struct_body(
                        st2,
                        Seq::empty(),
                        Seq::empty(),
                        Seq::empty(),
                    );
                    let (r4, st4) = expect(st3, TokView::RBrace);
                    match r4 {
                        Err(e) => (Err(errs.push(e)), st4),
                        Ok(_) => if errs.len() > 0 {
                            (Err(errs), st4)
                        } else {
                            (
                                Ok(
                                    SStructDecl {
                                        ann: span_from(st4, start),
                                        name: sid(name),
                                        fields,
                                        methods,
                                    },
                                ),
                                st4,
                            )
                        },
                    }
                },
            }
        },
    }
}

/// A declaration: a function or a struct.
#[verifier::opaque]
pub open spec fn sp_decl(st: PState) -> (Result<SDecl<Parsed>, Seq<DV>>, PState) {
    let start = mark(st);
    match peek_tok(st) {
        Some(TokView::Fn) => {
            let (r, st1) = sp_fn_decl(st, start);
            match r {
                Err(es) => (Err(es), st1),
                Ok(f) => (Ok(SDecl::Fn(f)), st1),
            }
        },
        Some(TokView::Struct) => {
            let (r, st1) = sp_struct_decl(st, start);
            match r {
                Err(es) => (Err(es), st1),
                Ok(s) => (Ok(SDecl::Struct(s)), st1),
            }
        },
        Some(_) => (
            Err(seq![unexpected_token("fn or struct"@, found_text(st), span_from(st, start))]),
            st,
        ),
        None => (Err(seq![unexpected_eof("declaration"@, span_from(st, start))]), st),
    }
}

/// The declarations after `decls`, with the diagnostics `errs`, to the end of
/// the tokens. A declaration that fails is skipped by
/// `sp_synchronize_top_level`.
#[verifier::opaque]
pub open spec fn sp_program_rest(st: PState, decls: Seq<SDecl<Parsed>>, errs: Seq<DV>) -> (
    Seq<SDecl<Parsed>>,
    Seq<DV>,
    PState,
)
    decreases rem(st),
{
    if at_end(st) {
        (decls, errs, st)
    } else {
        let (r, st1) = sp_decl(st);
        let (d2, e2, st2) = match r {
            Ok(d) => (decls.push(d), errs, st1),
            Err(es) => (decls, errs + es, sp_synchronize_top_level(st1)),
        };
        if rem(st2) < rem(st) {
            sp_program_rest(st2, d2, e2)
        } else {
            (d2, e2, st2)
        }
    }
}

/// A whole program: every declaration, or every diagnostic if any failed.
#[verifier::opaque]
pub open spec fn sp_program(st: PState) -> (Result<SProgram<Parsed>, Seq<DV>>, PState) {
    let (decls, errs, st1) = sp_program_rest(st, Seq::empty(), Seq::empty());
    if errs.len() > 0 {
        (Err(errs), st1)
    } else {
        (Ok(SProgram { decls }), st1)
    }
}

} // verus!
