//! What the parser guarantees of operator precedence and associativity.
use vstd::prelude::*;
use crate::ast::expr::{is_reserved, BinOp, UnaryOp};
use crate::ast::view::SExprKind;
use crate::ast::view::SDecl;
use crate::common::{Parsed, Span};
use crate::lexer::token::{Token, TokView};
use crate::parser::spec::{
    adv, at_end, at_postfix_op, check, ex, expect_gt, peek, sp_decl, sp_program, sp_program_rest,
    sp_synchronize_top_level, DV, eat, sp_block, sp_expr_no_struct_lit, sp_if_rest, sp_param,
    sp_params_rest, SBl, SPar, expect, expect_ident, sp_type, sp_fn_type, sp_type_list_rest, group_token_steps, mark, peek_tok, rem, sid, sp_alloc,
    sp_args, sp_args_rest, sp_assignment, sp_binary, sp_binary_rest, sp_expr, sp_free,
    sp_postfix, sp_postfix_op, sp_postfix_rest, sp_primary, sp_static_call, sp_std_call,
    sp_struct_fields, sp_struct_lit, sp_unary, span_from, spec_infix_rule, spec_unary_op, PState, SE,
};

verus! {

broadcast use group_token_steps;

/// A name that is not one of the builtin forms (`alloc`, `free`, `std`).
pub open spec fn plain_name(n: Seq<char>) -> bool {
    !is_reserved(n) && n != seq!['s', 't', 'd']
}

/// The expression is the name `n`.
pub open spec fn is_name(e: SE, n: Seq<char>) -> bool {
    e.kind == SExprKind::Ident(sid(n))
}

/// `e` is `(a o1 b) o2 c`.
pub open spec fn grouped_left(e: SE, o1: BinOp, o2: BinOp, a: Seq<char>, b: Seq<char>, c: Seq<char>) -> bool {
    &&& e.kind matches SExprKind::Binary(op, l, r) && op == o2 && is_name(*r, c) && (
    l.kind matches SExprKind::Binary(op1, x, y) && op1 == o1 && is_name(*x, a) && is_name(*y, b))
}

/// `e` is `a o1 (b o2 c)`.
pub open spec fn grouped_right(e: SE, o1: BinOp, o2: BinOp, a: Seq<char>, b: Seq<char>, c: Seq<char>) -> bool {
    &&& e.kind matches SExprKind::Binary(op, l, r) && op == o1 && is_name(*l, a) && (
    r.kind matches SExprKind::Binary(op2, x, y) && op2 == o2 && is_name(*x, b) && is_name(*y, c))
}

/// Every binary operator has a precedence from 1 to 10 and associates to
/// the left.
pub proof fn law_infix_rules(t: TokView)
    ensures
        spec_infix_rule(t) matches Some((op, prec, right_assoc)) ==> 1 <= prec <= 10 && !right_assoc,
{
}

/// The table of binary operators, level by level from the loosest: `||`;
/// `&&`; `|`; `^`; `&`; `==` `!=`; `<` `<=` `>` `>=`; `<<` `>>`; `+` `-`;
/// and `*` `/` `%` binding tightest. Every other token is no binary
/// operator.
pub proof fn law_precedence_table(t: TokView)
    ensures
        spec_infix_rule(TokView::OrOr) == Some((BinOp::Or, 1u8, false)),
        spec_infix_rule(TokView::AndAnd) == Some((BinOp::And, 2u8, false)),
        spec_infix_rule(TokView::Pipe) == Some((BinOp::BitOr, 3u8, false)),
        spec_infix_rule(TokView::Caret) == Some((BinOp::BitXor, 4u8, false)),
        spec_infix_rule(TokView::Ampersand) == Some((BinOp::BitAnd, 5u8, false)),
        spec_infix_rule(TokView::EqEq) == Some((BinOp::Eq, 6u8, false)),
        spec_infix_rule(TokView::NotEq) == Some((BinOp::Ne, 6u8, false)),
        spec_infix_rule(TokView::Lt) == Some((BinOp::Lt, 7u8, false)),
        spec_infix_rule(TokView::LtEq) == Some((BinOp::Le, 7u8, false)),
        spec_infix_rule(TokView::Gt) == Some((BinOp::Gt, 7u8, false)),
        spec_infix_rule(TokView::GtEq) == Some((BinOp::Ge, 7u8, false)),
        spec_infix_rule(TokView::Shl) == Some((BinOp::Shl, 8u8, false)),
        spec_infix_rule(TokView::Shr) == Some((BinOp::Shr, 8u8, false)),
        spec_infix_rule(TokView::Plus) == Some((BinOp::Add, 9u8, false)),
        spec_infix_rule(TokView::Minus) == Some((BinOp::Sub, 9u8, false)),
        spec_infix_rule(TokView::Star) == Some((BinOp::Mul, 10u8, false)),
        spec_infix_rule(TokView::Slash) == Some((BinOp::Div, 10u8, false)),
        spec_infix_rule(TokView::Percent) == Some((BinOp::Mod, 10u8, false)),
        !(t is OrOr || t is AndAnd || t is Pipe || t is Caret || t is Ampersand || t is EqEq
            || t is NotEq || t is Lt || t is LtEq || t is Gt || t is GtEq || t is Shl || t is Shr
            || t is Plus || t is Minus || t is Star || t is Slash || t is Percent)
            ==> spec_infix_rule(t) is None,
{
}

/// A token that cannot continue a name: not `::`, `{`, nor a postfix
/// operation.
pub open spec fn ends_name(t: Option<TokView>) -> bool {
    match t {
        Some(t) => !(t is ColonColon || t is LBrace || t is LBracket || t is Arrow || t is Dot
            || t is LParen),
        None => true,
    }
}

/// A name at position `st.pos`, followed by a token that cannot continue
/// it, parses as that name alone.
proof fn lemma_name_operand(st: PState, n: Seq<char>)
    requires
        0 <= st.pos < st.toks.len(),
        st.toks[st.pos].0@ == TokView::Ident(n),
        plain_name(n),
        ends_name(peek_tok(adv(st))),
    ensures
        sp_unary(st) == (
            Ok::<SE, crate::parser::spec::DV>(
                ex(span_from(adv(st), mark(st)), SExprKind::Ident(sid(n))),
            ),
            adv(st),
        ),
{
    reveal(sp_unary);
    reveal(sp_postfix);
    reveal(sp_primary);
    reveal(sp_postfix_rest);
    reveal(sp_postfix_op);
    reveal(sp_expr);
    reveal(sp_alloc);
    reveal(sp_free);
    reveal(sp_std_call);
    reveal(sp_static_call);
    reveal(sp_struct_lit);
    reveal(sp_args);
    let s1 = adv(st);
    assert(!check(s1, TokView::ColonColon));
    assert(!check(s1, TokView::LBrace));
    assert(!at_postfix_op(s1));
    assert(n != seq!['a', 'l', 'l', 'o', 'c'] && n != seq!['f', 'r', 'e', 'e']);
    let e = ex(span_from(s1, mark(st)), SExprKind::Ident(sid(n)));
    assert(sp_primary(st) == (Ok::<SE, crate::parser::spec::DV>(e), s1));
    assert(sp_postfix_rest(s1, e) == (Ok::<SE, crate::parser::spec::DV>(e), s1));
    assert(sp_postfix(st) == (Ok::<SE, crate::parser::spec::DV>(e), s1));
}

/// Precedence climbing groups `a o1 b o2 c` by the table of binary
/// operators: the operator that binds tighter groups first, and of two that
/// bind equally the left one does, so every binary operator associates to
/// the left.
pub proof fn law_binary_grouping(
    toks: Seq<(Token, Span)>,
    allow: bool,
    a: Seq<char>,
    b: Seq<char>,
    c: Seq<char>,
    t1: TokView,
    t2: TokView,
)
    requires
        toks.len() == 5,
        toks[0].0@ == TokView::Ident(a),
        toks[1].0@ == t1,
        toks[2].0@ == TokView::Ident(b),
        toks[3].0@ == t2,
        toks[4].0@ == TokView::Ident(c),
        spec_infix_rule(t1) is Some,
        spec_infix_rule(t2) is Some,
        plain_name(a),
        plain_name(b),
        plain_name(c),
    ensures
        ({
            let (r, end) = sp_expr(PState { toks, pos: 0, allow });
            let (o1, p1, _) = spec_infix_rule(t1).unwrap();
            let (o2, p2, _) = spec_infix_rule(t2).unwrap();
            &&& end.pos == 5
            &&& r matches Ok(e) && if p1 >= p2 {
                grouped_left(e, o1, o2, a, b, c)
            } else {
                grouped_right(e, o1, o2, a, b, c)
            }
        }),
{
    reveal(sp_expr);
    reveal(sp_assignment);
    reveal(sp_binary);
    reveal(sp_binary_rest);
    reveal(sp_unary);
    reveal(sp_postfix);
    reveal(sp_primary);
    reveal(sp_postfix_rest);
    reveal(sp_postfix_op);
    reveal(sp_alloc);
    reveal(sp_free);
    reveal(sp_std_call);
    reveal(sp_static_call);
    reveal(sp_struct_lit);
    reveal(sp_struct_fields);
    reveal(sp_args);
    reveal(sp_args_rest);
    let s0 = PState { toks, pos: 0, allow };
    let s1 = adv(s0);
    let s2 = adv(s1);
    let s3 = adv(s2);
    let s4 = adv(s3);
    let s5 = adv(s4);
    let (o1, p1, r1) = spec_infix_rule(t1).unwrap();
    let (o2, p2, r2) = spec_infix_rule(t2).unwrap();
    law_infix_rules(t1);
    law_infix_rules(t2);
    lemma_name_operand(s0, a);
    lemma_name_operand(s2, b);
    lemma_name_operand(s4, c);
    let ea = ex(span_from(s1, mark(s0)), SExprKind::Ident(sid(a)));
    let eb = ex(span_from(s3, mark(s2)), SExprKind::Ident(sid(b)));
    let ec = ex(span_from(s5, mark(s4)), SExprKind::Ident(sid(c)));
    assert(peek_tok(s5) is None);
    assert(forall|x: SE, m: u8| #[trigger] sp_binary_rest(s5, x, m) == (Ok::<SE, crate::parser::spec::DV>(x), s5));
    assert(sp_binary(s4, (p2 + 1) as u8) == (Ok::<SE, crate::parser::spec::DV>(ec), s5));
    assert(peek_tok(s3) == Some(t2));
    assert(peek_tok(s1) == Some(t1));
    assert(!check(s5, TokView::Eq));
    if p1 >= p2 {
        assert(sp_binary_rest(s3, eb, (p1 + 1) as u8) == (Ok::<SE, crate::parser::spec::DV>(eb), s3));
        assert(sp_binary(s2, (p1 + 1) as u8) == (Ok::<SE, crate::parser::spec::DV>(eb), s3));
        let l2 = ex(span_from(s3, ea.ann.start), SExprKind::Binary(o1, Box::new(ea), Box::new(eb)));
        let l3 = ex(span_from(s5, l2.ann.start), SExprKind::Binary(o2, Box::new(l2), Box::new(ec)));
        assert(sp_binary_rest(s3, l2, 0) == (Ok::<SE, crate::parser::spec::DV>(l3), s5));
        assert(sp_binary_rest(s1, ea, 0) == (Ok::<SE, crate::parser::spec::DV>(l3), s5));
        assert(sp_binary(s0, 0) == (Ok::<SE, crate::parser::spec::DV>(l3), s5));
        assert(sp_assignment(s0) == (Ok::<SE, crate::parser::spec::DV>(l3), s5));
    } else {
        let l2 = ex(span_from(s5, eb.ann.start), SExprKind::Binary(o2, Box::new(eb), Box::new(ec)));
        assert(!(p2 < (p1 + 1) as u8));
        assert(rem(s5) < rem(s3));
        assert(sp_binary_rest(s5, l2, (p1 + 1) as u8) == (Ok::<SE, crate::parser::spec::DV>(l2), s5));
        assert(sp_binary(adv(s3), (p2 + 1) as u8) == (Ok::<SE, crate::parser::spec::DV>(ec), s5));
        assert(sp_binary_rest(s3, eb, (p1 + 1) as u8) == (Ok::<SE, crate::parser::spec::DV>(l2), s5));
        assert(sp_binary(s2, (p1 + 1) as u8) == (Ok::<SE, crate::parser::spec::DV>(l2), s5));
        let l3 = ex(span_from(s5, ea.ann.start), SExprKind::Binary(o1, Box::new(ea), Box::new(l2)));
        assert(sp_binary_rest(s1, ea, 0) == (Ok::<SE, crate::parser::spec::DV>(l3), s5));
        assert(sp_binary(s0, 0) == (Ok::<SE, crate::parser::spec::DV>(l3), s5));
        assert(sp_assignment(s0) == (Ok::<SE, crate::parser::spec::DV>(l3), s5));
    }
}

/// `*`, `/` and `%` bind tighter than `+` and `-`, from either side: for
/// any names `a`, `b`, `c`, `a + b / c` is `a + (b / c)` and `a / b + c`
/// is `(a / b) + c`.
pub proof fn law_multiplicative_binds_tighter(
    toks: Seq<(Token, Span)>,
    allow: bool,
    a: Seq<char>,
    b: Seq<char>,
    c: Seq<char>,
    t1: TokView,
    t2: TokView,
)
    requires
        toks.len() == 5,
        toks[0].0@ == TokView::Ident(a),
        toks[1].0@ == t1,
        toks[2].0@ == TokView::Ident(b),
        toks[3].0@ == t2,
        toks[4].0@ == TokView::Ident(c),
        plain_name(a),
        plain_name(b),
        plain_name(c),
    ensures
        ({
            let additive = |t: TokView| t is Plus || t is Minus;
            let multiplicative = |t: TokView| t is Star || t is Slash || t is Percent;
            let add_op = |t: TokView| if t is Plus { BinOp::Add } else { BinOp::Sub };
            let mul_op = |t: TokView| if t is Star {
                BinOp::Mul
            } else if t is Slash {
                BinOp::Div
            } else {
                BinOp::Mod
            };
            let r = sp_expr(PState { toks, pos: 0, allow }).0;
            &&& additive(t1) && multiplicative(t2) ==> (r matches Ok(e) && grouped_right(
                e,
                add_op(t1),
                mul_op(t2),
                a,
                b,
                c,
            ))
            &&& multiplicative(t1) && additive(t2) ==> (r matches Ok(e) && grouped_left(
                e,
                mul_op(t1),
                add_op(t2),
                a,
                b,
                c,
            ))
        }),
{
    law_precedence_table(t1);
    if (t1 is Plus || t1 is Minus) && (t2 is Star || t2 is Slash || t2 is Percent) {
        law_binary_grouping(toks, allow, a, b, c, t1, t2);
    }
    if (t2 is Plus || t2 is Minus) && (t1 is Star || t1 is Slash || t1 is Percent) {
        law_binary_grouping(toks, allow, a, b, c, t1, t2);
    }
}

/// `e` is the binary expression `l op r`.
pub open spec fn is_binary(e: SE, op: BinOp, l: SE, r: SE) -> bool {
    e.kind matches SExprKind::Binary(o, x, y) && o == op && *x == l && *y == r
}

/// Nothing at `st` continues an expression: no token, or one that is
/// neither a binary operator nor `=`.
pub open spec fn ends_expr(st: PState) -> bool {
    match peek_tok(st) {
        None => true,
        Some(t) => spec_infix_rule(t) is None && t != TokView::Eq,
    }
}

/// The grouping law for any operands: where `a`, `b` and `c` are what the
/// parser reads as unary expressions (each taking at least one token, as
/// every operand the parser accepts does), `a o1 b o2 c` is read as
/// `(a o1 b) o2 c` when `o1` binds at least as tightly as `o2`, and as
/// `a o1 (b o2 c)` otherwise; the operands themselves are kept as read.
pub proof fn law_binary_grouping_operands(
    s0: PState,
    s1: PState,
    s2: PState,
    s3: PState,
    a: SE,
    b: SE,
    c: SE,
    t1: TokView,
    t2: TokView,
)
    requires
        sp_unary(s0) == (Ok::<SE, crate::parser::spec::DV>(a), s1),
        rem(s1) < rem(s0),
        peek_tok(s1) == Some(t1),
        spec_infix_rule(t1) is Some,
        sp_unary(adv(s1)) == (Ok::<SE, crate::parser::spec::DV>(b), s2),
        rem(s2) < rem(adv(s1)),
        peek_tok(s2) == Some(t2),
        spec_infix_rule(t2) is Some,
        sp_unary(adv(s2)) == (Ok::<SE, crate::parser::spec::DV>(c), s3),
        rem(s3) < rem(adv(s2)),
        ends_expr(s3),
    ensures
        ({
            let (r, end) = sp_expr(s0);
            let (o1, p1, _) = spec_infix_rule(t1).unwrap();
            let (o2, p2, _) = spec_infix_rule(t2).unwrap();
            &&& end == s3
            &&& r matches Ok(e) && if p1 >= p2 {
                e.kind matches SExprKind::Binary(o, l, rr) && o == o2 && *rr == c && is_binary(
                    *l,
                    o1,
                    a,
                    b,
                )
            } else {
                e.kind matches SExprKind::Binary(o, l, rr) && o == o1 && *l == a && is_binary(
                    *rr,
                    o2,
                    b,
                    c,
                )
            }
        }),
{
    reveal(sp_expr);
    reveal(sp_assignment);
    reveal(sp_binary);
    reveal(sp_binary_rest);
    reveal(sp_unary);
    reveal(sp_postfix);
    reveal(sp_primary);
    reveal(sp_postfix_rest);
    reveal(sp_postfix_op);
    reveal(sp_alloc);
    reveal(sp_free);
    reveal(sp_std_call);
    reveal(sp_static_call);
    reveal(sp_struct_lit);
    reveal(sp_struct_fields);
    reveal(sp_args);
    reveal(sp_args_rest);
    let (o1, p1, r1) = spec_infix_rule(t1).unwrap();
    let (o2, p2, r2) = spec_infix_rule(t2).unwrap();
    law_infix_rules(t1);
    law_infix_rules(t2);
    assert(forall|x: SE, m: u8| #[trigger] sp_binary_rest(s3, x, m) == (Ok::<SE, crate::parser::spec::DV>(x), s3));
    assert(rem(adv(s1)) < rem(s1));
    assert(rem(adv(s2)) < rem(s2));
    assert(sp_binary(adv(s2), (p2 + 1) as u8) == (Ok::<SE, crate::parser::spec::DV>(c), s3));
    assert(!check(s3, TokView::Eq));
    if p1 >= p2 {
        assert(sp_binary_rest(s2, b, (p1 + 1) as u8) == (Ok::<SE, crate::parser::spec::DV>(b), s2));
        assert(sp_binary(adv(s1), (p1 + 1) as u8) == (Ok::<SE, crate::parser::spec::DV>(b), s2));
        let l2 = ex(span_from(s2, a.ann.start), SExprKind::Binary(o1, Box::new(a), Box::new(b)));
        let l3 = ex(span_from(s3, l2.ann.start), SExprKind::Binary(o2, Box::new(l2), Box::new(c)));
        assert(sp_binary_rest(s2, l2, 0) == (Ok::<SE, crate::parser::spec::DV>(l3), s3));
        assert(sp_binary_rest(s1, a, 0) == (Ok::<SE, crate::parser::spec::DV>(l3), s3));
        assert(sp_binary(s0, 0) == (Ok::<SE, crate::parser::spec::DV>(l3), s3));
        assert(sp_assignment(s0) == (Ok::<SE, crate::parser::spec::DV>(l3), s3));
    } else {
        let l2 = ex(span_from(s3, b.ann.start), SExprKind::Binary(o2, Box::new(b), Box::new(c)));
        assert(!(p2 < (p1 + 1) as u8));
        assert(sp_binary_rest(s3, l2, (p1 + 1) as u8) == (Ok::<SE, crate::parser::spec::DV>(l2), s3));
        assert(sp_binary_rest(s2, b, (p1 + 1) as u8) == (Ok::<SE, crate::parser::spec::DV>(l2), s3));
        assert(sp_binary(adv(s1), (p1 + 1) as u8) == (Ok::<SE, crate::parser::spec::DV>(l2), s3));
        let l3 = ex(span_from(s3, a.ann.start), SExprKind::Binary(o1, Box::new(a), Box::new(l2)));
        assert(sp_binary_rest(s1, a, 0) == (Ok::<SE, crate::parser::spec::DV>(l3), s3));
        assert(sp_binary(s0, 0) == (Ok::<SE, crate::parser::spec::DV>(l3), s3));
        assert(sp_assignment(s0) == (Ok::<SE, crate::parser::spec::DV>(l3), s3));
    }
}

/// Reading the `>` that closes a type argument list: a `>` is consumed; a
/// `>>` or `>=` gives up its first character, which is returned, and stays
/// in place as `>` or `=` with the rest of its span, every other token
/// unchanged; anything else is an E0101 error and at the end an E0102
/// error, and then nothing is consumed.
pub proof fn law_expect_gt(st: PState)
    ensures
        ({
            let (r, st2) = expect_gt(st);
            match peek(st) {
                Some((t, s)) => match t@ {
                    TokView::Gt => r == Ok::<Span, crate::parser::spec::DV>(s) && st2 == adv(st),
                    TokView::Shr => r == Ok::<Span, crate::parser::spec::DV>(
                        Span { start: s.start, end: (s.start + 1) as usize },
                    ) && st2.pos == st.pos && st2.allow == st.allow && st2.toks == st.toks.update(
                        st.pos,
                        (Token::Gt, Span { start: (s.start + 1) as usize, end: s.end }),
                    ),
                    TokView::GtEq => r == Ok::<Span, crate::parser::spec::DV>(
                        Span { start: s.start, end: (s.start + 1) as usize },
                    ) && st2.pos == st.pos && st2.allow == st.allow && st2.toks == st.toks.update(
                        st.pos,
                        (Token::Eq, Span { start: (s.start + 1) as usize, end: s.end }),
                    ),
                    _ => r matches Err(d) && d.code == Some("E0101"@) && st2 == st,
                },
                None => r matches Err(d) && d.code == Some("E0102"@) && st2 == st,
            }
        }),
{
    reveal(expect_gt);
}

/// Declarations come out in the order they stand: reading the rest of a
/// program keeps the declarations and diagnostics already read in front of
/// what it adds, and a declaration read at the current position comes
/// right after them.
pub proof fn law_program_in_order(st: PState, decls: Seq<SDecl<Parsed>>, errs: Seq<DV>)
    ensures
        ({
            let (ds, es, _) = sp_program_rest(st, decls, errs);
            &&& ds.len() >= decls.len() && ds.take(decls.len() as int) == decls
            &&& es.len() >= errs.len() && es.take(errs.len() as int) == errs
            &&& (!at_end(st) && sp_decl(st).0 is Ok) ==> ds.len() > decls.len()
                && ds[decls.len() as int] == sp_decl(st).0->Ok_0
        }),
    decreases rem(st),
{
    reveal(sp_program_rest);
    if !at_end(st) {
        let (r, st1) = sp_decl(st);
        let (d2, e2, st2) = match r {
            Ok(d) => (decls.push(d), errs, st1),
            Err(es) => (decls, errs + es, sp_synchronize_top_level(st1)),
        };
        if rem(st2) < rem(st) {
            law_program_in_order(st2, d2, e2);
            let (ds, es, _) = sp_program_rest(st2, d2, e2);
            assert(ds.take(decls.len() as int) =~= ds.take(d2.len() as int).take(decls.len() as int));
            assert(d2.take(decls.len() as int) =~= decls);
            assert(es.take(errs.len() as int) =~= es.take(e2.len() as int).take(errs.len() as int));
            assert(e2.take(errs.len() as int) =~= errs);
            if r is Ok {
                assert(ds[decls.len() as int] == ds.take(d2.len() as int)[decls.len() as int]);
            }
        } else {
            assert(d2.take(decls.len() as int) =~= decls);
            assert(e2.take(errs.len() as int) =~= errs);
        }
    } else {
        assert(decls.take(decls.len() as int) =~= decls);
        assert(errs.take(errs.len() as int) =~= errs);
    }
}

/// A program that parses lists first the declaration that stands first.
pub proof fn law_program_first_decl(st: PState)
    ensures
        sp_program(st).0 matches Ok(p) ==> (!at_end(st) && sp_decl(st).0 is Ok ==> p.decls.len() > 0
            && p.decls[0] == sp_decl(st).0->Ok_0),
{
    reveal(sp_program);
    law_program_in_order(st, Seq::empty(), Seq::empty());
}

/// Assignment associates to the right: `a = b = c` assigns `b = c` to `a`.
pub proof fn law_assignment_groups_right(
    toks: Seq<(Token, Span)>,
    allow: bool,
    a: Seq<char>,
    b: Seq<char>,
    c: Seq<char>,
)
    requires
        toks.len() == 5,
        toks[0].0@ == TokView::Ident(a),
        toks[1].0@ == TokView::Eq,
        toks[2].0@ == TokView::Ident(b),
        toks[3].0@ == TokView::Eq,
        toks[4].0@ == TokView::Ident(c),
        plain_name(a),
        plain_name(b),
        plain_name(c),
    ensures
        ({
            let (r, end) = sp_expr(PState { toks, pos: 0, allow });
            &&& end.pos == 5
            &&& r matches Ok(e) && e.kind matches SExprKind::Assign { lhs, rhs } && is_name(*lhs, a)
                && (rhs.kind matches SExprKind::Assign { lhs: l2, rhs: r2 } && is_name(*l2, b)
                && is_name(*r2, c))
        }),
{
    reveal(sp_expr);
    reveal(sp_assignment);
    reveal(sp_binary);
    reveal(sp_binary_rest);
    reveal(sp_unary);
    reveal(sp_postfix);
    reveal(sp_primary);
    reveal(sp_postfix_rest);
    reveal(sp_postfix_op);
    reveal(sp_alloc);
    reveal(sp_free);
    reveal(sp_std_call);
    reveal(sp_static_call);
    reveal(sp_struct_lit);
    reveal(sp_struct_fields);
    reveal(sp_args);
    reveal(sp_args_rest);
    let s0 = PState { toks, pos: 0, allow };
    let s1 = adv(s0);
    let s2 = adv(s1);
    let s3 = adv(s2);
    let s4 = adv(s3);
    let s5 = adv(s4);
    lemma_name_operand(s0, a);
    lemma_name_operand(s2, b);
    lemma_name_operand(s4, c);
    let ea = ex(span_from(s1, mark(s0)), SExprKind::Ident(sid(a)));
    let eb = ex(span_from(s3, mark(s2)), SExprKind::Ident(sid(b)));
    let ec = ex(span_from(s5, mark(s4)), SExprKind::Ident(sid(c)));
    assert(peek_tok(s1) == Some(TokView::Eq));
    assert(peek_tok(s3) == Some(TokView::Eq));
    assert(peek_tok(s5) is None);
    assert(check(s1, TokView::Eq));
    assert(check(s3, TokView::Eq));
    assert(!check(s5, TokView::Eq));
    assert(sp_binary_rest(s1, ea, 0) == (Ok::<SE, crate::parser::spec::DV>(ea), s1));
    assert(sp_binary_rest(s3, eb, 0) == (Ok::<SE, crate::parser::spec::DV>(eb), s3));
    assert(sp_binary_rest(s5, ec, 0) == (Ok::<SE, crate::parser::spec::DV>(ec), s5));
    assert(sp_binary(s0, 0) == (Ok::<SE, crate::parser::spec::DV>(ea), s1));
    assert(sp_binary(s2, 0) == (Ok::<SE, crate::parser::spec::DV>(eb), s3));
    assert(sp_binary(s4, 0) == (Ok::<SE, crate::parser::spec::DV>(ec), s5));
    assert(sp_assignment(s4) == (Ok::<SE, crate::parser::spec::DV>(ec), s5));
    let inner = ex(span_from(s5, eb.ann.start), SExprKind::Assign { lhs: Box::new(eb), rhs: Box::new(ec) });
    assert(sp_assignment(s2) == (Ok::<SE, crate::parser::spec::DV>(inner), s5));
}

/// Parentheses add no node: `( e )` is the expression `e` itself.
pub proof fn law_parens_add_no_node(st: PState)
    requires
        peek_tok(st) == Some(TokView::LParen),
        sp_expr(adv(st)).0 is Ok,
        check(sp_expr(adv(st)).1, TokView::RParen),
    ensures
        sp_primary(st) == (sp_expr(adv(st)).0, adv(sp_expr(adv(st)).1)),
{
    reveal(sp_primary);
    reveal(sp_expr);
    crate::parser::state::lemma_expect_step(sp_expr(adv(st)).1, TokView::RParen);
}

/// `e` is `(*a).f`: the field `f` of what the name `a` points to.
pub open spec fn deref_field(e: SE, a: Seq<char>, f: Seq<char>) -> bool {
    e.kind matches SExprKind::Field { base, field } && field == f && (base.kind matches SExprKind::Unary(
        op,
        x,
    ) && op == UnaryOp::Deref && is_name(*x, a))
}

/// `a->f` reads as `(*a).f`: both parse to the field `f` of what `a` points
/// to, and nothing else.
#[verifier::rlimit(40)]
pub proof fn law_arrow_is_deref_field(
    arrow: Seq<(Token, Span)>,
    deref: Seq<(Token, Span)>,
    allow: bool,
    a: Seq<char>,
    f: Seq<char>,
)
    requires
        arrow.len() == 3,
        arrow[0].0@ == TokView::Ident(a),
        arrow[1].0@ == TokView::Arrow,
        arrow[2].0@ == TokView::Ident(f),
        deref.len() == 6,
        deref[0].0@ == TokView::LParen,
        deref[1].0@ == TokView::Star,
        deref[2].0@ == TokView::Ident(a),
        deref[3].0@ == TokView::RParen,
        deref[4].0@ == TokView::Dot,
        deref[5].0@ == TokView::Ident(f),
        plain_name(a),
    ensures
        sp_expr(PState { toks: arrow, pos: 0, allow }).1.pos == 3,
        sp_expr(PState { toks: arrow, pos: 0, allow }).0 matches Ok(e) && deref_field(e, a, f),
        sp_expr(PState { toks: deref, pos: 0, allow }).1.pos == 6,
        sp_expr(PState { toks: deref, pos: 0, allow }).0 matches Ok(e) && deref_field(e, a, f),
{
    reveal(sp_expr);
    reveal(sp_assignment);
    reveal(sp_binary);
    reveal(sp_binary_rest);
    reveal(sp_unary);
    reveal(sp_postfix);
    reveal(sp_primary);
    reveal(sp_postfix_rest);
    reveal(sp_postfix_op);
    reveal(sp_alloc);
    reveal(sp_free);
    reveal(sp_std_call);
    reveal(sp_static_call);
    reveal(sp_struct_lit);
    reveal(sp_args);
    reveal(crate::parser::spec::expect_field_name);
    assert(a != seq!['a', 'l', 'l', 'o', 'c'] && a != seq!['f', 'r', 'e', 'e']);
    // `a->f`
    let s0 = PState { toks: arrow, pos: 0, allow };
    let s1 = adv(s0);
    let s2 = adv(s1);
    let s3 = adv(s2);
    let ea = ex(span_from(s1, mark(s0)), SExprKind::Ident(sid(a)));
    assert(!check(s1, TokView::ColonColon) && !check(s1, TokView::LBrace));
    assert(sp_primary(s0) == (Ok::<SE, crate::parser::spec::DV>(ea), s1));
    let d = ex(span_from(s2, ea.ann.start), SExprKind::Unary(UnaryOp::Deref, Box::new(ea)));
    let fe = ex(span_from(s3, ea.ann.start), SExprKind::Field { base: Box::new(d), field: f });
    assert(sp_postfix_op(s1, ea) == (Ok::<SE, crate::parser::spec::DV>(fe), s3));
    assert(sp_postfix_rest(s3, fe) == (Ok::<SE, crate::parser::spec::DV>(fe), s3));
    assert(sp_postfix_rest(s1, ea) == (Ok::<SE, crate::parser::spec::DV>(fe), s3));
    assert(sp_postfix(s0) == (Ok::<SE, crate::parser::spec::DV>(fe), s3));
    assert(sp_unary(s0) == (Ok::<SE, crate::parser::spec::DV>(fe), s3));
    assert(sp_binary(s0, 0) == (Ok::<SE, crate::parser::spec::DV>(fe), s3));
    assert(sp_assignment(s0) == (Ok::<SE, crate::parser::spec::DV>(fe), s3));
    lemma_deref_dot_field(deref, allow, a, f);
}

/// `(*a).f` parses to the field `f` of what `a` points to.
#[verifier::rlimit(40)]
proof fn lemma_deref_dot_field(deref: Seq<(Token, Span)>, allow: bool, a: Seq<char>, f: Seq<char>)
    requires
        deref.len() == 6,
        deref[0].0@ == TokView::LParen,
        deref[1].0@ == TokView::Star,
        deref[2].0@ == TokView::Ident(a),
        deref[3].0@ == TokView::RParen,
        deref[4].0@ == TokView::Dot,
        deref[5].0@ == TokView::Ident(f),
        plain_name(a),
    ensures
        sp_expr(PState { toks: deref, pos: 0, allow }).1.pos == 6,
        sp_expr(PState { toks: deref, pos: 0, allow }).0 matches Ok(e) && deref_field(e, a, f),
{
    reveal(sp_expr);
    reveal(sp_assignment);
    reveal(sp_binary);
    reveal(sp_binary_rest);
    reveal(sp_unary);
    reveal(sp_postfix);
    reveal(sp_primary);
    reveal(sp_postfix_rest);
    reveal(sp_postfix_op);
    reveal(sp_alloc);
    reveal(sp_free);
    reveal(sp_std_call);
    reveal(sp_static_call);
    reveal(sp_struct_lit);
    reveal(sp_args);
    reveal(crate::parser::spec::expect_field_name);
    assert(a != seq!['a', 'l', 'l', 'o', 'c'] && a != seq!['f', 'r', 'e', 'e']);
    let t0 = PState { toks: deref, pos: 0, allow };
    let t1 = adv(t0);
    let t2 = adv(t1);
    let t3 = adv(t2);
    let t4 = adv(t3);
    let t5 = adv(t4);
    let t6 = adv(t5);
    let ea2 = ex(span_from(t3, mark(t2)), SExprKind::Ident(sid(a)));
    assert(!check(t3, TokView::ColonColon) && !check(t3, TokView::LBrace));
    assert(sp_primary(t2) == (Ok::<SE, crate::parser::spec::DV>(ea2), t3));
    assert(!at_postfix_op(t3));
    assert(sp_postfix(t2) == (Ok::<SE, crate::parser::spec::DV>(ea2), t3));
    assert(spec_unary_op(TokView::Ident(a)) is None);
    assert(sp_unary(t2) == (Ok::<SE, crate::parser::spec::DV>(ea2), t3));
    let d2 = ex(span_from(t3, mark(t1)), SExprKind::Unary(UnaryOp::Deref, Box::new(ea2)));
    assert(sp_unary(t1) == (Ok::<SE, crate::parser::spec::DV>(d2), t3));
    assert(spec_infix_rule(TokView::RParen) is None);
    assert(sp_binary_rest(t3, d2, 0) == (Ok::<SE, crate::parser::spec::DV>(d2), t3));
    assert(sp_binary(t1, 0) == (Ok::<SE, crate::parser::spec::DV>(d2), t3));
    assert(sp_assignment(t1) == (Ok::<SE, crate::parser::spec::DV>(d2), t3));
    assert(sp_expr(t1) == (Ok::<SE, crate::parser::spec::DV>(d2), t3));
    law_parens_add_no_node(t0);
    assert(sp_primary(t0) == (Ok::<SE, crate::parser::spec::DV>(d2), t4));
    let fe2 = ex(span_from(t6, d2.ann.start), SExprKind::Field { base: Box::new(d2), field: f });
    assert(sp_postfix_op(t4, d2) == (Ok::<SE, crate::parser::spec::DV>(fe2), t6));
    assert(sp_postfix_rest(t6, fe2) == (Ok::<SE, crate::parser::spec::DV>(fe2), t6));
    assert(sp_postfix_rest(t4, d2) == (Ok::<SE, crate::parser::spec::DV>(fe2), t6));
    assert(sp_postfix(t0) == (Ok::<SE, crate::parser::spec::DV>(fe2), t6));
    assert(sp_unary(t0) == (Ok::<SE, crate::parser::spec::DV>(fe2), t6));
    assert(sp_binary(t0, 0) == (Ok::<SE, crate::parser::spec::DV>(fe2), t6));
    assert(sp_assignment(t0) == (Ok::<SE, crate::parser::spec::DV>(fe2), t6));
}

/// `( x )` after a method name: the one argument `x`.
proof fn lemma_one_arg(st: PState, x: Seq<char>)
    requires
        0 <= st.pos,
        st.pos + 3 <= st.toks.len(),
        st.toks[st.pos].0@ == TokView::LParen,
        st.toks[st.pos + 1].0@ == TokView::Ident(x),
        st.toks[st.pos + 2].0@ == TokView::RParen,
        plain_name(x),
    ensures
        sp_args(st) == (
            Ok::<Seq<SE>, crate::parser::spec::DV>(
                seq![ex(span_from(adv(adv(st)), mark(adv(st))), SExprKind::Ident(sid(x)))],
            ),
            adv(adv(adv(st))),
        ),
{
    reveal(sp_expr);
    reveal(sp_assignment);
    reveal(sp_binary);
    reveal(sp_binary_rest);
    reveal(sp_unary);
    reveal(sp_postfix);
    reveal(sp_primary);
    reveal(sp_postfix_rest);
    reveal(sp_postfix_op);
    reveal(sp_alloc);
    reveal(sp_free);
    reveal(sp_std_call);
    reveal(sp_static_call);
    reveal(sp_struct_lit);
    reveal(sp_args);
    reveal(sp_args_rest);
    reveal(crate::parser::spec::expect_field_name);
    let s1 = adv(st);
    let s2 = adv(s1);
    let s3 = adv(s2);
    lemma_name_operand(s1, x);
    let ex_ = ex(span_from(s2, mark(s1)), SExprKind::Ident(sid(x)));
    assert(spec_infix_rule(TokView::RParen) is None);
    assert(sp_binary_rest(s2, ex_, 0) == (Ok::<SE, crate::parser::spec::DV>(ex_), s2));
    assert(sp_binary(s1, 0) == (Ok::<SE, crate::parser::spec::DV>(ex_), s2));
    assert(!check(s2, TokView::Eq));
    assert(sp_assignment(s1) == (Ok::<SE, crate::parser::spec::DV>(ex_), s2));
    assert(sp_expr(s1) == (Ok::<SE, crate::parser::spec::DV>(ex_), s2));
    assert(!check(s2, TokView::Comma));
    assert(sp_args_rest(s2, seq![ex_]) == (Ok::<Seq<SE>, crate::parser::spec::DV>(seq![ex_]), s2));
    assert(!check(s1, TokView::RParen));
}

/// `e` is `(*a).f(x)`: the method `f` of what the name `a` points to,
/// called with the name `x`.
pub open spec fn deref_method(e: SE, a: Seq<char>, f: Seq<char>, x: Seq<char>) -> bool {
    e.kind matches SExprKind::MethodCall { base, method, args } && method == f && args.len() == 1
        && is_name(args[0], x) && (base.kind matches SExprKind::Unary(op, y) && op == UnaryOp::Deref
        && is_name(*y, a))
}

/// `a->f(x)` reads as `(*a).f(x)`: both parse to the call of the method `f`
/// of what `a` points to, with the argument `x`, and nothing else.
pub proof fn law_arrow_is_deref_method(
    arrow: Seq<(Token, Span)>,
    deref: Seq<(Token, Span)>,
    allow: bool,
    a: Seq<char>,
    f: Seq<char>,
    x: Seq<char>,
)
    requires
        arrow.len() == 6,
        arrow[0].0@ == TokView::Ident(a),
        arrow[1].0@ == TokView::Arrow,
        arrow[2].0@ == TokView::Ident(f),
        arrow[3].0@ == TokView::LParen,
        arrow[4].0@ == TokView::Ident(x),
        arrow[5].0@ == TokView::RParen,
        deref.len() == 9,
        deref[0].0@ == TokView::LParen,
        deref[1].0@ == TokView::Star,
        deref[2].0@ == TokView::Ident(a),
        deref[3].0@ == TokView::RParen,
        deref[4].0@ == TokView::Dot,
        deref[5].0@ == TokView::Ident(f),
        deref[6].0@ == TokView::LParen,
        deref[7].0@ == TokView::Ident(x),
        deref[8].0@ == TokView::RParen,
        plain_name(a),
        plain_name(x),
    ensures
        sp_expr(PState { toks: arrow, pos: 0, allow }).1.pos == 6,
        sp_expr(PState { toks: arrow, pos: 0, allow }).0 matches Ok(e) && deref_method(e, a, f, x),
        sp_expr(PState { toks: deref, pos: 0, allow }).1.pos == 9,
        sp_expr(PState { toks: deref, pos: 0, allow }).0 matches Ok(e) && deref_method(e, a, f, x),
{
    lemma_arrow_method(arrow, allow, a, f, x);
    lemma_deref_dot_method(deref, allow, a, f, x);
}

#[verifier::rlimit(40)]
#[verifier::spinoff_prover]
#[verifier::rlimit(40)]
proof fn lemma_arrow_method(arrow: Seq<(Token, Span)>, allow: bool, a: Seq<char>, f: Seq<char>, x: Seq<char>)
    requires
        arrow.len() == 6,
        arrow[0].0@ == TokView::Ident(a),
        arrow[1].0@ == TokView::Arrow,
        arrow[2].0@ == TokView::Ident(f),
        arrow[3].0@ == TokView::LParen,
        arrow[4].0@ == TokView::Ident(x),
        arrow[5].0@ == TokView::RParen,
        plain_name(a),
        plain_name(x),
    ensures
        sp_expr(PState { toks: arrow, pos: 0, allow }).1.pos == 6,
        sp_expr(PState { toks: arrow, pos: 0, allow }).0 matches Ok(e) && deref_method(e, a, f, x),
{
    reveal(sp_expr);
    reveal(sp_assignment);
    reveal(sp_binary);
    reveal(sp_binary_rest);
    reveal(sp_unary);
    reveal(sp_postfix);
    reveal(sp_primary);
    reveal(sp_postfix_rest);
    reveal(sp_postfix_op);
    reveal(sp_alloc);
    reveal(sp_free);
    reveal(sp_std_call);
    reveal(sp_static_call);
    reveal(sp_struct_lit);
    reveal(sp_args);
    reveal(sp_args_rest);
    reveal(crate::parser::spec::expect_field_name);
    assert(a != seq!['a', 'l', 'l', 'o', 'c'] && a != seq!['f', 'r', 'e', 'e']);
    let s0 = PState { toks: arrow, pos: 0, allow };
    let s1 = adv(s0);
    let s2 = adv(s1);
    let s3 = adv(s2);
    let s6 = adv(adv(adv(s3)));
    let ea = ex(span_from(s1, mark(s0)), SExprKind::Ident(sid(a)));
    assert(!check(s1, TokView::ColonColon) && !check(s1, TokView::LBrace));
    assert(sp_primary(s0) == (Ok::<SE, crate::parser::spec::DV>(ea), s1));
    lemma_one_arg(s3, x);
    let args = sp_args(s3).0->Ok_0;
    let d = ex(span_from(s2, ea.ann.start), SExprKind::Unary(UnaryOp::Deref, Box::new(ea)));
    let me = ex(
        span_from(s6, ea.ann.start),
        SExprKind::MethodCall { base: Box::new(d), method: f, args },
    );
    assert(check(s3, TokView::LParen));
    assert(sp_postfix_op(s1, ea) == (Ok::<SE, crate::parser::spec::DV>(me), s6));
    assert(sp_postfix_rest(s6, me) == (Ok::<SE, crate::parser::spec::DV>(me), s6));
    assert(sp_postfix_rest(s1, ea) == (Ok::<SE, crate::parser::spec::DV>(me), s6));
    assert(sp_postfix(s0) == (Ok::<SE, crate::parser::spec::DV>(me), s6));
    assert(sp_unary(s0) == (Ok::<SE, crate::parser::spec::DV>(me), s6));
    assert(sp_binary(s0, 0) == (Ok::<SE, crate::parser::spec::DV>(me), s6));
    assert(sp_assignment(s0) == (Ok::<SE, crate::parser::spec::DV>(me), s6));
}

/// `(*a)` at the start of the tokens: what `a` points to.
#[verifier::rlimit(40)]
proof fn lemma_paren_deref(t0: PState, a: Seq<char>)
    requires
        t0.pos == 0,
        t0.toks.len() >= 4,
        t0.toks[0].0@ == TokView::LParen,
        t0.toks[1].0@ == TokView::Star,
        t0.toks[2].0@ == TokView::Ident(a),
        t0.toks[3].0@ == TokView::RParen,
        plain_name(a),
    ensures
        sp_primary(t0) == (
            Ok::<SE, crate::parser::spec::DV>(
                ex(
                    span_from(adv(adv(adv(t0))), mark(adv(t0))),
                    SExprKind::Unary(
                        UnaryOp::Deref,
                        Box::new(
                            ex(
                                span_from(adv(adv(adv(t0))), mark(adv(adv(t0)))),
                                SExprKind::Ident(sid(a)),
                            ),
                        ),
                    ),
                ),
            ),
            adv(adv(adv(adv(t0)))),
        ),
{
    reveal(sp_expr);
    reveal(sp_assignment);
    reveal(sp_binary);
    reveal(sp_binary_rest);
    reveal(sp_unary);
    reveal(sp_postfix);
    reveal(sp_primary);
    reveal(sp_postfix_rest);
    reveal(sp_alloc);
    reveal(sp_free);
    reveal(sp_std_call);
    reveal(sp_static_call);
    reveal(sp_struct_lit);
    assert(a != seq!['a', 'l', 'l', 'o', 'c'] && a != seq!['f', 'r', 'e', 'e']);
    let t1 = adv(t0);
    let t2 = adv(t1);
    let t3 = adv(t2);
    let ea2 = ex(span_from(t3, mark(t2)), SExprKind::Ident(sid(a)));
    assert(!check(t3, TokView::ColonColon) && !check(t3, TokView::LBrace));
    assert(sp_primary(t2) == (Ok::<SE, crate::parser::spec::DV>(ea2), t3));
    assert(!at_postfix_op(t3));
    assert(sp_postfix(t2) == (Ok::<SE, crate::parser::spec::DV>(ea2), t3));
    assert(spec_unary_op(TokView::Ident(a)) is None);
    assert(sp_unary(t2) == (Ok::<SE, crate::parser::spec::DV>(ea2), t3));
    let d2 = ex(span_from(t3, mark(t1)), SExprKind::Unary(UnaryOp::Deref, Box::new(ea2)));
    assert(sp_unary(t1) == (Ok::<SE, crate::parser::spec::DV>(d2), t3));
    assert(spec_infix_rule(TokView::RParen) is None);
    assert(sp_binary_rest(t3, d2, 0) == (Ok::<SE, crate::parser::spec::DV>(d2), t3));
    assert(sp_binary(t1, 0) == (Ok::<SE, crate::parser::spec::DV>(d2), t3));
    assert(sp_assignment(t1) == (Ok::<SE, crate::parser::spec::DV>(d2), t3));
    assert(sp_expr(t1) == (Ok::<SE, crate::parser::spec::DV>(d2), t3));
    law_parens_add_no_node(t0);
}

/// `.f(x)` applied to any `lhs`: the call of its method `f` with `x`.
#[verifier::rlimit(60)]
proof fn lemma_dot_method_op(st: PState, lhs: SE, f: Seq<char>, x: Seq<char>)
    requires
        0 <= st.pos,
        st.pos + 5 <= st.toks.len(),
        st.toks[st.pos].0@ == TokView::Dot,
        st.toks[st.pos + 1].0@ == TokView::Ident(f),
        st.toks[st.pos + 2].0@ == TokView::LParen,
        st.toks[st.pos + 3].0@ == TokView::Ident(x),
        st.toks[st.pos + 4].0@ == TokView::RParen,
        plain_name(x),
    ensures
        sp_postfix_op(st, lhs) == (
            Ok::<SE, crate::parser::spec::DV>(
                ex(
                    span_from(adv(adv(adv(adv(adv(st))))), lhs.ann.start),
                    SExprKind::MethodCall {
                        base: Box::new(lhs),
                        method: f,
                        args: sp_args(adv(adv(st))).0->Ok_0,
                    },
                ),
            ),
            adv(adv(adv(adv(adv(st))))),
        ),
{
    reveal(sp_postfix_op);
    reveal(sp_args);
    reveal(crate::parser::spec::expect_field_name);
    let s2 = adv(adv(st));
    lemma_one_arg(s2, x);
    assert(!check(st, TokView::LBracket) && !check(st, TokView::Arrow) && check(st, TokView::Dot));
    assert(peek_tok(adv(st)) == Some(TokView::Ident(f)));
    assert(crate::parser::spec::expect_field_name(adv(st)) == (Ok::<Seq<char>, crate::parser::spec::DV>(f), s2));
    assert(check(s2, TokView::LParen));
}

#[verifier::rlimit(40)]
proof fn lemma_deref_dot_method(
    deref: Seq<(Token, Span)>,
    allow: bool,
    a: Seq<char>,
    f: Seq<char>,
    x: Seq<char>,
)
    requires
        deref.len() == 9,
        deref[0].0@ == TokView::LParen,
        deref[1].0@ == TokView::Star,
        deref[2].0@ == TokView::Ident(a),
        deref[3].0@ == TokView::RParen,
        deref[4].0@ == TokView::Dot,
        deref[5].0@ == TokView::Ident(f),
        deref[6].0@ == TokView::LParen,
        deref[7].0@ == TokView::Ident(x),
        deref[8].0@ == TokView::RParen,
        plain_name(a),
        plain_name(x),
    ensures
        sp_expr(PState { toks: deref, pos: 0, allow }).1.pos == 9,
        sp_expr(PState { toks: deref, pos: 0, allow }).0 matches Ok(e) && deref_method(e, a, f, x),
{
    reveal(sp_expr);
    reveal(sp_assignment);
    reveal(sp_binary);
    reveal(sp_binary_rest);
    reveal(sp_unary);
    reveal(sp_postfix);
    reveal(sp_postfix_rest);
    reveal(sp_postfix_op);
    reveal(sp_primary);
    reveal(crate::parser::spec::expect_field_name);
    let t0 = PState { toks: deref, pos: 0, allow };
    let t4 = adv(adv(adv(adv(t0))));
    let t6 = adv(adv(t4));
    let t9 = adv(adv(adv(t6)));
    lemma_paren_deref(t0, a);
    let d2 = sp_primary(t0).0->Ok_0;
    lemma_one_arg(t6, x);
    let args = sp_args(t6).0->Ok_0;
    let me = ex(span_from(t9, d2.ann.start), SExprKind::MethodCall { base: Box::new(d2), method: f, args });
    lemma_dot_method_op(t4, d2, f, x);
    assert(sp_postfix_op(t4, d2) == (Ok::<SE, crate::parser::spec::DV>(me), t9));
    assert(rem(t4) < rem(t0));
    assert(rem(t9) < rem(t4));
    assert(at_postfix_op(t4));
    assert(sp_postfix_rest(t9, me) == (Ok::<SE, crate::parser::spec::DV>(me), t9));
    assert(sp_postfix_rest(t4, d2) == (Ok::<SE, crate::parser::spec::DV>(me), t9));
    assert(sp_postfix(t0) == (Ok::<SE, crate::parser::spec::DV>(me), t9));
    assert(spec_unary_op(TokView::LParen) is None);
    assert(sp_unary(t0) == (Ok::<SE, crate::parser::spec::DV>(me), t9));
    assert(sp_binary(t0, 0) == (Ok::<SE, crate::parser::spec::DV>(me), t9));
    assert(sp_assignment(t0) == (Ok::<SE, crate::parser::spec::DV>(me), t9));
}

} // verus!

verus! {

/// What reading `, param` after the parameters `acc` gives, with `acc`
/// left out.
pub open spec fn params_after(st: PState, acc: Seq<SPar>) -> (Result<Seq<SPar>, DV>, PState) {
    let (r, end) = sp_params_rest(st, acc);
    (
        match r {
            Ok(ps) => Ok(ps.subrange(acc.len() as int, ps.len() as int)),
            Err(e) => Err(e),
        },
        end,
    )
}

/// A parameter list is read to its end, in order: where no `,` follows,
/// the parameters read so far are the result; otherwise the result keeps
/// them in front, the parameter after the `,` comes next, and what follows
/// does not depend on what was read before.
pub proof fn law_params_rest(st: PState, acc: Seq<SPar>)
    ensures
        ({
            let (r, end) = sp_params_rest(st, acc);
            &&& !check(st, TokView::Comma) ==> r == Ok::<Seq<SPar>, DV>(acc) && end == st
            &&& r matches Ok(ps) ==> ps.len() >= acc.len() && ps.take(acc.len() as int) == acc
            &&& (check(st, TokView::Comma) && sp_param(adv(st)).0 is Ok && r is Ok) ==> (r matches Ok(ps)
                && ps.len() > acc.len() && ps[acc.len() as int] == sp_param(adv(st)).0->Ok_0)
            &&& params_after(st, acc) == sp_params_rest(st, Seq::empty())
        }),
    decreases rem(st),
{
    reveal(sp_params_rest);
    let (c, st1) = eat(st, TokView::Comma);
    if c is Some {
        let (r1, st2) = sp_param(st1);
        if let Ok(p) = r1 {
            if rem(st2) < rem(st) {
                law_params_rest(st2, acc.push(p));
                law_params_rest(st2, seq![p]);
                law_params_rest(st2, Seq::empty());
                let (ra, ea) = sp_params_rest(st2, acc.push(p));
                let (rb, eb) = sp_params_rest(st2, seq![p]);
                let (rc, ec) = sp_params_rest(st2, Seq::empty());
                if let Ok(pa) = ra {
                    let rest = pa.subrange(acc.len() as int + 1, pa.len() as int);
                    assert(pa =~= acc.push(p) + rest);
                    assert(pa.take(acc.len() as int) =~= acc);
                    assert(rc == Ok::<Seq<SPar>, DV>(rest));
                    if let Ok(pb) = rb {
                        assert(pb.subrange(1, pb.len() as int) =~= rest);
                        assert(pb =~= seq![p] + rest);
                        assert(pa.subrange(acc.len() as int, pa.len() as int) =~= pb);
                        assert(pb.subrange(0, pb.len() as int) =~= pb);
                    }
                }
            } else {
                assert(acc.push(p).take(acc.len() as int) =~= acc);
                assert(acc.push(p).subrange(acc.len() as int, acc.len() as int + 1) =~= seq![p]);
                assert(seq![p].subrange(0, 1) =~= seq![p]);
            }
        }
    } else {
        assert(acc.take(acc.len() as int) =~= acc);
        assert(acc.subrange(acc.len() as int, acc.len() as int) =~= Seq::<SPar>::empty());
    }
}

/// Two calls relate: reading the rest of a parameter list at a `,` whose
/// parameter reads as `p` gives what reading on after `p`, with `p` added,
/// gives.
pub proof fn law_params_rest_step(st: PState, acc: Seq<SPar>, p: SPar, st2: PState)
    requires
        check(st, TokView::Comma),
        sp_param(adv(st)) == (Ok::<SPar, DV>(p), st2),
    ensures
        sp_params_rest(st, acc) == sp_params_rest(st2, acc.push(p)),
{
    reveal(sp_params_rest);
    lemma_param_progress(adv(st));
}

/// The `else if` branches of an `if` are read to the last, in order: where
/// no `else` follows, the branches read so far are the result; a final
/// `else` adds its block; otherwise the result keeps the branches read so
/// far in front, the `else if` read here comes next, and what follows does
/// not depend on what was read before.
pub proof fn law_if_rest(st: PState, acc: Seq<(SE, SBl)>)
    ensures
        ({
            let (r, end) = sp_if_rest(st, acc);
            let st3 = sp_expr_no_struct_lit(adv(adv(st))).1;
            &&& !check(st, TokView::Else) ==> r == Ok::<(Seq<(SE, SBl)>, Option<SBl>), Seq<DV>>(
                (acc, None),
            ) && end == st
            &&& (check(st, TokView::Else) && !check(adv(st), TokView::If) && sp_block(adv(st)).0 is Ok)
                ==> r == Ok::<(Seq<(SE, SBl)>, Option<SBl>), Seq<DV>>(
                (acc, Some(sp_block(adv(st)).0->Ok_0)),
            )
            &&& r matches Ok((bs, _)) ==> bs.len() >= acc.len() && bs.take(acc.len() as int) == acc
            &&& (check(st, TokView::Else) && check(adv(st), TokView::If)
                && sp_expr_no_struct_lit(adv(adv(st))).0 is Ok && sp_block(st3).0 is Ok && r is Ok)
                ==> (r matches Ok((bs, _)) && bs.len() > acc.len() && bs[acc.len() as int] == (
                sp_expr_no_struct_lit(adv(adv(st))).0->Ok_0,
                sp_block(st3).0->Ok_0,
            ))
            &&& if_after(st, acc) == sp_if_rest(st, Seq::empty())
        }),
    decreases rem(st),
{
    reveal(sp_if_rest);
    let (e, st1) = eat(st, TokView::Else);
    if e is Some {
        if check(st1, TokView::If) {
            let (rc, st3) = sp_expr_no_struct_lit(adv(st1));
            if let Ok(cond) = rc {
                if rem(st3) < rem(st) {
                    let (rb, st4) = sp_block(st3);
                    if let Ok(b) = rb {
                        let x = (cond, b);
                        if rem(st4) < rem(st) {
                            law_if_rest(st4, acc.push(x));
                            law_if_rest(st4, seq![x]);
                            law_if_rest(st4, Seq::empty());
                            let (ra, ea) = sp_if_rest(st4, acc.push(x));
                            let (rb2, eb) = sp_if_rest(st4, seq![x]);
                            if let Ok((pa, ela)) = ra {
                                let rest = pa.subrange(acc.len() as int + 1, pa.len() as int);
                                assert(pa =~= acc.push(x) + rest);
                                assert(pa.take(acc.len() as int) =~= acc);
                                if let Ok((pb, elb)) = rb2 {
                                    assert(pb.subrange(1, pb.len() as int) =~= rest);
                                    assert(pb =~= seq![x] + rest);
                                    assert(pa.subrange(acc.len() as int, pa.len() as int) =~= pb);
                                    assert(pb.subrange(0, pb.len() as int) =~= pb);
                                }
                            }
                        } else {
                            assert(acc.push(x).take(acc.len() as int) =~= acc);
                            assert(acc.push(x).subrange(acc.len() as int, acc.len() as int + 1) =~= seq![x]);
                            assert(seq![x].subrange(0, 1) =~= seq![x]);
                        }
                    }
                }
            }
        } else {
            assert(acc.take(acc.len() as int) =~= acc);
            assert(acc.subrange(acc.len() as int, acc.len() as int) =~= Seq::<(SE, SBl)>::empty());
        }
    } else {
        assert(acc.take(acc.len() as int) =~= acc);
        assert(acc.subrange(acc.len() as int, acc.len() as int) =~= Seq::<(SE, SBl)>::empty());
    }
}

/// What reading the `else` branches after `acc` gives, with `acc` left out.
pub open spec fn if_after(st: PState, acc: Seq<(SE, SBl)>) -> (
    Result<(Seq<(SE, SBl)>, Option<SBl>), Seq<DV>>,
    PState,
) {
    let (r, end) = sp_if_rest(st, acc);
    (
        match r {
            Ok((bs, el)) => Ok((bs.subrange(acc.len() as int, bs.len() as int), el)),
            Err(e) => Err(e),
        },
        end,
    )
}

/// Two calls relate: at `else if`, with the condition read to `st3` and the
/// block to `st4`, the rest of the statement is what reading on at `st4`
/// gives, with that branch added.
pub proof fn law_if_rest_step(
    st: PState,
    acc: Seq<(SE, SBl)>,
    cond: SE,
    st3: PState,
    b: SBl,
    st4: PState,
)
    requires
        check(st, TokView::Else),
        check(adv(st), TokView::If),
        sp_expr_no_struct_lit(adv(adv(st))) == (Ok::<SE, DV>(cond), st3),
        rem(st3) < rem(st),
        sp_block(st3) == (Ok::<SBl, Seq<DV>>(b), st4),
        rem(st4) < rem(st),
    ensures
        sp_if_rest(st, acc) == sp_if_rest(st4, acc.push((cond, b))),
{
    reveal(sp_if_rest);
}

} // verus!

verus! {

/// `b` is `a` read further: the same number of tokens, and a position no
/// further back and within them.
pub open spec fn reads_on(a: PState, b: PState) -> bool {
    b.toks.len() == a.toks.len() && a.pos <= b.pos <= b.toks.len()
}

proof fn lemma_type_progress(st: PState)
    requires
        0 <= st.pos <= st.toks.len(),
    ensures
        reads_on(st, sp_type(st).1),
        sp_type(st).0 is Ok ==> sp_type(st).1.pos > st.pos,
    decreases rem(st), 3nat,
{
    reveal(sp_type);
    reveal(sp_fn_type);
    reveal(sp_type_list_rest);
    let start = mark(st);
    if check(st, TokView::Readonly) {
        lemma_type_progress(adv(st));
    } else if check(st, TokView::Fn) {
        lemma_fn_type_progress(st, start);
    } else if let Some((t, span)) = peek(st) {
        if t@ is Ptr || t@ is Span {
            let st1 = adv(st);
            if check(st1, TokView::Lt) {
                lemma_type_progress(adv(st1));
            }
        }
    }
}

proof fn lemma_fn_type_progress(st: PState, start: usize)
    requires
        0 <= st.pos <= st.toks.len(),
    ensures
        reads_on(st, sp_fn_type(st, start).1),
        sp_fn_type(st, start).0 is Ok ==> sp_fn_type(st, start).1.pos > st.pos,
    decreases rem(st), 2nat,
{
    reveal(sp_type);
    reveal(sp_fn_type);
    reveal(sp_type_list_rest);
    if check(st, TokView::Fn) {
        let (r1, st1) = expect(adv(st), TokView::LParen);
        if r1 is Ok {
            let (r2, st2) = if check(st1, TokView::RParen) {
                (Ok(Seq::<crate::parser::spec::STy>::empty()), st1)
            } else {
                lemma_type_progress(st1);
                let (f, sa) = sp_type(st1);
                match f {
                    Err(e) => (Err(e), sa),
                    Ok(first) => if rem(sa) < rem(st) {
                        lemma_type_list_progress(sa, seq![first]);
                        sp_type_list_rest(sa, seq![first])
                    } else {
                        (Ok(seq![first]), sa)
                    },
                }
            };
            if r2 is Ok {
                let (r3, st3) = expect(st2, TokView::RParen);
                if r3 is Ok {
                    let (ra, st4) = eat(st3, TokView::Arrow);
                    if ra is Some && rem(st4) < rem(st) {
                        lemma_type_progress(st4);
                    }
                }
            }
        }
    }
}

proof fn lemma_type_list_progress(st: PState, acc: Seq<crate::parser::spec::STy>)
    requires
        0 <= st.pos <= st.toks.len(),
    ensures
        reads_on(st, sp_type_list_rest(st, acc).1),
    decreases rem(st), 1nat,
{
    reveal(sp_type);
    reveal(sp_fn_type);
    reveal(sp_type_list_rest);
    let (c, st1) = eat(st, TokView::Comma);
    if c is Some {
        lemma_type_progress(st1);
        let (r, st2) = sp_type(st1);
        if let Ok(t) = r {
            if rem(st2) < rem(st) {
                lemma_type_list_progress(st2, acc.push(t));
            }
        }
    }
}

/// A parameter that reads takes at least one token.
proof fn lemma_param_progress(st: PState)
    requires
        0 <= st.pos <= st.toks.len(),
    ensures
        reads_on(st, sp_param(st).1),
        sp_param(st).0 is Ok ==> sp_param(st).1.pos > st.pos,
{
    reveal(sp_param);
    if check(st, TokView::SelfKw) {
        let (c, st1) = eat(adv(st), TokView::Colon);
        if c is Some {
            lemma_type_progress(st1);
        }
    } else {
        let (r1, st1) = expect_ident(st);
        if r1 is Ok {
            let (r2, st2) = expect(st1, TokView::Colon);
            if r2 is Ok {
                lemma_type_progress(st2);
            }
        }
    }
}

/// A parameter list is read to its last parameter: when the rest of a
/// list reads, no `,` is left after it.
pub proof fn law_params_read_to_end(st: PState, acc: Seq<SPar>)
    ensures
        sp_params_rest(st, acc).0 is Ok ==> !check(sp_params_rest(st, acc).1, TokView::Comma),
    decreases rem(st),
{
    reveal(sp_params_rest);
    if check(st, TokView::Comma) {
        let st1 = adv(st);
        lemma_param_progress(st1);
        let (r, st2) = sp_param(st1);
        if let Ok(p) = r {
            law_params_read_to_end(st2, acc.push(p));
        }
    }
}

} // verus!
