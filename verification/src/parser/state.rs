//! The parser's state as a mathematical value, and what reading one token
//! does to it.
use vstd::prelude::*;
use crate::ast::expr::{BinOp, UnaryOp};
use crate::ast::view::{
    SBlock, SDecl, SExpr, SExprKind, SFieldDecl, SFnDecl, SIdent, SParam, SParamKind, SProgram,
    SReceiver, SStmt, SStmtKind, SStructDecl, SType,
};
use crate::common::{Parsed, Span};
use crate::diagnostic::{diags_view, error_view, Diagnostic, DiagnosticView, Phase};
use crate::lexer::token::{token_text, Token, TokView};

verus! {

/// The state of the parser: its tokens, the position of the next one, and
/// whether a struct literal may follow a name here.
pub struct PState {
    pub toks: Seq<(Token, Span)>,
    pub pos: int,
    pub allow: bool,
}

pub type SE = SExpr<Parsed>;

pub type STy = SType<Parsed>;

pub type DV = DiagnosticView;

/// The tokens a parser can be given: a `>>` or `>=` can give up its first
/// character, so it does not start at the last byte offset there is.
pub open spec fn tokens_wf(toks: Seq<(Token, Span)>) -> bool {
    forall|i: int|
        0 <= i < toks.len() && (#[trigger] toks[i].0@ is Shr || toks[i].0@ is GtEq)
            ==> toks[i].1.start < usize::MAX
}

/// A state the parser can be in: its position within its tokens.
pub open spec fn state_wf(st: PState) -> bool {
    0 <= st.pos <= st.toks.len() && tokens_wf(st.toks)
}

/// What every parsing step keeps: the number of tokens and the struct-literal
/// flag; and the position never moves back.
pub open spec fn moved(a: PState, b: PState) -> bool {
    &&& state_wf(b)
    &&& b.toks.len() == a.toks.len()
    &&& b.allow == a.allow
    &&& a.pos <= b.pos
}

/// The number of tokens left to read.
pub open spec fn rem(st: PState) -> nat {
    if 0 <= st.pos <= st.toks.len() {
        (st.toks.len() - st.pos) as nat
    } else {
        0
    }
}

pub open spec fn peek(st: PState) -> Option<(Token, Span)> {
    if 0 <= st.pos < st.toks.len() {
        Some(st.toks[st.pos])
    } else {
        None
    }
}

pub open spec fn peek_tok(st: PState) -> Option<TokView> {
    match peek(st) {
        Some(p) => Some(p.0@),
        None => None,
    }
}

pub open spec fn peek_tok_at(st: PState, k: int) -> Option<TokView> {
    if 0 <= st.pos + k < st.toks.len() {
        Some(st.toks[st.pos + k].0@)
    } else {
        None
    }
}

pub open spec fn at_end(st: PState) -> bool {
    st.pos >= st.toks.len()
}

pub open spec fn adv(st: PState) -> PState {
    PState { pos: st.pos + 1, ..st }
}

pub open spec fn check(st: PState, t: TokView) -> bool {
    peek_tok(st) == Some(t)
}

/// The keywords that start a statement; recovery inside a block stops at
/// them, and at `}`.
pub open spec fn stmt_keyword(t: TokView) -> bool {
    t is Var || t is Const || t is Return || t is If || t is While || t is Break || t is Continue
}

/// The end of the last token, or `dflt` when there is none.
pub open spec fn last_end(st: PState, dflt: usize) -> usize {
    if st.toks.len() > 0 {
        st.toks.last().1.end
    } else {
        dflt
    }
}

/// Where the next token starts (at the end, where the last one ends).
pub open spec fn mark(st: PState) -> usize {
    match peek(st) {
        Some(p) => p.1.start,
        None => last_end(st, 0),
    }
}

/// The span from `start` to where the next token starts (at the end, to
/// where the last one ends).
pub open spec fn span_from(st: PState, start: usize) -> Span {
    Span {
        start,
        end: match peek(st) {
            Some(p) => p.1.start,
            None => last_end(st, start),
        },
    }
}

/// How the next token is named in messages (`EOF` at the end).
#[verifier::opaque]
pub open spec fn found_text(st: PState) -> Seq<char> {
    match peek(st) {
        Some(p) => token_text(p.0@),
        None => "EOF"@,
    }
}

// ── Diagnostics ──

pub open spec fn perr(message: Seq<char>, code: Seq<char>, span: Span) -> DV {
    error_view(Phase::Parser, span, message, code)
}

pub open spec fn unexpected_token(expected: Seq<char>, found: Seq<char>, span: Span) -> DV {
    perr("expected "@ + expected + ", found "@ + found, "E0101"@, span)
}

pub open spec fn unexpected_eof(expected: Seq<char>, span: Span) -> DV {
    perr("unexpected end of file, expected "@ + expected, "E0102"@, span)
}

pub open spec fn expected_expression(found: Seq<char>, span: Span) -> DV {
    perr("expected expression, found "@ + found, "E0103"@, span)
}

pub open spec fn expected_type(found: Seq<char>, span: Span) -> DV {
    perr("expected type, found "@ + found, "E0104"@, span)
}

pub open spec fn expected_identifier(found: Seq<char>, span: Span) -> DV {
    perr("expected identifier, found "@ + found, "E0105"@, span)
}

pub open spec fn expected_semicolon(found: Seq<char>, span: Span) -> DV {
    perr("expected Semicolon, found "@ + found, "E0106"@, span)
}

pub open spec fn expected_block(found: Seq<char>, span: Span) -> DV {
    perr("expected block, found "@ + found, "E0107"@, span)
}

pub open spec fn invalid_assignment_target(span: Span) -> DV {
    perr("invalid assignment target"@, "E0108"@, span)
}

// ── Token helpers ──

#[verifier::opaque]
pub open spec fn eat(st: PState, t: TokView) -> (Option<Span>, PState) {
    if check(st, t) {
        (Some(peek(st).unwrap().1), adv(st))
    } else {
        (None, st)
    }
}

#[verifier::opaque]
pub open spec fn expect(st: PState, t: TokView) -> (Result<Span, DV>, PState) {
    if check(st, t) {
        (Ok(peek(st).unwrap().1), adv(st))
    } else {
        (Err(unexpected_token(token_text(t), found_text(st), span_from(st, mark(st)))), st)
    }
}

/// The `;` that ends a statement; without it the statement reports a
/// missing semicolon, also at the end of the input.
#[verifier::opaque]
pub open spec fn expect_semicolon(st: PState) -> (Result<Span, DV>, PState) {
    if check(st, TokView::Semicolon) {
        (Ok(peek(st).unwrap().1), adv(st))
    } else {
        (Err(expected_semicolon(found_text(st), span_from(st, mark(st)))), st)
    }
}

/// The `{` that opens a block; without it a block is reported missing,
/// also at the end of the input.
#[verifier::opaque]
pub open spec fn expect_block_open(st: PState) -> (Result<Span, DV>, PState) {
    if check(st, TokView::LBrace) {
        (Ok(peek(st).unwrap().1), adv(st))
    } else {
        (Err(expected_block(found_text(st), span_from(st, mark(st)))), st)
    }
}

/// An identifier.
#[verifier::opaque]
pub open spec fn expect_ident(st: PState) -> (Result<Seq<char>, DV>, PState) {
    match peek_tok(st) {
        Some(TokView::Ident(name)) => (Ok(name), adv(st)),
        Some(_) => (Err(expected_identifier(found_text(st), span_from(st, mark(st)))), st),
        None => (Err(unexpected_eof("identifier"@, span_from(st, mark(st)))), st),
    }
}

/// The name of a field or method: an identifier, or a type keyword taken as
/// its text.
#[verifier::opaque]
pub open spec fn expect_field_name(st: PState) -> (Result<Seq<char>, DV>, PState) {
    match peek_tok(st) {
        Some(TokView::Ident(name)) => (Ok(name), adv(st)),
        Some(TokView::Int) => (Ok("int"@), adv(st)),
        Some(TokView::Char) => (Ok("char"@), adv(st)),
        Some(TokView::Void) => (Ok("void"@), adv(st)),
        Some(TokView::Fn) => (Ok("fn"@), adv(st)),
        Some(TokView::Ptr) => (Ok("ptr"@), adv(st)),
        Some(TokView::Span) => (Ok("span"@), adv(st)),
        Some(_) => (Err(expected_identifier(found_text(st), span_from(st, mark(st)))), st),
        None => (Err(unexpected_eof("field name"@, span_from(st, mark(st)))), st),
    }
}

/// A closing `>` of a type argument list. A `>>` or `>=` gives up its first
/// character: the token is replaced by what remains, and the position stays.
#[verifier::opaque]
pub open spec fn expect_gt(st: PState) -> (Result<Span, DV>, PState) {
    match peek(st) {
        Some((t, span)) => match t@ {
            TokView::Gt => (Ok(span), adv(st)),
            TokView::Shr => (
                Ok(Span { start: span.start, end: (span.start + 1) as usize }),
                PState {
                    toks: st.toks.update(
                        st.pos,
                        (Token::Gt, Span { start: (span.start + 1) as usize, end: span.end }),
                    ),
                    ..st
                },
            ),
            TokView::GtEq => (
                Ok(Span { start: span.start, end: (span.start + 1) as usize }),
                PState {
                    toks: st.toks.update(
                        st.pos,
                        (Token::Eq, Span { start: (span.start + 1) as usize, end: span.end }),
                    ),
                    ..st
                },
            ),
            _ => (Err(unexpected_token(">"@, found_text(st), span_from(st, mark(st)))), st),
        },
        None => (Err(unexpected_eof(">"@, span_from(st, mark(st)))), st),
    }
}

/// What reading an expected token does to the state: on success it moves
/// past that token; on failure it leaves the state as it was.
pub broadcast proof fn lemma_expect_step(st: PState, t: TokView)
    ensures
        (#[trigger] expect(st, t)).0 is Ok <==> check(st, t),
        expect(st, t).0 is Ok ==> expect(st, t).1 == adv(st),
        expect(st, t).0 is Err ==> expect(st, t).1 == st,
{
    reveal(expect);
}

/// What reading a statement's `;` does to the state.
pub broadcast proof fn lemma_expect_semicolon_step(st: PState)
    ensures
        (#[trigger] expect_semicolon(st)).0 is Ok <==> check(st, TokView::Semicolon),
        expect_semicolon(st).0 is Ok ==> expect_semicolon(st).1 == adv(st),
        expect_semicolon(st).0 is Err ==> expect_semicolon(st).1 == st,
{
    reveal(expect_semicolon);
}

/// What reading a block's `{` does to the state.
pub broadcast proof fn lemma_expect_block_open_step(st: PState)
    ensures
        (#[trigger] expect_block_open(st)).0 is Ok <==> check(st, TokView::LBrace),
        expect_block_open(st).0 is Ok ==> expect_block_open(st).1 == adv(st),
        expect_block_open(st).0 is Err ==> expect_block_open(st).1 == st,
{
    reveal(expect_block_open);
}

/// What reading an optional token does to the state.
pub broadcast proof fn lemma_eat_step(st: PState, t: TokView)
    ensures
        (#[trigger] eat(st, t)).0 is Some <==> check(st, t),
        eat(st, t).0 is Some ==> eat(st, t).1 == adv(st),
        eat(st, t).0 is None ==> eat(st, t).1 == st,
{
    reveal(eat);
}

/// What reading an identifier does to the state.
pub broadcast proof fn lemma_expect_ident_step(st: PState)
    ensures
        (#[trigger] expect_ident(st)).0 is Ok ==> peek(st) is Some && expect_ident(st).1 == adv(st),
        expect_ident(st).0 is Err ==> expect_ident(st).1 == st,
{
    reveal(expect_ident);
}

/// What reading a field name does to the state.
pub broadcast proof fn lemma_expect_field_name_step(st: PState)
    ensures
        (#[trigger] expect_field_name(st)).0 is Ok ==> peek(st) is Some && expect_field_name(st).1
            == adv(st),
        expect_field_name(st).0 is Err ==> expect_field_name(st).1 == st,
{
    reveal(expect_field_name);
}

/// What reading a closing `>` does to the state: the tokens keep their
/// number and the position moves by at most one.
pub broadcast proof fn lemma_expect_gt_step(st: PState)
    ensures
        (#[trigger] expect_gt(st)).1.toks.len() == st.toks.len(),
        expect_gt(st).1.allow == st.allow,
        expect_gt(st).1.pos == st.pos || (peek(st) is Some && expect_gt(st).1.pos == st.pos + 1),
        expect_gt(st).0 is Err ==> expect_gt(st).1 == st,
{
    reveal(expect_gt);
}

pub broadcast group group_token_steps {
    lemma_expect_step,
    lemma_expect_semicolon_step,
    lemma_expect_block_open_step,
    lemma_eat_step,
    lemma_expect_ident_step,
    lemma_expect_field_name_step,
    lemma_expect_gt_step,
}

} // verus!
