//! The parser: turns tokens into a syntax tree, reporting what it cannot
//! read and recovering at statement and declaration boundaries.
pub mod spec;
pub mod state;
mod decl;
mod expr;
mod stmt;
mod ty;
pub mod laws;

use vstd::prelude::*;
use crate::common::Span;
use crate::diagnostic::Diagnostic;
use crate::errors::ParserError;
use crate::lexer::token::Token;
use spec::{
    adv, at_end, check, eat, expect, expect_block_open, expect_semicolon, expected_block,
    expected_semicolon, invalid_assignment_target, expected_expression, expected_identifier, expected_type,
    found_text, last_end, mark, moved, peek, peek_tok_at, rem, sp_synchronize,
    sp_synchronize_top_level, span_from, group_token_steps, peek_tok, stmt_keyword, span_res, state_wf, tokens_wf, unexpected_eof,
    unexpected_token, PState,
};

verus! {

broadcast use group_token_steps;

/// A recursive-descent parser over a sequence of tokens.
pub struct Parser {
    tokens: Vec<(Token, Span)>,
    pos: usize,
    allow_struct_lit: bool,
}

impl View for Parser {
    type V = PState;

    closed spec fn view(&self) -> PState {
        PState { toks: self.tokens@, pos: self.pos as int, allow: self.allow_struct_lit }
    }
}

/// The diagnostic for `ParserError::UnexpectedToken`.
fn err_unexpected_token(expected: String, found: String, span: Span) -> (d: Diagnostic)
    ensures
        d@ == unexpected_token(expected@, found@, span),
{
    Diagnostic::from_parser_error(ParserError::UnexpectedToken { expected, found }, span)
}

/// The diagnostic for `ParserError::UnexpectedEof`.
fn err_unexpected_eof(expected: String, span: Span) -> (d: Diagnostic)
    ensures
        d@ == unexpected_eof(expected@, span),
{
    Diagnostic::from_parser_error(ParserError::UnexpectedEof { expected }, span)
}

/// The diagnostic for `ParserError::ExpectedExpression`.
fn err_expected_expression(found: String, span: Span) -> (d: Diagnostic)
    ensures
        d@ == expected_expression(found@, span),
{
    Diagnostic::from_parser_error(ParserError::ExpectedExpression { found }, span)
}

/// The diagnostic for `ParserError::ExpectedType`.
fn err_expected_type(found: String, span: Span) -> (d: Diagnostic)
    ensures
        d@ == expected_type(found@, span),
{
    Diagnostic::from_parser_error(ParserError::ExpectedType { found }, span)
}

/// The diagnostic for `ParserError::ExpectedIdentifier`.
fn err_expected_identifier(found: String, span: Span) -> (d: Diagnostic)
    ensures
        d@ == expected_identifier(found@, span),
{
    Diagnostic::from_parser_error(ParserError::ExpectedIdentifier { found }, span)
}

/// The diagnostic for `ParserError::ExpectedSemicolon`.
fn err_expected_semicolon(found: String, span: Span) -> (d: Diagnostic)
    ensures
        d@ == expected_semicolon(found@, span),
{
    Diagnostic::from_parser_error(ParserError::ExpectedSemicolon { found }, span)
}

/// The diagnostic for `ParserError::ExpectedBlock`.
fn err_expected_block(found: String, span: Span) -> (d: Diagnostic)
    ensures
        d@ == expected_block(found@, span),
{
    Diagnostic::from_parser_error(ParserError::ExpectedBlock { found }, span)
}

/// The diagnostic for `ParserError::InvalidAssignmentTarget`.
pub(crate) fn err_invalid_assignment_target(span: Span) -> (d: Diagnostic)
    ensures
        d@ == invalid_assignment_target(span),
{
    Diagnostic::from_parser_error(ParserError::InvalidAssignmentTarget, span)
}

impl Parser {
    /// The parser is in a state it can go on from.
    pub open spec fn wf(&self) -> bool {
        state_wf(self@)
    }

    /// A parser at the first of `tokens`, where struct literals are allowed.
    pub fn new(tokens: Vec<(Token, Span)>) -> (p: Self)
        requires
            tokens_wf(tokens@),
        ensures
            p.wf(),
            p@ == (PState { toks: tokens@, pos: 0, allow: true }),
    {
        Parser { tokens, pos: 0, allow_struct_lit: true }
    }

    fn at_end(&self) -> (b: bool)
        requires
            self.wf(),
        ensures
            b == at_end(self@),
    {
        self.pos >= self.tokens.len()
    }

    /// The next token, if any.
    fn peek_token(&self) -> (r: Option<&Token>)
        requires
            self.wf(),
        ensures
            match peek(self@) {
                Some(p) => r matches Some(t) && *t == p.0,
                None => r is None,
            },
    {
        if self.pos < self.tokens.len() {
            Some(&self.tokens[self.pos].0)
        } else {
            None
        }
    }

    /// The next token and its span, if any.
    fn peek_cloned(&self) -> (r: Option<(Token, Span)>)
        requires
            self.wf(),
        ensures
            r == peek(self@),
    {
        if self.pos < self.tokens.len() {
            Some((self.tokens[self.pos].0.clone(), self.tokens[self.pos].1))
        } else {
            None
        }
    }

    /// The token `k` places after the next one, if any.
    fn peek_token_at(&self, k: usize) -> (r: Option<&Token>)
        requires
            self.wf(),
        ensures
            match peek_tok_at(self@, k as int) {
                Some(t) => r matches Some(x) && x@ == t,
                None => r is None,
            },
    {
        if k < self.tokens.len() - self.pos {
            Some(&self.tokens[self.pos + k].0)
        } else {
            None
        }
    }

    /// Moves past the next token and gives it back.
    fn advance(&mut self) -> (r: (Token, Span))
        requires
            old(self).wf(),
            !at_end(old(self)@),
        ensures
            final(self)@ == adv(old(self)@),
            final(self).wf(),
            r == old(self)@.toks[old(self)@.pos],
    {
        assert(self.pos < self.tokens.len());
        let t = (self.tokens[self.pos].0.clone(), self.tokens[self.pos].1);
        self.pos = self.pos + 1;
        t
    }

    fn check(&self, expected: &Token) -> (b: bool)
        requires
            self.wf(),
        ensures
            b == check(self@, expected@),
    {
        match self.peek_token() {
            Some(t) => t.same(expected),
            None => false,
        }
    }

    fn eat(&mut self, expected: &Token) -> (r: Option<Span>)
        requires
            old(self).wf(),
        ensures
            (r, final(self)@) == eat(old(self)@, expected@),
            moved(old(self)@, final(self)@),
    {
        reveal(eat);
        if self.check(expected) {
            Some(self.advance().1)
        } else {
            None
        }
    }

    fn expect(&mut self, expected: &Token) -> (r: Result<Span, Diagnostic>)
        requires
            old(self).wf(),
        ensures
            (span_res(r), final(self)@) == expect(old(self)@, expected@),
            moved(old(self)@, final(self)@),
    {
        reveal(expect);
        if self.check(expected) {
            Ok(self.advance().1)
        } else {
            let start = self.mark();
            Err(err_unexpected_token(expected.text(), self.found_text(), self.span_from(start)))
        }
    }

    /// The `;` that ends a statement.
    fn expect_semicolon(&mut self) -> (r: Result<Span, Diagnostic>)
        requires
            old(self).wf(),
        ensures
            (span_res(r), final(self)@) == expect_semicolon(old(self)@),
            moved(old(self)@, final(self)@),
    {
        reveal(expect_semicolon);
        if self.check(&Token::Semicolon) {
            Ok(self.advance().1)
        } else {
            let start = self.mark();
            Err(err_expected_semicolon(self.found_text(), self.span_from(start)))
        }
    }

    /// The `{` that opens a block.
    fn expect_block_open(&mut self) -> (r: Result<Span, Diagnostic>)
        requires
            old(self).wf(),
        ensures
            (span_res(r), final(self)@) == expect_block_open(old(self)@),
            moved(old(self)@, final(self)@),
    {
        reveal(expect_block_open);
        if self.check(&Token::LBrace) {
            Ok(self.advance().1)
        } else {
            let start = self.mark();
            Err(err_expected_block(self.found_text(), self.span_from(start)))
        }
    }

    /// The end of the last token, or `dflt` when there is none.
    fn last_end(&self, dflt: usize) -> (r: usize)
        requires
            self.wf(),
        ensures
            r == last_end(self@, dflt),
    {
        if self.tokens.len() > 0 {
            self.tokens[self.tokens.len() - 1].1.end
        } else {
            dflt
        }
    }

    fn span_from(&self, start: usize) -> (r: Span)
        requires
            self.wf(),
        ensures
            r == span_from(self@, start),
    {
        let end = if self.pos < self.tokens.len() {
            self.tokens[self.pos].1.start
        } else {
            self.last_end(start)
        };
        Span { start, end }
    }

    fn mark(&self) -> (r: usize)
        requires
            self.wf(),
        ensures
            r == mark(self@),
    {
        if self.pos < self.tokens.len() {
            self.tokens[self.pos].1.start
        } else {
            self.last_end(0)
        }
    }

    /// How the next token is named in messages.
    fn found_text(&self) -> (r: String)
        requires
            self.wf(),
        ensures
            r@ == found_text(self@),
    {
        reveal(found_text);
        match self.peek_token() {
            Some(t) => t.text(),
            None => String::from_str("EOF"),
        }
    }

    /// Skips to just after the next `;`, or to the next `}` or statement
    /// keyword.
    fn synchronize(&mut self)
        requires
            old(self).wf(),
        ensures
            final(self)@ == sp_synchronize(old(self)@),
            moved(old(self)@, final(self)@),
            final(self)@.pos == old(self)@.pos ==> match peek_tok(old(self)@) {
                Some(t) => t is RBrace || stmt_keyword(t),
                None => true,
            },
    {
        reveal(sp_synchronize);
        loop
            invariant_except_break
                self.wf(),
                moved(old(self)@, self@),
                self@.toks == old(self)@.toks,
                sp_synchronize(self@) == sp_synchronize(old(self)@),
            ensures
                self@ == sp_synchronize(old(self)@),
                moved(old(self)@, self@),
                self@.toks == old(self)@.toks,
                self@.pos == old(self)@.pos ==> match peek_tok(self@) {
                    Some(t) => t is RBrace || stmt_keyword(t),
                    None => true,
                },
            decreases rem(self@),
        {
            reveal(sp_synchronize);
            match self.peek_token() {
                None => break,
                Some(Token::Semicolon) => {
                    self.advance();
                    break;
                },
                Some(Token::RBrace) | Some(Token::Var) | Some(Token::Const) | Some(Token::Return)
                | Some(Token::If) | Some(Token::While) | Some(Token::Break) | Some(
                    Token::Continue,
                ) => break,
                _ => {
                    self.advance();
                },
            }
        }
        assert(self@.pos == old(self)@.pos ==> self@ == old(self)@);
    }

    /// Skips to the next `fn` or `struct`, or to just after the next `}`.
    fn synchronize_top_level(&mut self)
        requires
            old(self).wf(),
        ensures
            final(self)@ == sp_synchronize_top_level(old(self)@),
            moved(old(self)@, final(self)@),
            final(self)@.pos == old(self)@.pos ==> match peek_tok(old(self)@) {
                Some(t) => t is Fn || t is Struct,
                None => true,
            },
    {
        reveal(sp_synchronize_top_level);
        loop
            invariant_except_break
                self.wf(),
                moved(old(self)@, self@),
                self@.toks == old(self)@.toks,
                sp_synchronize_top_level(self@) == sp_synchronize_top_level(old(self)@),
            ensures
                self@ == sp_synchronize_top_level(old(self)@),
                moved(old(self)@, self@),
                self@.toks == old(self)@.toks,
                self@.pos == old(self)@.pos ==> match peek_tok(self@) {
                    Some(t) => t is Fn || t is Struct,
                    None => true,
                },
            decreases rem(self@),
        {
            reveal(sp_synchronize_top_level);
            match self.peek_token() {
                None => break,
                Some(Token::Fn) | Some(Token::Struct) => break,
                Some(Token::RBrace) => {
                    self.advance();
                    break;
                },
                _ => {
                    self.advance();
                },
            }
        }
        assert(self@.pos == old(self)@.pos ==> self@ == old(self)@);
    }
}

} // verus!
