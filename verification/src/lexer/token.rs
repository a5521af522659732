//! The tokens of Minuto source text.
use vstd::prelude::*;
use crate::errors::LexerError;
use crate::text::{
    char_debug, char_debug_text, push_signed_decimal, signed_decimal, str_debug, str_debug_text,
};

verus! {

/// What the scanner hands to the lexer along with a failed lexeme: the error
/// that a literal's own rule found, if any.
#[derive(Debug, Clone)]
pub struct LexerExtras {
    pub error: Option<LexerError>,
}

#[derive(Debug, PartialEq, Eq)]
pub enum Token {
    // Keywords
    Var,
    Const,
    Return,
    If,
    Else,
    While,
    Break,
    Continue,
    Fn,
    Struct,
    SelfKw,
    Readonly,
    // Type keywords
    Int,
    Char,
    Void,
    Ptr,
    Span,
    // Literals
    IntLit(i64),
    CharLit(char),
    StringLit(String),
    // Identifier
    Ident(String),
    // Two-character operators
    Shl,
    Shr,
    EqEq,
    NotEq,
    LtEq,
    GtEq,
    AndAnd,
    OrOr,
    Arrow,
    ColonColon,
    // Single-character operators
    Plus,
    Minus,
    Star,
    Slash,
    Percent,
    Ampersand,
    Pipe,
    Caret,
    Tilde,
    Bang,
    Lt,
    Gt,
    Eq,
    Dot,
    // Delimiters
    LParen,
    RParen,
    LBrace,
    RBrace,
    LBracket,
    RBracket,
    Comma,
    Colon,
    Semicolon,
    /// A block comment; the lexer skips it when closed.
    BlockComment,
}

/// A token with the text of its literal or identifier as a character sequence.
pub enum TokView {
    Var,
    Const,
    Return,
    If,
    Else,
    While,
    Break,
    Continue,
    Fn,
    Struct,
    SelfKw,
    Readonly,
    Int,
    Char,
    Void,
    Ptr,
    Span,
    IntLit(i64),
    CharLit(char),
    StringLit(Seq<char>),
    Ident(Seq<char>),
    Shl,
    Shr,
    EqEq,
    NotEq,
    LtEq,
    GtEq,
    AndAnd,
    OrOr,
    Arrow,
    ColonColon,
    Plus,
    Minus,
    Star,
    Slash,
    Percent,
    Ampersand,
    Pipe,
    Caret,
    Tilde,
    Bang,
    Lt,
    Gt,
    Eq,
    Dot,
    LParen,
    RParen,
    LBrace,
    RBrace,
    LBracket,
    RBracket,
    Comma,
    Colon,
    Semicolon,
    BlockComment,
}

impl View for Token {
    type V = TokView;

    open spec fn view(&self) -> TokView {
        match self {
            Token::Var => TokView::Var,
            Token::Const => TokView::Const,
            Token::Return => TokView::Return,
            Token::If => TokView::If,
            Token::Else => TokView::Else,
            Token::While => TokView::While,
            Token::Break => TokView::Break,
            Token::Continue => TokView::Continue,
            Token::Fn => TokView::Fn,
            Token::Struct => TokView::Struct,
            Token::SelfKw => TokView::SelfKw,
            Token::Readonly => TokView::Readonly,
            Token::Int => TokView::Int,
            Token::Char => TokView::Char,
            Token::Void => TokView::Void,
            Token::Ptr => TokView::Ptr,
            Token::Span => TokView::Span,
            Token::IntLit(n) => TokView::IntLit(*n),
            Token::CharLit(c) => TokView::CharLit(*c),
            Token::StringLit(s) => TokView::StringLit(s@),
            Token::Ident(s) => TokView::Ident(s@),
            Token::Shl => TokView::Shl,
            Token::Shr => TokView::Shr,
            Token::EqEq => TokView::EqEq,
            Token::NotEq => TokView::NotEq,
            Token::LtEq => TokView::LtEq,
            Token::GtEq => TokView::GtEq,
            Token::AndAnd => TokView::AndAnd,
            Token::OrOr => TokView::OrOr,
            Token::Arrow => TokView::Arrow,
            Token::ColonColon => TokView::ColonColon,
            Token::Plus => TokView::Plus,
            Token::Minus => TokView::Minus,
            Token::Star => TokView::Star,
            Token::Slash => TokView::Slash,
            Token::Percent => TokView::Percent,
            Token::Ampersand => TokView::Ampersand,
            Token::Pipe => TokView::Pipe,
            Token::Caret => TokView::Caret,
            Token::Tilde => TokView::Tilde,
            Token::Bang => TokView::Bang,
            Token::Lt => TokView::Lt,
            Token::Gt => TokView::Gt,
            Token::Eq => TokView::Eq,
            Token::Dot => TokView::Dot,
            Token::LParen => TokView::LParen,
            Token::RParen => TokView::RParen,
            Token::LBrace => TokView::LBrace,
            Token::RBrace => TokView::RBrace,
            Token::LBracket => TokView::LBracket,
            Token::RBracket => TokView::RBracket,
            Token::Comma => TokView::Comma,
            Token::Colon => TokView::Colon,
            Token::Semicolon => TokView::Semicolon,
            Token::BlockComment => TokView::BlockComment,
        }
    }
}

impl Clone for Token {
    fn clone(&self) -> (r: Self)
        ensures
            r == *self,
    {
        match self {
            Token::IntLit(n) => Token::IntLit(*n),
            Token::CharLit(c) => Token::CharLit(*c),
            Token::StringLit(s) => Token::StringLit(s.clone()),
            Token::Ident(s) => Token::Ident(s.clone()),
            Token::Var => Token::Var,
            Token::Const => Token::Const,
            Token::Return => Token::Return,
            Token::If => Token::If,
            Token::Else => Token::Else,
            Token::While => Token::While,
            Token::Break => Token::Break,
            Token::Continue => Token::Continue,
            Token::Fn => Token::Fn,
            Token::Struct => Token::Struct,
            Token::SelfKw => Token::SelfKw,
            Token::Readonly => Token::Readonly,
            Token::Int => Token::Int,
            Token::Char => Token::Char,
            Token::Void => Token::Void,
            Token::Ptr => Token::Ptr,
            Token::Span => Token::Span,
            Token::Shl => Token::Shl,
            Token::Shr => Token::Shr,
            Token::EqEq => Token::EqEq,
            Token::NotEq => Token::NotEq,
            Token::LtEq => Token::LtEq,
            Token::GtEq => Token::GtEq,
            Token::AndAnd => Token::AndAnd,
            Token::OrOr => Token::OrOr,
            Token::Arrow => Token::Arrow,
            Token::ColonColon => Token::ColonColon,
            Token::Plus => Token::Plus,
            Token::Minus => Token::Minus,
            Token::Star => Token::Star,
            Token::Slash => Token::Slash,
            Token::Percent => Token::Percent,
            Token::Ampersand => Token::Ampersand,
            Token::Pipe => Token::Pipe,
            Token::Caret => Token::Caret,
            Token::Tilde => Token::Tilde,
            Token::Bang => Token::Bang,
            Token::Lt => Token::Lt,
            Token::Gt => Token::Gt,
            Token::Eq => Token::Eq,
            Token::Dot => Token::Dot,
            Token::LParen => Token::LParen,
            Token::RParen => Token::RParen,
            Token::LBrace => Token::LBrace,
            Token::RBrace => Token::RBrace,
            Token::LBracket => Token::LBracket,
            Token::RBracket => Token::RBracket,
            Token::Comma => Token::Comma,
            Token::Colon => Token::Colon,
            Token::Semicolon => Token::Semicolon,
            Token::BlockComment => Token::BlockComment,
        }
    }
}

/// The name of a token that carries no value, as its variant is spelled.
pub open spec fn unit_token_name(t: TokView) -> Seq<char> {
    match t {
        TokView::Var => "Var"@,
        TokView::Const => "Const"@,
        TokView::Return => "Return"@,
        TokView::If => "If"@,
        TokView::Else => "Else"@,
        TokView::While => "While"@,
        TokView::Break => "Break"@,
        TokView::Continue => "Continue"@,
        TokView::Fn => "Fn"@,
        TokView::Struct => "Struct"@,
        TokView::SelfKw => "SelfKw"@,
        TokView::Readonly => "Readonly"@,
        TokView::Int => "Int"@,
        TokView::Char => "Char"@,
        TokView::Void => "Void"@,
        TokView::Ptr => "Ptr"@,
        TokView::Span => "Span"@,
        TokView::Shl => "Shl"@,
        TokView::Shr => "Shr"@,
        TokView::EqEq => "EqEq"@,
        TokView::NotEq => "NotEq"@,
        TokView::LtEq => "LtEq"@,
        TokView::GtEq => "GtEq"@,
        TokView::AndAnd => "AndAnd"@,
        TokView::OrOr => "OrOr"@,
        TokView::Arrow => "Arrow"@,
        TokView::ColonColon => "ColonColon"@,
        TokView::Plus => "Plus"@,
        TokView::Minus => "Minus"@,
        TokView::Star => "Star"@,
        TokView::Slash => "Slash"@,
        TokView::Percent => "Percent"@,
        TokView::Ampersand => "Ampersand"@,
        TokView::Pipe => "Pipe"@,
        TokView::Caret => "Caret"@,
        TokView::Tilde => "Tilde"@,
        TokView::Bang => "Bang"@,
        TokView::Lt => "Lt"@,
        TokView::Gt => "Gt"@,
        TokView::Eq => "Eq"@,
        TokView::Dot => "Dot"@,
        TokView::LParen => "LParen"@,
        TokView::RParen => "RParen"@,
        TokView::LBrace => "LBrace"@,
        TokView::RBrace => "RBrace"@,
        TokView::LBracket => "LBracket"@,
        TokView::RBracket => "RBracket"@,
        TokView::Comma => "Comma"@,
        TokView::Colon => "Colon"@,
        TokView::Semicolon => "Semicolon"@,
        TokView::BlockComment => "BlockComment"@,
        _ => ""@,
    }
}

/// How a token is shown in messages: its variant's name, followed by its value
/// in parentheses when it has one, in its `Debug` form.
pub open spec fn token_text(t: TokView) -> Seq<char> {
    match t {
        TokView::IntLit(n) => "IntLit("@ + signed_decimal(n as int) + ")"@,
        TokView::CharLit(c) => "CharLit("@ + char_debug(c) + ")"@,
        TokView::StringLit(s) => "StringLit("@ + str_debug(s) + ")"@,
        TokView::Ident(s) => "Ident("@ + str_debug(s) + ")"@,
        _ => unit_token_name(t),
    }
}

impl Token {
    fn unit_name(&self) -> (r: &'static str)
        ensures
            r@ == unit_token_name(self@),
    {
        match self {
            Token::Var => "Var",
            Token::Const => "Const",
            Token::Return => "Return",
            Token::If => "If",
            Token::Else => "Else",
            Token::While => "While",
            Token::Break => "Break",
            Token::Continue => "Continue",
            Token::Fn => "Fn",
            Token::Struct => "Struct",
            Token::SelfKw => "SelfKw",
            Token::Readonly => "Readonly",
            Token::Int => "Int",
            Token::Char => "Char",
            Token::Void => "Void",
            Token::Ptr => "Ptr",
            Token::Span => "Span",
            Token::Shl => "Shl",
            Token::Shr => "Shr",
            Token::EqEq => "EqEq",
            Token::NotEq => "NotEq",
            Token::LtEq => "LtEq",
            Token::GtEq => "GtEq",
            Token::AndAnd => "AndAnd",
            Token::OrOr => "OrOr",
            Token::Arrow => "Arrow",
            Token::ColonColon => "ColonColon",
            Token::Plus => "Plus",
            Token::Minus => "Minus",
            Token::Star => "Star",
            Token::Slash => "Slash",
            Token::Percent => "Percent",
            Token::Ampersand => "Ampersand",
            Token::Pipe => "Pipe",
            Token::Caret => "Caret",
            Token::Tilde => "Tilde",
            Token::Bang => "Bang",
            Token::Lt => "Lt",
            Token::Gt => "Gt",
            Token::Eq => "Eq",
            Token::Dot => "Dot",
            Token::LParen => "LParen",
            Token::RParen => "RParen",
            Token::LBrace => "LBrace",
            Token::RBrace => "RBrace",
            Token::LBracket => "LBracket",
            Token::RBracket => "RBracket",
            Token::Comma => "Comma",
            Token::Colon => "Colon",
            Token::Semicolon => "Semicolon",
            Token::BlockComment => "BlockComment",
            _ => "",
        }
    }

    /// The text that shows this token in messages.
    pub fn text(&self) -> (r: String)
        ensures
            r@ == token_text(self@),
    {
        match self {
            Token::IntLit(n) => {
                let mut s = String::from_str("IntLit(");
                push_signed_decimal(&mut s, *n);
                s.append(")");
                s
            },
            Token::CharLit(c) => {
                let mut s = String::from_str("CharLit(");
                let d = char_debug_text(*c);
                s.append(d.as_str());
                s.append(")");
                s
            },
            Token::StringLit(v) => {
                let mut s = String::from_str("StringLit(");
                let d = str_debug_text(v.as_str());
                s.append(d.as_str());
                s.append(")");
                s
            },
            Token::Ident(v) => {
                let mut s = String::from_str("Ident(");
                let d = str_debug_text(v.as_str());
                s.append(d.as_str());
                s.append(")");
                s
            },
            _ => String::from_str(self.unit_name()),
        }
    }

    /// Whether two tokens are the same: same kind, and the same value when they
    /// carry one.
    pub fn same(&self, other: &Token) -> (r: bool)
        ensures
            r == (self@ == other@),
    {
        match (self, other) {
            (Token::IntLit(a), Token::IntLit(b)) => *a == *b,
            (Token::CharLit(a), Token::CharLit(b)) => *a == *b,
            (Token::StringLit(a), Token::StringLit(b)) => *a == *b,
            (Token::Ident(a), Token::Ident(b)) => *a == *b,
            (Token::IntLit(_), _) | (Token::CharLit(_), _) | (Token::StringLit(_), _)
            | (Token::Ident(_), _) => false,
            (_, Token::IntLit(_)) | (_, Token::CharLit(_)) | (_, Token::StringLit(_)) | (
                _,
                Token::Ident(_),
            ) => false,
            _ => self.unit_index() == other.unit_index(),
        }
    }

    spec fn spec_unit_index(t: TokView) -> int {
        match t {
            TokView::Var => 0,
            TokView::Const => 1,
            TokView::Return => 2,
            TokView::If => 3,
            TokView::Else => 4,
            TokView::While => 5,
            TokView::Break => 6,
            TokView::Continue => 7,
            TokView::Fn => 8,
            TokView::Struct => 9,
            TokView::SelfKw => 10,
            TokView::Readonly => 11,
            TokView::Int => 12,
            TokView::Char => 13,
            TokView::Void => 14,
            TokView::Ptr => 15,
            TokView::Span => 16,
            TokView::Shl => 17,
            TokView::Shr => 18,
            TokView::EqEq => 19,
            TokView::NotEq => 20,
            TokView::LtEq => 21,
            TokView::GtEq => 22,
            TokView::AndAnd => 23,
            TokView::OrOr => 24,
            TokView::Arrow => 25,
            TokView::ColonColon => 26,
            TokView::Plus => 27,
            TokView::Minus => 28,
            TokView::Star => 29,
            TokView::Slash => 30,
            TokView::Percent => 31,
            TokView::Ampersand => 32,
            TokView::Pipe => 33,
            TokView::Caret => 34,
            TokView::Tilde => 35,
            TokView::Bang => 36,
            TokView::Lt => 37,
            TokView::Gt => 38,
            TokView::Eq => 39,
            TokView::Dot => 40,
            TokView::LParen => 41,
            TokView::RParen => 42,
            TokView::LBrace => 43,
            TokView::RBrace => 44,
            TokView::LBracket => 45,
            TokView::RBracket => 46,
            TokView::Comma => 47,
            TokView::Colon => 48,
            TokView::Semicolon => 49,
            TokView::BlockComment => 50,
            _ => -1,
        }
    }

    fn unit_index(&self) -> (r: u8)
        ensures
            r as int == Self::spec_unit_index(self@) || (Self::spec_unit_index(self@) == -1
                && r == 255),
    {
        match self {
            Token::Var => 0,
            Token::Const => 1,
            Token::Return => 2,
            Token::If => 3,
            Token::Else => 4,
            Token::While => 5,
            Token::Break => 6,
            Token::Continue => 7,
            Token::Fn => 8,
            Token::Struct => 9,
            Token::SelfKw => 10,
            Token::Readonly => 11,
            Token::Int => 12,
            Token::Char => 13,
            Token::Void => 14,
            Token::Ptr => 15,
            Token::Span => 16,
            Token::Shl => 17,
            Token::Shr => 18,
            Token::EqEq => 19,
            Token::NotEq => 20,
            Token::LtEq => 21,
            Token::GtEq => 22,
            Token::AndAnd => 23,
            Token::OrOr => 24,
            Token::Arrow => 25,
            Token::ColonColon => 26,
            Token::Plus => 27,
            Token::Minus => 28,
            Token::Star => 29,
            Token::Slash => 30,
            Token::Percent => 31,
            Token::Ampersand => 32,
            Token::Pipe => 33,
            Token::Caret => 34,
            Token::Tilde => 35,
            Token::Bang => 36,
            Token::Lt => 37,
            Token::Gt => 38,
            Token::Eq => 39,
            Token::Dot => 40,
            Token::LParen => 41,
            Token::RParen => 42,
            Token::LBrace => 43,
            Token::RBrace => 44,
            Token::LBracket => 45,
            Token::RBracket => 46,
            Token::Comma => 47,
            Token::Colon => 48,
            Token::Semicolon => 49,
            Token::BlockComment => 50,
            _ => 255,
        }
    }
}

} // verus!
