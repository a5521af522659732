//! The errors of each compiler phase, their codes and their messages.
use vstd::prelude::*;
use crate::text::{decimal, push_char, push_decimal};

verus! {

/// An error of some compiler phase: it has a stable code and a message.
pub trait CompilerError {
    spec fn spec_code(&self) -> Seq<char>;

    spec fn spec_message(&self) -> Seq<char>;

    fn code(&self) -> (r: &'static str)
        ensures
            r@ == self.spec_code(),
    ;

    fn message(&self) -> (r: String)
        ensures
            r@ == self.spec_message(),
    ;
}

// ── Lexer Errors (E0001–E0006) ──

#[derive(Debug, Clone, PartialEq, Eq)]
pub enum LexerError {
    UnexpectedCharacter { character: String },
    InvalidIntLiteral { literal: String, reason: String },
    InvalidCharLiteral { literal: String },
    InvalidEscapeSequence { sequence: char },
    UnterminatedString,
    UnterminatedBlockComment,
}

impl CompilerError for LexerError {
    open spec fn spec_code(&self) -> Seq<char> {
        match self {
            LexerError::UnexpectedCharacter { .. } => "E0001"@,
            LexerError::InvalidIntLiteral { .. } => "E0002"@,
            LexerError::InvalidCharLiteral { .. } => "E0003"@,
            LexerError::InvalidEscapeSequence { .. } => "E0004"@,
            LexerError::UnterminatedString => "E0005"@,
            LexerError::UnterminatedBlockComment => "E0006"@,
        }
    }

    open spec fn spec_message(&self) -> Seq<char> {
        match self {
            LexerError::UnexpectedCharacter { character } => "unexpected character: '"@
                + character@ + "'"@,
            LexerError::InvalidIntLiteral { literal, reason } => "invalid integer literal '"@
                + literal@ + "': "@ + reason@,
            LexerError::InvalidCharLiteral { literal } => "invalid character literal: "@
                + literal@,
            LexerError::InvalidEscapeSequence { sequence } => "invalid escape sequence: '\\"@
                + seq![*sequence] + "'"@,
            LexerError::UnterminatedString => "unterminated string literal"@,
            LexerError::UnterminatedBlockComment => "unterminated block comment"@,
        }
    }

    fn code(&self) -> (r: &'static str) {
        match self {
            LexerError::UnexpectedCharacter { .. } => "E0001",
            LexerError::InvalidIntLiteral { .. } => "E0002",
            LexerError::InvalidCharLiteral { .. } => "E0003",
            LexerError::InvalidEscapeSequence { .. } => "E0004",
            LexerError::UnterminatedString => "E0005",
            LexerError::UnterminatedBlockComment => "E0006",
        }
    }

    fn message(&self) -> (r: String) {
        match self {
            LexerError::UnexpectedCharacter { character } => {
                let mut s = String::from_str("unexpected character: '");
                s.append(character.as_str());
                s.append("'");
                s
            },
            LexerError::InvalidIntLiteral { literal, reason } => {
                let mut s = String::from_str("invalid integer literal '");
                s.append(literal.as_str());
                s.append("': ");
                s.append(reason.as_str());
                s
            },
            LexerError::InvalidCharLiteral { literal } => {
                let mut s = String::from_str("invalid character literal: ");
                s.append(literal.as_str());
                s
            },
            LexerError::InvalidEscapeSequence { sequence } => {
                let mut s = String::from_str("invalid escape sequence: '\\");
                push_char(&mut s, *sequence);
                s.append("'");
                s
            },
            LexerError::UnterminatedString => String::from_str("unterminated string literal"),
            LexerError::UnterminatedBlockComment => String::from_str("unterminated block comment"),
        }
    }
}

// ── Parser Errors (E0101–E0108) ──

#[derive(Debug, Clone, PartialEq, Eq)]
pub enum ParserError {
    UnexpectedToken { expected: String, found: String },
    UnexpectedEof { expected: String },
    ExpectedExpression { found: String },
    ExpectedType { found: String },
    ExpectedIdentifier { found: String },
    ExpectedSemicolon { found: String },
    ExpectedBlock { found: String },
    InvalidAssignmentTarget,
}

impl CompilerError for ParserError {
    open spec fn spec_code(&self) -> Seq<char> {
        match self {
            ParserError::UnexpectedToken { .. } => "E0101"@,
            ParserError::UnexpectedEof { .. } => "E0102"@,
            ParserError::ExpectedExpression { .. } => "E0103"@,
            ParserError::ExpectedType { .. } => "E0104"@,
            ParserError::ExpectedIdentifier { .. } => "E0105"@,
            ParserError::ExpectedSemicolon { .. } => "E0106"@,
            ParserError::ExpectedBlock { .. } => "E0107"@,
            ParserError::InvalidAssignmentTarget => "E0108"@,
        }
    }

    open spec fn spec_message(&self) -> Seq<char> {
        match self {
            ParserError::UnexpectedToken { expected, found } => "expected "@ + expected@
                + ", found "@ + found@,
            ParserError::UnexpectedEof { expected } => "unexpected end of file, expected "@
                + expected@,
            ParserError::ExpectedExpression { found } => "expected expression, found "@ + found@,
            ParserError::ExpectedType { found } => "expected type, found "@ + found@,
            ParserError::ExpectedIdentifier { found } => "expected identifier, found "@ + found@,
            ParserError::ExpectedSemicolon { found } => "expected Semicolon, found "@ + found@,
            ParserError::ExpectedBlock { found } => "expected block, found "@ + found@,
            ParserError::InvalidAssignmentTarget => "invalid assignment target"@,
        }
    }

    fn code(&self) -> (r: &'static str) {
        match self {
            ParserError::UnexpectedToken { .. } => "E0101",
            ParserError::UnexpectedEof { .. } => "E0102",
            ParserError::ExpectedExpression { .. } => "E0103",
            ParserError::ExpectedType { .. } => "E0104",
            ParserError::ExpectedIdentifier { .. } => "E0105",
            ParserError::ExpectedSemicolon { .. } => "E0106",
            ParserError::ExpectedBlock { .. } => "E0107",
            ParserError::InvalidAssignmentTarget => "E0108",
        }
    }

    fn message(&self) -> (r: String) {
        match self {
            ParserError::UnexpectedToken { expected, found } => {
                let mut s = String::from_str("expected ");
                s.append(expected.as_str());
                s.append(", found ");
                s.append(found.as_str());
                s
            },
            ParserError::UnexpectedEof { expected } => {
                let mut s = String::from_str("unexpected end of file, expected ");
                s.append(expected.as_str());
                s
            },
            ParserError::ExpectedExpression { found } => {
                let mut s = String::from_str("expected expression, found ");
                s.append(found.as_str());
                s
            },
            ParserError::ExpectedType { found } => {
                let mut s = String::from_str("expected type, found ");
                s.append(found.as_str());
                s
            },
            ParserError::ExpectedIdentifier { found } => {
                let mut s = String::from_str("expected identifier, found ");
                s.append(found.as_str());
                s
            },
            ParserError::ExpectedSemicolon { found } => {
                let mut s = String::from_str("expected Semicolon, found ");
                s.append(found.as_str());
                s
            },
            ParserError::ExpectedBlock { found } => {
                let mut s = String::from_str("expected block, found ");
                s.append(found.as_str());
                s
            },
            ParserError::InvalidAssignmentTarget => String::from_str("invalid assignment target"),
        }
    }
}

// ── Resolver Errors (E0201–E0212) ──

#[derive(Debug, Clone, PartialEq, Eq)]
pub enum ResolverError {
    UndefinedVariable { name: String },
    UndefinedFunction { name: String },
    UndefinedType { name: String },
    UndefinedField { struct_name: String, field: String },
    UndefinedMethod { struct_name: String, method: String },
    DuplicateDefinition { name: String },
    DuplicateField { struct_name: String, field: String },
    MainNotFound,
    InvalidMainSignature { signature: String },
    ReservedIdentifier { name: String },
    BreakOutsideLoop,
    ContinueOutsideLoop,
}

impl CompilerError for ResolverError {
    open spec fn spec_code(&self) -> Seq<char> {
        match self {
            ResolverError::UndefinedVariable { .. } => "E0201"@,
            ResolverError::UndefinedFunction { .. } => "E0202"@,
            ResolverError::UndefinedType { .. } => "E0203"@,
            ResolverError::UndefinedField { .. } => "E0204"@,
            ResolverError::UndefinedMethod { .. } => "E0205"@,
            ResolverError::DuplicateDefinition { .. } => "E0206"@,
            ResolverError::DuplicateField { .. } => "E0210"@,
            ResolverError::MainNotFound => "E0207"@,
            ResolverError::InvalidMainSignature { .. } => "E0208"@,
            ResolverError::ReservedIdentifier { .. } => "E0209"@,
            ResolverError::BreakOutsideLoop => "E0211"@,
            ResolverError::ContinueOutsideLoop => "E0212"@,
        }
    }

    open spec fn spec_message(&self) -> Seq<char> {
        match self {
            ResolverError::UndefinedVariable { name } => "undefined variable '"@ + name@ + "'"@,
            ResolverError::UndefinedFunction { name } => "undefined function '"@ + name@ + "'"@,
            ResolverError::UndefinedType { name } => "undefined type '"@ + name@ + "'"@,
            ResolverError::UndefinedField { struct_name, field } => "struct '"@ + struct_name@
                + "' has no field '"@ + field@ + "'"@,
            ResolverError::UndefinedMethod { struct_name, method } => "struct '"@ + struct_name@
                + "' has no method '"@ + method@ + "'"@,
            ResolverError::DuplicateDefinition { name } => "duplicate definition of '"@ + name@
                + "'"@,
            ResolverError::DuplicateField { struct_name, field } => "duplicate field '"@ + field@
                + "' in struct '"@ + struct_name@ + "'"@,
            ResolverError::MainNotFound => "entry point 'main' function not found"@,
            ResolverError::InvalidMainSignature { signature } =>
                "invalid main signature: expected 'fn main()', found '"@ + signature@ + "'"@,
            ResolverError::ReservedIdentifier { name } => "'"@ + name@
                + "' is a reserved builtin identifier and cannot be used as a variable or function name"@,
            ResolverError::BreakOutsideLoop => "'break' used outside of a loop"@,
            ResolverError::ContinueOutsideLoop => "'continue' used outside of a loop"@,
        }
    }

    fn code(&self) -> (r: &'static str) {
        match self {
            ResolverError::UndefinedVariable { .. } => "E0201",
            ResolverError::UndefinedFunction { .. } => "E0202",
            ResolverError::UndefinedType { .. } => "E0203",
            ResolverError::UndefinedField { .. } => "E0204",
            ResolverError::UndefinedMethod { .. } => "E0205",
            ResolverError::DuplicateDefinition { .. } => "E0206",
            ResolverError::DuplicateField { .. } => "E0210",
            ResolverError::MainNotFound => "E0207",
            ResolverError::InvalidMainSignature { .. } => "E0208",
            ResolverError::ReservedIdentifier { .. } => "E0209",
            ResolverError::BreakOutsideLoop => "E0211",
            ResolverError::ContinueOutsideLoop => "E0212",
        }
    }

    fn message(&self) -> (r: String) {
        match self {
            ResolverError::UndefinedVariable { name } => {
                let mut s = String::from_str("undefined variable '");
                s.append(name.as_str());
                s.append("'");
                s
            },
            ResolverError::UndefinedFunction { name } => {
                let mut s = String::from_str("undefined function '");
                s.append(name.as_str());
                s.append("'");
                s
            },
            ResolverError::UndefinedType { name } => {
                let mut s = String::from_str("undefined type '");
                s.append(name.as_str());
                s.append("'");
                s
            },
            ResolverError::UndefinedField { struct_name, field } => {
                let mut s = String::from_str("struct '");
                s.append(struct_name.as_str());
                s.append("' has no field '");
                s.append(field.as_str());
                s.append("'");
                s
            },
            ResolverError::UndefinedMethod { struct_name, method } => {
                let mut s = String::from_str("struct '");
                s.append(struct_name.as_str());
                s.append("' has no method '");
                s.append(method.as_str());
                s.append("'");
                s
            },
            ResolverError::DuplicateDefinition { name } => {
                let mut s = String::from_str("duplicate definition of '");
                s.append(name.as_str());
                s.append("'");
                s
            },
            ResolverError::DuplicateField { struct_name, field } => {
                let mut s = String::from_str("duplicate field '");
                s.append(field.as_str());
                s.append("' in struct '");
                s.append(struct_name.as_str());
                s.append("'");
                s
            },
            ResolverError::MainNotFound => String::from_str("entry point 'main' function not found"),
            ResolverError::InvalidMainSignature { signature } => {
                let mut s = String::from_str("invalid main signature: expected 'fn main()', found '");
                s.append(signature.as_str());
                s.append("'");
                s
            },
            ResolverError::ReservedIdentifier { name } => {
                let mut s = String::from_str("'");
                s.append(name.as_str());
                s.append(
                    "' is a reserved builtin identifier and cannot be used as a variable or function name",
                );
                s
            },
            ResolverError::BreakOutsideLoop => String::from_str("'break' used outside of a loop"),
            ResolverError::ContinueOutsideLoop => String::from_str("'continue' used outside of a loop"),
        }
    }
}

// ── TypeChecker Errors (E0301–E0317) ──

#[derive(Debug, Clone, PartialEq, Eq)]
pub enum TypeCheckerError {
    TypeMismatch { expected: String, found: String },
    InvalidBinaryOp { op: String, lhs: String, rhs: String },
    InvalidUnaryOp { op: String, operand: String },
    InvalidDereference { found: String },
    InvalidFieldAccess { found: String },
    InvalidIndexing { found: String },
    InvalidFunctionCall { found: String },
    WrongArgCount { expected: usize, found: usize },
    InvalidPointerArithmetic { found: String },
    AssignToConst { name: String },
    AssignToReadonly { name: String },
    MissingReturn { function: String },
    BreakOutsideLoop,
    ContinueOutsideLoop,
    PrintFormatMustBeStringLiteral,
    PrintArgCountMismatch { expected: usize, found: usize },
    PrintArgNotPrintable { index: usize, found: String },
}

impl CompilerError for TypeCheckerError {
    open spec fn spec_code(&self) -> Seq<char> {
        match self {
            TypeCheckerError::TypeMismatch { .. } => "E0301"@,
            TypeCheckerError::InvalidBinaryOp { .. } => "E0302"@,
            TypeCheckerError::InvalidUnaryOp { .. } => "E0303"@,
            TypeCheckerError::InvalidDereference { .. } => "E0304"@,
            TypeCheckerError::InvalidFieldAccess { .. } => "E0305"@,
            TypeCheckerError::InvalidIndexing { .. } => "E0306"@,
            TypeCheckerError::InvalidFunctionCall { .. } => "E0307"@,
            TypeCheckerError::WrongArgCount { .. } => "E0308"@,
            TypeCheckerError::InvalidPointerArithmetic { .. } => "E0309"@,
            TypeCheckerError::AssignToConst { .. } => "E0310"@,
            TypeCheckerError::AssignToReadonly { .. } => "E0311"@,
            TypeCheckerError::MissingReturn { .. } => "E0312"@,
            TypeCheckerError::BreakOutsideLoop => "E0313"@,
            TypeCheckerError::ContinueOutsideLoop => "E0314"@,
            TypeCheckerError::PrintFormatMustBeStringLiteral => "E0315"@,
            TypeCheckerError::PrintArgCountMismatch { .. } => "E0316"@,
            TypeCheckerError::PrintArgNotPrintable { .. } => "E0317"@,
        }
    }

    open spec fn spec_message(&self) -> Seq<char> {
        match self {
            TypeCheckerError::TypeMismatch { expected, found } => "type mismatch: expected '"@
                + expected@ + "', found '"@ + found@ + "'"@,
            TypeCheckerError::InvalidBinaryOp { op, lhs, rhs } => "invalid binary operation: '"@
                + lhs@ + "' "@ + op@ + " '"@ + rhs@ + "'"@,
            TypeCheckerError::InvalidUnaryOp { op, operand } => "invalid unary operation: "@ + op@
                + operand@,
            TypeCheckerError::InvalidDereference { found } => "cannot dereference type '"@
                + found@ + "'"@,
            TypeCheckerError::InvalidFieldAccess { found } => "cannot access field on type '"@
                + found@ + "'"@,
            TypeCheckerError::InvalidIndexing { found } => "cannot index type '"@ + found@ + "'"@,
            TypeCheckerError::InvalidFunctionCall { found } => "cannot call non-function type '"@
                + found@ + "'"@,
            TypeCheckerError::WrongArgCount { expected, found } =>
                "wrong number of arguments: expected "@ + decimal(*expected as nat) + ", found "@
                + decimal(*found as nat),
            TypeCheckerError::InvalidPointerArithmetic { found } =>
                "pointer arithmetic requires 'ptr<T>', found '"@ + found@ + "'"@,
            TypeCheckerError::AssignToConst { name } => "cannot assign to const variable '"@
                + name@ + "'"@,
            TypeCheckerError::AssignToReadonly { name } =>
                "cannot write through readonly reference '"@ + name@ + "'"@,
            TypeCheckerError::MissingReturn { function } => "function '"@ + function@
                + "' is missing a return statement"@,
            TypeCheckerError::BreakOutsideLoop => "'break' used outside of a loop"@,
            TypeCheckerError::ContinueOutsideLoop => "'continue' used outside of a loop"@,
            TypeCheckerError::PrintFormatMustBeStringLiteral =>
                "first argument to 'std::print' must be a string literal"@,
            TypeCheckerError::PrintArgCountMismatch { expected, found } => "format string has "@
                + decimal(*expected as nat) + " placeholder(s) but "@ + decimal(*found as nat)
                + " argument(s) were supplied"@,
            TypeCheckerError::PrintArgNotPrintable { index, found } => "argument "@ + decimal(
                *index as nat,
            ) + " has type '"@ + found@ + "' which cannot be formatted with '{}'"@,
        }
    }

    fn code(&self) -> (r: &'static str) {
        match self {
            TypeCheckerError::TypeMismatch { .. } => "E0301",
            TypeCheckerError::InvalidBinaryOp { .. } => "E0302",
            TypeCheckerError::InvalidUnaryOp { .. } => "E0303",
            TypeCheckerError::InvalidDereference { .. } => "E0304",
            TypeCheckerError::InvalidFieldAccess { .. } => "E0305",
            TypeCheckerError::InvalidIndexing { .. } => "E0306",
            TypeCheckerError::InvalidFunctionCall { .. } => "E0307",
            TypeCheckerError::WrongArgCount { .. } => "E0308",
            TypeCheckerError::InvalidPointerArithmetic { .. } => "E0309",
            TypeCheckerError::AssignToConst { .. } => "E0310",
            TypeCheckerError::AssignToReadonly { .. } => "E0311",
            TypeCheckerError::MissingReturn { .. } => "E0312",
            TypeCheckerError::BreakOutsideLoop => "E0313",
            TypeCheckerError::ContinueOutsideLoop => "E0314",
            TypeCheckerError::PrintFormatMustBeStringLiteral => "E0315",
            TypeCheckerError::PrintArgCountMismatch { .. } => "E0316",
            TypeCheckerError::PrintArgNotPrintable { .. } => "E0317",
        }
    }

    fn message(&self) -> (r: String) {
        match self {
            TypeCheckerError::TypeMismatch { expected, found } => {
                let mut s = String::from_str("type mismatch: expected '");
                s.append(expected.as_str());
                s.append("', found '");
                s.append(found.as_str());
                s.append("'");
                s
            },
            TypeCheckerError::InvalidBinaryOp { op, lhs, rhs } => {
                let mut s = String::from_str("invalid binary operation: '");
                s.append(lhs.as_str());
                s.append("' ");
                s.append(op.as_str());
                s.append(" '");
                s.append(rhs.as_str());
                s.append("'");
                s
            },
            TypeCheckerError::InvalidUnaryOp { op, operand } => {
                let mut s = String::from_str("invalid unary operation: ");
                s.append(op.as_str());
                s.append(operand.as_str());
                s
            },
            TypeCheckerError::InvalidDereference { found } => {
                let mut s = String::from_str("cannot dereference type '");
                s.append(found.as_str());
                s.append("'");
                s
            },
            TypeCheckerError::InvalidFieldAccess { found } => {
                let mut s = String::from_str("cannot access field on type '");
                s.append(found.as_str());
                s.append("'");
                s
            },
            TypeCheckerError::InvalidIndexing { found } => {
                let mut s = String::from_str("cannot index type '");
                s.append(found.as_str());
                s.append("'");
                s
            },
            TypeCheckerError::InvalidFunctionCall { found } => {
                let mut s = String::from_str("cannot call non-function type '");
                s.append(found.as_str());
                s.append("'");
                s
            },
            TypeCheckerError::WrongArgCount { expected, found } => {
                let mut s = String::from_str("wrong number of arguments: expected ");
                push_decimal(&mut s, *expected as u64);
                s.append(", found ");
                push_decimal(&mut s, *found as u64);
                s
            },
            TypeCheckerError::InvalidPointerArithmetic { found } => {
                let mut s = String::from_str("pointer arithmetic requires 'ptr<T>', found '");
                s.append(found.as_str());
                s.append("'");
                s
            },
            TypeCheckerError::AssignToConst { name } => {
                let mut s = String::from_str("cannot assign to const variable '");
                s.append(name.as_str());
                s.append("'");
                s
            },
            TypeCheckerError::AssignToReadonly { name } => {
                let mut s = String::from_str("cannot write through readonly reference '");
                s.append(name.as_str());
                s.append("'");
                s
            },
            TypeCheckerError::MissingReturn { function } => {
                let mut s = String::from_str("function '");
                s.append(function.as_str());
                s.append("' is missing a return statement");
                s
            },
            TypeCheckerError::BreakOutsideLoop => String::from_str("'break' used outside of a loop"),
            TypeCheckerError::ContinueOutsideLoop => String::from_str(
                "'continue' used outside of a loop",
            ),
            TypeCheckerError::PrintFormatMustBeStringLiteral => String::from_str(
                "first argument to 'std::print' must be a string literal",
            ),
            TypeCheckerError::PrintArgCountMismatch { expected, found } => {
                let mut s = String::from_str("format string has ");
                push_decimal(&mut s, *expected as u64);
                s.append(" placeholder(s) but ");
                push_decimal(&mut s, *found as u64);
                s.append(" argument(s) were supplied");
                s
            },
            TypeCheckerError::PrintArgNotPrintable { index, found } => {
                let mut s = String::from_str("argument ");
                push_decimal(&mut s, *index as u64);
                s.append(" has type '");
                s.append(found.as_str());
                s.append("' which cannot be formatted with '{}'");
                s
            },
        }
    }
}

} // verus!
