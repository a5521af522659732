use minuto_compiler::common::Span;
use minuto_compiler::diagnostic::{Diagnostic, Phase, Severity};
use minuto_compiler::errors::{CompilerError, LexerError, ParserError, ResolverError, TypeCheckerError};

fn s(text: &str) -> String {
    text.to_string()
}

// ── Lexer errors ──

#[test]
fn lexer_error_codes_and_messages() {
    let cases: Vec<(LexerError, &str, &str)> = vec![
        (LexerError::UnexpectedCharacter { character: s("@") }, "E0001", "unexpected character: '@'"),
        (
            LexerError::InvalidIntLiteral { literal: s("99999999999"), reason: s("number too large to fit in target type") },
            "E0002",
            "invalid integer literal '99999999999': number too large to fit in target type",
        ),
        (LexerError::InvalidCharLiteral { literal: s("'ab'") }, "E0003", "invalid character literal: 'ab'"),
        (LexerError::InvalidEscapeSequence { sequence: 'q' }, "E0004", "invalid escape sequence: '\\q'"),
        (LexerError::UnterminatedString, "E0005", "unterminated string literal"),
        (LexerError::UnterminatedBlockComment, "E0006", "unterminated block comment"),
    ];
    for (e, code, message) in cases {
        assert_eq!(e.code(), code);
        assert_eq!(e.message(), message);
    }
}

// ── Parser errors ──

#[test]
fn parser_error_codes_and_messages() {
    let cases: Vec<(ParserError, &str, &str)> = vec![
        (
            ParserError::UnexpectedToken { expected: s("Semicolon"), found: s("RBrace") },
            "E0101",
            "expected Semicolon, found RBrace",
        ),
        (ParserError::UnexpectedEof { expected: s("expression") }, "E0102", "unexpected end of file, expected expression"),
        (ParserError::ExpectedExpression { found: s("Semicolon") }, "E0103", "expected expression, found Semicolon"),
        (ParserError::ExpectedType { found: s("Plus") }, "E0104", "expected type, found Plus"),
        (ParserError::ExpectedIdentifier { found: s("Eq") }, "E0105", "expected identifier, found Eq"),
    ];
    for (e, code, message) in cases {
        assert_eq!(e.code(), code);
        assert_eq!(e.message(), message);
    }
}

// ── Resolver errors ──

#[test]
fn resolver_error_codes_and_messages() {
    let cases: Vec<(ResolverError, &str, &str)> = vec![
        (ResolverError::UndefinedVariable { name: s("x") }, "E0201", "undefined variable 'x'"),
        (ResolverError::UndefinedFunction { name: s("f") }, "E0202", "undefined function 'f'"),
        (ResolverError::UndefinedType { name: s("T") }, "E0203", "undefined type 'T'"),
        (
            ResolverError::UndefinedField { struct_name: s("P"), field: s("z") },
            "E0204",
            "struct 'P' has no field 'z'",
        ),
        (
            ResolverError::UndefinedMethod { struct_name: s("P"), method: s("go") },
            "E0205",
            "struct 'P' has no method 'go'",
        ),
        (ResolverError::DuplicateDefinition { name: s("x") }, "E0206", "duplicate definition of 'x'"),
        (ResolverError::MainNotFound, "E0207", "entry point 'main' function not found"),
        (
            ResolverError::InvalidMainSignature { signature: s("fn main(a)") },
            "E0208",
            "invalid main signature: expected 'fn main()', found 'fn main(a)'",
        ),
        (
            ResolverError::ReservedIdentifier { name: s("free") },
            "E0209",
            "'free' is a reserved builtin identifier and cannot be used as a variable or function name",
        ),
        (
            ResolverError::DuplicateField { struct_name: s("P"), field: s("x") },
            "E0210",
            "duplicate field 'x' in struct 'P'",
        ),
        (ResolverError::BreakOutsideLoop, "E0211", "'break' used outside of a loop"),
        (ResolverError::ContinueOutsideLoop, "E0212", "'continue' used outside of a loop"),
    ];
    for (e, code, message) in cases {
        assert_eq!(e.code(), code);
        assert_eq!(e.message(), message);
    }
}

// ── Type checker errors ──

#[test]
fn type_checker_error_codes_and_messages() {
    let cases: Vec<(TypeCheckerError, &str, &str)> = vec![
        (
            TypeCheckerError::TypeMismatch { expected: s("int"), found: s("char") },
            "E0301",
            "type mismatch: expected 'int', found 'char'",
        ),
        (
            TypeCheckerError::InvalidBinaryOp { op: s("+"), lhs: s("int"), rhs: s("void") },
            "E0302",
            "invalid binary operation: 'int' + 'void'",
        ),
        (
            TypeCheckerError::InvalidUnaryOp { op: s("-"), operand: s("void") },
            "E0303",
            "invalid unary operation: -void",
        ),
        (TypeCheckerError::InvalidDereference { found: s("int") }, "E0304", "cannot dereference type 'int'"),
        (TypeCheckerError::InvalidFieldAccess { found: s("int") }, "E0305", "cannot access field on type 'int'"),
        (TypeCheckerError::InvalidIndexing { found: s("int") }, "E0306", "cannot index type 'int'"),
        (
            TypeCheckerError::InvalidFunctionCall { found: s("int") },
            "E0307",
            "cannot call non-function type 'int'",
        ),
        (
            TypeCheckerError::WrongArgCount { expected: 2, found: 13 },
            "E0308",
            "wrong number of arguments: expected 2, found 13",
        ),
        (
            TypeCheckerError::InvalidPointerArithmetic { found: s("span<int>") },
            "E0309",
            "pointer arithmetic requires 'ptr<T>', found 'span<int>'",
        ),
        (TypeCheckerError::AssignToConst { name: s("MAX") }, "E0310", "cannot assign to const variable 'MAX'"),
        (
            TypeCheckerError::AssignToReadonly { name: s("p") },
            "E0311",
            "cannot write through readonly reference 'p'",
        ),
        (
            TypeCheckerError::MissingReturn { function: s("f") },
            "E0312",
            "function 'f' is missing a return statement",
        ),
        (TypeCheckerError::BreakOutsideLoop, "E0313", "'break' used outside of a loop"),
        (TypeCheckerError::ContinueOutsideLoop, "E0314", "'continue' used outside of a loop"),
        (
            TypeCheckerError::PrintFormatMustBeStringLiteral,
            "E0315",
            "first argument to 'std::print' must be a string literal",
        ),
        (
            TypeCheckerError::PrintArgCountMismatch { expected: 0, found: 1 },
            "E0316",
            "format string has 0 placeholder(s) but 1 argument(s) were supplied",
        ),
        (
            TypeCheckerError::PrintArgNotPrintable { index: 3, found: s("ptr<int>") },
            "E0317",
            "argument 3 has type 'ptr<int>' which cannot be formatted with '{}'",
        ),
    ];
    for (e, code, message) in cases {
        assert_eq!(e.code(), code);
        assert_eq!(e.message(), message);
    }
}

#[test]
fn wrong_arg_count_large_numbers() {
    let e = TypeCheckerError::WrongArgCount { expected: 1000000, found: 0 };
    assert_eq!(e.message(), "wrong number of arguments: expected 1000000, found 0");
}

// ── Diagnostics ──

#[test]
fn diagnostic_error_builder() {
    let d = Diagnostic::error(Phase::Parser, Span { start: 3, end: 5 }, s("bad"))
        .with_code("E0103")
        .with_label(s("here"))
        .with_note(s("try something else"));
    assert_eq!(d.severity, Severity::Error);
    assert_eq!(d.phase, Phase::Parser);
    assert_eq!(d.span, Span { start: 3, end: 5 });
    assert_eq!(d.message, "bad");
    assert_eq!(d.code, Some("E0103"));
    assert_eq!(d.label.as_deref(), Some("here"));
    assert_eq!(d.note.as_deref(), Some("try something else"));
}

#[test]
fn diagnostic_warning_has_no_code() {
    let d = Diagnostic::warning(Phase::TypeChecker, Span { start: 0, end: 1 }, s("unused"));
    assert_eq!(d.severity, Severity::Warning);
    assert_eq!(d.code, None);
    assert_eq!(d.label, None);
    assert_eq!(d.note, None);
    assert_eq!(d.summary(), "warning[type checker]: unused");
    assert_eq!(d.header(), "[type checker] unused");
}

#[test]
fn diagnostic_summary_and_header_with_code() {
    let d = Diagnostic::from_lexer_error(LexerError::UnterminatedString, Span { start: 8, end: 14 });
    assert_eq!(d.summary(), "error[lexer][E0005]: unterminated string literal");
    assert_eq!(d.header(), "[lexer][E0005] unterminated string literal");
}

#[test]
fn diagnostic_from_each_phase_error() {
    let span = Span { start: 1, end: 2 };
    let d = Diagnostic::from_parser_error(ParserError::ExpectedType { found: s("Plus") }, span);
    assert_eq!((d.phase, d.code, d.message.as_str()), (Phase::Parser, Some("E0104"), "expected type, found Plus"));
    let d = Diagnostic::from_resolver_error(ResolverError::MainNotFound, span);
    assert_eq!((d.phase, d.code), (Phase::Resolver, Some("E0207")));
    assert_eq!(d.severity, Severity::Error);
    assert_eq!(d.span, span);
    let d = Diagnostic::from_type_checker_error(TypeCheckerError::BreakOutsideLoop, span);
    assert_eq!((d.phase, d.code), (Phase::TypeChecker, Some("E0313")));
    assert_eq!(d.label, None);
    assert_eq!(d.note, None);
}

#[test]
fn phase_names() {
    assert_eq!(Phase::Lexer.name(), "lexer");
    assert_eq!(Phase::Parser.name(), "parser");
    assert_eq!(Phase::Resolver.name(), "resolver");
    assert_eq!(Phase::TypeChecker.name(), "type checker");
}

#[test]
fn span_range_round_trip() {
    let span: Span = (4..9).into();
    assert_eq!(span, Span { start: 4, end: 9 });
    assert_eq!(span.into_range(), 4..9);
}
