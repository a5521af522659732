use minuto_compiler::common::Span;
use minuto_compiler::diagnostic::{Diagnostic, Phase, Severity};
use minuto_compiler::errors::{CompilerError, ParserError};
use minuto_compiler::lexer::Lexer;
use minuto_compiler::parser::Parser;
use minuto_compiler::resolver::Resolver;

fn parser(source: &str) -> Parser {
    let mut lexer = Lexer::new(source);
    let (tokens, errors) = lexer.tokenize();
    assert!(errors.is_empty());
    Parser::new(tokens)
}

fn resolve_errs(source: &str) -> Vec<Diagnostic> {
    let program = parser(source).parse().expect("parse failed");
    match Resolver::new().resolve(&program) {
        Ok(_) => panic!("expected resolver errors"),
        Err(ds) => ds,
    }
}

fn resolve_ok(source: &str) {
    let program = parser(source).parse().expect("parse failed");
    if let Err(ds) = Resolver::new().resolve(&program) {
        panic!("unexpected diagnostics: {:?}", ds);
    }
}

fn codes(ds: &[Diagnostic]) -> Vec<&'static str> {
    ds.iter().map(|d| d.code.unwrap()).collect()
}

// ── Parser errors E0106–E0108 ──

#[test]
fn missing_semicolon_after_var() {
    let ds = parser("var x = 5").parse_stmt().unwrap_err();
    assert_eq!(ds.len(), 1);
    assert_eq!(ds[0].code, Some("E0106"));
    assert_eq!(ds[0].message, "expected Semicolon, found EOF");
}

#[test]
fn missing_semicolon_before_next_token() {
    let ds = parser("const K: int = 1 var").parse_stmt().unwrap_err();
    assert_eq!(ds[0].code, Some("E0106"));
    assert_eq!(ds[0].message, "expected Semicolon, found Var");
    for src in ["break", "continue", "return 1", "f()"] {
        let ds = parser(src).parse_stmt().unwrap_err();
        assert_eq!(ds[0].code, Some("E0106"), "{}", src);
    }
}

#[test]
fn missing_block() {
    let ds = parser("if x return;").parse_stmt().unwrap_err();
    assert_eq!(ds.len(), 1);
    assert_eq!(ds[0].code, Some("E0107"));
    assert_eq!(ds[0].message, "expected block, found Return");
    let ds = parser("while x").parse_stmt().unwrap_err();
    assert_eq!(ds[0].code, Some("E0107"));
    assert_eq!(ds[0].message, "expected block, found EOF");
    let ds = parser("fn main() return;").parse().unwrap_err();
    assert_eq!(ds[0].code, Some("E0107"));
}

#[test]
fn invalid_assignment_target() {
    let d = parser("(a + b) = 5").parse_expr().unwrap_err();
    assert_eq!(d.code, Some("E0108"));
    assert_eq!(d.message, "invalid assignment target");
    assert_eq!(d.phase, Phase::Parser);
    for src in ["f() = 1", "1 = x", "-x = 1", "a = b + c = 1", "S { x: 1 } = y"] {
        let d = parser(src).parse_expr().unwrap_err();
        assert_eq!(d.code, Some("E0108"), "{}", src);
    }
}

#[test]
fn valid_assignment_targets() {
    for src in ["x = 1", "(x) = 1", "*p = 1", "p->x = 1", "s.f = 1", "a[i] = 1", "a = b = 1"] {
        assert!(parser(src).parse_expr().is_ok(), "{}", src);
    }
}

#[test]
fn invalid_assignment_in_statement() {
    let ds = parser("{ (a + b) = 5; return; }").parse_block().unwrap_err();
    assert_eq!(codes(&ds), vec!["E0108"]);
}

#[test]
fn new_parser_error_codes_and_messages() {
    let e = ParserError::ExpectedSemicolon { found: "RBrace".to_string() };
    assert_eq!((e.code(), e.message().as_str()), ("E0106", "expected Semicolon, found RBrace"));
    let e = ParserError::ExpectedBlock { found: "Return".to_string() };
    assert_eq!((e.code(), e.message().as_str()), ("E0107", "expected block, found Return"));
    let e = ParserError::InvalidAssignmentTarget;
    assert_eq!((e.code(), e.message().as_str()), ("E0108", "invalid assignment target"));
}

// ── Resolver errors ──

#[test]
fn struct_named_main_is_no_entry_point() {
    let ds = resolve_errs("struct main { }");
    assert_eq!(codes(&ds), vec!["E0207"]);
    assert_eq!(ds[0].message, "entry point 'main' function not found");
    assert_eq!(ds[0].span, Span { start: 0, end: 0 });
}

#[test]
fn undefined_function() {
    let ds = resolve_errs("fn main() { foo(); }");
    assert_eq!(ds.len(), 1);
    assert_eq!(ds[0].code, Some("E0202"));
    assert_eq!(ds[0].message, "undefined function 'foo'");
    assert_eq!(ds[0].span, Span { start: 12, end: 15 });
}

#[test]
fn undefined_name_used_as_value_is_a_variable() {
    let ds = resolve_errs("fn main() { var f = foo; }");
    assert_eq!(codes(&ds), vec!["E0201"]);
}

#[test]
fn undefined_field() {
    let ds = resolve_errs("struct Point { x: int, } fn main() { var p = alloc<Point>(1); p->z = 1; }");
    assert_eq!(codes(&ds), vec!["E0204"]);
    assert_eq!(ds[0].message, "struct '?' has no field 'z'");
    assert_eq!(ds[0].severity, Severity::Error);
}

#[test]
fn known_and_builtin_fields() {
    resolve_ok("struct Point { x: int, } fn main() { var p = alloc<Point>(1); p->x = 1; }");
    resolve_ok("fn main() { var a = alloc<int>(3); var n = a.len; var q = a.ptr; }");
}

#[test]
fn undefined_method() {
    let ds = resolve_errs(
        "struct Counter { n: int, fn get(self) -> int { return self->n; } } fn main() { var c = Counter { n: 0 }; c.reset(); }",
    );
    assert_eq!(codes(&ds), vec!["E0205"]);
    assert_eq!(ds[0].message, "struct '?' has no method 'reset'");
}

#[test]
fn known_method() {
    resolve_ok("struct Counter { n: int, fn get(self) -> int { return self->n; } } fn main() { var c = Counter { n: 0 }; var v = c.get(); }");
}

#[test]
fn every_resolver_diagnostic_is_a_resolver_error() {
    let ds = resolve_errs("fn f() { x; y(); p.q; p.r(); break; continue; var alloc = 1; }");
    assert_eq!(codes(&ds), vec!["E0201", "E0202", "E0201", "E0204", "E0201", "E0205", "E0211", "E0212", "E0209", "E0207"]);
    for d in &ds {
        assert_eq!(d.phase, Phase::Resolver);
        assert_eq!(d.severity, Severity::Error);
        assert!(d.code.unwrap().starts_with("E02"));
    }
}

#[test]
fn loose_breaks_are_reported_once_each() {
    let ds = resolve_errs("fn main() { if 1 { break; } else if 2 { continue; } else { break; } while 1 { break; if 1 { continue; } } }");
    assert_eq!(codes(&ds), vec!["E0211", "E0212", "E0211"]);
}

// ── Defining a name ──

#[test]
fn reserved_name_defined_twice_reports_in_order() {
    let ds = resolve_errs("fn main() { var free = 1; var free = 2; }");
    assert_eq!(codes(&ds), vec!["E0209", "E0209", "E0206"]);
}

#[test]
fn loops_restore_depth_after_while() {
    // After the loop the depth is back to zero, so the second `break` is loose.
    let ds = resolve_errs("fn main() { while 1 { break; } break; }");
    assert_eq!(codes(&ds), vec!["E0211"]);
    resolve_ok("fn main() { while 1 { while 1 { continue; } break; } }");
}
