use minuto_compiler::ast::Decl;
use minuto_compiler::common::Span;
use minuto_compiler::diagnostic::Phase;
use minuto_compiler::lexer::token::Token;
use minuto_compiler::pipeline::{Lex, Parse, Pass, Pipeline, Resolve};

#[test]
fn pipeline_lex_only() {
    let tokens = Pipeline::start(Lex).run("var x;".to_string()).expect("lexing failed");
    let kinds: Vec<Token> = tokens.iter().map(|(t, _)| t.clone()).collect();
    assert_eq!(kinds, vec![Token::Var, Token::Ident("x".to_string()), Token::Semicolon]);
    assert_eq!(tokens[0].1, Span { start: 0, end: 3 });
}

#[test]
fn pipeline_lex_reports_every_error() {
    let ds = Pipeline::start(Lex).run("@ # $".to_string()).unwrap_err();
    assert_eq!(ds.len(), 3);
    assert!(ds.iter().all(|d| d.code == Some("E0001") && d.phase == Phase::Lexer));
    assert_eq!(ds[1].span, Span { start: 2, end: 3 });
}

#[test]
fn pipeline_lex_then_parse() {
    let program = Pipeline::start(Lex)
        .then(Parse)
        .run("fn main() { } struct P { x: int, }".to_string())
        .expect("front end failed");
    assert_eq!(program.decls.len(), 2);
    assert!(matches!(program.decls[0], Decl::Fn(_)));
    assert!(matches!(program.decls[1], Decl::Struct(_)));
}

#[test]
fn pipeline_stops_at_lexer_errors() {
    let ds = Pipeline::start(Lex).then(Parse).run("fn main() { @ }".to_string()).unwrap_err();
    assert_eq!(ds.len(), 1);
    assert_eq!(ds[0].phase, Phase::Lexer);
}

#[test]
fn pipeline_parse_errors() {
    let ds = Pipeline::start(Lex).then(Parse).run("var x = 1;".to_string()).unwrap_err();
    assert!(!ds.is_empty());
    assert!(ds.iter().all(|d| d.phase == Phase::Parser));
}

#[test]
fn pipeline_resolve_after_parse() {
    let program = Pipeline::start(Lex).then(Parse).run("fn main() { var x = 1; x; }".to_string()).unwrap();
    let (resolved, symbols) = Pipeline::start(Resolve).run(program).expect("resolution failed");
    assert_eq!(resolved.decls.len(), 1);
    assert_eq!(symbols.len(), 2);
}

#[test]
fn pipeline_resolve_errors() {
    let program = Pipeline::start(Lex)
        .then(Parse)
        .run("struct Foo { x: int, x: int, } fn main() { var x = 10 + 4; }".to_string())
        .unwrap();
    let ds = Pipeline::start(Resolve).run(program).unwrap_err();
    assert_eq!(ds.len(), 1);
    assert_eq!(ds[0].phase, Phase::Resolver);
    assert_eq!(ds[0].code, Some("E0210"));
}

#[test]
fn pass_run_directly() {
    let tokens = Lex.run("fn main() { }".to_string()).unwrap();
    let program = Parse.run(tokens).unwrap();
    assert!(Resolve.run(program).is_ok());
}
