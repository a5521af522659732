use minuto_compiler::ast::{BinOp, ExprKind, ParsedExpr};
use minuto_compiler::common::Span;
use minuto_compiler::lexer::token::Token;
use minuto_compiler::lexer::Lexer;
use minuto_compiler::parser::Parser;

fn tokens(source: &str) -> Vec<(Token, Span)> {
    let mut lexer = Lexer::new(source);
    let (toks, errors) = lexer.tokenize();
    assert!(errors.is_empty(), "unexpected lexer errors");
    toks
}

fn expr(source: &str) -> ParsedExpr {
    Parser::new(tokens(source)).parse_expr().expect("parse_expr failed")
}

/// Renders an expression with every binary operation and assignment in
/// parentheses, so that the grouping the parser chose can be compared.
fn shape(e: &ParsedExpr) -> String {
    match &e.kind {
        ExprKind::IntLit(v) => v.to_string(),
        ExprKind::Ident(i) => i.name.clone(),
        ExprKind::Binary(op, l, r) => format!("({} {:?} {})", shape(l), op, shape(r)),
        ExprKind::Assign { lhs, rhs } => format!("({} = {})", shape(lhs), shape(rhs)),
        ExprKind::Unary(op, x) => format!("{:?}{}", op, shape(x)),
        ExprKind::Index { base, index } => format!("{}[{}]", shape(base), shape(index)),
        ExprKind::Field { base, field } => format!("{}.{}", shape(base), field),
        ExprKind::Call { callee, args } => {
            let a: Vec<String> = args.iter().map(shape).collect();
            format!("{}({})", shape(callee), a.join(", "))
        }
        ExprKind::Alloc { count, .. } => format!("alloc({})", shape(count)),
        _ => "?".to_string(),
    }
}

// ── Token spans ──

#[test]
fn token_spans_are_ordered_and_within_source() {
    let source = "fn main() { var x = 10 + 4; /* c */ x->y; // end\n }";
    let toks = tokens(source);
    assert!(!toks.is_empty());
    for (i, (_, span)) in toks.iter().enumerate() {
        assert!(span.start < span.end);
        assert!(span.end <= source.len());
        if i > 0 {
            assert!(toks[i - 1].1.end <= span.start);
        }
    }
}

#[test]
fn token_spans_cover_their_text() {
    let source = "while count >= 10";
    let toks = tokens(source);
    let texts: Vec<&str> = toks.iter().map(|(_, s)| &source[s.start..s.end]).collect();
    assert_eq!(texts, vec!["while", "count", ">=", "10"]);
}

#[test]
fn token_spans_count_bytes_of_multibyte_text() {
    let source = "var 변수 = 'é';";
    let toks = tokens(source);
    assert_eq!(toks[1], (Token::Ident("변수".to_string()), Span { start: 4, end: 10 }));
    assert_eq!(toks[3], (Token::CharLit('é'), Span { start: 13, end: 17 }));
}

// ── Identifiers and keywords ──

#[test]
fn keyword_prefixes_and_suffixes_are_identifiers() {
    let toks: Vec<Token> = tokens("iff fnord selfish var_ _var int2 ptrs")
        .into_iter()
        .map(|(t, _)| t)
        .collect();
    let names = ["iff", "fnord", "selfish", "var_", "_var", "int2", "ptrs"];
    assert_eq!(toks, names.iter().map(|n| Token::Ident(n.to_string())).collect::<Vec<_>>());
}

#[test]
fn unicode_identifiers() {
    let toks: Vec<Token> = tokens("é _ü 名前").into_iter().map(|(t, _)| t).collect();
    assert_eq!(
        toks,
        vec![
            Token::Ident("é".to_string()),
            Token::Ident("_ü".to_string()),
            Token::Ident("名前".to_string()),
        ]
    );
}

#[test]
fn non_identifier_character_is_an_error() {
    let mut lexer = Lexer::new("a € b");
    let (toks, errors) = lexer.tokenize();
    assert_eq!(toks.len(), 2);
    assert_eq!(errors.len(), 1);
    assert_eq!(errors[0].code, Some("E0001"));
    assert_eq!(errors[0].message, "unexpected character: '€'");
    assert_eq!(errors[0].span, Span { start: 2, end: 5 });
}

#[test]
fn integer_literal_limits() {
    assert_eq!(tokens("9223372036854775807")[0].0, Token::IntLit(i64::MAX));
    let mut lexer = Lexer::new("9223372036854775808");
    let (_, errors) = lexer.tokenize();
    assert_eq!(errors[0].code, Some("E0002"));
}

// ── Operator precedence and associativity ──

#[test]
fn precedence_levels_in_order() {
    assert_eq!(shape(&expr("a || b && c | d ^ e & f == g < h << i + j * k")),
        "(a Or (b And (c BitOr (d BitXor (e BitAnd (f Eq (g Lt (h Shl (i Add (j Mul k))))))))))");
}

#[test]
fn precedence_levels_reversed() {
    assert_eq!(shape(&expr("a * b + c << d < e == f & g ^ h | i && j || k")),
        "((((((((((a Mul b) Add c) Shl d) Lt e) Eq f) BitAnd g) BitXor h) BitOr i) And j) Or k)");
}

#[test]
fn binary_operators_associate_left() {
    assert_eq!(shape(&expr("a / b / c")), "((a Div b) Div c)");
    assert_eq!(shape(&expr("a % b * c")), "((a Mod b) Mul c)");
    assert_eq!(shape(&expr("a == b != c")), "((a Eq b) Ne c)");
    assert_eq!(shape(&expr("a <= b >= c")), "((a Le b) Ge c)");
    assert_eq!(shape(&expr("a >> b << c")), "((a Shr b) Shl c)");
    assert_eq!(shape(&expr("a && b && c")), "((a And b) And c)");
}

#[test]
fn assignment_associates_right() {
    assert_eq!(shape(&expr("a = b = c = 1")), "(a = (b = (c = 1)))");
    assert_eq!(shape(&expr("a = b + 1")), "(a = (b Add 1))");
}

#[test]
fn unary_binds_tighter_than_binary() {
    assert_eq!(shape(&expr("-a * !b")), "(Nega Mul Notb)");
}

#[test]
fn grouping_keeps_compound_operands() {
    assert_eq!(shape(&expr("-a * b[0] + f(c)")), "((Nega Mul b[0]) Add f(c))");
    assert_eq!(shape(&expr("s.x - *p * 2")), "(s.x Sub (Derefp Mul 2))");
    assert_eq!(shape(&expr("f(x) < g(y) == !z")), "((f(x) Lt g(y)) Eq Notz)");
    assert_eq!(shape(&expr("alloc<int>(4) + n * m")), "(alloc(4) Add (n Mul m))");
}

#[test]
fn binop_variants_exist() {
    let e = expr("x > 1");
    assert!(matches!(e.kind, ExprKind::Binary(BinOp::Gt, _, _)));
}

// ── Token text in messages ──

#[test]
fn token_text_uses_debug_form() {
    assert_eq!(Token::Ident("x".to_string()).text(), "Ident(\"x\")");
    assert_eq!(Token::StringLit("a\"b\n".to_string()).text(), "StringLit(\"a\\\"b\\n\")");
    assert_eq!(Token::CharLit('\n').text(), "CharLit('\\n')");
    assert_eq!(Token::CharLit('\'').text(), "CharLit('\\'')");
    assert_eq!(Token::IntLit(-42).text(), "IntLit(-42)");
    assert_eq!(Token::Semicolon.text(), "Semicolon");
}

#[test]
fn unexpected_token_message_shows_token_text() {
    let err = Parser::new(tokens("var")).parse_expr().unwrap_err();
    assert_eq!(err.message, "expected expression, found Var");
    let err = Parser::new(tokens("\"s\"")).parse_type().unwrap_err();
    assert_eq!(err.message, "expected type, found StringLit(\"s\")");
}

#[test]
fn arrow_reads_as_deref_field() {
    let a = expr("p->x");
    let b = expr("(*p).x");
    for e in [&a, &b] {
        match &e.kind {
            ExprKind::Field { base, field } => {
                assert_eq!(field, "x");
                assert_eq!(shape(base), "Derefp");
            }
            _ => panic!("expected a field access"),
        }
    }
    let c = expr("p->f(y)");
    let d = expr("(*p).f(y)");
    for e in [&c, &d] {
        match &e.kind {
            ExprKind::MethodCall { base, method, args } => {
                assert_eq!(method, "f");
                assert_eq!(shape(base), "Derefp");
                assert_eq!(args.len(), 1);
            }
            _ => panic!("expected a method call"),
        }
    }
}

#[test]
fn parentheses_add_no_node() {
    assert_eq!(shape(&expr("(a + b)")), shape(&expr("a + b")));
    assert_eq!(shape(&expr("((x))")), "x");
    assert_eq!(shape(&expr("(a + b) * c")), "((a Add b) Mul c)");
}
