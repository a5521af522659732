use minuto_compiler::ast::{Decl, ExprKind, ParamKind, ResolvedProgram, StmtKind};
use minuto_compiler::common::{Span, SymbolId, SymbolKind, SymbolTable};
use minuto_compiler::diagnostic::Diagnostic;
use minuto_compiler::lexer::Lexer;
use minuto_compiler::parser::Parser;
use minuto_compiler::resolver::size::fits_symbol_ids;
use minuto_compiler::resolver::Resolver;

fn resolve(source: &str) -> Result<(ResolvedProgram, SymbolTable), Vec<Diagnostic>> {
    let mut lexer = Lexer::new(source);
    let (tokens, errors) = lexer.tokenize();
    assert!(errors.is_empty(), "unexpected lexer error");
    let mut parser = Parser::new(tokens);
    let program = parser.parse().expect("parse failed");
    assert!(fits_symbol_ids(&program));
    Resolver::new().resolve(&program)
}

fn resolve_ok(source: &str) -> (ResolvedProgram, SymbolTable) {
    match resolve(source) {
        Ok(r) => r,
        Err(ds) => panic!("unexpected diagnostics: {:?}", ds),
    }
}

fn resolve_errs(source: &str) -> Vec<Diagnostic> {
    match resolve(source) {
        Ok(_) => panic!("expected resolver errors"),
        Err(ds) => ds,
    }
}

fn codes(ds: &[Diagnostic]) -> Vec<&'static str> {
    ds.iter().map(|d| d.code.unwrap()).collect()
}

fn main_body(program: &ResolvedProgram) -> &Vec<minuto_compiler::ast::Stmt<minuto_compiler::common::Resolved>> {
    for d in &program.decls {
        if let Decl::Fn(f) = d {
            if f.name.name == "main" {
                return &f.body.stmts;
            }
        }
    }
    panic!("no main")
}

fn expr_stmt_ident_id(stmt: &minuto_compiler::ast::Stmt<minuto_compiler::common::Resolved>) -> SymbolId {
    match &stmt.kind {
        StmtKind::Expr(e) => match &e.kind {
            ExprKind::Ident(id) => id.id,
            _ => panic!("expected identifier"),
        },
        _ => panic!("expected expression statement"),
    }
}

#[test]
fn resolve_minimal_main() {
    let (program, symbols) = resolve_ok("fn main() { }");
    assert_eq!(program.decls.len(), 1);
    assert_eq!(symbols.len(), 1);
    let main = symbols.get(SymbolId(0));
    assert_eq!(main.name, "main");
    match &main.kind {
        SymbolKind::Fn(sig) => {
            assert!(sig.params.is_empty());
            assert!(sig.ret_ty.starts_with("Void"));
        }
        _ => panic!("expected a function symbol"),
    }
    match &program.decls[0] {
        Decl::Fn(f) => assert_eq!(f.name.id, SymbolId(0)),
        _ => panic!("expected fn"),
    }
}

#[test]
fn resolve_missing_main() {
    let ds = resolve_errs("fn foo() { }");
    assert_eq!(ds.len(), 1);
    assert_eq!(ds[0].code, Some("E0207"));
    assert_eq!(ds[0].message, "entry point 'main' function not found");
    assert_eq!(ds[0].span, Span { start: 0, end: 0 });
}

#[test]
fn resolve_empty_program_has_no_main() {
    let ds = resolve_errs("");
    assert_eq!(codes(&ds), vec!["E0207"]);
}

#[test]
fn resolve_main_with_params() {
    let ds = resolve_errs("fn main(a: int, b: int) { }");
    assert_eq!(ds.len(), 1);
    assert_eq!(ds[0].code, Some("E0208"));
    assert_eq!(
        ds[0].message,
        "invalid main signature: expected 'fn main()', found 'fn main(a, b)'"
    );
    assert_eq!(ds[0].span, Span { start: 0, end: 27 });
}

#[test]
fn resolve_main_with_return_type() {
    let ds = resolve_errs("fn main() -> int { return 0; }");
    assert_eq!(ds.len(), 1);
    assert_eq!(
        ds[0].message,
        "invalid main signature: expected 'fn main()', found 'fn main() -> ...'"
    );
}

#[test]
fn resolve_main_with_params_and_return_type() {
    let ds = resolve_errs("fn main(argc: int) -> int { return argc; }");
    assert_eq!(
        ds[0].message,
        "invalid main signature: expected 'fn main()', found 'fn main(argc) -> ...'"
    );
}

#[test]
fn resolve_main_explicit_void_is_fine() {
    resolve_ok("fn main() -> void { }");
}

#[test]
fn resolve_undefined_variable() {
    let ds = resolve_errs("fn main() { x; }");
    assert_eq!(ds.len(), 1);
    assert_eq!(ds[0].code, Some("E0201"));
    assert_eq!(ds[0].message, "undefined variable 'x'");
    assert_eq!(ds[0].span, Span { start: 12, end: 13 });
    assert_eq!(ds[0].summary(), "error[resolver][E0201]: undefined variable 'x'");
}

#[test]
fn resolve_use_before_definition_in_block() {
    let ds = resolve_errs("fn main() { x; var x = 1; }");
    assert_eq!(codes(&ds), vec!["E0201"]);
}

#[test]
fn resolve_initializer_cannot_see_its_own_name() {
    let ds = resolve_errs("fn main() { var x = x; }");
    assert_eq!(codes(&ds), vec!["E0201"]);
}

#[test]
fn resolve_duplicate_local() {
    let ds = resolve_errs("fn main() { var x = 1; var x = 2; }");
    assert_eq!(ds.len(), 1);
    assert_eq!(ds[0].code, Some("E0206"));
    assert_eq!(ds[0].message, "duplicate definition of 'x'");
}

#[test]
fn resolve_duplicate_top_level_fn() {
    let ds = resolve_errs("fn f() { } fn f() { } fn main() { }");
    assert_eq!(codes(&ds), vec!["E0206"]);
}

#[test]
fn resolve_shadowing_in_inner_block() {
    let (program, symbols) =
        resolve_ok("fn main() { var x = 1; if 1 { var x = 2; x; } x; }");
    // ids: main = 0, outer x = 1, inner x = 2
    assert_eq!(symbols.len(), 3);
    let stmts = main_body(&program);
    match &stmts[1].kind {
        StmtKind::If { then_block, .. } => {
            assert_eq!(expr_stmt_ident_id(&then_block.stmts[1]), SymbolId(2));
        }
        _ => panic!("expected if"),
    }
    assert_eq!(expr_stmt_ident_id(&stmts[2]), SymbolId(1));
}

#[test]
fn resolve_parameter_shadowed_by_local() {
    let (_, symbols) = resolve_ok("fn f(a: int) -> int { var a = 2; return a; } fn main() { }");
    // f = 0, main = 1, param a = 2, local a = 3
    assert_eq!(symbols.len(), 4);
    assert!(matches!(symbols.get(SymbolId(2)).kind, SymbolKind::Param));
    assert!(matches!(symbols.get(SymbolId(3)).kind, SymbolKind::Var));
}

#[test]
fn resolve_block_scope_ends_with_block() {
    let ds = resolve_errs("fn main() { if 1 { var y = 1; } y; }");
    assert_eq!(codes(&ds), vec!["E0201"]);
    assert_eq!(ds[0].message, "undefined variable 'y'");
}

#[test]
fn resolve_locals_do_not_leak_between_functions() {
    let ds = resolve_errs("fn f() { var z = 1; } fn main() { z; }");
    assert_eq!(codes(&ds), vec!["E0201"]);
}

#[test]
fn resolve_forward_function_reference() {
    let (program, _) = resolve_ok("fn main() { foo(); } fn foo() { }");
    let stmts = main_body(&program);
    match &stmts[0].kind {
        StmtKind::Expr(e) => match &e.kind {
            ExprKind::Call { callee, .. } => match &callee.kind {
                ExprKind::Ident(id) => assert_eq!(id.id, SymbolId(1)),
                _ => panic!("expected ident callee"),
            },
            _ => panic!("expected call"),
        },
        _ => panic!("expected expression statement"),
    }
}

#[test]
fn resolve_break_outside_loop() {
    let ds = resolve_errs("fn main() { break; }");
    assert_eq!(ds.len(), 1);
    assert_eq!(ds[0].code, Some("E0211"));
    assert_eq!(ds[0].message, "'break' used outside of a loop");
}

#[test]
fn resolve_continue_outside_loop() {
    let ds = resolve_errs("fn main() { continue; }");
    assert_eq!(ds[0].code, Some("E0212"));
    assert_eq!(ds[0].message, "'continue' used outside of a loop");
}

#[test]
fn resolve_break_and_continue_in_loop() {
    resolve_ok("fn main() { while 1 { if 1 { break; } continue; } }");
}

#[test]
fn resolve_break_after_loop_is_outside() {
    let ds = resolve_errs("fn main() { while 1 { } break; }");
    assert_eq!(codes(&ds), vec!["E0211"]);
}

#[test]
fn resolve_reserved_variable_name() {
    let ds = resolve_errs("fn main() { var alloc = 1; }");
    assert_eq!(ds.len(), 1);
    assert_eq!(ds[0].code, Some("E0209"));
    assert_eq!(
        ds[0].message,
        "'alloc' is a reserved builtin identifier and cannot be used as a variable or function name"
    );
}

#[test]
fn resolve_reserved_function_name() {
    let ds = resolve_errs("fn free() { } fn main() { }");
    assert_eq!(codes(&ds), vec!["E0209"]);
}

#[test]
fn resolve_struct_literal_unknown_field() {
    let ds = resolve_errs("struct P { x: int, } fn main() { var p = P { z: 1 }; }");
    assert_eq!(ds.len(), 1);
    assert_eq!(ds[0].code, Some("E0204"));
    assert_eq!(ds[0].message, "struct 'P' has no field 'z'");
}

#[test]
fn resolve_struct_literal_unknown_struct() {
    let ds = resolve_errs("fn main() { var p = Q { z: 1 }; }");
    assert_eq!(codes(&ds), vec!["E0203"]);
    assert_eq!(ds[0].message, "undefined type 'Q'");
}

#[test]
fn resolve_unknown_named_type() {
    let ds = resolve_errs("fn main() { var p: ptr<Q> = 0; }");
    assert_eq!(codes(&ds), vec!["E0203"]);
}

#[test]
fn resolve_unknown_static_receiver() {
    let ds = resolve_errs("fn main() { Q::new(); }");
    assert_eq!(codes(&ds), vec!["E0203"]);
}

#[test]
fn resolve_duplicate_field() {
    let ds = resolve_errs("struct P { x: int, x: int, } fn main() { }");
    assert_eq!(ds.len(), 1);
    assert_eq!(ds[0].code, Some("E0210"));
    assert_eq!(ds[0].message, "duplicate field 'x' in struct 'P'");
}

#[test]
fn resolve_struct_and_method_ids_are_sequential() {
    let source = "struct C { n: int, fn new() -> C { return C { n: 0 }; } fn get(self) -> int { return self->n; } } fn main() { var c = C::new(); }";
    let (program, symbols) = resolve_ok(source);
    assert_eq!(symbols.get(SymbolId(0)).name, "C");
    assert_eq!(symbols.get(SymbolId(1)).name, "new");
    assert_eq!(symbols.get(SymbolId(2)).name, "get");
    assert_eq!(symbols.get(SymbolId(3)).name, "main");
    let info = symbols.get_struct_info(SymbolId(0)).expect("struct info");
    assert_eq!(info.fields.len(), 1);
    assert_eq!(info.fields[0].name, "n");
    assert_eq!(info.fns.len(), 2);
    assert_eq!(info.fns[0], ("new".to_string(), SymbolId(1)));
    assert_eq!(info.fns[1], ("get".to_string(), SymbolId(2)));
    assert!(symbols.get_fn_sig(SymbolId(0)).is_none());
    assert!(symbols.get_struct_info(SymbolId(1)).is_none());
    match &program.decls[0] {
        Decl::Struct(s) => {
            assert_eq!(s.name.id, SymbolId(0));
            assert_eq!(s.methods[0].name.id, SymbolId(1));
            assert_eq!(s.methods[1].name.id, SymbolId(2));
            assert!(matches!(s.methods[1].params[0].kind, ParamKind::SelfParam { ty: None }));
        }
        _ => panic!("expected struct"),
    }
    // the `self` parameter is a symbol too
    assert_eq!(symbols.get(SymbolId(4)).name, "self");
}

#[test]
fn resolve_fn_sig_records_params_and_return_type() {
    let (_, symbols) = resolve_ok("fn add(a: int, b: int) -> int { return a + b; } fn main() { }");
    let sig = symbols.get_fn_sig(SymbolId(0)).expect("signature");
    assert_eq!(sig.params.len(), 2);
    assert_eq!(sig.params[0].name, "a");
    assert_eq!(sig.params[1].name, "b");
    assert_eq!(sig.ret_ty, "Int(Span { start: 26, end: 29 })");
}

#[test]
fn resolve_reports_every_error() {
    let ds = resolve_errs("fn main() { a; b; break; }");
    assert_eq!(codes(&ds), vec!["E0201", "E0201", "E0211"]);
}

#[test]
fn resolve_symbol_ids_match_positions() {
    let (_, symbols) = resolve_ok("fn f(a: int) { var b = a; } fn main() { var c = 1; }");
    for i in 0..symbols.len() {
        assert_eq!(symbols.get(SymbolId(i as u32)).id, SymbolId(i as u32));
    }
}

#[test]
fn resolve_fits_symbol_ids_small_program() {
    let mut lexer = Lexer::new("fn main() { }");
    let (tokens, _) = lexer.tokenize();
    let program = Parser::new(tokens).parse().unwrap();
    assert!(fits_symbol_ids(&program));
}

fn check_expr(e: &minuto_compiler::ast::Expr<minuto_compiler::common::Resolved>, n: u32, seen: &mut usize) {
    match &e.kind {
        ExprKind::Ident(i) => {
            assert!(i.id.0 < n, "unbound identifier {}", i.name);
            *seen += 1;
        }
        ExprKind::Unary(_, x) | ExprKind::Field { base: x, .. } | ExprKind::Free { expr: x } => check_expr(x, n, seen),
        ExprKind::Binary(_, a, b) | ExprKind::Assign { lhs: a, rhs: b } | ExprKind::Index { base: a, index: b } => {
            check_expr(a, n, seen);
            check_expr(b, n, seen);
        }
        ExprKind::Call { callee, args } | ExprKind::MethodCall { base: callee, args, .. } => {
            check_expr(callee, n, seen);
            args.iter().for_each(|a| check_expr(a, n, seen));
        }
        ExprKind::StaticCall { args, .. } | ExprKind::StdCall { args, .. } => {
            args.iter().for_each(|a| check_expr(a, n, seen))
        }
        ExprKind::StructLit { fields, .. } => fields.iter().for_each(|f| check_expr(&f.value, n, seen)),
        ExprKind::Alloc { count, .. } => check_expr(count, n, seen),
        _ => {}
    }
}

fn check_block(b: &minuto_compiler::ast::Block<minuto_compiler::common::Resolved>, n: u32, seen: &mut usize) {
    for s in &b.stmts {
        match &s.kind {
            StmtKind::Expr(e) | StmtKind::Return(Some(e)) => check_expr(e, n, seen),
            StmtKind::VarDecl { name, init, .. } | StmtKind::ConstDecl { name, init, .. } => {
                assert!(name.id.0 < n);
                check_expr(init, n, seen);
            }
            StmtKind::If { cond, then_block, else_ifs, else_block } => {
                check_expr(cond, n, seen);
                check_block(then_block, n, seen);
                for (c, b) in else_ifs {
                    check_expr(c, n, seen);
                    check_block(b, n, seen);
                }
                if let Some(b) = else_block {
                    check_block(b, n, seen);
                }
            }
            StmtKind::While { cond, body } => {
                check_expr(cond, n, seen);
                check_block(body, n, seen);
            }
            _ => {}
        }
    }
}

fn check_fn(f: &minuto_compiler::ast::FnDecl<minuto_compiler::common::Resolved>, n: u32, seen: &mut usize) {
    assert!(f.name.id.0 < n);
    for p in &f.params {
        if let ParamKind::Named { name, .. } = &p.kind {
            assert!(name.id.0 < n);
        }
    }
    check_block(&f.body, n, seen);
}

#[test]
fn resolve_success_binds_every_name() {
    let source = "struct C { n: int, fn get(self) -> int { return self->n; } fn make(v: int) -> C { return C { n: v }; } } \
                  fn add(a: int, b: int) -> int { var s = a + b; return s; } \
                  fn main() { const K: int = 3; var c = C::make(K); var x = add(c.get(), K); \
                  if x > 1 { x = x - 1; } else if x < 0 { x = 0; } else { x = add(x, x); } \
                  while x { x = x - 1; if x { break; } } }";
    let (program, symbols) = resolve_ok(source);
    let n = symbols.len() as u32;
    let mut seen = 0;
    for d in &program.decls {
        match d {
            Decl::Fn(f) => check_fn(f, n, &mut seen),
            Decl::Struct(s) => {
                assert!(s.name.id.0 < n);
                s.methods.iter().for_each(|m| check_fn(m, n, &mut seen));
            }
        }
    }
    assert!(seen >= 15);
}

#[test]
fn resolve_undefined_name_in_initializer() {
    let ds = resolve_errs("fn main() { var y = missing + 1; }");
    assert_eq!(codes(&ds), vec!["E0201"]);
}

#[test]
fn resolve_fn_sig_named_return_type_text() {
    let (_, symbols) = resolve_ok("struct P { } fn f() -> P { return P { }; } fn main() { }");
    let sig = symbols.get_fn_sig(SymbolId(1)).expect("signature");
    assert_eq!(sig.ret_ty, "Named(Span { start: 23, end: 25 }, \"P\")");
}

#[test]
fn resolve_ids_name_their_symbols() {
    let (program, symbols) = resolve_ok("fn f(a: int) -> int { return a; } fn main() { var x = 1; var y = x + f(x); }");
    let stmts = main_body(&program);
    match &stmts[1].kind {
        StmtKind::VarDecl { name, init, .. } => {
            assert_eq!(symbols.get(name.id).name, "y");
            match &init.kind {
                ExprKind::Binary(_, l, r) => {
                    match &l.kind {
                        ExprKind::Ident(i) => assert_eq!(symbols.get(i.id).name, "x"),
                        _ => panic!("expected x"),
                    }
                    match &r.kind {
                        ExprKind::Call { callee, .. } => match &callee.kind {
                            ExprKind::Ident(i) => assert_eq!(symbols.get(i.id).name, "f"),
                            _ => panic!("expected f"),
                        },
                        _ => panic!("expected a call"),
                    }
                }
                _ => panic!("expected a sum"),
            }
        }
        _ => panic!("expected var"),
    }
}
