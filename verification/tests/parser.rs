use whale_c::ast::{BinOpRef, CmpOpRef, Expr, Lit, Stmt, TypeRef};
use whale_c::parse::parse_translation_unit;

fn lit(v: i128) -> Expr {
    Expr::Lit(Lit::Int {
        bits: 32,
        signed: true,
        value: v,
    })
}

fn var(n: &str) -> Expr {
    Expr::Var(n.to_string())
}

fn bin(l: Expr, op: BinOpRef, r: Expr) -> Expr {
    Expr::Binary {
        left: Box::new(l),
        op,
        right: Box::new(r),
    }
}

fn cmp(l: Expr, op: CmpOpRef, r: Expr) -> Expr {
    Expr::Cmp {
        left: Box::new(l),
        op,
        right: Box::new(r),
    }
}

/// Parses a source text and hands back the body of its single function.
fn body_of(src: &str) -> Vec<Stmt> {
    let p = parse_translation_unit(src).unwrap();
    assert_eq!(p.functions.len(), 1);
    p.functions.into_iter().next().unwrap().body
}

#[test]
fn precedence_mul_over_add() {
    let body = body_of("void f() { 1+2*3; }");
    assert_eq!(
        body,
        vec![Stmt::ExprStmt(bin(
            lit(1),
            BinOpRef::Add,
            bin(lit(2), BinOpRef::Mul, lit(3))
        ))]
    );
}

#[test]
fn left_associative_subtraction() {
    let body = body_of("void f() { 1-2-3; }");
    assert_eq!(
        body,
        vec![Stmt::ExprStmt(bin(
            bin(lit(1), BinOpRef::Sub, lit(2)),
            BinOpRef::Sub,
            lit(3)
        ))]
    );
}

#[test]
fn parens_override_precedence() {
    let body = body_of("void f() { (1+2)*3; }");
    assert_eq!(
        body,
        vec![Stmt::ExprStmt(bin(
            bin(lit(1), BinOpRef::Add, lit(2)),
            BinOpRef::Mul,
            lit(3)
        ))]
    );
}

#[test]
fn if_without_else_has_empty_else_body() {
    let body = body_of("void f() { if (1) { return; } }");
    assert_eq!(
        body,
        vec![Stmt::If {
            cond: cmp(lit(1), CmpOpRef::Ne, lit(0)),
            then_body: vec![Stmt::Return(None)],
            else_body: vec![],
        }]
    );
}

#[test]
fn if_with_else_branches() {
    let body = body_of("void f() { if (x) { break; } else continue; }");
    assert_eq!(
        body,
        vec![Stmt::If {
            cond: cmp(var("x"), CmpOpRef::Ne, lit(0)),
            then_body: vec![Stmt::Break],
            else_body: vec![Stmt::Continue],
        }]
    );
}

#[test]
fn statement_disambiguation_expr() {
    let body = body_of("void f() { x; }");
    assert_eq!(body, vec![Stmt::ExprStmt(var("x"))]);
}

#[test]
fn statement_disambiguation_assign() {
    let body = body_of("void f() { x = 1; }");
    assert_eq!(
        body,
        vec![Stmt::Assign {
            name: "x".to_string(),
            value: lit(1),
        }]
    );
}

#[test]
fn boolean_coercion_of_bare_variable() {
    let body = body_of("void f() { if (x) {} }");
    assert_eq!(
        body,
        vec![Stmt::If {
            cond: cmp(var("x"), CmpOpRef::Ne, lit(0)),
            then_body: vec![],
            else_body: vec![],
        }]
    );
}

#[test]
fn boolean_coercion_keeps_comparison() {
    let body = body_of("void f() { if (x == 1) {} }");
    assert_eq!(
        body,
        vec![Stmt::If {
            cond: cmp(var("x"), CmpOpRef::Eq, lit(1)),
            then_body: vec![],
            else_body: vec![],
        }]
    );
}

#[test]
fn boolean_coercion_keeps_bool_literal() {
    let body = body_of("void f() { while (true) { break; } }");
    assert_eq!(
        body,
        vec![Stmt::While {
            cond: Expr::Lit(Lit::Bool(true)),
            body: vec![Stmt::Break],
        }]
    );
}

#[test]
fn block_flattening_two_decls() {
    let body = body_of("void f() { int a = 1; int b = 2; }");
    assert_eq!(
        body,
        vec![
            Stmt::VarDecl {
                name: "a".to_string(),
                ty: TypeRef::Int {
                    bits: 32,
                    signed: true,
                },
                init: Some(lit(1)),
            },
            Stmt::VarDecl {
                name: "b".to_string(),
                ty: TypeRef::Int {
                    bits: 32,
                    signed: true,
                },
                init: Some(lit(2)),
            },
        ]
    );
}

#[test]
fn nested_block_flattens_into_owner() {
    let body = body_of("void f() { int a = 1; { int b = 2; } }");
    assert_eq!(body.len(), 2);
    assert!(matches!(&body[1], Stmt::VarDecl { name, .. } if name == "b"));
}

#[test]
fn end_to_end_add_function() {
    let p = parse_translation_unit("int add(int a, int b) { return a + b; }").unwrap();
    assert_eq!(p.globals.len(), 0);
    assert_eq!(p.functions.len(), 1);
    let f = &p.functions[0];
    assert_eq!(f.name, "add");
    assert_eq!(f.parameters.len(), 2);
    assert_eq!(f.parameters[0].name, "a");
    assert_eq!(
        f.parameters[0].ty,
        TypeRef::Int {
            bits: 32,
            signed: true
        }
    );
    assert_eq!(f.parameters[1].name, "b");
    assert_eq!(
        f.parameters[1].ty,
        TypeRef::Int {
            bits: 32,
            signed: true
        }
    );
    assert_eq!(
        f.return_type,
        TypeRef::Int {
            bits: 32,
            signed: true
        }
    );
    assert_eq!(
        f.body,
        vec![Stmt::Return(Some(bin(var("a"), BinOpRef::Add, var("b"))))]
    );
}

#[test]
fn global_const_and_function() {
    let p = parse_translation_unit("const int N = 3; void f() {}").unwrap();
    assert_eq!(p.globals.len(), 1);
    assert_eq!(p.globals[0].name, "N");
    assert_eq!(
        p.globals[0].ty,
        TypeRef::Int {
            bits: 32,
            signed: true
        }
    );
    assert_eq!(p.globals[0].init, lit(3));
    assert_eq!(p.functions.len(), 1);
    assert_eq!(p.functions[0].name, "f");
    assert_eq!(p.functions[0].return_type, TypeRef::Void);
}

#[test]
fn unsigned_type_clears_signedness() {
    let body = body_of("void f() { unsigned int u; }");
    assert_eq!(
        body,
        vec![Stmt::VarDecl {
            name: "u".to_string(),
            ty: TypeRef::Int {
                bits: 32,
                signed: false,
            },
            init: None,
        }]
    );
}

#[test]
fn var_decl_without_initializer() {
    let body = body_of("void f() { int x; }");
    assert_eq!(
        body,
        vec![Stmt::VarDecl {
            name: "x".to_string(),
            ty: TypeRef::Int {
                bits: 32,
                signed: true,
            },
            init: None,
        }]
    );
}

#[test]
fn local_const_decl() {
    let body = body_of("void f() { const int k = 9; }");
    assert_eq!(
        body,
        vec![Stmt::ConstDecl {
            name: "k".to_string(),
            ty: TypeRef::Int {
                bits: 32,
                signed: true,
            },
            init: lit(9),
        }]
    );
}

#[test]
fn single_comparison_expression() {
    let body = body_of("void f() { a < b + 1; }");
    assert_eq!(
        body,
        vec![Stmt::ExprStmt(cmp(
            var("a"),
            CmpOpRef::Lt,
            bin(var("b"), BinOpRef::Add, lit(1))
        ))]
    );
}

#[test]
fn empty_source_is_empty_program() {
    let p = parse_translation_unit("").unwrap();
    assert_eq!(p.globals.len(), 0);
    assert_eq!(p.functions.len(), 0);
}

#[test]
fn error_missing_semicolon() {
    let e = parse_translation_unit("void f() { return 1 }").unwrap_err();
    assert_eq!(e.0, "expected Semi, got RBrace");
}

#[test]
fn error_expected_primary() {
    let e = parse_translation_unit("void f() { 1 + ; }").unwrap_err();
    assert_eq!(e.0, "expected primary, got Semi");
}

#[test]
fn error_expected_identifier() {
    let e = parse_translation_unit("int 3() {}").unwrap_err();
    assert_eq!(e.0, "expected identifier, got IntLit");
}

#[test]
fn error_expected_type() {
    let e = parse_translation_unit("const while x = 1;").unwrap_err();
    assert_eq!(e.0, "expected type, got While");
}

#[test]
fn error_lexical_failure_carries_position() {
    let e = parse_translation_unit("void f() {\n  #\n}").unwrap_err();
    assert_eq!(e.0, "unexpected char: '#' (2:3)");
}

#[test]
fn error_unterminated_comment_through_parser() {
    let e = parse_translation_unit("void f() {} /*").unwrap_err();
    assert_eq!(e.0, "unterminated block comment (1:15)");
}

#[test]
fn unsigned_void_is_void() {
    let p = parse_translation_unit("unsigned void f() {}").unwrap();
    assert_eq!(p.functions[0].return_type, TypeRef::Void);
}

#[test]
fn paren_expression_statement() {
    let body = body_of("void f() { (x); }");
    assert_eq!(body, vec![Stmt::ExprStmt(var("x"))]);
}

#[test]
fn two_functions_in_source_order() {
    let p = parse_translation_unit("void a() {} void b() {}").unwrap();
    assert_eq!(p.functions.len(), 2);
    assert_eq!(p.functions[0].name, "a");
    assert_eq!(p.functions[1].name, "b");
}

#[test]
fn while_with_comparison_condition() {
    let body = body_of("void f() { while (i < 10) { i = i + 1; } }");
    assert_eq!(
        body,
        vec![Stmt::While {
            cond: cmp(var("i"), CmpOpRef::Lt, lit(10)),
            body: vec![Stmt::Assign {
                name: "i".to_string(),
                value: bin(var("i"), BinOpRef::Add, lit(1)),
            }],
        }]
    );
}
