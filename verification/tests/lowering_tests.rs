use rusty_javac::expr_lowering::{decimal, token_source, ExprLowerer};
use rusty_javac::hir::{AssignOp, BinaryOp, Expr, LocalVarDecl, Stmt, UnaryOp};
use rusty_javac::diagnostics::TextRange;
use rusty_javac::lexer::tokenize;
use rusty_javac::lowering::{
    float_literal_text, has_float_suffix, parse_char_literal, parse_int_literal, string_literal_value,
    BodyBuilder, ExprToken, LowerError, TypeResolver,
};
use rusty_javac::parser::Parser;
use rusty_javac::syntax::SyntaxKind;
use rusty_javac::tree_lowering::lower;
use rusty_javac::ty::Ty;

fn expr_tokens(src: &str) -> Vec<ExprToken> {
    tokenize(src)
        .into_iter()
        .filter(|t| t.kind != SyntaxKind::Whitespace && t.kind != SyntaxKind::Comment)
        .map(|t| {
            let start = t.range.start as usize;
            let line = 1 + src[..start].matches('\n').count() as u16;
            ExprToken { kind: t.kind, text: t.text, line, range: TextRange { start: t.range.start, end: t.range.end } }
        })
        .collect()
}

fn at(line: u16, start: u32, end: u32) -> LowerError {
    LowerError::UnsupportedExpressionAt { line, range: Some(TextRange { start, end }) }
}

fn lower_expr(src: &str) -> (BodyBuilder, Result<Option<usize>, LowerError>) {
    let resolver = TypeResolver::for_class(None, &Vec::new(), "Main").unwrap();
    let mut b = BodyBuilder::new(resolver);
    let r = b.lower_expr_tokens(expr_tokens(src));
    (b, r)
}

#[test]
fn int_literals_in_every_radix() {
    assert_eq!(parse_int_literal("42"), 42);
    assert_eq!(parse_int_literal("0x1F"), 31);
    assert_eq!(parse_int_literal("0b101"), 5);
    assert_eq!(parse_int_literal("017"), 15);
    assert_eq!(parse_int_literal("1_000_000"), 1_000_000);
    assert_eq!(parse_int_literal("42L"), 42);
    assert_eq!(parse_int_literal("0"), 0);
}

#[test]
fn float_literals_keep_their_text() {
    assert!(has_float_suffix("1.5f"));
    assert!(has_float_suffix("2F"));
    assert!(!has_float_suffix("2.5"));
    assert!(!has_float_suffix(""));
    assert_eq!(float_literal_text("1_0.5f"), "10.5");
    assert_eq!(float_literal_text("3.25d"), "3.25");
    assert_eq!(float_literal_text("2.0"), "2.0");
}

#[test]
fn string_and_char_literals_decode_escapes() {
    assert_eq!(string_literal_value("\"hello\""), "hello");
    assert_eq!(string_literal_value("\"a\\nb\""), "a\nb");
    assert_eq!(string_literal_value("\"\\u0041\\t\""), "A\t");
    assert_eq!(string_literal_value("\"q\\\"\""), "q\"");
    assert_eq!(parse_char_literal("'x'"), 'x');
    assert_eq!(parse_char_literal("'\\n'"), '\n');
    assert_eq!(parse_char_literal("'\\''"), '\'');
}

#[test]
fn lower_error_messages() {
    assert_eq!(LowerError::UnsupportedClassMember.message(), "unsupported class member");
    assert_eq!(
        LowerError::PatternVariableOutOfScope("s".to_string()).message(),
        "pattern variable `s` is not in scope"
    );
    assert_eq!(
        LowerError::UnknownType("Foo".to_string()).message(),
        "cannot find symbol: class Foo"
    );
}

#[test]
fn resolver_finds_java_lang_and_the_current_class() {
    let resolver = TypeResolver::for_class(None, &Vec::new(), "demo/Main").unwrap();
    let string = resolver.resolve_type_name("String", &Vec::new()).unwrap();
    assert!(matches!(string, Ty::Class(ref n) if n == "java/lang/String"));
    let main = resolver.resolve_type_name("Main", &Vec::new()).unwrap();
    assert!(matches!(main, Ty::Class(ref n) if n == "demo/Main"));
    assert_eq!(
        resolver.resolve_type_name("NoSuchClass", &Vec::new()).unwrap_err(),
        LowerError::UnknownType("NoSuchClass".to_string())
    );
}

#[test]
fn no_tokens_lower_to_nothing() {
    let (b, r) = lower_expr("");
    assert!(matches!(r, Ok(None)));
    assert!(b.body.exprs.is_empty());
}

#[test]
fn multiplication_binds_tighter_than_addition() {
    let (b, r) = lower_expr("a + b * c");
    let id = r.unwrap().unwrap();
    match &b.body.exprs[id] {
        Expr::Binary { op: BinaryOp::Add, left, right } => {
            assert!(matches!(&b.body.exprs[*left], Expr::Ident(n) if n == "a"));
            assert!(matches!(&b.body.exprs[*right], Expr::Binary { op: BinaryOp::Mul, .. }));
        }
        other => panic!("unexpected {:?}", other),
    }
}

#[test]
fn subtraction_is_left_associative() {
    let (b, r) = lower_expr("a - b - c");
    let id = r.unwrap().unwrap();
    match &b.body.exprs[id] {
        Expr::Binary { op: BinaryOp::Sub, left, right } => {
            assert!(matches!(&b.body.exprs[*left], Expr::Binary { op: BinaryOp::Sub, .. }));
            assert!(matches!(&b.body.exprs[*right], Expr::Ident(n) if n == "c"));
        }
        other => panic!("unexpected {:?}", other),
    }
}

#[test]
fn assignment_is_right_associative() {
    let (b, r) = lower_expr("x = y += 1");
    let id = r.unwrap().unwrap();
    match &b.body.exprs[id] {
        Expr::Assign { op: AssignOp::Plain, value, .. } => {
            assert!(matches!(&b.body.exprs[*value], Expr::Assign { op: AssignOp::Add, .. }));
        }
        other => panic!("unexpected {:?}", other),
    }
}

#[test]
fn children_are_stored_before_parents() {
    let (b, r) = lower_expr("f(a, b[1]) ? -x : (y)");
    let id = r.unwrap().unwrap();
    assert_eq!(id, b.body.exprs.len() - 1);
    assert!(matches!(&b.body.exprs[id], Expr::Ternary { .. }));
    for (i, e) in b.body.exprs.iter().enumerate() {
        if let Expr::Ternary { condition, then_expr, else_expr } = e {
            assert!(*condition < i && *then_expr < i && *else_expr < i);
        }
        if let Expr::Unary { op, operand } = e {
            assert_eq!(*op, UnaryOp::Neg);
            assert!(*operand < i);
        }
    }
}

#[test]
fn calls_fields_and_static_classes() {
    let (b, r) = lower_expr("System.out.println(\"hi\")");
    let id = r.unwrap().unwrap();
    match &b.body.exprs[id] {
        Expr::MethodCall { target: Some(t), method, args } => {
            assert_eq!(method, "println");
            assert_eq!(args.len(), 1);
            match &b.body.exprs[*t] {
                Expr::FieldAccess { target, field } => {
                    assert_eq!(field, "out");
                    assert!(matches!(&b.body.exprs[*target], Expr::ClassName(n) if n == "java/lang/System"));
                }
                other => panic!("unexpected {:?}", other),
            }
            assert!(matches!(&b.body.exprs[args[0]], Expr::StringLiteral(s) if s == "hi"));
        }
        other => panic!("unexpected {:?}", other),
    }
}

#[test]
fn casts_instanceof_and_arrays() {
    let (b, r) = lower_expr("(int) x");
    let id = r.unwrap().unwrap();
    assert!(matches!(&b.body.exprs[id], Expr::Cast { ty: Ty::Int, .. }));

    let (b, r) = lower_expr("o instanceof String s");
    let id = r.unwrap().unwrap();
    assert!(matches!(&b.body.exprs[id], Expr::Instanceof { binding: Some(n), .. } if n == "s"));

    let (b, r) = lower_expr("new int[3]");
    let id = r.unwrap().unwrap();
    match &b.body.exprs[id] {
        Expr::NewArray { element_type: Ty::Int, dimensions, initializer: None } => {
            assert_eq!(dimensions.len(), 1);
        }
        other => panic!("unexpected {:?}", other),
    }

    let (b, r) = lower_expr("new int[] {1, 2, 3,}");
    let id = r.unwrap().unwrap();
    match &b.body.exprs[id] {
        Expr::NewArray { initializer: Some(init), .. } => assert_eq!(init.elements.len(), 3),
        other => panic!("unexpected {:?}", other),
    }
}

#[test]
fn lambdas_take_their_parameters() {
    let (b, r) = lower_expr("(a, b) -> a + b");
    let id = r.unwrap().unwrap();
    match &b.body.exprs[id] {
        Expr::Lambda { params, target_ty: None, .. } => {
            assert_eq!(params.len(), 2);
            assert_eq!(params[0].name, "a");
        }
        other => panic!("unexpected {:?}", other),
    }
    let (b, r) = lower_expr("x -> { return; }");
    let id = r.unwrap().unwrap();
    assert!(matches!(&b.body.exprs[id], Expr::Lambda { .. }));
}

#[test]
fn leftover_tokens_are_refused() {
    let (_, r) = lower_expr("a b");
    assert_eq!(r.unwrap_err(), at(1, 2, 3));
    let (_, r) = lower_expr("(1");
    assert_eq!(r.unwrap_err(), at(1, 1, 2));
}

#[test]
fn literal_expressions() {
    let (b, r) = lower_expr("0x10");
    assert!(matches!(&b.body.exprs[r.unwrap().unwrap()], Expr::IntLiteral(16)));
    let (b, r) = lower_expr("7L");
    assert!(matches!(&b.body.exprs[r.unwrap().unwrap()], Expr::LongLiteral(7)));
    let (b, r) = lower_expr("2.5f");
    assert!(matches!(&b.body.exprs[r.unwrap().unwrap()], Expr::FloatLiteral(t) if t == "2.5"));
    let (b, r) = lower_expr("2.5");
    assert!(matches!(&b.body.exprs[r.unwrap().unwrap()], Expr::DoubleLiteral(t) if t == "2.5"));
    let (b, r) = lower_expr("null");
    assert!(matches!(&b.body.exprs[r.unwrap().unwrap()], Expr::NullLiteral));
    let (b, r) = lower_expr("true");
    assert!(matches!(&b.body.exprs[r.unwrap().unwrap()], Expr::BoolLiteral(true)));
}

#[test]
fn expression_lowerer_reads_operators() {
    let mut p = ExprLowerer::new(expr_tokens("+= <<"));
    assert_eq!(p.peek_assign_op(), Some(AssignOp::Add));
    assert_eq!(p.peek_binary_op(), None);
    assert!(p.eat(SyntaxKind::PlusEq));
    assert_eq!(p.peek_binary_op(), Some((BinaryOp::Shl, 8)));
    assert!(!p.eat(SyntaxKind::Plus));
}

fn lower_source(src: &str) -> Result<rusty_javac::hir::CompilationUnit, LowerError> {
    let parse = Parser::parse(src);
    assert!(parse.errors.is_empty(), "{:?}", parse.errors);
    lower(&parse.events)
}

#[test]
fn class_with_methods_lowers() {
    let unit = lower_source(
        "package p; public class A { public static int f(int x, String s) { int y = 1; var z = y; { y = 2; } return y; } abstract void g(); }",
    )
    .unwrap();
    assert_eq!(unit.package.as_ref().unwrap().name, "p");
    assert_eq!(unit.type_decls.len(), 1);
    let td = &unit.type_decls[0];
    assert_eq!(td.name, "p/A");
    assert_eq!(td.access_flags, 0x0001);
    assert_eq!(td.methods.len(), 2);
    let f = &td.methods[0];
    assert_eq!(f.name, "f");
    assert_eq!(f.access_flags, 0x0001 | 0x0008);
    assert_eq!(f.params.len(), 2);
    assert_eq!(f.params[1].name, "s");
    assert!(matches!(&f.params[1].ty, Ty::Class(n) if n == "java/lang/String"));
    assert_eq!(f.signature.descriptor(), "(ILjava/lang/String;)I");
    let block = f.root_block.as_ref().unwrap();
    // `return` is not among the statements lowered
    assert_eq!(block.stmts.len(), 3);
    assert!(matches!(&f.body.stmts[block.stmts[1]], Stmt::LocalVar(d) if d.name == "z" && matches!(d.ty, Ty::Int)));
    assert!(matches!(&f.body.stmts[block.stmts[2]], Stmt::Block(_)));
    let g = &td.methods[1];
    assert_eq!(g.access_flags, 0x0400);
    assert!(g.root_block.is_none());
}

#[test]
fn unit_lowering_errors() {
    assert_eq!(lower_source("class A {} class B {}").unwrap_err(), LowerError::ExpectedSingleTopLevelClass);
    assert_eq!(lower_source("").unwrap_err(), LowerError::ExpectedSingleTopLevelClass);
    assert_eq!(lower_source("interface I {}").unwrap_err(), LowerError::UnsupportedTypeDeclaration);
    assert_eq!(lower_source("class A { int x; }").unwrap_err(), LowerError::UnsupportedClassMember);
    assert_eq!(lower_source("class A { A() {} }").unwrap_err(), LowerError::UnsupportedClassMember);
    assert_eq!(
        lower_source("import nope.Missing; class A {}").unwrap_err(),
        LowerError::UnknownImport { name: "nope.Missing".to_string(), line: 1 }
    );
    assert_eq!(
        lower_source("class A { Foo f() { } }").unwrap_err(),
        LowerError::UnknownType("Foo".to_string())
    );
    assert_eq!(lower(&Vec::new()).unwrap_err(), LowerError::ExpectedCompilationUnit);
}

#[test]
fn anonymous_classes_become_classes_of_their_own() {
    let unit = lower_source(
        "class A { void f() { Object r = new Object() { public String toString() { } }; } }",
    )
    .unwrap();
    let td = &unit.type_decls[0];
    assert_eq!(td.inner_types.len(), 1);
    let anon = &td.inner_types[0];
    assert_eq!(anon.name, "A$1");
    assert_eq!(anon.methods[0].name, "<init>");
    assert_eq!(anon.methods[1].name, "toString");
    let f = &td.methods[0];
    let found = f.body.exprs.iter().any(|e| {
        matches!(e, Expr::NewObject { anonymous: Some(a), .. } if a.class_name == "A$1")
    });
    assert!(found);
}

#[test]
fn anonymous_class_names_count_in_decimal() {
    assert_eq!(decimal(0), "0");
    assert_eq!(decimal(7), "7");
    assert_eq!(decimal(1234), "1234");
    assert_eq!(decimal(u32::MAX), "4294967295");
}

#[test]
fn token_source_spaces_tokens_apart() {
    // a space goes before every token except after `{`, `(` or a space
    let src = token_source(&expr_tokens("{ f(a, b); }"));
    assert_eq!(src, " {f (a , b ) ; }");
}

#[test]
fn pattern_variables_leave_scope_with_their_block() {
    let resolver = TypeResolver::for_class(None, &Vec::new(), "Main").unwrap();
    let mut b = BodyBuilder::new(resolver);
    b.enter_scope();
    b.define_pattern_local("s", Ty::Int);
    assert!(!b.pattern_name_is_out_of_scope("s"));
    assert!(matches!(b.local_ty("s"), Some(Ty::Int)));
    b.exit_scope();
    assert!(b.pattern_name_is_out_of_scope("s"));
    assert!(!b.pattern_name_is_out_of_scope("t"));
    let r = b.lower_expr_tokens(expr_tokens("s + 1"));
    assert_eq!(r.unwrap_err(), LowerError::PatternVariableOutOfScope("s".to_string()));
}

#[test]
fn lambdas_take_the_type_they_initialise() {
    let resolver = TypeResolver::for_class(None, &Vec::new(), "Main").unwrap();
    let mut b = BodyBuilder::new(resolver);
    let id = b.lower_expr_tokens(expr_tokens("((x) -> x)")).unwrap().unwrap();
    b.alloc_stmt(Stmt::LocalVar(LocalVarDecl { ty: Ty::object(), name: "g".to_string(), initializer: Some(id) }));
    b.resolve_lambda_target_types(&Ty::Void);
    let lambda = b.body.exprs.iter().find(|e| matches!(e, Expr::Lambda { .. })).unwrap();
    match lambda {
        Expr::Lambda { target_ty: Some(Ty::Class(n)), params, .. } => {
            assert_eq!(n, "java/lang/Object");
            assert_eq!(params.len(), 1);
        }
        other => panic!("unexpected {:?}", other),
    }
}

#[test]
fn lambda_params_read_names_up_to_the_closing_paren() {
    let mut p = ExprLowerer::new(expr_tokens("a, b) ->"));
    let params = p.parse_lambda_params().unwrap();
    let names: Vec<&str> = params.iter().map(|q| q.name.as_str()).collect();
    assert_eq!(names, vec!["a", "b"]);
    assert_eq!(p.pos, 4);
    let mut empty = ExprLowerer::new(expr_tokens(") ->"));
    assert!(empty.parse_lambda_params().unwrap().is_empty());
    assert_eq!(empty.pos, 1);
    let mut bad = ExprLowerer::new(expr_tokens("a b)"));
    assert_eq!(bad.parse_lambda_params().unwrap_err(), at(1, 2, 3));
}

#[test]
fn types_read_their_dimensions() {
    let resolver = TypeResolver::for_class(None, &Vec::new(), "Main").unwrap();
    let b = BodyBuilder::new(resolver);
    let mut p = ExprLowerer::new(expr_tokens("int[][] x"));
    let t = p.parse_type(&b).unwrap();
    assert!(matches!(t, Ty::Array(ref inner) if matches!(**inner, Ty::Array(ref e) if matches!(**e, Ty::Int))));
    assert_eq!(p.pos, 5);
    let mut q = ExprLowerer::new(expr_tokens("Main . 5"));
    assert_eq!(q.parse_type_name(&b).unwrap_err(), at(1, 7, 8));
    let mut r = ExprLowerer::new(expr_tokens("Main x"));
    assert!(matches!(r.parse_type_name(&b).unwrap(), Ty::Class(ref n) if n == "Main"));
    assert_eq!(r.pos, 1);
}

#[test]
fn pattern_variables_are_remembered() {
    let resolver = TypeResolver::for_class(None, &Vec::new(), "Main").unwrap();
    let mut b = BodyBuilder::new(resolver);
    assert!(b.pattern_names.is_empty());
    assert_eq!(b.anonymous_counter, 0);
    b.define_pattern_local("s", Ty::Int);
    assert_eq!(b.pattern_names, vec!["s".to_string()]);
    assert!(matches!(b.local_ty("s"), Some(Ty::Int)));
}

#[test]
fn unknown_import_reports_its_line() {
    assert_eq!(
        lower_source("\n\nimport nope.Missing;\nclass A {}").unwrap_err(),
        LowerError::UnknownImport { name: "nope.Missing".to_string(), line: 3 }
    );
}

#[test]
fn unsupported_token_reports_its_place() {
    let (_, r) = lower_expr("1 +\n )");
    assert_eq!(r.unwrap_err(), at(2, 5, 6));
    let mut empty = ExprLowerer::new(Vec::new());
    let resolver = TypeResolver::for_class(None, &Vec::new(), "Main").unwrap();
    let mut b = BodyBuilder::new(resolver);
    assert_eq!(empty.parse_primary(&mut b, 10).unwrap_err(), LowerError::UnsupportedExpression);
}

#[test]
fn anonymous_class_over_an_interface_extends_nothing_and_implements_it() {
    let (b, r) = lower_expr("new Iterable() { }");
    r.unwrap().unwrap();
    let d = b.anonymous_types.last().unwrap();
    assert!(d.super_class.is_none());
    assert_eq!(d.interfaces.len(), 1);
    assert!(matches!(&d.interfaces[0], Ty::Class(n) if n == "java/lang/Iterable"));
    let (b, r) = lower_expr("new Object() { }");
    r.unwrap().unwrap();
    let d = b.anonymous_types.last().unwrap();
    assert!(matches!(&d.super_class, Some(Ty::Class(n)) if n == "java/lang/Object"));
    assert!(d.interfaces.is_empty());
}

#[test]
fn two_anonymous_classes_keep_both_declarations() {
    let (b, r) = lower_expr("new Object() { } == new Object() { }");
    r.unwrap().unwrap();
    assert_eq!(b.anonymous_types.len(), 2);
    assert_eq!(b.anonymous_types[0].name, "Main$1");
    assert_eq!(b.anonymous_types[1].name, "Main$2");
}

#[test]
fn a_name_becomes_an_identifier_node() {
    let resolver = TypeResolver::for_class(None, &Vec::new(), "Main").unwrap();
    let mut b = BodyBuilder::new(resolver);
    let mut p = ExprLowerer::new(expr_tokens("count + 1"));
    let id = p.parse_primary(&mut b, 10).unwrap();
    assert!(matches!(&b.body.exprs[id], Expr::Ident(n) if n == "count"));
    assert_eq!(p.pos, 1);
}
