use rusty_javac::check::{boxing_type, is_assignable, numeric_promotion};
use rusty_javac::codegen::{build_case_labels, coerce, coerce_numeric, int_case_key, CodegenCtx, Insn};
use rusty_javac::error::BytecodeError;
use rusty_javac::hir::Import;
use rusty_javac::lowering::{LowerError, TypeResolver};
use rusty_javac::hir::{Body, Expr, SwitchCase};
use rusty_javac::diagnostics::{Diagnostic, Diagnostics, Severity, TextRange};
use rusty_javac::lexer::tokenize;
use rusty_javac::opcodes;
use rusty_javac::resolver::{known_package, resolve_class_name, resolve_import};
use rusty_javac::sig::MethodSig;
use rusty_javac::syntax::SyntaxKind;
use rusty_javac::ty::Ty;

#[test]
fn tokens_cover_the_source_in_order() {
    let src = "int x = 42; // answer";
    let tokens = tokenize(src);
    let kinds: Vec<SyntaxKind> = tokens.iter().map(|t| t.kind).collect();
    assert_eq!(
        kinds,
        vec![SyntaxKind::IntKw, SyntaxKind::Ident, SyntaxKind::Eq, SyntaxKind::IntLiteral, SyntaxKind::Semi]
    );
    let mut at = 0u32;
    for t in &tokens {
        assert!(t.range.start >= at);
        assert!(t.range.end > t.range.start);
        assert_eq!(&src[t.range.start as usize..t.range.end as usize], t.text);
        at = t.range.end;
    }
    assert_eq!(tokens[3].text, "42");
    assert_eq!(tokens[3].range.start, 8);
}

#[test]
fn lexer_recognises_literals_and_keywords() {
    let kinds: Vec<SyntaxKind> = tokenize("42L 1.5f 2.0 'c' \"s\" non-sealed")
        .into_iter()
        .map(|t| t.kind)
        .collect();
    assert_eq!(
        kinds,
        vec![
            SyntaxKind::LongLiteral,
            SyntaxKind::FloatLiteral,
            SyntaxKind::FloatLiteral,
            SyntaxKind::CharLiteral,
            SyntaxKind::StringLiteral,
            SyntaxKind::NonSealedKw,
        ]
    );
}

#[test]
fn an_error_keeps_the_diagnostics_failed() {
    let mut d = Diagnostics::new();
    assert!(d.is_ok());
    d.push(Diagnostic::warning("w".to_string(), TextRange::new(0, 1)));
    assert!(d.is_ok());
    d.push(Diagnostic::error("e".to_string(), TextRange::new(1, 2)).with_code("E1".to_string()));
    assert!(d.has_errors());
    d.push(Diagnostic::warning("w2".to_string(), TextRange::new(2, 3)).with_help("h".to_string()));
    assert!(d.has_errors());
    assert_eq!(d.len(), 3);
    let items = d.into_vec();
    assert!(matches!(items[1].severity, Severity::Error));
    assert_eq!(items[1].code.as_deref(), Some("E1"));
    assert_eq!(items[2].help.as_deref(), Some("h"));
}

#[test]
fn platform_classes_resolve() {
    assert_eq!(resolve_class_name("String"), Some("java/lang/String"));
    assert_eq!(resolve_class_name("System"), Some("java/lang/System"));
    assert!(known_package("java/lang"));
    assert!(resolve_import("java.lang.String", false).is_some());
    assert!(resolve_import("no.such.Thing", false).is_none());
}

#[test]
fn type_checks() {
    assert!(is_assignable(&Ty::Int, &Ty::Long));
    assert!(!is_assignable(&Ty::Long, &Ty::Int));
    assert!(matches!(numeric_promotion(&Ty::Int, &Ty::Long), Some(Ty::Long)));
    assert!(matches!(numeric_promotion(&Ty::Byte, &Ty::Short), Some(Ty::Int)));
    assert!(matches!(boxing_type(&Ty::Int), Some(Ty::Class(ref n)) if n == "java/lang/Integer"));
}

#[test]
fn descriptors() {
    let sig = MethodSig::new(
        "main".to_string(),
        vec![Ty::Array(Box::new(Ty::Class("java/lang/String".to_string())))],
        Ty::Void,
    );
    assert_eq!(sig.descriptor(), "([Ljava/lang/String;)V");
    assert_eq!(Ty::Array(Box::new(Ty::Long)).descriptor(), "[J");
}

#[test]
fn opcodes_match_the_class_file_library() {
    assert_eq!(opcodes::IADD, rust_asm::opcodes::IADD);
    assert_eq!(opcodes::INVOKEVIRTUAL, rust_asm::opcodes::INVOKEVIRTUAL);
    assert_eq!(opcodes::GETSTATIC, rust_asm::opcodes::GETSTATIC);
    assert_eq!(opcodes::RETURN, rust_asm::opcodes::RETURN);
    assert_eq!(opcodes::LOOKUPSWITCH, rust_asm::opcodes::LOOKUPSWITCH);
}

#[test]
fn locals_get_consecutive_slots() {
    let mut ctx = CodegenCtx::new("A".to_string());
    let a = ctx.alloc_local("a", &Ty::Long);
    let b = ctx.alloc_local("b", &Ty::Int);
    assert_eq!(a, 0);
    assert_eq!(b, 2);
    assert_eq!(ctx.next_local, 3);
    assert_eq!(ctx.get_local("b"), Some(2));
    assert!(matches!(ctx.resolve_local_ty("a"), Some(Ty::Long)));
    assert_eq!(ctx.get_local("c"), None);
}

#[test]
fn case_labels_sort_by_key_and_keep_case_order() {
    let mut body = Body::new();
    body.exprs.push(Expr::IntLiteral(3));
    body.exprs.push(Expr::IntLiteral(1));
    body.exprs.push(Expr::IntLiteral(3));
    body.exprs.push(Expr::IntLiteral(5_000_000_000));
    assert_eq!(int_case_key(&body, 0), Some(3));
    assert_eq!(int_case_key(&body, 3), None);
    assert_eq!(int_case_key(&body, 9), None);
    let cases = vec![
        SwitchCase::Case { pattern: 0, body: Vec::new(), is_arrow: true },
        SwitchCase::Default { body: Vec::new(), is_arrow: true },
        SwitchCase::Case { pattern: 1, body: Vec::new(), is_arrow: true },
        SwitchCase::Case { pattern: 2, body: Vec::new(), is_arrow: true },
        SwitchCase::Case { pattern: 3, body: Vec::new(), is_arrow: true },
    ];
    let mut ctx = CodegenCtx::new("A".to_string());
    let labels = build_case_labels(&mut ctx, &body, &cases);
    let order: Vec<(usize, i32)> = labels.iter().map(|l| (l.case_index, l.key)).collect();
    assert_eq!(order, vec![(2, 1), (0, 3), (3, 3)]);
}

#[test]
fn coerce_casts_to_a_class_and_converts_numbers() {
    let mut ctx = CodegenCtx::new("A".to_string());
    coerce(&mut ctx, &Ty::object(), &Ty::string());
    assert!(matches!(&ctx.code[..], [Insn::Type(op, n)] if *op == opcodes::CHECKCAST && n == "java/lang/String"));
    let mut ctx2 = CodegenCtx::new("A".to_string());
    coerce(&mut ctx2, &Ty::Int, &Ty::Long);
    coerce(&mut ctx2, &Ty::Long, &Ty::Int);
    coerce(&mut ctx2, &Ty::Int, &Ty::Int);
    assert!(matches!(&ctx2.code[..], [Insn::Op(a), Insn::Op(b)] if *a == opcodes::I2L && *b == opcodes::L2I));
    let mut ctx3 = CodegenCtx::new("A".to_string());
    coerce_numeric(&mut ctx3, &Ty::object(), &Ty::string());
    assert!(ctx3.code.is_empty());
}

#[test]
fn bytecode_error_from_a_string() {
    let e = BytecodeError::from("bad".to_string());
    assert_eq!(e.code, "B0001");
    assert_eq!(e.text(), "bad");
}

#[test]
fn resolver_reports_the_first_unknown_import() {
    let imports = vec![
        Import { path: "java.lang.String".to_string(), is_static: false, is_wildcard: false, source_line: None },
        Import { path: "no.such.Thing".to_string(), is_static: false, is_wildcard: false, source_line: None },
        Import { path: "other.Missing".to_string(), is_static: false, is_wildcard: false, source_line: None },
    ];
    match TypeResolver::for_class(None, &imports, "Main") {
        Err(LowerError::UnknownImport { name, line }) => {
            assert_eq!(name, "no.such.Thing");
            assert_eq!(line, 1);
        }
        _ => panic!("expected an unknown import"),
    }
    let fine = vec![Import { path: "java.lang".to_string(), is_static: false, is_wildcard: true, source_line: None }];
    assert!(TypeResolver::for_class(None, &fine, "Main").is_ok());
}
