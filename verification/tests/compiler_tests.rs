use rusty_javac::codegen::{gen_class_plan, Insn};
use rusty_javac::compiler::{Compiler, CompilerConfig};
use rusty_javac::parser::Parser;
use rusty_javac::tree_lowering::lower;

const AAA: &str = r#"public class AAA {
    public static void main(String[] args) {
        int a = 10;
        int b = 33;
        int aa = a + b;
        System.out.println("Hello" + aa);
    }
}
"#;

#[test]
fn compiles_and_runs_println_with_string_concat() {
    let compiler = Compiler::new(CompilerConfig::new());
    let (name, bytes) = compiler
        .compile_to_class(AAA, "AAA.java")
        .unwrap_or_else(|errors| panic!("{}", errors.join("\n")));
    assert_eq!(name, "AAA");
    assert_eq!(&bytes[0..4], &[0xCA, 0xFE, 0xBA, 0xBE]);
    // major version 65: Java 21
    assert_eq!(bytes[6], 0);
    assert_eq!(bytes[7], 65);
    let text = String::from_utf8_lossy(&bytes);
    assert!(text.contains("java/io/PrintStream"));
    assert!(text.contains("Hello"));
}

#[test]
fn compile_source_accepts_valid_source() {
    let compiler = Compiler::new(CompilerConfig::new());
    assert!(compiler.compile_source(AAA, "AAA.java").is_ok());
}

#[test]
fn compile_source_locates_parse_errors() {
    let compiler = Compiler::new(CompilerConfig::new());
    let errors = compiler
        .compile_source("class A { void f() { int x = 1 } }", "A.java")
        .unwrap_err();
    assert!(!errors.is_empty());
    for e in &errors {
        assert!(e.starts_with("A.java: "), "{}", e);
    }
}

#[test]
fn compile_refuses_two_top_level_classes() {
    let compiler = Compiler::new(CompilerConfig::new());
    let errors = compiler
        .compile_to_class("class A {} class B {}", "Two.java")
        .unwrap_err();
    assert_eq!(errors, vec!["Two.java: expected one top-level class".to_string()]);
}

#[test]
fn compile_refuses_fields() {
    let compiler = Compiler::new(CompilerConfig::new());
    let errors = compiler
        .compile_to_class("class A { int x; }", "A.java")
        .unwrap_err();
    assert_eq!(errors, vec!["A.java: unsupported class member".to_string()]);
}

#[test]
fn compile_names_a_packaged_class_by_its_internal_name() {
    let compiler = Compiler::new(CompilerConfig::new());
    let (name, bytes) = compiler
        .compile_to_class("package a.b; public class C { }", "C.java")
        .unwrap_or_else(|errors| panic!("{}", errors.join("\n")));
    assert_eq!(name, "a/b/C");
    assert_eq!(&bytes[0..4], &[0xCA, 0xFE, 0xBA, 0xBE]);
}

#[test]
fn config_defaults() {
    let config = CompilerConfig::new();
    assert!(config.source_files.is_empty());
    assert_eq!(config.output_dir, ".");
    let compiler = Compiler::new(config);
    assert_eq!(compiler.config_ref().output_dir, ".");
}

#[test]
fn string_concatenation_uses_a_string_builder() {
    let parse = Parser::parse(AAA);
    let unit = lower(&parse.events).unwrap();
    let plan = gen_class_plan(&unit).unwrap();
    // a default constructor is added before `main`
    assert_eq!(plan.methods.len(), 2);
    assert_eq!(plan.methods[0].name, "<init>");
    let main = &plan.methods[1];
    assert_eq!(main.name, "main");
    assert_eq!(main.descriptor, "([Ljava/lang/String;)V");
    let code = main.code.as_ref().unwrap();
    let calls: Vec<String> = code
        .iter()
        .filter_map(|i| match i {
            Insn::Method(_, owner, name, desc, _) => Some(format!("{owner}.{name}{desc}")),
            _ => None,
        })
        .collect();
    assert_eq!(
        calls,
        vec![
            "java/lang/StringBuilder.<init>()V".to_string(),
            "java/lang/StringBuilder.append(Ljava/lang/String;)Ljava/lang/StringBuilder;".to_string(),
            "java/lang/StringBuilder.append(I)Ljava/lang/StringBuilder;".to_string(),
            "java/lang/StringBuilder.toString()Ljava/lang/String;".to_string(),
            "java/io/PrintStream.println(Ljava/lang/String;)V".to_string(),
        ]
    );
    assert!(matches!(code.last(), Some(Insn::Op(177))));
}

#[test]
fn compile_source_accepts_a_source_without_tokens() {
    let compiler = Compiler::new(CompilerConfig::new());
    assert!(compiler.compile_source("  // nothing here\n", "Empty.java").is_ok());
}

#[test]
fn subtraction_evaluates_the_left_operand_first() {
    let source = "public class Sub {\n    static void main(String[] args) {\n        int a = 10;\n        int c = a - 7;\n    }\n}\n";
    let parse = Parser::parse(source);
    let unit = lower(&parse.events).unwrap();
    let plan = gen_class_plan(&unit).unwrap();
    let code = plan.methods[1].code.as_ref().unwrap();
    let pos = code.iter().position(|i| matches!(i, Insn::Op(100))).unwrap();
    assert!(pos >= 2);
    assert!(matches!(code[pos - 2], Insn::Var(21, _)));
    assert!(matches!(code[pos - 1], Insn::LdcInt(7)));
}
