use rusty_javac::parser::{Parse, Parser};

const HELLO_WORLD: &str = r#"public class HelloWorld {
    public static void main(String[] args) {
        System.out.println("Hello, World!");
    }
}
"#;

const BASIC_TYPES: &str = r#"public class BasicTypes {
    public static void main(String[] args) {
        int i = 42;
        long l = 42L;
        float f = 1.5f;
        double d = 2.5;
        boolean b = true;
        char c = 'x';
        byte by = 1;
        short s = 2;
        String str = "text";
        int[] arr = new int[10];
        int hex = 0xFF;
        int bin = 0b1010;
        long big = 1_000_000L;
    }
}
"#;

const CONTROL_FLOW: &str = r#"public class ControlFlow {
    static int run(int n) {
        int total = 0;
        for (int i = 0; i < n; i++) {
            if (i % 2 == 0) {
                total += i;
            } else {
                total -= 1;
            }
        }
        while (total > 100) {
            total = total / 2;
        }
        do {
            total++;
        } while (total < 10);
        switch (n) {
            case 1:
                total = 1;
                break;
            default:
                total = 0;
        }
        return total;
    }
}
"#;

const CLASSES: &str = r#"package demo;

import java.util.List;

public class Classes extends Object implements Runnable {
    private int count;
    protected static final String NAME = "classes";

    public Classes(int count) {
        this.count = count;
    }

    public void run() {
        count++;
    }

    int getCount() {
        return count;
    }

    static class Inner {
        int value;
    }
}
"#;

const JAVA21_FEATURES: &str = r#"public class Java21Features {
    record Point(int x, int y) {}

    sealed interface Shape permits Circle, Square {}

    static int size(int day) {
        var result = switch (day) {
            case 1 -> 0;
            case 7 -> 0;
            default -> 1;
        };
        return result;
    }
}
"#;

const EXPRESSIONS: &str = r#"public class Expressions {
    static int compute(int a, int b) {
        int c = a + b * 2 - (a - b) / 3 % 4;
        boolean d = a < b && b >= c || !(a == c);
        int e = d ? a : b;
        int f = a << 2 | b >> 1 & c ^ ~a;
        int g = (int) 3.5;
        int[] arr = new int[] {1, 2, 3};
        arr[0] += e;
        String s = "n=" + c;
        return c + e + f + g + arr[0] + s.length();
    }
}
"#;

fn assert_no_errors(parse: &Parse, file: &str) {
    if !parse.errors.is_empty() {
        let msgs: Vec<String> = parse
            .errors
            .iter()
            .map(|e| format!("  offset {}: {}", e.offset, e.message))
            .collect();
        panic!("parse errors in {}:\n{}", file, msgs.join("\n"));
    }
}

#[test]
fn parse_hello_world() {
    let parse = Parser::parse(HELLO_WORLD);
    assert_no_errors(&parse, "HelloWorld.java");
}

#[test]
fn parse_basic_types() {
    let parse = Parser::parse(BASIC_TYPES);
    assert_no_errors(&parse, "BasicTypes.java");
}

#[test]
fn parse_control_flow() {
    let parse = Parser::parse(CONTROL_FLOW);
    assert_no_errors(&parse, "ControlFlow.java");
}

#[test]
fn parse_classes() {
    let parse = Parser::parse(CLASSES);
    assert_no_errors(&parse, "Classes.java");
}

#[test]
fn parse_java21_features() {
    let parse = Parser::parse(JAVA21_FEATURES);
    assert_no_errors(&parse, "Java21Features.java");
}

#[test]
fn parse_expressions() {
    let parse = Parser::parse(EXPRESSIONS);
    assert_no_errors(&parse, "Expressions.java");
}

#[test]
fn parse_produces_green_tree() {
    let parse = Parser::parse(HELLO_WORLD);
    let text = parse.text();
    assert!(text.contains("Hello"), "green tree should contain source text");
    assert!(text.contains("World"), "green tree should contain source text");
}

#[test]
fn green_tree_text_is_the_source() {
    let parse = Parser::parse(HELLO_WORLD);
    let trimmed = HELLO_WORLD.trim_end();
    assert_eq!(parse.consumed, trimmed.chars().count());
    assert_eq!(parse.text(), HELLO_WORLD);
}

#[test]
fn tokens_the_grammar_leaves_stay_in_the_tree() {
    let source = "class A {} ) stray /* note */ \n";
    let parse = Parser::parse(source);
    assert_eq!(parse.text(), source);
    assert_eq!(parse.consumed, "class A {}".chars().count());
}

#[test]
fn parse_reports_missing_semicolon() {
    let parse = Parser::parse("class A { void f() { int x = 1 } }");
    assert!(!parse.errors.is_empty());
}

#[test]
fn parse_of_empty_source_is_an_empty_unit() {
    let parse = Parser::parse("");
    assert!(parse.errors.is_empty());
    assert_eq!(parse.text(), "");
}
