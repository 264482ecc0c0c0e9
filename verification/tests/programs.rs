//! Whole-program translation: the entry block, ordering, compound
//! assignments, preserved blank and comment lines, and fail-fast errors.

use pando_transpiler::{transpile, ErrorKind};

fn lines_of(texts: &[&str]) -> Vec<String> {
    texts.iter().map(|t| t.to_string()).collect()
}

#[test]
fn end_to_end_program() {
    let lines = lines_of(&["n: int = 10", "print(\"done\")"]);
    let out = transpile(&lines).unwrap();
    assert_eq!(
        out.as_str(),
        "fn main() {\n    let mut n: i32 = 10;\n    println!(\"done\");\n}"
    );
}

#[test]
fn compound_assignment_stays_one_line() {
    let lines = lines_of(&["x: int = 5", "x += 3"]);
    let out = transpile(&lines).unwrap();
    assert_eq!(
        out.as_str(),
        "fn main() {\n    let mut x: i32 = 5;\n    x += 3;\n}"
    );
    assert!(!out.contains("x = x + 3"));
}

#[test]
fn floor_divide_compound_lowers_to_division() {
    let lines = lines_of(&["x: int = 9", "x //= 2"]);
    let out = transpile(&lines).unwrap();
    assert!(out.contains("    x /= 2;\n"));
}

#[test]
fn blank_lines_stay_blank_and_comments_keep_indent() {
    let lines = lines_of(&["a: int = 1", "", "   # note", "print(\"x\")"]);
    let out = transpile(&lines).unwrap();
    assert_eq!(
        out.as_str(),
        "fn main() {\n    let mut a: i32 = 1;\n\n       // note\n    println!(\"x\");\n}"
    );
}

#[test]
fn statement_order_is_preserved() {
    let lines = lines_of(&["a: int = 1", "b: int = 2", "a = a + b", "print(\"ok\")"]);
    let out = transpile(&lines).unwrap();
    let a = out.find("let mut a").unwrap();
    let b = out.find("let mut b").unwrap();
    let c = out.find("a = (a + b);").unwrap();
    let d = out.find("println!").unwrap();
    assert!(a < b && b < c && c < d);
}

#[test]
fn first_failure_aborts_with_its_line() {
    let lines = lines_of(&["a: int = 1", "b: foo = 2", "c: int = 3"]);
    let e = transpile(&lines).unwrap_err();
    assert_eq!(e.kind, ErrorKind::UnknownType);
    assert_eq!(e.line, 2);
}

#[test]
fn a_program_without_statements_is_rejected() {
    let lines = lines_of(&["# only a comment", ""]);
    let e = transpile(&lines).unwrap_err();
    assert_eq!(e.kind, ErrorKind::Syntax);
    assert_eq!(e.line, 1);
    assert_eq!(e.column, 1);
}

#[test]
fn an_assignment_alone_is_not_executable() {
    // assignments alone do not count as runnable statements
    let lines = lines_of(&["x: int", "x = 1"]);
    let out = transpile(&lines).unwrap();
    assert!(out.contains("let mut x: i32 = 0;"));
    let only = lines_of(&["# nothing"]);
    assert!(transpile(&only).is_err());
}

#[test]
fn bytes_initializer_converts_for_buffers() {
    let lines = lines_of(&["b: bytes = b\"ab\""]);
    let out = transpile(&lines).unwrap();
    assert!(out.contains("let mut b: &[u8] = b\"ab\";"));
}

#[test]
fn every_statement_indents_inside_the_entry_block() {
    let lines = lines_of(&["  x: int = 1", "  print(\"y\")"]);
    let out = transpile(&lines).unwrap();
    assert!(out.contains("\n      let mut x: i32 = 1;\n"));
    assert!(out.contains("\n      println!(\"y\");\n"));
}
