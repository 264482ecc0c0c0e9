//! Line classification: splitting code from comments, the five statement
//! kinds, the error for each failure kind, and exact error columns.

use pando_transpiler::{
    generate_rust_line, parse_line, split_code_and_comment, ErrorKind, ParsedLine, SymbolTable,
};

#[test]
fn splits_code_from_comment() {
    let (code, comment) = split_code_and_comment("x = 1 # note");
    assert_eq!(code.as_str(), "x = 1 ");
    assert_eq!(comment.as_deref(), Some(" note"));
}

#[test]
fn hash_inside_quotes_is_code() {
    let (code, comment) = split_code_and_comment("print(\"#\")");
    assert_eq!(code.as_str(), "print(\"#\")");
    assert!(comment.is_none());
}

#[test]
fn escaped_hash_is_code() {
    let (code, comment) = split_code_and_comment("a\\#b");
    assert_eq!(code.as_str(), "a\\#b");
    assert!(comment.is_none());
}

#[test]
fn missing_marker_means_no_comment() {
    let (_, comment) = split_code_and_comment("x = 1");
    assert!(comment.is_none());
}

#[test]
fn blank_line_parses_to_empty() {
    let mut st = SymbolTable::new();
    let pl = parse_line("", 1, &mut st).unwrap();
    assert!(matches!(pl, ParsedLine::Empty));
    assert_eq!(generate_rust_line(&pl).as_str(), "");
}

#[test]
fn comment_only_line_keeps_indent() {
    let mut st = SymbolTable::new();
    let pl = parse_line("   # hello", 1, &mut st).unwrap();
    match &pl {
        ParsedLine::Comment { content, indent } => {
            assert_eq!(*indent, 3);
            assert_eq!(content.as_str(), "// hello");
        }
        _ => panic!("expected a comment line"),
    }
    assert_eq!(generate_rust_line(&pl).as_str(), "   // hello");
}

#[test]
fn bare_marker_renders_bare() {
    let mut st = SymbolTable::new();
    let pl = parse_line("  #", 1, &mut st).unwrap();
    match &pl {
        ParsedLine::Comment { content, indent } => {
            assert_eq!(*indent, 2);
            assert_eq!(content.as_str(), "//");
        }
        _ => panic!("expected a comment line"),
    }
}

#[test]
fn declaration_records_the_type() {
    let mut st = SymbolTable::new();
    let pl = parse_line("x: int = 5", 1, &mut st).unwrap();
    match &pl {
        ParsedLine::VariableDecl { name, ty_name, value, .. } => {
            assert_eq!(name.as_str(), "x");
            assert_eq!(ty_name.as_str(), "int");
            assert!(value.is_some());
        }
        _ => panic!("expected a declaration"),
    }
    assert_eq!(st.get("x").map(|t| t.as_str()), Some("int"));
    assert_eq!(generate_rust_line(&pl).as_str(), "let mut x: i32 = 5;");
}

#[test]
fn declaration_without_initializer_uses_the_default() {
    let mut st = SymbolTable::new();
    let pl = parse_line("b: bool", 1, &mut st).unwrap();
    assert_eq!(generate_rust_line(&pl).as_str(), "let mut b: bool = false;");
    let pl = parse_line("s: string", 2, &mut st).unwrap();
    assert_eq!(generate_rust_line(&pl).as_str(), "let mut s: String = String::new();");
    let pl = parse_line("d: double", 3, &mut st).unwrap();
    assert_eq!(generate_rust_line(&pl).as_str(), "let mut d: f64 = 0.0f64;");
}

#[test]
fn declaration_is_visible_to_its_own_initializer() {
    // the name is recorded before the initializer is parsed
    let mut st = SymbolTable::new();
    let pl = parse_line("x: int = x", 1, &mut st).unwrap();
    assert_eq!(generate_rust_line(&pl).as_str(), "let mut x: i32 = x;");
}

#[test]
fn redeclaration_overwrites_the_type() {
    let mut st = SymbolTable::new();
    parse_line("x: int = 1", 1, &mut st).unwrap();
    parse_line("x: str = \"a\"", 2, &mut st).unwrap();
    assert_eq!(st.get("x").map(|t| t.as_str()), Some("str"));
    let pl = parse_line("x = \"b\"", 3, &mut st).unwrap();
    assert!(matches!(pl, ParsedLine::VariableAssign { .. }));
}

#[test]
fn unknown_type_is_rejected_at_the_type_column() {
    let mut st = SymbolTable::new();
    let e = parse_line("x: foo = 1", 1, &mut st).unwrap_err();
    assert_eq!(e.kind, ErrorKind::UnknownType);
    assert_eq!(e.line, 1);
    assert_eq!(e.column, 4);
}

#[test]
fn declaration_initializer_must_match_the_type() {
    let mut st = SymbolTable::new();
    let e = parse_line("x: int = 3.5", 1, &mut st).unwrap_err();
    assert_eq!(e.kind, ErrorKind::TypeMismatch);
    assert_eq!(e.column, 10);
}

#[test]
fn assignment_must_match_the_declared_type() {
    let mut st = SymbolTable::new();
    parse_line("x: int = 1", 1, &mut st).unwrap();
    let e = parse_line("x = \"a\"", 2, &mut st).unwrap_err();
    assert_eq!(e.kind, ErrorKind::TypeMismatch);
    assert_eq!(e.line, 2);
    assert_eq!(e.column, 5);
}

#[test]
fn undeclared_assignment_fails_at_the_name_column() {
    let mut st = SymbolTable::new();
    let e = parse_line("y = 5", 1, &mut st).unwrap_err();
    assert_eq!(e.kind, ErrorKind::UndeclaredVariable);
    assert_eq!(e.column, 1);
    let e = parse_line("  y = 5", 2, &mut st).unwrap_err();
    assert_eq!(e.kind, ErrorKind::UndeclaredVariable);
    assert_eq!(e.column, 3);
}

#[test]
fn undeclared_name_in_assignment_value() {
    let mut st = SymbolTable::new();
    parse_line("x: int", 1, &mut st).unwrap();
    let e = parse_line("x = y", 2, &mut st).unwrap_err();
    assert_eq!(e.kind, ErrorKind::UndeclaredVariable);
    assert_eq!(e.line, 2);
    assert_eq!(e.column, 5);
}

#[test]
fn undeclared_compound_fails_at_the_name_column() {
    let mut st = SymbolTable::new();
    let e = parse_line("  z += 1", 1, &mut st).unwrap_err();
    assert_eq!(e.kind, ErrorKind::UndeclaredVariable);
    assert_eq!(e.column, 3);
}

#[test]
fn missing_name_is_a_syntax_failure() {
    let mut st = SymbolTable::new();
    let e = parse_line(": int", 1, &mut st).unwrap_err();
    assert_eq!(e.kind, ErrorKind::Syntax);
    assert_eq!(e.column, 1);
}

#[test]
fn name_must_start_alphabetic() {
    let mut st = SymbolTable::new();
    let e = parse_line("1x: int", 1, &mut st).unwrap_err();
    assert_eq!(e.kind, ErrorKind::Syntax);
}

#[test]
fn print_without_parentheses_is_rejected() {
    let mut st = SymbolTable::new();
    let e = parse_line("print \"hi\"", 1, &mut st).unwrap_err();
    assert_eq!(e.kind, ErrorKind::Syntax);
    assert_eq!(e.column, 1);
}

#[test]
fn print_argument_must_be_a_string() {
    let mut st = SymbolTable::new();
    let e = parse_line("print(5)", 1, &mut st).unwrap_err();
    assert_eq!(e.kind, ErrorKind::Syntax);
    assert_eq!(e.column, 7);
}

#[test]
fn print_renders_a_formatted_output_call() {
    let mut st = SymbolTable::new();
    let pl = parse_line("print(\"hi\") # note", 1, &mut st).unwrap();
    match &pl {
        ParsedLine::Print { content, comment, indent } => {
            assert_eq!(content.as_str(), "hi");
            assert_eq!(comment.as_deref(), Some("note"));
            assert_eq!(*indent, 0);
        }
        _ => panic!("expected a print statement"),
    }
    assert_eq!(generate_rust_line(&pl).as_str(), "println!(\"hi\"); // note");
}

#[test]
fn unrecognized_line_fails_at_column_one() {
    let mut st = SymbolTable::new();
    let e = parse_line("what!", 1, &mut st).unwrap_err();
    assert_eq!(e.kind, ErrorKind::Syntax);
    assert_eq!(e.line, 1);
    assert_eq!(e.column, 1);
}
