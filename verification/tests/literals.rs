//! Round trips of every literal category: each parses to the matching
//! type and regenerates an equivalent target token.

use pando_transpiler::{
    generate_expression, parse_expression, ErrorKind, Expression, SymbolTable,
};

fn parse_literal_ok(text: &str) -> (String, String) {
    let st = SymbolTable::new();
    let e = parse_expression(text, &st, 1, 1).unwrap();
    let generated = generate_expression(&e);
    match e {
        Expression::Literal { value, expr_type } => {
            assert_eq!(generated.as_str(), value.as_str());
            (value, expr_type)
        }
        _ => panic!("expected a literal for {text}"),
    }
}

#[test]
fn integer_literal_round_trip() {
    let (value, ty) = parse_literal_ok("5");
    assert_eq!(value.as_str(), "5");
    assert_eq!(ty.as_str(), "int");
}

#[test]
fn integer_literal_bounds() {
    let (_, ty) = parse_literal_ok("9223372036854775807");
    assert_eq!(ty.as_str(), "int");
    // one past the signed 64-bit range falls through to the float category
    let (_, ty) = parse_literal_ok("9223372036854775808");
    assert_eq!(ty.as_str(), "float");
}

#[test]
fn float_literal_round_trip() {
    let (value, ty) = parse_literal_ok("3.5");
    assert_eq!(value.as_str(), "3.5");
    assert_eq!(ty.as_str(), "float");
    let (_, ty) = parse_literal_ok("1e10");
    assert_eq!(ty.as_str(), "float");
    let (_, ty) = parse_literal_ok(".5");
    assert_eq!(ty.as_str(), "float");
    let (_, ty) = parse_literal_ok("inf");
    assert_eq!(ty.as_str(), "float");
}

#[test]
fn boolean_literal_round_trip() {
    let (value, ty) = parse_literal_ok("True");
    assert_eq!(value.as_str(), "true");
    assert_eq!(ty.as_str(), "bool");
    let (value, ty) = parse_literal_ok("False");
    assert_eq!(value.as_str(), "false");
    assert_eq!(ty.as_str(), "bool");
}

#[test]
fn null_literal_round_trip() {
    let (value, ty) = parse_literal_ok("None");
    assert_eq!(value.as_str(), "()");
    assert_eq!(ty.as_str(), "None");
}

#[test]
fn string_literal_round_trip() {
    let (value, ty) = parse_literal_ok("\"hi\"");
    assert_eq!(value.as_str(), "\"hi\"");
    assert_eq!(ty.as_str(), "str");
}

#[test]
fn string_literal_escapes_content() {
    let (value, _) = parse_literal_ok("\"a\tb\"");
    assert_eq!(value.as_str(), "\"a\\tb\"");
}

#[test]
fn character_literal_round_trip() {
    let (value, ty) = parse_literal_ok("'a'");
    assert_eq!(value.as_str(), "'a'");
    assert_eq!(ty.as_str(), "char");
}

#[test]
fn byte_string_literal_round_trip() {
    let (value, ty) = parse_literal_ok("b\"ab\"");
    assert_eq!(value.as_str(), "b\"ab\"");
    assert_eq!(ty.as_str(), "bytes");
}

#[test]
fn empty_buffer_literal_round_trip() {
    let (value, ty) = parse_literal_ok("Vec::new()");
    assert_eq!(value.as_str(), "Vec::new()");
    assert_eq!(ty.as_str(), "bytearray");
    let (value, ty) = parse_literal_ok("vec![]");
    assert_eq!(value.as_str(), "Vec::new()");
    assert_eq!(ty.as_str(), "bytearray");
}

#[test]
fn unknown_token_is_invalid_literal() {
    let st = SymbolTable::new();
    let e = parse_expression("@", &st, 1, 1).unwrap_err();
    assert_eq!(e.kind, ErrorKind::InvalidLiteral);
    assert_eq!(e.line, 1);
}
