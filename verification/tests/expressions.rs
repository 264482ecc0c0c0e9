//! Expression parsing: the inverted precedence tiers, operator type
//! rules, unary operators, parentheses, and compound assignments.

use pando_transpiler::{
    generate_expression, parse_expression, BinaryOperator, ErrorKind, Expression, SymbolTable,
    UnaryOperator,
};

#[test]
fn bitwise_or_is_outermost() {
    let st = SymbolTable::new();
    let e = parse_expression("1 | 2 + 3", &st, 1, 1).unwrap();
    assert_eq!(generate_expression(&e).as_str(), "(1 | (2 + 3))");
    match e {
        Expression::BinaryOp { op, left, right, .. } => {
            assert_eq!(op, BinaryOperator::BitwiseOr);
            assert!(matches!(*left, Expression::Literal { .. }));
            match *right {
                Expression::BinaryOp { op: inner, .. } => {
                    assert_eq!(inner, BinaryOperator::Add);
                }
                _ => panic!("expected the additive node inside"),
            }
        }
        _ => panic!("expected the bitwise node outermost"),
    }
}

#[test]
fn xor_binds_looser_than_and() {
    let st = SymbolTable::new();
    let e = parse_expression("1 ^ 2 & 3", &st, 1, 1).unwrap();
    assert_eq!(generate_expression(&e).as_str(), "(1 ^ (2 & 3))");
}

#[test]
fn additive_binds_looser_than_multiplicative() {
    let st = SymbolTable::new();
    let e = parse_expression("1 + 2 * 3", &st, 1, 1).unwrap();
    assert_eq!(generate_expression(&e).as_str(), "(1 + (2 * 3))");
}

#[test]
fn parentheses_group_subexpressions() {
    let st = SymbolTable::new();
    let e = parse_expression("(1 + 2) * 3", &st, 1, 1).unwrap();
    assert_eq!(generate_expression(&e).as_str(), "((1 + 2) * 3)");
}

#[test]
fn floor_division_parses_and_lowers() {
    let st = SymbolTable::new();
    let e = parse_expression("7 // 2", &st, 1, 1).unwrap();
    match &e {
        Expression::BinaryOp { op, .. } => assert_eq!(*op, BinaryOperator::FloorDivide),
        _ => panic!("expected a binary node"),
    }
    assert_eq!(generate_expression(&e).as_str(), "(7 / 2)");
}

#[test]
fn bitwise_not_needs_integer_operand() {
    let st = SymbolTable::new();
    let e = parse_expression("~5", &st, 1, 1).unwrap();
    match &e {
        Expression::UnaryOp { op, .. } => assert_eq!(*op, UnaryOperator::BitwiseNot),
        _ => panic!("expected a unary node"),
    }
    let e = parse_expression("~3.5", &st, 1, 1).unwrap_err();
    assert_eq!(e.kind, ErrorKind::OperatorNotValidForType);
}

#[test]
fn leading_minus_is_consumed_by_the_binary_scan() {
    // the top-level scan takes a leading minus as a binary operator with
    // an empty left side, so a bare negative literal never parses
    let st = SymbolTable::new();
    let e = parse_expression("-5", &st, 1, 1).unwrap_err();
    assert_eq!(e.kind, ErrorKind::InvalidLiteral);
}

#[test]
fn arithmetic_on_text_is_rejected() {
    let st = SymbolTable::new();
    let e = parse_expression("\"a\" + \"b\"", &st, 1, 1).unwrap_err();
    assert_eq!(e.kind, ErrorKind::OperatorNotValidForType);
}

#[test]
fn mixed_operand_types_are_rejected() {
    let st = SymbolTable::new();
    let e = parse_expression("1 + 2.5", &st, 1, 1).unwrap_err();
    assert_eq!(e.kind, ErrorKind::TypeMismatch);
}

#[test]
fn variables_resolve_against_the_table() {
    let mut st = SymbolTable::new();
    st.insert("a", "int");
    let e = parse_expression("a + 1", &st, 1, 1).unwrap();
    match &e {
        Expression::BinaryOp { left, expr_type, .. } => {
            assert_eq!(expr_type.as_str(), "int");
            match &**left {
                Expression::Variable { name, expr_type } => {
                    assert_eq!(name.as_str(), "a");
                    assert_eq!(expr_type.as_str(), "int");
                }
                _ => panic!("expected a variable node"),
            }
        }
        _ => panic!("expected a binary node"),
    }
}

#[test]
fn compound_assignment_parses_as_compound_node() {
    let mut st = SymbolTable::new();
    st.insert("x", "int");
    let e = parse_expression("x += 3", &st, 1, 1).unwrap();
    match e {
        Expression::CompoundAssign { name, op, expr_type, .. } => {
            assert_eq!(name.as_str(), "x");
            assert_eq!(op, BinaryOperator::Add);
            assert_eq!(expr_type.as_str(), "int");
        }
        _ => panic!("expected a compound-assignment node"),
    }
}

#[test]
fn floor_divide_compound_beats_its_prefix() {
    // the longer spelling must win over the plain-division spelling that
    // starts one character later
    let mut st = SymbolTable::new();
    st.insert("x", "int");
    let e = parse_expression("x //= 2", &st, 1, 1).unwrap();
    match e {
        Expression::CompoundAssign { name, op, .. } => {
            assert_eq!(name.as_str(), "x");
            assert_eq!(op, BinaryOperator::FloorDivide);
        }
        _ => panic!("expected a compound-assignment node"),
    }
}

#[test]
fn undeclared_name_in_expression_position() {
    let st = SymbolTable::new();
    let e = parse_expression("y", &st, 1, 1).unwrap_err();
    assert_eq!(e.kind, ErrorKind::UndeclaredVariable);
    assert_eq!(e.column, 1);
    let e = parse_expression("1 + y", &st, 1, 1).unwrap_err();
    assert_eq!(e.kind, ErrorKind::UndeclaredVariable);
    assert_eq!(e.column, 5);
}

#[test]
fn name_shaped_tokens_are_references_and_others_are_literals() {
    let st = SymbolTable::new();
    // alphabetic-initial token that matches no literal form: a reference
    let e = parse_expression("count", &st, 1, 1).unwrap_err();
    assert_eq!(e.kind, ErrorKind::UndeclaredVariable);
    // non-name token that matches no literal form: an invalid literal
    let e = parse_expression("12ab", &st, 1, 1).unwrap_err();
    assert_eq!(e.kind, ErrorKind::InvalidLiteral);
}

#[test]
fn compound_on_undeclared_name_fails_at_its_column() {
    let st = SymbolTable::new();
    let e = parse_expression("x += 3", &st, 1, 1).unwrap_err();
    assert_eq!(e.kind, ErrorKind::UndeclaredVariable);
    assert_eq!(e.column, 1);
}

#[test]
fn compound_type_mismatch_is_rejected() {
    let mut st = SymbolTable::new();
    st.insert("x", "int");
    let e = parse_expression("x += 2.5", &st, 1, 1).unwrap_err();
    assert_eq!(e.kind, ErrorKind::TypeMismatch);
}
