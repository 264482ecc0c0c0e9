//! The fixed lookup tables and small helpers: the type catalog, default
//! values, type classes, escaping, and operator spellings.

use pando_transpiler::{
    escape_string_for_rust, get_default_value, get_type_mapping, is_bitwise_type, is_integer_type,
    is_numeric_type, BinaryOperator, Expression,
};

#[test]
fn catalog_maps_source_types_to_target_types() {
    assert_eq!(get_type_mapping("int"), Some("i32"));
    assert_eq!(get_type_mapping("int64"), Some("i64"));
    assert_eq!(get_type_mapping("uint_size"), Some("usize"));
    assert_eq!(get_type_mapping("float"), Some("f32"));
    assert_eq!(get_type_mapping("double"), Some("f64"));
    assert_eq!(get_type_mapping("str"), Some("&str"));
    assert_eq!(get_type_mapping("bytes"), Some("&[u8]"));
    assert_eq!(get_type_mapping("bytearray"), Some("Vec<u8>"));
    assert_eq!(get_type_mapping("None"), Some("()"));
    assert_eq!(get_type_mapping("foo"), None);
    assert_eq!(get_type_mapping(""), None);
}

#[test]
fn defaults_follow_the_type() {
    assert_eq!(get_default_value("int").as_str(), "0");
    assert_eq!(get_default_value("float").as_str(), "0.0f32");
    assert_eq!(get_default_value("bool").as_str(), "false");
    assert_eq!(get_default_value("char").as_str(), "'\\0'");
    assert_eq!(get_default_value("str").as_str(), "\"\"");
    assert_eq!(get_default_value("bytes").as_str(), "b\"\"");
    assert_eq!(get_default_value("bytearray").as_str(), "Vec::new()");
    assert_eq!(get_default_value("string").as_str(), "String::new()");
}

#[test]
fn type_classes_partition_the_catalog() {
    assert!(is_numeric_type("int"));
    assert!(is_numeric_type("double"));
    assert!(!is_numeric_type("str"));
    assert!(is_integer_type("uint8"));
    assert!(!is_integer_type("float"));
    assert!(is_bitwise_type("int128"));
    assert!(!is_bitwise_type("double"));
}

#[test]
fn escaping_doubles_the_special_characters() {
    assert_eq!(escape_string_for_rust("plain").as_str(), "plain");
    assert_eq!(escape_string_for_rust("a\"b").as_str(), "a\\\"b");
    assert_eq!(escape_string_for_rust("a\\b").as_str(), "a\\\\b");
    assert_eq!(escape_string_for_rust("a\nb\tc\rd").as_str(), "a\\nb\\tc\\rd");
}

#[test]
fn operator_spellings_and_lengths_agree() {
    assert_eq!(BinaryOperator::FloorDivide.as_str(), "//");
    assert_eq!(BinaryOperator::FloorDivide.len(), 2);
    assert_eq!(BinaryOperator::Add.as_str(), "+");
    assert_eq!(BinaryOperator::Add.len(), 1);
    assert_eq!(BinaryOperator::BitwiseXor.as_str(), "^");
}

#[test]
fn expressions_carry_their_resolved_type() {
    let e = Expression::Literal {
        value: "5".to_string(),
        expr_type: "int".to_string(),
    };
    assert_eq!(e.get_type(), "int");
}
