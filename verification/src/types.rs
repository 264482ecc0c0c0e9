//! The data model of the translation: expression and statement trees with
//! their mathematical models, the fixed type catalog, per-type default
//! values, and string escaping for the generated code.

use crate::text::range_eq_str;
use crate::text::chars_of;
use vstd::prelude::*;
use vstd::string::StringExecFns;

verus! {

#[derive(Clone, Copy, PartialEq, Eq, Structural, Debug)]
pub enum BinaryOperator {
    Add,
    Subtract,
    Multiply,
    Divide,
    FloorDivide,
    Modulo,
    BitwiseOr,
    BitwiseAnd,
    BitwiseXor,
}

#[derive(Clone, Copy, PartialEq, Eq, Structural, Debug)]
pub enum UnaryOperator {
    Negate,
    BitwiseNot,
}

/// The source spelling of a binary operator.
pub open spec fn op_spelling(op: BinaryOperator) -> Seq<char> {
    match op {
        BinaryOperator::Add => "+"@,
        BinaryOperator::Subtract => "-"@,
        BinaryOperator::Multiply => "*"@,
        BinaryOperator::Divide => "/"@,
        BinaryOperator::FloorDivide => "//"@,
        BinaryOperator::Modulo => "%"@,
        BinaryOperator::BitwiseOr => "|"@,
        BinaryOperator::BitwiseAnd => "&"@,
        BinaryOperator::BitwiseXor => "^"@,
    }
}

/// The number of characters in a binary operator's spelling.
pub open spec fn op_len(op: BinaryOperator) -> int {
    match op {
        BinaryOperator::FloorDivide => 2,
        _ => 1,
    }
}

impl BinaryOperator {
    pub fn as_str(&self) -> (r: &'static str)
        ensures
            r@ == op_spelling(*self),
    {
        match self {
            BinaryOperator::Add => "+",
            BinaryOperator::Subtract => "-",
            BinaryOperator::Multiply => "*",
            BinaryOperator::Divide => "/",
            BinaryOperator::FloorDivide => "//",
            BinaryOperator::Modulo => "%",
            BinaryOperator::BitwiseOr => "|",
            BinaryOperator::BitwiseAnd => "&",
            BinaryOperator::BitwiseXor => "^",
        }
    }

    pub fn len(&self) -> (r: usize)
        ensures
            r == op_len(*self),
    {
        match self {
            BinaryOperator::FloorDivide => 2,
            _ => 1,
        }
    }
}

/// A typed expression tree. Every node carries its statically resolved
/// type name; construction fails rather than producing an untyped node.
#[derive(Debug)]
pub enum Expression {
    Literal { value: String, expr_type: String },
    Variable { name: String, expr_type: String },
    BinaryOp { left: Box<Expression>, op: BinaryOperator, right: Box<Expression>, expr_type: String },
    UnaryOp { op: UnaryOperator, expr: Box<Expression>, expr_type: String },
    CompoundAssign { name: String, op: BinaryOperator, value: Box<Expression>, expr_type: String },
}

/// The mathematical shape of an expression tree.
pub enum SpecExpr {
    Literal { value: Seq<char>, typ: Seq<char> },
    Variable { name: Seq<char>, typ: Seq<char> },
    BinaryOp { left: Box<SpecExpr>, op: BinaryOperator, right: Box<SpecExpr>, typ: Seq<char> },
    UnaryOp { op: UnaryOperator, arg: Box<SpecExpr>, typ: Seq<char> },
    CompoundAssign { name: Seq<char>, op: BinaryOperator, value: Box<SpecExpr>, typ: Seq<char> },
}

pub open spec fn expr_model(e: Expression) -> SpecExpr
    decreases e,
{
    match e {
        Expression::Literal { value, expr_type } => SpecExpr::Literal {
            value: value@,
            typ: expr_type@,
        },
        Expression::Variable { name, expr_type } => SpecExpr::Variable {
            name: name@,
            typ: expr_type@,
        },
        Expression::BinaryOp { left, op, right, expr_type } => SpecExpr::BinaryOp {
            left: Box::new(expr_model(*left)),
            op,
            right: Box::new(expr_model(*right)),
            typ: expr_type@,
        },
        Expression::UnaryOp { op, expr, expr_type } => SpecExpr::UnaryOp {
            op,
            arg: Box::new(expr_model(*expr)),
            typ: expr_type@,
        },
        Expression::CompoundAssign { name, op, value, expr_type } => SpecExpr::CompoundAssign {
            name: name@,
            op,
            value: Box::new(expr_model(*value)),
            typ: expr_type@,
        },
    }
}

/// The statically resolved type name of an expression.
pub open spec fn spec_type_of(e: SpecExpr) -> Seq<char> {
    match e {
        SpecExpr::Literal { typ, .. } => typ,
        SpecExpr::Variable { typ, .. } => typ,
        SpecExpr::BinaryOp { typ, .. } => typ,
        SpecExpr::UnaryOp { typ, .. } => typ,
        SpecExpr::CompoundAssign { typ, .. } => typ,
    }
}

impl Expression {
    pub fn get_type(&self) -> (r: &str)
        ensures
            r@ == spec_type_of(expr_model(*self)),
    {
        match self {
            Expression::Literal { expr_type, .. } => expr_type.as_str(),
            Expression::Variable { expr_type, .. } => expr_type.as_str(),
            Expression::BinaryOp { expr_type, .. } => expr_type.as_str(),
            Expression::UnaryOp { expr_type, .. } => expr_type.as_str(),
            Expression::CompoundAssign { expr_type, .. } => expr_type.as_str(),
        }
    }
}

/// One classified input line.
#[derive(Debug)]
pub enum ParsedLine {
    Print { content: String, comment: Option<String>, indent: usize },
    VariableDecl {
        name: String,
        ty_name: String,
        value: Option<Expression>,
        comment: Option<String>,
        indent: usize,
    },
    VariableAssign { name: String, value: Expression, comment: Option<String>, indent: usize },
    Comment { content: String, indent: usize },
    Empty,
}

/// The mathematical shape of a classified input line.
pub enum SpecLine {
    Print { content: Seq<char>, comment: Option<Seq<char>>, indent: int },
    VariableDecl {
        name: Seq<char>,
        ty_name: Seq<char>,
        value: Option<SpecExpr>,
        comment: Option<Seq<char>>,
        indent: int,
    },
    VariableAssign { name: Seq<char>, value: SpecExpr, comment: Option<Seq<char>>, indent: int },
    Comment { content: Seq<char>, indent: int },
    Empty,
}

pub open spec fn opt_str_model(o: Option<String>) -> Option<Seq<char>> {
    match o {
        Some(s) => Some(s@),
        None => None,
    }
}

pub open spec fn line_model(p: ParsedLine) -> SpecLine {
    match p {
        ParsedLine::Print { content, comment, indent } => SpecLine::Print {
            content: content@,
            comment: opt_str_model(comment),
            indent: indent as int,
        },
        ParsedLine::VariableDecl { name, ty_name, value, comment, indent } => SpecLine::VariableDecl {
            name: name@,
            ty_name: ty_name@,
            value: match value {
                Some(e) => Some(expr_model(e)),
                None => None,
            },
            comment: opt_str_model(comment),
            indent: indent as int,
        },
        ParsedLine::VariableAssign { name, value, comment, indent } => SpecLine::VariableAssign {
            name: name@,
            value: expr_model(value),
            comment: opt_str_model(comment),
            indent: indent as int,
        },
        ParsedLine::Comment { content, indent } => SpecLine::Comment {
            content: content@,
            indent: indent as int,
        },
        ParsedLine::Empty => SpecLine::Empty,
    }
}

/// The fixed, closed type catalog: source type name to target type name.
pub open spec fn type_mapping_spec(t: Seq<char>) -> Option<Seq<char>> {
    if t == "int"@ {
        Some("i32"@)
    } else if t == "int8"@ {
        Some("i8"@)
    } else if t == "int16"@ {
        Some("i16"@)
    } else if t == "int32"@ {
        Some("i32"@)
    } else if t == "int64"@ {
        Some("i64"@)
    } else if t == "int128"@ {
        Some("i128"@)
    } else if t == "int_size"@ {
        Some("isize"@)
    } else if t == "uint8"@ {
        Some("u8"@)
    } else if t == "uint16"@ {
        Some("u16"@)
    } else if t == "uint32"@ {
        Some("u32"@)
    } else if t == "uint64"@ {
        Some("u64"@)
    } else if t == "uint128"@ {
        Some("u128"@)
    } else if t == "uint_size"@ {
        Some("usize"@)
    } else if t == "float"@ {
        Some("f32"@)
    } else if t == "double"@ {
        Some("f64"@)
    } else if t == "bool"@ {
        Some("bool"@)
    } else if t == "char"@ {
        Some("char"@)
    } else if t == "str"@ {
        Some("&str"@)
    } else if t == "None"@ {
        Some("()"@)
    } else if t == "bytes"@ {
        Some("&[u8]"@)
    } else if t == "bytearray"@ {
        Some("Vec<u8>"@)
    } else if t == "string"@ {
        Some("String"@)
    } else {
        None
    }
}

/// The type names whose values support the arithmetic operators.
pub open spec fn is_numeric_ty(t: Seq<char>) -> bool {
    ||| t == "int"@
    ||| t == "int8"@
    ||| t == "int16"@
    ||| t == "int32"@
    ||| t == "int64"@
    ||| t == "int128"@
    ||| t == "int_size"@
    ||| t == "uint8"@
    ||| t == "uint16"@
    ||| t == "uint32"@
    ||| t == "uint64"@
    ||| t == "uint128"@
    ||| t == "uint_size"@
    ||| t == "float"@
    ||| t == "double"@
}

/// The type names whose values support integer-only operators.
pub open spec fn is_integer_ty(t: Seq<char>) -> bool {
    ||| t == "int"@
    ||| t == "int8"@
    ||| t == "int16"@
    ||| t == "int32"@
    ||| t == "int64"@
    ||| t == "int128"@
    ||| t == "int_size"@
    ||| t == "uint8"@
    ||| t == "uint16"@
    ||| t == "uint32"@
    ||| t == "uint64"@
    ||| t == "uint128"@
    ||| t == "uint_size"@
}

/// The default initializer text emitted for each type of the catalog.
pub open spec fn default_value_spec(t: Seq<char>) -> Seq<char> {
    if is_integer_ty(t) {
        "0"@
    } else if t == "float"@ {
        "0.0f32"@
    } else if t == "double"@ {
        "0.0f64"@
    } else if t == "bool"@ {
        "false"@
    } else if t == "char"@ {
        "'\\0'"@
    } else if t == "str"@ {
        "\"\""@
    } else if t == "None"@ {
        "()"@
    } else if t == "bytes"@ {
        "b\"\""@
    } else if t == "bytearray"@ {
        "Vec::new()"@
    } else if t == "string"@ {
        "String::new()"@
    } else {
        "0"@
    }
}

/// Looks the characters `v[lo..hi]` up in the type catalog.
pub(crate) fn map_type_range(v: &Vec<char>, lo: usize, hi: usize) -> (r: Option<&'static str>)
    requires
        lo <= hi <= v@.len(),
    ensures
        ({
            let t = v@.subrange(lo as int, hi as int);
            match r {
                Some(u) => type_mapping_spec(t) == Some(u@),
                None => type_mapping_spec(t) is None,
            }
        }),
{
    proof {
        reveal_strlit("int");
        reveal_strlit("int8");
        reveal_strlit("int16");
        reveal_strlit("int32");
        reveal_strlit("int64");
        reveal_strlit("int128");
        reveal_strlit("int_size");
        reveal_strlit("uint8");
        reveal_strlit("uint16");
        reveal_strlit("uint32");
        reveal_strlit("uint64");
        reveal_strlit("uint128");
        reveal_strlit("uint_size");
        reveal_strlit("float");
        reveal_strlit("double");
        reveal_strlit("bool");
        reveal_strlit("char");
        reveal_strlit("str");
        reveal_strlit("None");
        reveal_strlit("bytes");
        reveal_strlit("bytearray");
        reveal_strlit("string");
    }
    if range_eq_str(v, lo, hi, "int") {
        return Some("i32");
    }
    if range_eq_str(v, lo, hi, "int8") {
        return Some("i8");
    }
    if range_eq_str(v, lo, hi, "int16") {
        return Some("i16");
    }
    if range_eq_str(v, lo, hi, "int32") {
        return Some("i32");
    }
    if range_eq_str(v, lo, hi, "int64") {
        return Some("i64");
    }
    if range_eq_str(v, lo, hi, "int128") {
        return Some("i128");
    }
    if range_eq_str(v, lo, hi, "int_size") {
        return Some("isize");
    }
    if range_eq_str(v, lo, hi, "uint8") {
        return Some("u8");
    }
    if range_eq_str(v, lo, hi, "uint16") {
        return Some("u16");
    }
    if range_eq_str(v, lo, hi, "uint32") {
        return Some("u32");
    }
    if range_eq_str(v, lo, hi, "uint64") {
        return Some("u64");
    }
    if range_eq_str(v, lo, hi, "uint128") {
        return Some("u128");
    }
    if range_eq_str(v, lo, hi, "uint_size") {
        return Some("usize");
    }
    if range_eq_str(v, lo, hi, "float") {
        return Some("f32");
    }
    if range_eq_str(v, lo, hi, "double") {
        return Some("f64");
    }
    if range_eq_str(v, lo, hi, "bool") {
        return Some("bool");
    }
    if range_eq_str(v, lo, hi, "char") {
        return Some("char");
    }
    if range_eq_str(v, lo, hi, "str") {
        return Some("&str");
    }
    if range_eq_str(v, lo, hi, "None") {
        return Some("()");
    }
    if range_eq_str(v, lo, hi, "bytes") {
        return Some("&[u8]");
    }
    if range_eq_str(v, lo, hi, "bytearray") {
        return Some("Vec<u8>");
    }
    if range_eq_str(v, lo, hi, "string") {
        return Some("String");
    }
    None
}

/// The target type name for a source type name, or `None` when the name is
/// outside the catalog.
pub fn get_type_mapping(ty_name: &str) -> (r: Option<&'static str>)
    ensures
        match r {
            Some(u) => type_mapping_spec(ty_name@) == Some(u@),
            None => type_mapping_spec(ty_name@) is None,
        },
{
    let v = chars_of(ty_name);
    let hi = v.len();
    proof {
        assert(v@.subrange(0, hi as int) =~= ty_name@);
    }
    map_type_range(&v, 0, hi)
}

/// The default initializer text for a declared type without an initializer.
pub fn get_default_value(ty_name: &str) -> (r: String)
    ensures
        r@ == default_value_spec(ty_name@),
{
    if is_integer_type(ty_name) {
        return String::from_str("0");
    }
    let v = chars_of(ty_name);
    let hi = v.len();
    proof {
        assert(v@.subrange(0, hi as int) =~= ty_name@);
    }
    if range_eq_str(&v, 0, hi, "float") {
        return String::from_str("0.0f32");
    }
    if range_eq_str(&v, 0, hi, "double") {
        return String::from_str("0.0f64");
    }
    if range_eq_str(&v, 0, hi, "bool") {
        return String::from_str("false");
    }
    if range_eq_str(&v, 0, hi, "char") {
        return String::from_str("'\\0'");
    }
    if range_eq_str(&v, 0, hi, "str") {
        return String::from_str("\"\"");
    }
    if range_eq_str(&v, 0, hi, "None") {
        return String::from_str("()");
    }
    if range_eq_str(&v, 0, hi, "bytes") {
        return String::from_str("b\"\"");
    }
    if range_eq_str(&v, 0, hi, "bytearray") {
        return String::from_str("Vec::new()");
    }
    if range_eq_str(&v, 0, hi, "string") {
        return String::from_str("String::new()");
    }
    String::from_str("0")
}

/// Whether the type name supports the arithmetic operators.
pub fn is_numeric_type(ty_name: &str) -> (r: bool)
    ensures
        r == is_numeric_ty(ty_name@),
{
    if is_integer_type(ty_name) {
        return true;
    }
    let v = chars_of(ty_name);
    let hi = v.len();
    proof {
        assert(v@.subrange(0, hi as int) =~= ty_name@);
    }
    range_eq_str(&v, 0, hi, "float") || range_eq_str(&v, 0, hi, "double")
}

/// Whether the type name is one of the integer types.
pub fn is_integer_type(ty_name: &str) -> (r: bool)
    ensures
        r == is_integer_ty(ty_name@),
{
    let v = chars_of(ty_name);
    let hi = v.len();
    proof {
        assert(v@.subrange(0, hi as int) =~= ty_name@);
    }
    range_eq_str(&v, 0, hi, "int") || range_eq_str(&v, 0, hi, "int8") || range_eq_str(
        &v,
        0,
        hi,
        "int16",
    ) || range_eq_str(&v, 0, hi, "int32") || range_eq_str(&v, 0, hi, "int64") || range_eq_str(
        &v,
        0,
        hi,
        "int128",
    ) || range_eq_str(&v, 0, hi, "int_size") || range_eq_str(&v, 0, hi, "uint8") || range_eq_str(
        &v,
        0,
        hi,
        "uint16",
    ) || range_eq_str(&v, 0, hi, "uint32") || range_eq_str(&v, 0, hi, "uint64") || range_eq_str(
        &v,
        0,
        hi,
        "uint128",
    ) || range_eq_str(&v, 0, hi, "uint_size")
}

/// Whether the type name supports the bitwise operators; the integer types
/// exactly.
pub fn is_bitwise_type(ty_name: &str) -> (r: bool)
    ensures
        r == is_integer_ty(ty_name@),
{
    is_integer_type(ty_name)
}

/// The escaped spelling of one character inside generated string, byte-
/// string and character literals.
pub open spec fn escape_char(c: char) -> Seq<char> {
    if c == '\n' {
        seq!['\\', 'n']
    } else if c == '\r' {
        seq!['\\', 'r']
    } else if c == '\t' {
        seq!['\\', 't']
    } else if c == '"' {
        seq!['\\', '"']
    } else if c == '\\' {
        seq!['\\', '\\']
    } else {
        seq![c]
    }
}

/// The escaped spelling of a whole character sequence.
pub open spec fn escape_seq(s: Seq<char>) -> Seq<char>
    decreases s.len(),
{
    if s.len() == 0 {
        Seq::empty()
    } else {
        escape_seq(s.drop_last()) + escape_char(s.last())
    }
}

/// Escapes the characters `v[lo..hi]` for inclusion in a generated literal.
pub(crate) fn escape_range(v: &Vec<char>, lo: usize, hi: usize) -> (r: String)
    requires
        lo <= hi <= v@.len(),
    ensures
        r@ == escape_seq(v@.subrange(lo as int, hi as int)),
{
    let mut s = String::new();
    let mut i: usize = lo;
    proof {
        assert(v@.subrange(lo as int, lo as int) =~= Seq::<char>::empty());
    }
    while i < hi
        invariant
            lo <= i <= hi <= v@.len(),
            s@ == escape_seq(v@.subrange(lo as int, i as int)),
        decreases hi - i,
    {
        let c = v[i];
        if c == '\n' {
            s.push('\\');
            s.push('n');
        } else if c == '\r' {
            s.push('\\');
            s.push('r');
        } else if c == '\t' {
            s.push('\\');
            s.push('t');
        } else if c == '"' {
            s.push('\\');
            s.push('"');
        } else if c == '\\' {
            s.push('\\');
            s.push('\\');
        } else {
            s.push(c);
        }
        i = i + 1;
        proof {
            let prev = v@.subrange(lo as int, i - 1);
            let cur = v@.subrange(lo as int, i as int);
            assert(cur.drop_last() =~= prev);
            assert(cur.last() == v@[i - 1]);
            assert(s@ =~= escape_seq(prev) + escape_char(v@[i - 1]));
        }
    }
    s
}

/// Escapes a string for inclusion in a generated literal: newlines, tabs,
/// carriage returns, double quotes and backslashes gain a backslash.
pub fn escape_string_for_rust(s: &str) -> (r: String)
    ensures
        r@ == escape_seq(s@),
{
    let v = chars_of(s);
    let hi = v.len();
    proof {
        assert(v@.subrange(0, hi as int) =~= s@);
    }
    escape_range(&v, 0, hi)
}

} // verus!
