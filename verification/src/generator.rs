//! The code generator: pure rendering of statement and expression trees
//! into target-language text, indentation preserved, every binary node
//! fully parenthesized.

use crate::types::{
    default_value_spec, expr_model, get_default_value, get_type_mapping, line_model, op_spelling,
    type_mapping_spec, BinaryOperator, Expression, ParsedLine, SpecExpr, SpecLine,
    UnaryOperator,
};
use vstd::prelude::*;
use vstd::string::StrSliceExecFns;
use vstd::string::StringExecFns;

verus! {

/// A run of spaces reproducing a recorded indentation width.
pub open spec fn spaces(n: int) -> Seq<char>
    decreases n,
{
    if n <= 0 {
        Seq::empty()
    } else {
        spaces(n - 1).push(' ')
    }
}

pub proof fn lemma_spaces(n: int)
    requires
        n >= 0,
    ensures
        spaces(n).len() == n,
        forall|j: int| 0 <= j < n ==> spaces(n)[j] == ' ',
    decreases n,
{
    if n > 0 {
        lemma_spaces(n - 1);
    }
}

/// The target spelling of a binary operator: floor division lowers to the
/// target's native division, inheriting its truncation semantics.
pub open spec fn target_op(op: BinaryOperator) -> Seq<char> {
    if op == BinaryOperator::FloorDivide {
        "/"@
    } else {
        op_spelling(op)
    }
}

pub(crate) fn target_op_str(op: BinaryOperator) -> (r: &'static str)
    ensures
        r@ == target_op(op),
{
    match op {
        BinaryOperator::Add => "+",
        BinaryOperator::Subtract => "-",
        BinaryOperator::Multiply => "*",
        BinaryOperator::Divide => "/",
        BinaryOperator::FloorDivide => "/",
        BinaryOperator::Modulo => "%",
        BinaryOperator::BitwiseOr => "|",
        BinaryOperator::BitwiseAnd => "&",
        BinaryOperator::BitwiseXor => "^",
    }
}

/// The target spelling of a unary operator.
pub open spec fn target_unary(op: UnaryOperator) -> Seq<char> {
    match op {
        UnaryOperator::Negate => "-"@,
        UnaryOperator::BitwiseNot => "!"@,
    }
}

/// Whether a rendered value is a byte-string token, which a growable
/// buffer initializer must convert.
pub open spec fn starts_byte_string(s: Seq<char>) -> bool {
    s.len() >= 2 && s[0] == 'b' && s[1] == '"'
}

pub(crate) fn starts_bq(s: &String) -> (r: bool)
    ensures
        r == starts_byte_string(s@),
{
    let t = s.as_str();
    if t.unicode_len() < 2 {
        return false;
    }
    t.get_char(0) == 'b' && t.get_char(1) == '"'
}

/// The target text of an expression tree: literals and variables stand as
/// themselves, every binary node is fully parenthesized, and a compound
/// node renders as `name op value`.
pub open spec fn gen_expr(e: SpecExpr) -> Seq<char>
    decreases e,
{
    match e {
        SpecExpr::Literal { value, typ } => if typ == "bytearray"@ && starts_byte_string(value) {
            value + ".to_vec()"@
        } else {
            value
        },
        SpecExpr::Variable { name, .. } => name,
        SpecExpr::BinaryOp { left, op, right, .. } => "("@ + gen_expr(*left) + " "@ + target_op(op)
            + " "@ + gen_expr(*right) + ")"@,
        SpecExpr::UnaryOp { op, arg, .. } => "("@ + target_unary(op) + gen_expr(*arg) + ")"@,
        SpecExpr::CompoundAssign { name, op, value, .. } => name + " "@ + target_op(op) + " "@
            + gen_expr(*value),
    }
}

/// Renders an expression tree into target text.
pub fn generate_expression(expr: &Expression) -> (r: String)
    ensures
        r@ == gen_expr(expr_model(*expr)),
    decreases *expr,
{
    match expr {
        Expression::Literal { value, expr_type } => {
            if crate::text::str_eq(expr_type.as_str(), "bytearray") && starts_bq(value) {
                let mut s = value.clone();
                s.append(".to_vec()");
                s
            } else {
                value.clone()
            }
        },
        Expression::Variable { name, .. } => name.clone(),
        Expression::BinaryOp { left, op, right, .. } => {
            let ls = generate_expression(left);
            let rs = generate_expression(right);
            let mut s = String::from_str("(");
            s.append(ls.as_str());
            s.append(" ");
            s.append(target_op_str(*op));
            s.append(" ");
            s.append(rs.as_str());
            s.append(")");
            s
        },
        Expression::UnaryOp { op, expr, .. } => {
            let inner = generate_expression(expr);
            let mut s = String::from_str("(");
            match op {
                UnaryOperator::Negate => s.append("-"),
                UnaryOperator::BitwiseNot => s.append("!"),
            }
            s.append(inner.as_str());
            s.append(")");
            s
        },
        Expression::CompoundAssign { name, op, value, .. } => {
            let vs = generate_expression(value);
            let mut s = name.clone();
            s.append(" ");
            s.append(target_op_str(*op));
            s.append(" ");
            s.append(vs.as_str());
            s
        },
    }
}

/// The comment suffix appended to a generated statement line.
pub open spec fn comment_suffix(c: Option<Seq<char>>) -> Seq<char> {
    match c {
        None => Seq::empty(),
        Some(cm) => if cm.len() == 0 {
            " //"@
        } else {
            " // "@ + cm
        },
    }
}

fn push_comment(s: &mut String, c: &Option<String>)
    ensures
        final(s)@ == old(s)@ + comment_suffix(crate::types::opt_str_model(*c)),
{
    match c {
        None => {},
        Some(cm) => {
            if cm.as_str().unicode_len() == 0 {
                s.append(" //");
            } else {
                s.append(" // ");
                s.append(cm.as_str());
            }
        },
    }
}

fn push_spaces(s: &mut String, n: usize)
    ensures
        final(s)@ == old(s)@ + spaces(n as int),
{
    let mut i: usize = 0;
    proof {
        assert(s@ =~= s@ + spaces(0));
    }
    while i < n
        invariant
            0 <= i <= n,
            s@ == old(s)@ + spaces(i as int),
        decreases n - i,
    {
        s.push(' ');
        i = i + 1;
        proof {
            assert(spaces(i as int) == spaces(i - 1).push(' '));
            assert(s@ =~= old(s)@ + spaces(i as int));
        }
    }
}

/// The rendered target line of one classified statement: indentation is
/// reproduced as spaces, a formatted-output call inlines its content, a
/// declaration becomes a mutable binding with an explicit type and either
/// its initializer or the type's default, an assignment with a compound
/// node becomes a single compound-assignment line, and comments carry
/// over behind the target marker.
pub open spec fn gen_line(p: SpecLine) -> Seq<char> {
    match p {
        SpecLine::Print { content, comment, indent } => spaces(indent) + "println!(\""@ + content
            + "\");"@ + comment_suffix(comment),
        SpecLine::VariableDecl { name, ty_name, value, comment, indent } => {
            let rust_type = match type_mapping_spec(ty_name) {
                Some(u) => u,
                None => "i32"@,
            };
            let rust_value = match value {
                Some(e) => {
                    let es = gen_expr(e);
                    if ty_name == "bytearray"@ && starts_byte_string(es) {
                        es + ".to_vec()"@
                    } else {
                        es
                    }
                },
                None => default_value_spec(ty_name),
            };
            spaces(indent) + "let mut "@ + name + ": "@ + rust_type + " = "@ + rust_value + ";"@
                + comment_suffix(comment)
        },
        SpecLine::VariableAssign { name, value, comment, indent } => match value {
            SpecExpr::CompoundAssign { op, value: cval, .. } => spaces(indent) + name + " "@
                + target_op(op) + "= "@ + gen_expr(*cval) + ";"@ + comment_suffix(comment),
            _ => spaces(indent) + name + " = "@ + gen_expr(value) + ";"@ + comment_suffix(comment),
        },
        SpecLine::Comment { content, indent } => spaces(indent) + content,
        SpecLine::Empty => Seq::empty(),
    }
}

/// Renders one classified statement into a line of target text.
pub fn generate_rust_line(parsed: &ParsedLine) -> (r: String)
    ensures
        r@ == gen_line(line_model(*parsed)),
{
    match parsed {
        ParsedLine::Print { content, comment, indent } => {
            let mut s = String::new();
            push_spaces(&mut s, *indent);
            s.append("println!(\"");
            s.append(content.as_str());
            s.append("\");");
            push_comment(&mut s, comment);
            s
        },
        ParsedLine::VariableDecl { name, ty_name, value, comment, indent } => {
            let rust_type: &str = match get_type_mapping(ty_name.as_str()) {
                Some(u) => u,
                None => "i32",
            };
            let rust_value: String = match value {
                Some(e) => {
                    let es = generate_expression(e);
                    if crate::text::str_eq(ty_name.as_str(), "bytearray") && starts_bq(&es) {
                        let mut es2 = es;
                        es2.append(".to_vec()");
                        es2
                    } else {
                        es
                    }
                },
                None => get_default_value(ty_name.as_str()),
            };
            let mut s = String::new();
            push_spaces(&mut s, *indent);
            s.append("let mut ");
            s.append(name.as_str());
            s.append(": ");
            s.append(rust_type);
            s.append(" = ");
            s.append(rust_value.as_str());
            s.append(";");
            push_comment(&mut s, comment);
            s
        },
        ParsedLine::VariableAssign { name, value, comment, indent } => {
            let mut s = String::new();
            push_spaces(&mut s, *indent);
            s.append(name.as_str());
            match value {
                Expression::CompoundAssign { op, value: cval, .. } => {
                    let vs = generate_expression(cval);
                    s.append(" ");
                    s.append(target_op_str(*op));
                    s.append("= ");
                    s.append(vs.as_str());
                    s.append(";");
                },
                _ => {
                    let vs = generate_expression(value);
                    s.append(" = ");
                    s.append(vs.as_str());
                    s.append(";");
                },
            }
            push_comment(&mut s, comment);
            s
        },
        ParsedLine::Comment { content, indent } => {
            let mut s = String::new();
            push_spaces(&mut s, *indent);
            s.append(content.as_str());
            s
        },
        ParsedLine::Empty => String::new(),
    }
}

} // verus!
