//! Laws of the translation, stated over the specification functions that
//! the executable functions are proved equal to: exact type checking of
//! assignments, literal round trips, the non-conventional operator-tier
//! ordering, undeclared-name failures, and indentation preservation.

use crate::error::{serr, ErrorKind, SpecErr};
use crate::expressions::{
    find_comp, find_split, lemma_find_split_best, msg_mismatch, msg_undeclared, op_at, op_at_val,
    qualifies, spec_parse_atomic, spec_parse_expression, spec_parse_literal, tier,
};
use crate::generator::{gen_expr, gen_line, lemma_spaces, spaces};
use crate::literals::{
    all_digits, eqci, is_float_lit, is_inf_nan, is_int_lit, is_mantissa, is_number_body, sign_body,
};
use crate::parser::{is_print_prefixed, opt_comment, spec_parse_line, spec_plain_assign, split_code};
use crate::text::{
    alpha_char, find_from, is_digit_char, is_ws_char, lemma_lws, lemma_lws_is, lws, trim_seq,
};
use crate::types::{escape_seq, op_len, spec_type_of, SpecExpr, SpecLine};
use vstd::prelude::*;

verus! {

/// Law: assigning a parsed expression to a declared variable succeeds
/// exactly when the expression's resolved type equals the variable's
/// declared type; on any other type the failure is a type mismatch —
/// never a silent coercion.
pub proof fn lemma_assignment_type_check(
    t: Seq<char>,
    ep: int,
    comment: Option<Seq<char>>,
    indent: int,
    ln: int,
    base: int,
    st: Map<Seq<char>, Seq<char>>,
    ve: SpecExpr,
)
    requires
        st.contains_key(trim_seq(t.take(ep))),
        spec_parse_expression(t.subrange(ep + 1, t.len() as int), st, ln, base + ep + 1) == Ok::<
            SpecExpr,
            SpecErr,
        >(ve),
    ensures
        (spec_plain_assign(t, ep, comment, indent, ln, base, st) is Ok) <==> (spec_type_of(ve)
            == st[trim_seq(t.take(ep))]),
        spec_type_of(ve) == st[trim_seq(t.take(ep))] ==> spec_plain_assign(
            t,
            ep,
            comment,
            indent,
            ln,
            base,
            st,
        ) == Ok::<SpecLine, SpecErr>(
            SpecLine::VariableAssign { name: trim_seq(t.take(ep)), value: ve, comment, indent },
        ),
        spec_type_of(ve) != st[trim_seq(t.take(ep))] ==> spec_plain_assign(
            t,
            ep,
            comment,
            indent,
            ln,
            base,
            st,
        ) == Err::<SpecLine, SpecErr>(
            serr(
                ErrorKind::TypeMismatch,
                msg_mismatch(st[trim_seq(t.take(ep))], spec_type_of(ve)),
                ln,
                base + ep + 1 + lws(t.subrange(ep + 1, t.len() as int)),
            ),
        ),
{
}

/// Law: a compound assignment on a declared name succeeds exactly when
/// the value's resolved type equals the name's declared type, and on any
/// other type fails with a type mismatch.
pub proof fn lemma_compound_type_check(
    s: Seq<char>,
    st: Map<Seq<char>, Seq<char>>,
    ln: int,
    col: int,
    p: int,
    op: crate::types::BinaryOperator,
    ve: SpecExpr,
)
    requires
        find_comp(trim_seq(s), 0) == Some((p, op)),
        trim_seq(trim_seq(s).take(p)).len() > 0,
        trim_seq(trim_seq(s).subrange(p + op_len(op) + 1, trim_seq(s).len() as int)).len() > 0,
        st.contains_key(trim_seq(trim_seq(s).take(p))),
        spec_parse_expression(
            trim_seq(s).subrange(p + op_len(op) + 1, trim_seq(s).len() as int),
            st,
            ln,
            col + lws(s) + p + op_len(op) + 1,
        ) == Ok::<SpecExpr, SpecErr>(ve),
    ensures
        (spec_parse_expression(s, st, ln, col) is Ok) <==> (spec_type_of(ve) == st[trim_seq(
            trim_seq(s).take(p),
        )]),
        spec_type_of(ve) == st[trim_seq(trim_seq(s).take(p))] ==> spec_parse_expression(
            s,
            st,
            ln,
            col,
        ) == Ok::<SpecExpr, SpecErr>(
            SpecExpr::CompoundAssign {
                name: trim_seq(trim_seq(s).take(p)),
                op,
                value: Box::new(ve),
                typ: st[trim_seq(trim_seq(s).take(p))],
            },
        ),
{
}

/// No numeric literal starts with a character that is not a digit, a
/// sign, a dot, or a spelling of the non-finite words.
proof fn lemma_not_numeric_start(t: Seq<char>)
    requires
        t.len() > 0,
        !is_digit_char(t[0]),
        t[0] != '+',
        t[0] != '-',
        t[0] != '.',
        !eqci(t[0], 'i'),
        !eqci(t[0], 'n'),
    ensures
        !is_int_lit(t),
        !is_float_lit(t),
{
    assert(sign_body(t) == t);
    assert(!all_digits(t)) by {
        assert(!is_digit_char(t[0]));
    }
    assert(!is_inf_nan(t));
    assert(!is_mantissa(t)) by {
        assert forall|d: int|
            !(0 <= d < t.len() && t[d] == '.' && all_digits(t.subrange(0, d)) && all_digits(
                t.subrange(d + 1, t.len() as int),
            )) by {
            if 0 <= d < t.len() && t[d] == '.' {
                assert(d != 0);
                assert(t.subrange(0, d)[0] == t[0]);
            }
        }
    }
    assert(!is_number_body(t)) by {
        match crate::literals::find_e(t, 0) {
            Some(k) => {
                crate::literals::lemma_find_e(t, 0);
                if k == 0 {
                    assert(t.take(0).len() == 0);
                    assert(!is_mantissa(t.take(0)));
                } else {
                    let m = t.take(k);
                    assert(m[0] == t[0]);
                    assert(!all_digits(m)) by {
                        assert(!is_digit_char(m[0]));
                    }
                    assert(!is_mantissa(m)) by {
                        assert forall|d: int|
                            !(0 <= d < m.len() && m[d] == '.' && all_digits(m.subrange(0, d))
                                && all_digits(m.subrange(d + 1, m.len() as int))) by {
                            if 0 <= d < m.len() && m[d] == '.' {
                                assert(d != 0);
                                assert(m.subrange(0, d)[0] == m[0]);
                            }
                        }
                    }
                }
            },
            None => {
            },
        }
    }
}

/// Law: a token in range of 64-bit signed integer parsing parses to the
/// integer type, carries itself as its value, and regenerates itself.
pub proof fn lemma_int_literal_round_trip(s: Seq<char>, ln: int, col: int)
    requires
        is_int_lit(trim_seq(s)),
    ensures
        spec_parse_literal(s, ln, col) == Ok::<SpecExpr, SpecErr>(
            SpecExpr::Literal { value: trim_seq(s), typ: "int"@ },
        ),
        gen_expr(SpecExpr::Literal { value: trim_seq(s), typ: "int"@ }) == trim_seq(s),
{
    reveal_strlit("int");
    reveal_strlit("bytearray");
}

/// Law: a token in range of double-precision decimal parsing, but not of
/// integer parsing, parses to the floating type, carries itself as its
/// value, and regenerates itself.
pub proof fn lemma_float_literal_round_trip(s: Seq<char>, ln: int, col: int)
    requires
        !is_int_lit(trim_seq(s)),
        is_float_lit(trim_seq(s)),
    ensures
        spec_parse_literal(s, ln, col) == Ok::<SpecExpr, SpecErr>(
            SpecExpr::Literal { value: trim_seq(s), typ: "float"@ },
        ),
        gen_expr(SpecExpr::Literal { value: trim_seq(s), typ: "float"@ }) == trim_seq(s),
{
    reveal_strlit("float");
    reveal_strlit("bytearray");
    assert("float"@.len() == 5);
    assert("bytearray"@.len() == 9);
    assert("float"@ != "bytearray"@);
}

/// Law: a double-quoted token parses to the text type, its value is the
/// quoted escaped content, and it regenerates that token unchanged.
pub proof fn lemma_string_literal_round_trip(s: Seq<char>, ln: int, col: int)
    requires
        trim_seq(s).len() >= 2,
        trim_seq(s)[0] == '"',
        trim_seq(s)[trim_seq(s).len() - 1] == '"',
    ensures
        spec_parse_literal(s, ln, col) == Ok::<SpecExpr, SpecErr>(
            SpecExpr::Literal {
                value: "\""@ + escape_seq(trim_seq(s).subrange(1, trim_seq(s).len() - 1)) + "\""@,
                typ: "str"@,
            },
        ),
        gen_expr(
            SpecExpr::Literal {
                value: "\""@ + escape_seq(trim_seq(s).subrange(1, trim_seq(s).len() - 1)) + "\""@,
                typ: "str"@,
            },
        ) == "\""@ + escape_seq(trim_seq(s).subrange(1, trim_seq(s).len() - 1)) + "\""@,
{
    let t = trim_seq(s);
    lemma_not_numeric_start(t);
    reveal_strlit("True");
    reveal_strlit("False");
    reveal_strlit("None");
    reveal_strlit("str");
    reveal_strlit("bytearray");
    assert(t != "True"@);
    assert(t != "False"@);
    assert(t != "None"@);
    assert("str"@.len() == 3);
    assert("bytearray"@.len() == 9);
    assert("str"@ != "bytearray"@);
}

/// Law: a single-quoted token of at least one content character parses
/// to the character type and regenerates itself in quoted escaped form.
pub proof fn lemma_char_literal_round_trip(s: Seq<char>, ln: int, col: int)
    requires
        trim_seq(s).len() >= 3,
        trim_seq(s)[0] == '\'',
        trim_seq(s)[trim_seq(s).len() - 1] == '\'',
    ensures
        spec_parse_literal(s, ln, col) == Ok::<SpecExpr, SpecErr>(
            SpecExpr::Literal {
                value: "'"@ + escape_seq(trim_seq(s).subrange(1, trim_seq(s).len() - 1)) + "'"@,
                typ: "char"@,
            },
        ),
{
    let t = trim_seq(s);
    lemma_not_numeric_start(t);
    reveal_strlit("True");
    reveal_strlit("False");
    reveal_strlit("None");
    assert(t != "True"@);
    assert(t != "False"@);
    assert(t != "None"@);
}

/// Law: a byte-string token parses to the raw-bytes type and regenerates
/// itself in escaped form.
pub proof fn lemma_bytes_literal_round_trip(s: Seq<char>, ln: int, col: int)
    requires
        trim_seq(s).len() >= 3,
        trim_seq(s)[0] == 'b',
        trim_seq(s)[1] == '"',
        trim_seq(s)[trim_seq(s).len() - 1] == '"',
    ensures
        spec_parse_literal(s, ln, col) == Ok::<SpecExpr, SpecErr>(
            SpecExpr::Literal {
                value: "b\""@ + escape_seq(trim_seq(s).subrange(2, trim_seq(s).len() - 1)) + "\""@,
                typ: "bytes"@,
            },
        ),
{
    let t = trim_seq(s);
    lemma_not_numeric_start(t);
    reveal_strlit("True");
    reveal_strlit("False");
    reveal_strlit("None");
    assert(t != "True"@);
    assert(t != "False"@);
    assert(t != "None"@);
}

/// Law: the bitwise tiers bind looser than the arithmetic tiers — where
/// a bitwise-or qualifies at the top level, the chosen outermost
/// operator always stands in the loosest tier.
pub proof fn lemma_bitwise_binds_loosest(s: Seq<char>, q: int)
    requires
        qualifies(s, q),
        op_at(s, q) == Some(crate::types::BinaryOperator::BitwiseOr),
    ensures
        match find_split(s) {
            Some((p, op)) => tier(op) == 0,
            None => false,
        },
{
    lemma_find_split_best(s);
    assert(0 <= q < s.len());
    match find_split(s) {
        Some((p, op)) => {
            assert(tier(op_at_val(s, q)) >= tier(op));
            assert(tier(op_at_val(s, q)) == 0);
            assert(tier(op) >= 0);
        },
        None => {
            assert(!qualifies(s, q));
        },
    }
}

/// Law: referencing an undeclared name in an atomic expression position —
/// a token whose first character is alphabetic, that is no declared name
/// and matches no literal form — fails with the undeclared-variable kind
/// at the exact column where the token stands.
pub proof fn lemma_undeclared_reference(
    s: Seq<char>,
    st: Map<Seq<char>, Seq<char>>,
    ln: int,
    col: int,
)
    requires
        trim_seq(s).len() > 0,
        alpha_char(trim_seq(s)[0]),
        !st.contains_key(s),
        spec_parse_literal(s, ln, col) is Err,
    ensures
        spec_parse_atomic(s, st, ln, col) == Err::<SpecExpr, SpecErr>(
            serr(
                ErrorKind::UndeclaredVariable,
                msg_undeclared(trim_seq(s)),
                ln,
                col + lws(s),
            ),
        ),
{
}

/// Law: an assignment line `v = e` on a declared name succeeds exactly
/// when `e`'s resolved type equals the declared type; a differing type
/// fails with a type mismatch carrying the line number, and the symbol
/// table is left unchanged either way — never a silent coercion. The
/// line must hold no compound operator, whose presence makes the
/// statement a compound assignment instead.
pub proof fn lemma_assign_line_type_check(
    line: Seq<char>,
    ln: int,
    st: Map<Seq<char>, Seq<char>>,
    ep: int,
    ve: SpecExpr,
)
    requires
        trim_seq(split_code(line)).len() > 0,
        !is_print_prefixed(trim_seq(split_code(line))),
        find_from(trim_seq(split_code(line)), 0, ':') is None,
        find_from(trim_seq(split_code(line)), 0, '=') == Some(ep),
        trim_seq(trim_seq(split_code(line)).take(ep)).len() > 0,
        alpha_char(trim_seq(trim_seq(split_code(line)).take(ep))[0]),
        find_comp(trim_seq(split_code(line)), 0) is None,
        st.contains_key(trim_seq(trim_seq(split_code(line)).take(ep))),
        spec_parse_expression(
            trim_seq(split_code(line)).subrange(
                ep + 1,
                trim_seq(split_code(line)).len() as int,
            ),
            st,
            ln,
            lws(split_code(line)) + ep + 2,
        ) == Ok::<SpecExpr, SpecErr>(ve),
    ensures
        spec_parse_line(line, ln, st).1 == st,
        (spec_parse_line(line, ln, st).0 is Ok) <==> (spec_type_of(ve) == st[trim_seq(
            trim_seq(split_code(line)).take(ep),
        )]),
        spec_type_of(ve) == st[trim_seq(trim_seq(split_code(line)).take(ep))] ==> spec_parse_line(
            line,
            ln,
            st,
        ).0 == Ok::<SpecLine, SpecErr>(
            SpecLine::VariableAssign {
                name: trim_seq(trim_seq(split_code(line)).take(ep)),
                value: ve,
                comment: opt_comment(line),
                indent: lws(line),
            },
        ),
        spec_type_of(ve) != st[trim_seq(trim_seq(split_code(line)).take(ep))] ==> spec_parse_line(
            line,
            ln,
            st,
        ).0 == Err::<SpecLine, SpecErr>(
            serr(
                ErrorKind::TypeMismatch,
                msg_mismatch(
                    st[trim_seq(trim_seq(split_code(line)).take(ep))],
                    spec_type_of(ve),
                ),
                ln,
                lws(split_code(line)) + ep + 2 + lws(
                    trim_seq(split_code(line)).subrange(
                        ep + 1,
                        trim_seq(split_code(line)).len() as int,
                    ),
                ),
            ),
        ),
{
}

/// Law: a plain assignment whose left-hand name is undeclared fails with
/// the undeclared-variable kind, at the column where the name stands.
pub proof fn lemma_undeclared_assignment(
    t: Seq<char>,
    ep: int,
    comment: Option<Seq<char>>,
    indent: int,
    ln: int,
    base: int,
    st: Map<Seq<char>, Seq<char>>,
)
    requires
        !st.contains_key(trim_seq(t.take(ep))),
    ensures
        spec_plain_assign(t, ep, comment, indent, ln, base, st) == Err::<SpecLine, SpecErr>(
            serr(ErrorKind::UndeclaredVariable, msg_undeclared(trim_seq(t.take(ep))), ln, base),
        ),
{
}

/// Law: a compound assignment whose name is undeclared fails with the
/// undeclared-variable kind, at the column where the name stands.
pub proof fn lemma_undeclared_compound(
    s: Seq<char>,
    st: Map<Seq<char>, Seq<char>>,
    ln: int,
    col: int,
    p: int,
    op: crate::types::BinaryOperator,
)
    requires
        find_comp(trim_seq(s), 0) == Some((p, op)),
        trim_seq(trim_seq(s).take(p)).len() > 0,
        trim_seq(trim_seq(s).subrange(p + op_len(op) + 1, trim_seq(s).len() as int)).len() > 0,
        !st.contains_key(trim_seq(trim_seq(s).take(p))),
    ensures
        spec_parse_expression(s, st, ln, col) == Err::<SpecExpr, SpecErr>(
            serr(
                ErrorKind::UndeclaredVariable,
                msg_undeclared(trim_seq(trim_seq(s).take(p))),
                ln,
                col + lws(s),
            ),
        ),
{
}

/// Law: a line whose code segment is blank never fails, leaves the
/// symbol table untouched, and its rendered form preserves the original
/// indentation width exactly — a comment line renders behind exactly as
/// many spaces as the line had leading whitespace characters, and a bare
/// blank renders as the empty line.
pub proof fn lemma_blank_and_comment_indent(
    line: Seq<char>,
    ln: int,
    st: Map<Seq<char>, Seq<char>>,
)
    requires
        trim_seq(split_code(line)).len() == 0,
    ensures
        spec_parse_line(line, ln, st).1 == st,
        match spec_parse_line(line, ln, st).0 {
            Ok(pl) => match pl {
                SpecLine::Comment { content, indent } => {
                    &&& indent == lws(line)
                    &&& gen_line(pl) == spaces(indent) + content
                    &&& lws(gen_line(pl)) == lws(line)
                },
                SpecLine::Empty => gen_line(pl) == Seq::<char>::empty(),
                _ => false,
            },
            Err(_) => false,
        },
{
    lemma_lws(line);
    let indent = lws(line);
    lemma_spaces(indent);
    reveal_strlit("//");
    reveal_strlit("// ");
    match spec_parse_line(line, ln, st).0 {
        Ok(pl) => match pl {
            SpecLine::Comment { content, indent: ind } => {
                let g = gen_line(pl);
                assert(g == spaces(indent) + content);
                assert(content.len() >= 2);
                assert(content[0] == '/');
                assert forall|j: int| 0 <= j < indent implies is_ws_char(g[j]) by {
                    assert(g[j] == spaces(indent)[j]);
                }
                assert(g[indent] == content[0]);
                assert(!is_ws_char('/'));
                lemma_lws_is(g, indent);
            },
            _ => {},
        },
        Err(_) => {},
    }
}

} // verus!
