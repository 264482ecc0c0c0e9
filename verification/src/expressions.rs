//! The expression parser: compound-assignment detection, precedence-based
//! binary parsing (bitwise operators binding looser than arithmetic),
//! unary operators, parenthesized groups, variables and literals. Every
//! executable parser is proved equal to its specification function.

use crate::error::{err_model, serr, ErrorKind, SpecErr, TranspilerError};
use crate::literals::{
    is_float_lit, is_float_literal_range, is_int_lit, is_int_literal_range,
};
use crate::symtab::SymbolTable;
use crate::text::{
    alpha_char, lemma_trim_wf, lws, range_eq_str, str_eq, string_from_range, trim_range, trim_seq,
};
use crate::types::{
    escape_range, escape_seq, expr_model, is_bitwise_type, is_integer_ty, is_integer_type,
    is_numeric_ty, is_numeric_type, op_len, spec_type_of, BinaryOperator, Expression, SpecExpr,
    UnaryOperator,
};
use vstd::prelude::*;
use vstd::string::StringExecFns;

verus! {

// ---------------------------------------------------------------------
// operator tables
// ---------------------------------------------------------------------

/// The binding tier of a binary operator, loosest first: bitwise-or,
/// bitwise-xor, bitwise-and, additive, multiplicative. The operator with
/// the lowest tier at the top level becomes the outermost node.
pub open spec fn tier(op: BinaryOperator) -> int {
    match op {
        BinaryOperator::BitwiseOr => 0,
        BinaryOperator::BitwiseXor => 1,
        BinaryOperator::BitwiseAnd => 2,
        BinaryOperator::Add => 3,
        BinaryOperator::Subtract => 3,
        BinaryOperator::Multiply => 4,
        BinaryOperator::Divide => 4,
        BinaryOperator::FloorDivide => 4,
        BinaryOperator::Modulo => 4,
    }
}

pub(crate) fn tier_of(op: BinaryOperator) -> (r: usize)
    ensures
        r == tier(op),
{
    match op {
        BinaryOperator::BitwiseOr => 0,
        BinaryOperator::BitwiseXor => 1,
        BinaryOperator::BitwiseAnd => 2,
        BinaryOperator::Add => 3,
        BinaryOperator::Subtract => 3,
        BinaryOperator::Multiply => 4,
        BinaryOperator::Divide => 4,
        BinaryOperator::FloorDivide => 4,
        BinaryOperator::Modulo => 4,
    }
}

/// The binary operator spelled by a single character.
pub open spec fn single_op_char(c: char) -> Option<BinaryOperator> {
    if c == '|' {
        Some(BinaryOperator::BitwiseOr)
    } else if c == '^' {
        Some(BinaryOperator::BitwiseXor)
    } else if c == '&' {
        Some(BinaryOperator::BitwiseAnd)
    } else if c == '+' {
        Some(BinaryOperator::Add)
    } else if c == '-' {
        Some(BinaryOperator::Subtract)
    } else if c == '*' {
        Some(BinaryOperator::Multiply)
    } else if c == '/' {
        Some(BinaryOperator::Divide)
    } else if c == '%' {
        Some(BinaryOperator::Modulo)
    } else {
        None
    }
}

pub(crate) fn single_op(c: char) -> (r: Option<BinaryOperator>)
    ensures
        r == single_op_char(c),
{
    if c == '|' {
        Some(BinaryOperator::BitwiseOr)
    } else if c == '^' {
        Some(BinaryOperator::BitwiseXor)
    } else if c == '&' {
        Some(BinaryOperator::BitwiseAnd)
    } else if c == '+' {
        Some(BinaryOperator::Add)
    } else if c == '-' {
        Some(BinaryOperator::Subtract)
    } else if c == '*' {
        Some(BinaryOperator::Multiply)
    } else if c == '/' {
        Some(BinaryOperator::Divide)
    } else if c == '%' {
        Some(BinaryOperator::Modulo)
    } else {
        None
    }
}

/// The binary operator spelled at position `i`, preferring the longer
/// floor-division spelling over plain division.
pub open spec fn op_at(s: Seq<char>, i: int) -> Option<BinaryOperator> {
    if 0 <= i < s.len() {
        if s[i] == '/' && i + 1 < s.len() && s[i + 1] == '/' {
            Some(BinaryOperator::FloorDivide)
        } else {
            single_op_char(s[i])
        }
    } else {
        None
    }
}

/// The compound-assignment operator spelled at position `i`, preferring
/// the longer floor-division spelling over its prefix.
pub open spec fn comp_at(s: Seq<char>, i: int) -> Option<BinaryOperator> {
    if 0 <= i && i + 3 <= s.len() && s[i] == '/' && s[i + 1] == '/' && s[i + 2] == '=' {
        Some(BinaryOperator::FloorDivide)
    } else if 0 <= i && i + 2 <= s.len() && s[i + 1] == '=' {
        single_op_char(s[i])
    } else {
        None
    }
}

/// Whether the operator may be applied to operands of the given type.
pub open spec fn op_valid(op: BinaryOperator, t: Seq<char>) -> bool {
    match op {
        BinaryOperator::Add => is_numeric_ty(t),
        BinaryOperator::Subtract => is_numeric_ty(t),
        BinaryOperator::Multiply => is_numeric_ty(t),
        BinaryOperator::Divide => is_numeric_ty(t),
        BinaryOperator::FloorDivide => is_integer_ty(t),
        BinaryOperator::Modulo => is_integer_ty(t),
        BinaryOperator::BitwiseOr => is_integer_ty(t),
        BinaryOperator::BitwiseAnd => is_integer_ty(t),
        BinaryOperator::BitwiseXor => is_integer_ty(t),
    }
}

pub(crate) fn op_valid_for(op: BinaryOperator, t: &str) -> (r: bool)
    ensures
        r == op_valid(op, t@),
{
    match op {
        BinaryOperator::Add => is_numeric_type(t),
        BinaryOperator::Subtract => is_numeric_type(t),
        BinaryOperator::Multiply => is_numeric_type(t),
        BinaryOperator::Divide => is_numeric_type(t),
        BinaryOperator::FloorDivide => is_integer_type(t),
        BinaryOperator::Modulo => is_integer_type(t),
        BinaryOperator::BitwiseOr => is_integer_type(t),
        BinaryOperator::BitwiseAnd => is_integer_type(t),
        BinaryOperator::BitwiseXor => is_integer_type(t),
    }
}

// ---------------------------------------------------------------------
// scanning for the split position
// ---------------------------------------------------------------------

/// The parenthesis-depth change contributed by one character.
pub open spec fn pdelta(c: char) -> int {
    if c == '(' {
        1
    } else if c == ')' {
        -1
    } else {
        0
    }
}

/// The parenthesis depth reached after reading a whole prefix.
pub open spec fn pdepth(s: Seq<char>) -> int
    decreases s.len(),
{
    if s.len() == 0 {
        0
    } else {
        pdepth(s.drop_last()) + pdelta(s.last())
    }
}

/// A position holding a binary operator at parenthesis depth zero.
pub open spec fn qualifies(s: Seq<char>, i: int) -> bool {
    op_at(s, i) is Some && pdepth(s.take(i + 1)) == 0
}

/// One scan step: a qualifying operator displaces the best candidate only
/// when its tier is strictly lower, so the leftmost occurrence of the
/// lowest tier wins.
pub open spec fn better(s: Seq<char>, i: int, best: Option<(int, BinaryOperator)>) -> Option<
    (int, BinaryOperator),
> {
    if qualifies(s, i) {
        match (op_at(s, i), best) {
            (Some(op), None) => Some((i, op)),
            (Some(op), Some((bp, bop))) => if tier(op) < tier(bop) {
                Some((i, op))
            } else {
                best
            },
            _ => best,
        }
    } else {
        best
    }
}

pub open spec fn scan_best(s: Seq<char>, i: int, best: Option<(int, BinaryOperator)>) -> Option<
    (int, BinaryOperator),
>
    decreases s.len() - i,
{
    if i >= s.len() {
        best
    } else {
        scan_best(s, i + 1, better(s, i, best))
    }
}

/// The split position of the outermost binary operator: the leftmost
/// top-level occurrence of the loosest-binding tier present.
pub open spec fn find_split(s: Seq<char>) -> Option<(int, BinaryOperator)> {
    scan_best(s, 0, None)
}

pub proof fn lemma_scan_best_bounds(s: Seq<char>, i: int, b: Option<(int, BinaryOperator)>)
    requires
        0 <= i <= s.len(),
        match b {
            Some((p, op)) => 0 <= p < s.len() && op_at(s, p) == Some(op),
            None => true,
        },
    ensures
        match scan_best(s, i, b) {
            Some((p, op)) => 0 <= p < s.len() && op_at(s, p) == Some(op),
            None => true,
        },
    decreases s.len() - i,
{
    if i < s.len() {
        lemma_scan_best_bounds(s, i + 1, better(s, i, b));
    }
}

pub proof fn lemma_find_split_bounds(s: Seq<char>)
    ensures
        match find_split(s) {
            Some((p, op)) => 0 <= p < s.len() && op_at(s, p) == Some(op) && p + op_len(op)
                <= s.len(),
            None => true,
        },
{
    lemma_scan_best_bounds(s, 0, None);
}

/// The best candidate so far is correct for the prefix `[0, i)`: it
/// qualifies, no qualifying position has a strictly lower tier, and it is
/// the leftmost at its tier.
pub open spec fn best_inv(s: Seq<char>, i: int, b: Option<(int, BinaryOperator)>) -> bool {
    match b {
        Some((p, op)) => 0 <= p < i && qualifies(s, p) && op_at(s, p) == Some(op) && (forall|q: int|
            0 <= q < i && qualifies(s, q) ==> tier(op_at_val(s, q)) >= tier(op)) && (forall|q: int|
            0 <= q < p && qualifies(s, q) ==> tier(op_at_val(s, q)) > tier(op)),
        None => forall|q: int| 0 <= q < i ==> !qualifies(s, q),
    }
}

/// The operator at a qualifying position.
pub open spec fn op_at_val(s: Seq<char>, i: int) -> BinaryOperator {
    match op_at(s, i) {
        Some(op) => op,
        None => BinaryOperator::Add,
    }
}

pub proof fn lemma_scan_best_inv(s: Seq<char>, i: int, b: Option<(int, BinaryOperator)>)
    requires
        0 <= i <= s.len(),
        best_inv(s, i, b),
    ensures
        best_inv(s, s.len() as int, scan_best(s, i, b)),
    decreases s.len() - i,
{
    if i < s.len() {
        lemma_scan_best_inv(s, i + 1, better(s, i, b));
    }
}

/// The chosen split is a qualifying position of minimal tier, leftmost
/// within that tier; and where none is returned, no position qualifies.
pub proof fn lemma_find_split_best(s: Seq<char>)
    ensures
        best_inv(s, s.len() as int, find_split(s)),
{
    lemma_scan_best_inv(s, 0, None);
}

// ---------------------------------------------------------------------
// scanning for a compound-assignment operator
// ---------------------------------------------------------------------

/// The earliest position at or after `i` spelling a compound operator.
pub open spec fn find_comp(s: Seq<char>, i: int) -> Option<(int, BinaryOperator)>
    decreases s.len() - i,
{
    if i < 0 || i >= s.len() {
        None
    } else {
        match comp_at(s, i) {
            Some(op) => Some((i, op)),
            None => find_comp(s, i + 1),
        }
    }
}

pub proof fn lemma_find_comp(s: Seq<char>, i: int)
    requires
        0 <= i <= s.len(),
    ensures
        match find_comp(s, i) {
            Some((p, op)) => i <= p && p + op_len(op) + 1 <= s.len() && comp_at(s, p) == Some(op)
                && forall|j: int| i <= j < p ==> comp_at(s, j) is None,
            None => forall|j: int| i <= j < s.len() ==> comp_at(s, j) is None,
        },
    decreases s.len() - i,
{
    if i < s.len() && comp_at(s, i) is None {
        lemma_find_comp(s, i + 1);
    }
}

/// Finds the outermost binary-operator split of `v[lo..hi]`.
pub(crate) fn find_split_range(v: &Vec<char>, lo: usize, hi: usize) -> (r: Option<
    (usize, BinaryOperator),
>)
    requires
        lo <= hi <= v@.len(),
    ensures
        ({
            let s = v@.subrange(lo as int, hi as int);
            match r {
                Some((p, op)) => lo <= p < hi && op_at(s, p - lo) == Some(op) && find_split(s)
                    == Some((p - lo, op)),
                None => find_split(s) is None,
            }
        }),
{
    let ghost s = v@.subrange(lo as int, hi as int);
    let mut best: Option<(usize, BinaryOperator)> = None;
    let mut depth: i128 = 0;
    let mut i: usize = lo;
    proof {
        assert(s.take(0) =~= Seq::<char>::empty());
    }
    while i < hi
        invariant
            lo <= i <= hi <= v@.len(),
            s == v@.subrange(lo as int, hi as int),
            depth == pdepth(s.take(i - lo)),
            -(i - lo) <= depth <= i - lo,
            scan_best(s, 0, None) == scan_best(
                s,
                i - lo,
                match best {
                    Some((p, op)) => Some((p - lo as int, op)),
                    None => None,
                },
            ),
            match best {
                Some((p, op)) => lo <= p < i && op_at(s, p - lo) == Some(op),
                None => true,
            },
        decreases hi - i,
    {
        let ghost old_best = best;
        let c = v[i];
        proof {
            assert(s[i - lo] == v@[i as int]);
        }
        if c == '(' {
            depth = depth + 1;
        } else if c == ')' {
            depth = depth - 1;
        }
        proof {
            assert(s.take(i - lo + 1).drop_last() =~= s.take(i - lo));
            assert(s.take(i - lo + 1).last() == s[i - lo]);
        }
        let cand: Option<BinaryOperator> = if c == '/' && i + 1 < hi && v[i + 1] == '/' {
            proof {
                assert(s[i + 1 - lo] == v@[i + 1]);
            }
            Some(BinaryOperator::FloorDivide)
        } else {
            proof {
                if i + 1 < hi {
                    assert(s[i + 1 - lo] == v@[i + 1]);
                }
            }
            single_op(c)
        };
        proof {
            assert(cand == op_at(s, i - lo));
        }
        if depth == 0 {
            match cand {
                Some(op) => {
                    match best {
                        None => {
                            best = Some((i, op));
                        },
                        Some((bp, bop)) => {
                            if tier_of(op) < tier_of(bop) {
                                best = Some((i, op));
                            }
                        },
                    }
                },
                None => {},
            }
        }
        proof {
            let gb = match old_best {
                Some((p, op)) => Some((p - lo as int, op)),
                None => None,
            };
            let nb = match best {
                Some((p, op)) => Some((p - lo as int, op)),
                None => None,
            };
            assert(nb == better(s, i - lo, gb));
        }
        i = i + 1;
    }
    best
}

/// Finds the earliest compound-assignment operator in `v[lo..hi]`.
pub(crate) fn find_comp_range(v: &Vec<char>, lo: usize, hi: usize) -> (r: Option<
    (usize, BinaryOperator),
>)
    requires
        lo <= hi <= v@.len(),
    ensures
        ({
            let s = v@.subrange(lo as int, hi as int);
            match r {
                Some((p, op)) => lo <= p < hi && comp_at(s, p - lo) == Some(op) && find_comp(s, 0)
                    == Some((p - lo, op)),
                None => find_comp(s, 0) is None,
            }
        }),
{
    let ghost s = v@.subrange(lo as int, hi as int);
    let mut i: usize = lo;
    while i < hi
        invariant
            lo <= i <= hi <= v@.len(),
            s == v@.subrange(lo as int, hi as int),
            find_comp(s, 0) == find_comp(s, i - lo),
        decreases hi - i,
    {
        let c = v[i];
        proof {
            assert(s[i - lo] == v@[i as int]);
            if i + 1 < hi {
                assert(s[i + 1 - lo] == v@[i + 1]);
            }
            if i + 2 < hi {
                assert(s[i + 2 - lo] == v@[i + 2]);
            }
        }
        if c == '/' && hi - i >= 3 && v[i + 1] == '/' && v[i + 2] == '=' {
            return Some((i, BinaryOperator::FloorDivide));
        }
        if i + 1 < hi && v[i + 1] == '=' {
            match single_op(c) {
                Some(op) => {
                    proof {
                        assert(comp_at(s, i - lo) == Some(op));
                    }
                    return Some((i, op));
                },
                None => {},
            }
        }
        proof {
            assert(comp_at(s, i - lo) is None);
        }
        i = i + 1;
    }
    None
}

// ---------------------------------------------------------------------
// message texts
// ---------------------------------------------------------------------

pub open spec fn msg_undeclared(name: Seq<char>) -> Seq<char> {
    "undeclared variable: "@ + name
}

pub open spec fn msg_mismatch(a: Seq<char>, b: Seq<char>) -> Seq<char> {
    "incompatible types: "@ + a + " and "@ + b
}

pub open spec fn msg_op_invalid(t: Seq<char>) -> Seq<char> {
    "operator not valid for type "@ + t
}

pub open spec fn msg_unary_minus(t: Seq<char>) -> Seq<char> {
    "unary minus not valid for type "@ + t
}

pub open spec fn msg_bitwise_not(t: Seq<char>) -> Seq<char> {
    "bitwise inversion not valid for type "@ + t
}

pub open spec fn msg_invalid_literal(t: Seq<char>) -> Seq<char> {
    "invalid literal: "@ + t
}

// ---------------------------------------------------------------------
// the specification of parsing
// ---------------------------------------------------------------------

/// What parsing an atomic literal token returns: the literal categories
/// are tried in a fixed order, and each produces a literal expression
/// carrying the target spelling and its static type.
pub open spec fn spec_parse_literal(s: Seq<char>, line: int, col: int) -> Result<
    SpecExpr,
    SpecErr,
> {
    let t = trim_seq(s);
    let c = col + lws(s);
    if is_int_lit(t) {
        Ok(SpecExpr::Literal { value: t, typ: "int"@ })
    } else if is_float_lit(t) {
        Ok(SpecExpr::Literal { value: t, typ: "float"@ })
    } else if t == "True"@ {
        Ok(SpecExpr::Literal { value: "true"@, typ: "bool"@ })
    } else if t == "False"@ {
        Ok(SpecExpr::Literal { value: "false"@, typ: "bool"@ })
    } else if t == "None"@ {
        Ok(SpecExpr::Literal { value: "()"@, typ: "None"@ })
    } else if t.len() >= 3 && t[0] == 'b' && t[1] == '"' && t[t.len() - 1] == '"' {
        Ok(
            SpecExpr::Literal {
                value: "b\""@ + escape_seq(t.subrange(2, t.len() - 1)) + "\""@,
                typ: "bytes"@,
            },
        )
    } else if t.len() >= 2 && t[0] == '"' && t[t.len() - 1] == '"' {
        Ok(
            SpecExpr::Literal {
                value: "\""@ + escape_seq(t.subrange(1, t.len() - 1)) + "\""@,
                typ: "str"@,
            },
        )
    } else if t.len() >= 3 && t[0] == '\'' && t[t.len() - 1] == '\'' {
        Ok(
            SpecExpr::Literal {
                value: "'"@ + escape_seq(t.subrange(1, t.len() - 1)) + "'"@,
                typ: "char"@,
            },
        )
    } else if t == "Vec::new()"@ || t == "vec![]"@ {
        Ok(SpecExpr::Literal { value: "Vec::new()"@, typ: "bytearray"@ })
    } else {
        Err(serr(ErrorKind::InvalidLiteral, msg_invalid_literal(t), line, c))
    }
}

/// What parsing an atomic token returns: a declared name resolves to a
/// variable carrying its declared type; anything else must be a literal.
/// A token of name shape — its first character alphabetic — that matches
/// no literal form is a reference to an undeclared name, reported as such
/// at the token's exact column.
pub open spec fn spec_parse_atomic(
    s: Seq<char>,
    st: Map<Seq<char>, Seq<char>>,
    line: int,
    col: int,
) -> Result<SpecExpr, SpecErr> {
    if st.contains_key(s) {
        Ok(SpecExpr::Variable { name: s, typ: st[s] })
    } else {
        let t = trim_seq(s);
        match spec_parse_literal(s, line, col) {
            Ok(e) => Ok(e),
            Err(e) => if t.len() > 0 && alpha_char(t[0]) {
                Err(
                    serr(
                        ErrorKind::UndeclaredVariable,
                        msg_undeclared(t),
                        line,
                        col + lws(s),
                    ),
                )
            } else {
                Err(e)
            },
        }
    }
}

/// What parsing a unary expression returns: leading minus needs a numeric
/// operand, leading tilde an integer operand, and a fully parenthesized
/// group strips exactly one pair.
pub open spec fn spec_parse_unary(
    s: Seq<char>,
    st: Map<Seq<char>, Seq<char>>,
    line: int,
    col: int,
) -> Result<SpecExpr, SpecErr>
    decreases s.len(), 1int,
    via spec_parse_unary_dec
{
    let t = trim_seq(s);
    let c = col + lws(s);
    if t.len() == 0 {
        spec_parse_atomic(t, st, line, c)
    } else if t[0] == '-' {
        match spec_parse_unary(t.drop_first(), st, line, c + 1) {
            Err(e) => Err(e),
            Ok(inner) => if !is_numeric_ty(spec_type_of(inner)) {
                Err(
                    serr(
                        ErrorKind::OperatorNotValidForType,
                        msg_unary_minus(spec_type_of(inner)),
                        line,
                        c,
                    ),
                )
            } else {
                Ok(
                    SpecExpr::UnaryOp {
                        op: UnaryOperator::Negate,
                        arg: Box::new(inner),
                        typ: spec_type_of(inner),
                    },
                )
            },
        }
    } else if t[0] == '~' {
        match spec_parse_unary(t.drop_first(), st, line, c + 1) {
            Err(e) => Err(e),
            Ok(inner) => if !is_integer_ty(spec_type_of(inner)) {
                Err(
                    serr(
                        ErrorKind::OperatorNotValidForType,
                        msg_bitwise_not(spec_type_of(inner)),
                        line,
                        c,
                    ),
                )
            } else {
                Ok(
                    SpecExpr::UnaryOp {
                        op: UnaryOperator::BitwiseNot,
                        arg: Box::new(inner),
                        typ: spec_type_of(inner),
                    },
                )
            },
        }
    } else if t[0] == '(' && t[t.len() - 1] == ')' {
        let inner_raw = t.subrange(1, t.len() - 1);
        spec_parse_binary(trim_seq(inner_raw), st, line, c + 1 + lws(inner_raw))
    } else {
        spec_parse_atomic(t, st, line, c)
    }
}

#[via_fn]
proof fn spec_parse_unary_dec(s: Seq<char>, st: Map<Seq<char>, Seq<char>>, line: int, col: int) {
    lemma_trim_wf(s);
    let t = trim_seq(s);
    if t.len() > 0 && t[0] == '(' && t[t.len() - 1] == ')' {
        lemma_trim_wf(t.subrange(1, t.len() - 1));
    }
}

/// What parsing a binary expression returns: the text splits at the
/// leftmost top-level occurrence of the loosest-binding operator tier;
/// both sides parse recursively, must carry equal types, and the operator
/// must be valid for that type.
pub open spec fn spec_parse_binary(
    s: Seq<char>,
    st: Map<Seq<char>, Seq<char>>,
    line: int,
    col: int,
) -> Result<SpecExpr, SpecErr>
    decreases s.len(), 2int,
    via spec_parse_binary_dec
{
    match find_split(s) {
        Some((p, op)) => match spec_parse_binary(s.subrange(0, p), st, line, col) {
            Err(e) => Err(e),
            Ok(le) => match spec_parse_binary(
                s.subrange(p + op_len(op), s.len() as int),
                st,
                line,
                col + p + op_len(op),
            ) {
                Err(e) => Err(e),
                Ok(re) => if spec_type_of(le) != spec_type_of(re) {
                    Err(
                        serr(
                            ErrorKind::TypeMismatch,
                            msg_mismatch(spec_type_of(le), spec_type_of(re)),
                            line,
                            col + p,
                        ),
                    )
                } else if !op_valid(op, spec_type_of(le)) {
                    Err(
                        serr(
                            ErrorKind::OperatorNotValidForType,
                            msg_op_invalid(spec_type_of(le)),
                            line,
                            col + p,
                        ),
                    )
                } else {
                    Ok(
                        SpecExpr::BinaryOp {
                            left: Box::new(le),
                            op,
                            right: Box::new(re),
                            typ: spec_type_of(le),
                        },
                    )
                },
            },
        },
        None => spec_parse_unary(s, st, line, col),
    }
}

#[via_fn]
proof fn spec_parse_binary_dec(s: Seq<char>, st: Map<Seq<char>, Seq<char>>, line: int, col: int) {
    lemma_find_split_bounds(s);
}

/// What parsing a full expression returns. The earliest compound operator
/// makes the text a compound assignment: its name must be declared and
/// the value's type must equal the name's declared type. Without one, the
/// text is a binary expression.
pub open spec fn spec_parse_expression(
    s: Seq<char>,
    st: Map<Seq<char>, Seq<char>>,
    line: int,
    col: int,
) -> Result<SpecExpr, SpecErr>
    decreases s.len(), 3int,
    via spec_parse_expression_dec
{
    let t = trim_seq(s);
    let c = col + lws(s);
    match find_comp(t, 0) {
        None => spec_parse_binary(t, st, line, c),
        Some((p, op)) => {
            let name = trim_seq(t.subrange(0, p));
            let vtext = t.subrange(p + op_len(op) + 1, t.len() as int);
            if name.len() == 0 || trim_seq(vtext).len() == 0 {
                spec_parse_binary(t, st, line, c)
            } else if !st.contains_key(name) {
                Err(serr(ErrorKind::UndeclaredVariable, msg_undeclared(name), line, c))
            } else {
                match spec_parse_expression(vtext, st, line, c + p + op_len(op) + 1) {
                    Err(e) => Err(e),
                    Ok(ve) => if st[name] != spec_type_of(ve) {
                        Err(
                            serr(
                                ErrorKind::TypeMismatch,
                                msg_mismatch(st[name], spec_type_of(ve)),
                                line,
                                c,
                            ),
                        )
                    } else {
                        Ok(
                            SpecExpr::CompoundAssign {
                                name,
                                op,
                                value: Box::new(ve),
                                typ: st[name],
                            },
                        )
                    },
                }
            }
        },
    }
}

#[via_fn]
proof fn spec_parse_expression_dec(
    s: Seq<char>,
    st: Map<Seq<char>, Seq<char>>,
    line: int,
    col: int,
) {
    lemma_trim_wf(s);
    lemma_find_comp(trim_seq(s), 0);
}

// ---------------------------------------------------------------------
// the executable parsers
// ---------------------------------------------------------------------

/// Parses an atomic literal token out of `v[lo..hi]`.
pub(crate) fn parse_literal_range(
    v: &Vec<char>,
    lo: usize,
    hi: usize,
    line: usize,
    col: usize,
) -> (r: Result<Expression, TranspilerError>)
    requires
        lo <= hi <= v@.len(),
        col + (hi - lo) <= usize::MAX,
    ensures
        ({
            let s = v@.subrange(lo as int, hi as int);
            match r {
                Ok(e) => spec_parse_literal(s, line as int, col as int) == Ok::<SpecExpr, SpecErr>(
                    expr_model(e),
                ),
                Err(er) => spec_parse_literal(s, line as int, col as int) == Err::<
                    SpecExpr,
                    SpecErr,
                >(err_model(er)),
            }
        }),
{
    let ghost s = v@.subrange(lo as int, hi as int);
    let (tlo, thi) = trim_range(v, lo, hi);
    let ghost t = trim_seq(s);
    let c = col + (tlo - lo);
    if is_int_literal_range(v, tlo, thi) {
        let value = string_from_range(v, tlo, thi);
        return Ok(Expression::Literal { value, expr_type: String::from_str("int") });
    }
    if is_float_literal_range(v, tlo, thi) {
        let value = string_from_range(v, tlo, thi);
        return Ok(Expression::Literal { value, expr_type: String::from_str("float") });
    }
    if range_eq_str(v, tlo, thi, "True") {
        return Ok(
            Expression::Literal {
                value: String::from_str("true"),
                expr_type: String::from_str("bool"),
            },
        );
    }
    if range_eq_str(v, tlo, thi, "False") {
        return Ok(
            Expression::Literal {
                value: String::from_str("false"),
                expr_type: String::from_str("bool"),
            },
        );
    }
    if range_eq_str(v, tlo, thi, "None") {
        return Ok(
            Expression::Literal {
                value: String::from_str("()"),
                expr_type: String::from_str("None"),
            },
        );
    }
    proof {
        if t.len() > 0 {
            assert(t[0] == v@[tlo as int]);
            assert(t[t.len() - 1] == v@[thi - 1]);
        }
        if t.len() > 1 {
            assert(t[1] == v@[tlo + 1]);
        }
    }
    if thi - tlo >= 3 && v[tlo] == 'b' && v[tlo + 1] == '"' && v[thi - 1] == '"' {
        let esc = escape_range(v, tlo + 2, thi - 1);
        proof {
            assert(v@.subrange(tlo + 2, thi - 1) =~= t.subrange(2, t.len() - 1));
        }
        let mut value = String::from_str("b\"");
        value.append(esc.as_str());
        value.append("\"");
        return Ok(Expression::Literal { value, expr_type: String::from_str("bytes") });
    }
    if thi - tlo >= 2 && v[tlo] == '"' && v[thi - 1] == '"' {
        let esc = escape_range(v, tlo + 1, thi - 1);
        proof {
            assert(v@.subrange(tlo + 1, thi - 1) =~= t.subrange(1, t.len() - 1));
        }
        let mut value = String::from_str("\"");
        value.append(esc.as_str());
        value.append("\"");
        return Ok(Expression::Literal { value, expr_type: String::from_str("str") });
    }
    if thi - tlo >= 3 && v[tlo] == '\'' && v[thi - 1] == '\'' {
        let esc = escape_range(v, tlo + 1, thi - 1);
        proof {
            assert(v@.subrange(tlo + 1, thi - 1) =~= t.subrange(1, t.len() - 1));
        }
        let mut value = String::from_str("'");
        value.append(esc.as_str());
        value.append("'");
        return Ok(Expression::Literal { value, expr_type: String::from_str("char") });
    }
    if range_eq_str(v, tlo, thi, "Vec::new()") || range_eq_str(v, tlo, thi, "vec![]") {
        return Ok(
            Expression::Literal {
                value: String::from_str("Vec::new()"),
                expr_type: String::from_str("bytearray"),
            },
        );
    }
    let txt = string_from_range(v, tlo, thi);
    let mut m = String::from_str("invalid literal: ");
    m.append(txt.as_str());
    Err(TranspilerError::with_kind(ErrorKind::InvalidLiteral, m, line, c))
}

/// Parses an atomic token out of `v[lo..hi]`: a declared variable or a
/// literal. Callers pass the range already trimmed.
pub(crate) fn parse_atomic_range(
    v: &Vec<char>,
    lo: usize,
    hi: usize,
    st: &SymbolTable,
    line: usize,
    col: usize,
) -> (r: Result<Expression, TranspilerError>)
    requires
        lo <= hi <= v@.len(),
        col + (hi - lo) <= usize::MAX,
    ensures
        ({
            let s = v@.subrange(lo as int, hi as int);
            match r {
                Ok(e) => spec_parse_atomic(s, st@, line as int, col as int) == Ok::<
                    SpecExpr,
                    SpecErr,
                >(expr_model(e)),
                Err(er) => spec_parse_atomic(s, st@, line as int, col as int) == Err::<
                    SpecExpr,
                    SpecErr,
                >(err_model(er)),
            }
        }),
{
    let ghost s = v@.subrange(lo as int, hi as int);
    match st.find_range(v, lo, hi) {
        Some(ty) => {
            let name = string_from_range(v, lo, hi);
            let expr_type = ty.clone();
            Ok(Expression::Variable { name, expr_type })
        },
        None => {
            match parse_literal_range(v, lo, hi, line, col) {
                Ok(e) => Ok(e),
                Err(er) => {
                    let (alo, ahi) = trim_range(v, lo, hi);
                    proof {
                        if ahi > alo {
                            assert(trim_seq(s)[0] == v@[alo as int]);
                        }
                    }
                    if alo < ahi && v[alo].is_alphabetic() {
                        let namestr = string_from_range(v, alo, ahi);
                        let mut m = String::from_str("undeclared variable: ");
                        m.append(namestr.as_str());
                        Err(
                            TranspilerError::with_kind(
                                ErrorKind::UndeclaredVariable,
                                m,
                                line,
                                col + (alo - lo),
                            ),
                        )
                    } else {
                        Err(er)
                    }
                },
            }
        },
    }
}

/// Parses a unary expression out of `v[lo..hi]`.
pub(crate) fn parse_unary_range(
    v: &Vec<char>,
    lo: usize,
    hi: usize,
    st: &SymbolTable,
    line: usize,
    col: usize,
) -> (r: Result<Expression, TranspilerError>)
    requires
        lo <= hi <= v@.len(),
        col + (hi - lo) <= usize::MAX,
    ensures
        ({
            let s = v@.subrange(lo as int, hi as int);
            match r {
                Ok(e) => spec_parse_unary(s, st@, line as int, col as int) == Ok::<
                    SpecExpr,
                    SpecErr,
                >(expr_model(e)),
                Err(er) => spec_parse_unary(s, st@, line as int, col as int) == Err::<
                    SpecExpr,
                    SpecErr,
                >(err_model(er)),
            }
        }),
    decreases hi - lo, 1int,
{
    let ghost s = v@.subrange(lo as int, hi as int);
    let (tlo, thi) = trim_range(v, lo, hi);
    let ghost t = trim_seq(s);
    let c = col + (tlo - lo);
    if tlo == thi {
        return parse_atomic_range(v, tlo, thi, st, line, c);
    }
    let c0 = v[tlo];
    proof {
        assert(t[0] == v@[tlo as int]);
        assert(t[t.len() - 1] == v@[thi - 1]);
    }
    if c0 == '-' {
        proof {
            assert(v@.subrange(tlo + 1, thi as int) =~= t.drop_first());
        }
        let inner = match parse_unary_range(v, tlo + 1, thi, st, line, c + 1) {
            Ok(e) => e,
            Err(er) => {
                return Err(er);
            },
        };
        if !is_numeric_type(inner.get_type()) {
            let mut m = String::from_str("unary minus not valid for type ");
            m.append(inner.get_type());
            return Err(
                TranspilerError::with_kind(ErrorKind::OperatorNotValidForType, m, line, c),
            );
        }
        let expr_type = String::from_str(inner.get_type());
        return Ok(
            Expression::UnaryOp { op: UnaryOperator::Negate, expr: Box::new(inner), expr_type },
        );
    }
    if c0 == '~' {
        proof {
            assert(v@.subrange(tlo + 1, thi as int) =~= t.drop_first());
        }
        let inner = match parse_unary_range(v, tlo + 1, thi, st, line, c + 1) {
            Ok(e) => e,
            Err(er) => {
                return Err(er);
            },
        };
        if !is_bitwise_type(inner.get_type()) {
            let mut m = String::from_str("bitwise inversion not valid for type ");
            m.append(inner.get_type());
            return Err(
                TranspilerError::with_kind(ErrorKind::OperatorNotValidForType, m, line, c),
            );
        }
        let expr_type = String::from_str(inner.get_type());
        return Ok(
            Expression::UnaryOp { op: UnaryOperator::BitwiseNot, expr: Box::new(inner), expr_type },
        );
    }
    if c0 == '(' && v[thi - 1] == ')' {
        let (ilo, ihi) = trim_range(v, tlo + 1, thi - 1);
        proof {
            assert(v@.subrange(tlo + 1, thi - 1) =~= t.subrange(1, t.len() - 1));
        }
        return parse_binary_range(v, ilo, ihi, st, line, c + 1 + (ilo - (tlo + 1)));
    }
    parse_atomic_range(v, tlo, thi, st, line, c)
}

/// Parses a binary expression out of `v[lo..hi]`.
pub(crate) fn parse_binary_range(
    v: &Vec<char>,
    lo: usize,
    hi: usize,
    st: &SymbolTable,
    line: usize,
    col: usize,
) -> (r: Result<Expression, TranspilerError>)
    requires
        lo <= hi <= v@.len(),
        col + (hi - lo) <= usize::MAX,
    ensures
        ({
            let s = v@.subrange(lo as int, hi as int);
            match r {
                Ok(e) => spec_parse_binary(s, st@, line as int, col as int) == Ok::<
                    SpecExpr,
                    SpecErr,
                >(expr_model(e)),
                Err(er) => spec_parse_binary(s, st@, line as int, col as int) == Err::<
                    SpecExpr,
                    SpecErr,
                >(err_model(er)),
            }
        }),
    decreases hi - lo, 2int,
{
    let ghost s = v@.subrange(lo as int, hi as int);
    match find_split_range(v, lo, hi) {
        None => parse_unary_range(v, lo, hi, st, line, col),
        Some((p, op)) => {
            let oplen = op.len();
            proof {
                assert(p + oplen <= hi);
                assert(v@.subrange(lo as int, p as int) =~= s.subrange(0, p - lo));
                assert(v@.subrange(p + oplen, hi as int) =~= s.subrange(
                    p - lo + op_len(op),
                    s.len() as int,
                ));
            }
            let le = match parse_binary_range(v, lo, p, st, line, col) {
                Ok(e) => e,
                Err(er) => {
                    return Err(er);
                },
            };
            let re = match parse_binary_range(v, p + oplen, hi, st, line, col + (p - lo) + oplen) {
                Ok(e) => e,
                Err(er) => {
                    return Err(er);
                },
            };
            if !str_eq(le.get_type(), re.get_type()) {
                let mut m = String::from_str("incompatible types: ");
                m.append(le.get_type());
                m.append(" and ");
                m.append(re.get_type());
                return Err(
                    TranspilerError::with_kind(ErrorKind::TypeMismatch, m, line, col + (p - lo)),
                );
            }
            if !op_valid_for(op, le.get_type()) {
                let mut m = String::from_str("operator not valid for type ");
                m.append(le.get_type());
                return Err(
                    TranspilerError::with_kind(
                        ErrorKind::OperatorNotValidForType,
                        m,
                        line,
                        col + (p - lo),
                    ),
                );
            }
            let expr_type = String::from_str(le.get_type());
            Ok(Expression::BinaryOp { left: Box::new(le), op, right: Box::new(re), expr_type })
        },
    }
}

/// Parses a full expression out of `v[lo..hi]`, detecting a compound
/// assignment at the top level only.
pub(crate) fn parse_expression_range(
    v: &Vec<char>,
    lo: usize,
    hi: usize,
    st: &SymbolTable,
    line: usize,
    col: usize,
) -> (r: Result<Expression, TranspilerError>)
    requires
        lo <= hi <= v@.len(),
        col + (hi - lo) <= usize::MAX,
    ensures
        ({
            let s = v@.subrange(lo as int, hi as int);
            match r {
                Ok(e) => spec_parse_expression(s, st@, line as int, col as int) == Ok::<
                    SpecExpr,
                    SpecErr,
                >(expr_model(e)),
                Err(er) => spec_parse_expression(s, st@, line as int, col as int) == Err::<
                    SpecExpr,
                    SpecErr,
                >(err_model(er)),
            }
        }),
    decreases hi - lo, 3int,
{
    let ghost s = v@.subrange(lo as int, hi as int);
    let (tlo, thi) = trim_range(v, lo, hi);
    let ghost t = trim_seq(s);
    let c = col + (tlo - lo);
    match find_comp_range(v, tlo, thi) {
        None => parse_binary_range(v, tlo, thi, st, line, c),
        Some((p, op)) => {
            let oplen = op.len() + 1;
            proof {
                assert(p + oplen <= thi);
                assert(v@.subrange(tlo as int, p as int) =~= t.subrange(0, p - tlo));
                assert(v@.subrange(p + oplen, thi as int) =~= t.subrange(
                    p - tlo + op_len(op) + 1,
                    t.len() as int,
                ));
            }
            let (nlo, nhi) = trim_range(v, tlo, p);
            let (wlo, whi) = trim_range(v, p + oplen, thi);
            if nlo == nhi || wlo == whi {
                return parse_binary_range(v, tlo, thi, st, line, c);
            }
            match st.find_range(v, nlo, nhi) {
                None => {
                    let namestr = string_from_range(v, nlo, nhi);
                    let mut m = String::from_str("undeclared variable: ");
                    m.append(namestr.as_str());
                    Err(TranspilerError::with_kind(ErrorKind::UndeclaredVariable, m, line, c))
                },
                Some(ty) => {
                    let tyc = ty.clone();
                    let ve = match parse_expression_range(
                        v,
                        p + oplen,
                        thi,
                        st,
                        line,
                        c + (p - tlo) + oplen,
                    ) {
                        Ok(e) => e,
                        Err(er) => {
                            return Err(er);
                        },
                    };
                    if !str_eq(tyc.as_str(), ve.get_type()) {
                        let mut m = String::from_str("incompatible types: ");
                        m.append(tyc.as_str());
                        m.append(" and ");
                        m.append(ve.get_type());
                        return Err(
                            TranspilerError::with_kind(ErrorKind::TypeMismatch, m, line, c),
                        );
                    }
                    let name = string_from_range(v, nlo, nhi);
                    Ok(Expression::CompoundAssign { name, op, value: Box::new(ve), expr_type: tyc })
                },
            }
        },
    }
}

/// Parses one expression against the symbol table. `column` is the
/// column, starting at 1, where the text begins in its line; it bounds
/// the columns that errors report.
pub fn parse_expression(
    expr: &str,
    variables: &SymbolTable,
    line_num: usize,
    column: usize,
) -> (r: Result<Expression, TranspilerError>)
    requires
        column + expr@.len() <= usize::MAX,
    ensures
        match r {
            Ok(e) => spec_parse_expression(expr@, variables@, line_num as int, column as int)
                == Ok::<SpecExpr, SpecErr>(expr_model(e)),
            Err(er) => spec_parse_expression(expr@, variables@, line_num as int, column as int)
                == Err::<SpecExpr, SpecErr>(err_model(er)),
        },
{
    let v = crate::text::chars_of(expr);
    let hi = v.len();
    proof {
        assert(v@.subrange(0, hi as int) =~= expr@);
    }
    parse_expression_range(&v, 0, hi, variables, line_num, column)
}

} // verus!
