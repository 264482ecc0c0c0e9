//! The line parser: separates a raw line into code and comment, and
//! classifies the code segment as one of the five statement kinds,
//! consulting and updating the symbol table.

use crate::error::{err_model, serr, ErrorKind, SpecErr, TranspilerError};
use crate::expressions::{
    find_comp, find_comp_range, msg_mismatch, msg_undeclared, parse_expression_range,
    spec_parse_expression,
};
use crate::symtab::SymbolTable;
use crate::text::{
    alpha_char, chars_of, find_char_range, find_from, lws, range_eq_str, str_eq,
    string_from_range, trim_range, trim_seq, trim_start_range, trim_start_seq, vec_from_range,
};
use crate::types::{
    escape_range, escape_seq, line_model, map_type_range, opt_str_model,
    spec_type_of, type_mapping_spec, Expression, ParsedLine, SpecExpr, SpecLine,
};
use vstd::prelude::*;
use vstd::string::StringExecFns;

verus! {

/// The position of the comment marker: the first `#` seen outside a
/// quoted literal (double and single quotes toggle the same flag) and not
/// suppressed by a preceding backslash.
pub open spec fn comment_pos(s: Seq<char>, i: int, in_str: bool, esc: bool) -> Option<int>
    decreases s.len() - i,
{
    if i < 0 || i >= s.len() {
        None
    } else if esc {
        comment_pos(s, i + 1, in_str, false)
    } else if s[i] == '\\' {
        comment_pos(s, i + 1, in_str, true)
    } else if s[i] == '"' || s[i] == '\'' {
        comment_pos(s, i + 1, !in_str, false)
    } else if s[i] == '#' && !in_str {
        Some(i)
    } else {
        comment_pos(s, i + 1, in_str, false)
    }
}

/// The executable-code part of a raw line: everything before the comment
/// marker, or the whole line.
pub open spec fn split_code(s: Seq<char>) -> Seq<char> {
    match comment_pos(s, 0, false, false) {
        Some(k) => s.take(k),
        None => s,
    }
}

/// The comment part of a raw line: everything after the marker, absent
/// (not empty) when no marker occurs.
pub open spec fn split_comment(s: Seq<char>) -> Option<Seq<char>> {
    match comment_pos(s, 0, false, false) {
        Some(k) => Some(s.subrange(k + 1, s.len() as int)),
        None => None,
    }
}

/// The comment with leading whitespace removed, as statements carry it.
pub open spec fn opt_comment(line: Seq<char>) -> Option<Seq<char>> {
    match split_comment(line) {
        Some(cm) => Some(trim_start_seq(cm)),
        None => None,
    }
}

/// Finds the comment marker in `v[lo..hi]`.
pub(crate) fn comment_pos_range(v: &Vec<char>, lo: usize, hi: usize) -> (r: Option<usize>)
    requires
        lo <= hi <= v@.len(),
    ensures
        ({
            let s = v@.subrange(lo as int, hi as int);
            match r {
                Some(k) => lo <= k < hi && comment_pos(s, 0, false, false) == Some(k - lo),
                None => comment_pos(s, 0, false, false) is None,
            }
        }),
{
    let ghost s = v@.subrange(lo as int, hi as int);
    let mut in_str = false;
    let mut esc = false;
    let mut i: usize = lo;
    while i < hi
        invariant
            lo <= i <= hi <= v@.len(),
            s == v@.subrange(lo as int, hi as int),
            comment_pos(s, 0, false, false) == comment_pos(s, i - lo, in_str, esc),
        decreases hi - i,
    {
        let c = v[i];
        proof {
            assert(s[i - lo] == v@[i as int]);
        }
        if esc {
            esc = false;
        } else if c == '\\' {
            esc = true;
        } else if c == '"' || c == '\'' {
            in_str = !in_str;
        } else if c == '#' && !in_str {
            return Some(i);
        }
        i = i + 1;
    }
    None
}

/// Separates one raw line into its code part and its optional trailing
/// comment. A `#` inside a quoted literal, or escaped by a backslash,
/// does not start a comment; the comment excludes the marker itself.
pub fn split_code_and_comment(line: &str) -> (r: (String, Option<String>))
    ensures
        r.0@ == split_code(line@),
        opt_str_model(r.1) == split_comment(line@),
{
    let v = chars_of(line);
    let n = v.len();
    proof {
        assert(v@.subrange(0, n as int) =~= line@);
    }
    match comment_pos_range(&v, 0, n) {
        Some(k) => {
            proof {
                assert(v@.subrange(0, k as int) =~= line@.take(k as int));
                assert(v@.subrange(k + 1, n as int) =~= line@.subrange(k + 1, line@.len() as int));
            }
            let code = string_from_range(&v, 0, k);
            let cm = string_from_range(&v, k + 1, n);
            (code, Some(cm))
        },
        None => {
            proof {
                assert(v@.subrange(0, n as int) =~= line@);
            }
            (string_from_range(&v, 0, n), None)
        },
    }
}

/// Whether the trimmed code segment starts with the reserved word of the
/// formatted-output statement.
pub open spec fn is_print_prefixed(t: Seq<char>) -> bool {
    t.len() >= 5 && t.subrange(0, 5) == "print"@
}

/// What a formatted-output statement parses to: a parenthesized argument
/// that must be a double-quoted string literal.
pub open spec fn spec_print_stmt(
    t: Seq<char>,
    comment: Option<Seq<char>>,
    indent: int,
    ln: int,
    base: int,
) -> Result<SpecLine, SpecErr> {
    match (find_from(t, 0, '('), find_from(t, 0, ')')) {
        (Some(o), Some(cl)) => if cl < o + 1 {
            Err(
                serr(
                    ErrorKind::Syntax,
                    "print argument must be a double-quoted string"@,
                    ln,
                    base + o + 1,
                ),
            )
        } else {
            let args = trim_seq(t.subrange(o + 1, cl));
            if args.len() >= 2 && args[0] == '"' && args[args.len() - 1] == '"' {
                Ok(
                    SpecLine::Print {
                        content: escape_seq(args.subrange(1, args.len() - 1)),
                        comment,
                        indent,
                    },
                )
            } else {
                Err(
                    serr(
                        ErrorKind::Syntax,
                        "print argument must be a double-quoted string"@,
                        ln,
                        base + o + 1,
                    ),
                )
            }
        },
        _ => Err(serr(ErrorKind::Syntax, "missing parentheses in print call"@, ln, 1)),
    }
}

/// What a declaration parses to, with the table it leaves: the name is
/// recorded before the initializer is parsed, and the initializer's type
/// must equal the declared type exactly.
pub open spec fn spec_decl_stmt(
    t: Seq<char>,
    cp: int,
    comment: Option<Seq<char>>,
    indent: int,
    ln: int,
    base: int,
    st: Map<Seq<char>, Seq<char>>,
) -> (Result<SpecLine, SpecErr>, Map<Seq<char>, Seq<char>>) {
    let name = trim_seq(t.take(cp));
    if name.len() == 0 {
        (Err(serr(ErrorKind::Syntax, "missing variable name"@, ln, 1)), st)
    } else if !alpha_char(name[0]) {
        (Err(serr(ErrorKind::Syntax, "variable name must start with a letter"@, ln, base)), st)
    } else {
        let after = t.subrange(cp + 1, t.len() as int);
        let ep_opt = find_from(after, 0, '=');
        let ty_raw = match ep_opt {
            Some(ep) => after.take(ep),
            None => after,
        };
        let ty = trim_seq(ty_raw);
        if type_mapping_spec(ty) is None {
            (
                Err(
                    serr(
                        ErrorKind::UnknownType,
                        "unknown type: "@ + ty,
                        ln,
                        base + cp + 1 + lws(ty_raw),
                    ),
                ),
                st,
            )
        } else {
            let st1 = st.insert(name, ty);
            match ep_opt {
                None => (
                    Ok(SpecLine::VariableDecl { name, ty_name: ty, value: None, comment, indent }),
                    st1,
                ),
                Some(ep) => {
                    let itext = after.subrange(ep + 1, after.len() as int);
                    let icol = base + cp + ep + 2;
                    match spec_parse_expression(itext, st1, ln, icol) {
                        Err(e) => (Err(e), st1),
                        Ok(ve) => if spec_type_of(ve) != ty {
                            (
                                Err(
                                    serr(
                                        ErrorKind::TypeMismatch,
                                        msg_mismatch(ty, spec_type_of(ve)),
                                        ln,
                                        icol + lws(itext),
                                    ),
                                ),
                                st1,
                            )
                        } else {
                            (
                                Ok(
                                    SpecLine::VariableDecl {
                                        name,
                                        ty_name: ty,
                                        value: Some(ve),
                                        comment,
                                        indent,
                                    },
                                ),
                                st1,
                            )
                        },
                    }
                },
            }
        }
    }
}

/// What a plain assignment parses to: the name must be declared and the
/// right-hand side's type must equal its declared type exactly.
pub open spec fn spec_plain_assign(
    t: Seq<char>,
    ep: int,
    comment: Option<Seq<char>>,
    indent: int,
    ln: int,
    base: int,
    st: Map<Seq<char>, Seq<char>>,
) -> Result<SpecLine, SpecErr> {
    let lhs = trim_seq(t.take(ep));
    if !st.contains_key(lhs) {
        Err(serr(ErrorKind::UndeclaredVariable, msg_undeclared(lhs), ln, base))
    } else {
        let rhs = t.subrange(ep + 1, t.len() as int);
        match spec_parse_expression(rhs, st, ln, base + ep + 1) {
            Err(e) => Err(e),
            Ok(ve) => if spec_type_of(ve) != st[lhs] {
                Err(
                    serr(
                        ErrorKind::TypeMismatch,
                        msg_mismatch(st[lhs], spec_type_of(ve)),
                        ln,
                        base + ep + 1 + lws(rhs),
                    ),
                )
            } else {
                Ok(SpecLine::VariableAssign { name: lhs, value: ve, comment, indent })
            },
        }
    }
}

/// What an assignment statement parses to: a compound operator hands the
/// whole code segment to the expression parser, which resolves it into a
/// compound-assignment node; otherwise the right-hand side of the first
/// `=` is assigned to the left-hand name.
pub open spec fn spec_assign_stmt(
    t: Seq<char>,
    ep: int,
    comment: Option<Seq<char>>,
    indent: int,
    ln: int,
    base: int,
    st: Map<Seq<char>, Seq<char>>,
) -> Result<SpecLine, SpecErr> {
    match find_comp(t, 0) {
        Some(pair) => match spec_parse_expression(t, st, ln, base) {
            Err(e) => Err(e),
            Ok(ve) => match ve {
                SpecExpr::CompoundAssign { name, .. } => Ok(
                    SpecLine::VariableAssign { name, value: ve, comment, indent },
                ),
                _ => spec_plain_assign(t, ep, comment, indent, ln, base, st),
            },
        },
        None => spec_plain_assign(t, ep, comment, indent, ln, base, st),
    }
}

/// What one raw line parses to, with the symbol table it leaves behind.
/// Classification priority: blank or comment-only, formatted output,
/// declaration (any colon), assignment (any equals sign after a name),
/// otherwise a syntax failure at column 1.
pub open spec fn spec_parse_line(line: Seq<char>, ln: int, st: Map<Seq<char>, Seq<char>>) -> (
    Result<SpecLine, SpecErr>,
    Map<Seq<char>, Seq<char>>,
) {
    let indent = lws(line);
    let code = split_code(line);
    let t = trim_seq(code);
    let comment = opt_comment(line);
    let base = lws(code) + 1;
    if t.len() == 0 {
        match comment {
            Some(cm) => (
                Ok(
                    SpecLine::Comment {
                        content: if cm.len() == 0 {
                            "//"@
                        } else {
                            "// "@ + cm
                        },
                        indent,
                    },
                ),
                st,
            ),
            None => (Ok(SpecLine::Empty), st),
        }
    } else if is_print_prefixed(t) {
        (spec_print_stmt(t, comment, indent, ln, base), st)
    } else {
        match find_from(t, 0, ':') {
            Some(cp) => spec_decl_stmt(t, cp, comment, indent, ln, base, st),
            None => match find_from(t, 0, '=') {
                Some(ep) => {
                    let lhs = trim_seq(t.take(ep));
                    if lhs.len() > 0 && alpha_char(lhs[0]) {
                        (spec_assign_stmt(t, ep, comment, indent, ln, base, st), st)
                    } else {
                        (
                            Err(
                                serr(
                                    ErrorKind::Syntax,
                                    "unrecognized statement; expected print, a declaration or an assignment"@,
                                    ln,
                                    1,
                                ),
                            ),
                            st,
                        )
                    }
                },
                None => (
                    Err(
                        serr(
                            ErrorKind::Syntax,
                            "unrecognized statement; expected print, a declaration or an assignment"@,
                            ln,
                            1,
                        ),
                    ),
                    st,
                ),
            },
        }
    }
}

/// Parses a plain assignment out of the trimmed code `v[tlo..thi]` whose
/// first `=` stands at `ep`.
fn parse_plain_assign(
    v: &Vec<char>,
    tlo: usize,
    thi: usize,
    ep: usize,
    st: &SymbolTable,
    line_num: usize,
    comment: Option<String>,
    indent: usize,
) -> (r: Result<ParsedLine, TranspilerError>)
    requires
        tlo <= ep < thi <= v@.len(),
        v@.len() <= usize::MAX - 2,
    ensures
        ({
            let t = v@.subrange(tlo as int, thi as int);
            let sp = spec_plain_assign(
                t,
                ep - tlo,
                opt_str_model(comment),
                indent as int,
                line_num as int,
                tlo + 1 as int,
                st@,
            );
            match r {
                Ok(pl) => sp == Ok::<SpecLine, SpecErr>(line_model(pl)),
                Err(er) => sp == Err::<SpecLine, SpecErr>(err_model(er)),
            }
        }),
{
    let ghost t = v@.subrange(tlo as int, thi as int);
    let (llo, lhi) = trim_range(v, tlo, ep);
    proof {
        assert(v@.subrange(tlo as int, ep as int) =~= t.take(ep - tlo));
    }
    match st.find_range(v, llo, lhi) {
        None => {
            let namestr = string_from_range(v, llo, lhi);
            let mut m = String::from_str("undeclared variable: ");
            m.append(namestr.as_str());
            Err(TranspilerError::with_kind(ErrorKind::UndeclaredVariable, m, line_num, tlo + 1))
        },
        Some(ty) => {
            let tyc = ty.clone();
            proof {
                assert(v@.subrange(ep + 1, thi as int) =~= t.subrange(ep - tlo + 1, t.len() as int));
            }
            let ve = match parse_expression_range(v, ep + 1, thi, st, line_num, ep + 2) {
                Ok(e) => e,
                Err(er) => {
                    return Err(er);
                },
            };
            if !str_eq(ve.get_type(), tyc.as_str()) {
                let (rlo, _rhi) = trim_range(v, ep + 1, thi);
                let mut m = String::from_str("incompatible types: ");
                m.append(tyc.as_str());
                m.append(" and ");
                m.append(ve.get_type());
                return Err(
                    TranspilerError::with_kind(ErrorKind::TypeMismatch, m, line_num, rlo + 1),
                );
            }
            let name = string_from_range(v, llo, lhi);
            Ok(ParsedLine::VariableAssign { name, value: ve, comment, indent })
        },
    }
}

/// Parses a formatted-output statement out of the trimmed code
/// `v[tlo..thi]`.
fn parse_print_stmt(
    v: &Vec<char>,
    tlo: usize,
    thi: usize,
    line_num: usize,
    comment: Option<String>,
    indent: usize,
) -> (r: Result<ParsedLine, TranspilerError>)
    requires
        tlo <= thi <= v@.len(),
        v@.len() <= usize::MAX - 2,
    ensures
        ({
            let t = v@.subrange(tlo as int, thi as int);
            let sp = spec_print_stmt(
                t,
                opt_str_model(comment),
                indent as int,
                line_num as int,
                tlo + 1 as int,
            );
            match r {
                Ok(pl) => sp == Ok::<SpecLine, SpecErr>(line_model(pl)),
                Err(er) => sp == Err::<SpecLine, SpecErr>(err_model(er)),
            }
        }),
{
    let ghost t = v@.subrange(tlo as int, thi as int);
    let o_opt = find_char_range(v, tlo, thi, '(');
    let cl_opt = find_char_range(v, tlo, thi, ')');
    let o: usize;
    let cl: usize;
    match (o_opt, cl_opt) {
        (Some(a), Some(b)) => {
            o = a;
            cl = b;
        },
        _ => {
            return Err(TranspilerError::new("missing parentheses in print call", line_num, 1));
        },
    }
    if cl < o + 1 {
        return Err(
            TranspilerError::new("print argument must be a double-quoted string", line_num, o + 2),
        );
    }
    let (alo, ahi) = trim_range(v, o + 1, cl);
    let ghost args = trim_seq(t.subrange(o - tlo + 1, cl - tlo));
    proof {
        assert(v@.subrange(o + 1, cl as int) =~= t.subrange(o - tlo + 1, cl - tlo));
        if ahi > alo {
            assert(args[0] == v@[alo as int]);
            assert(args[args.len() - 1] == v@[ahi - 1]);
        }
    }
    if ahi - alo >= 2 && v[alo] == '"' && v[ahi - 1] == '"' {
        let content = escape_range(v, alo + 1, ahi - 1);
        proof {
            assert(v@.subrange(alo + 1, ahi - 1) =~= args.subrange(1, args.len() - 1));
        }
        return Ok(ParsedLine::Print { content, comment, indent });
    }
    Err(TranspilerError::new("print argument must be a double-quoted string", line_num, o + 2))
}

/// Parses a declaration out of the trimmed code `v[tlo..thi]` whose first
/// colon stands at `cp`, updating the symbol table before any initializer
/// is parsed.
fn parse_decl_stmt(
    v: &Vec<char>,
    tlo: usize,
    thi: usize,
    cp: usize,
    variables: &mut SymbolTable,
    line_num: usize,
    comment: Option<String>,
    indent: usize,
) -> (r: Result<ParsedLine, TranspilerError>)
    requires
        tlo <= cp < thi <= v@.len(),
        v@.len() <= usize::MAX - 2,
    ensures
        ({
            let t = v@.subrange(tlo as int, thi as int);
            let pr = spec_decl_stmt(
                t,
                cp - tlo,
                opt_str_model(comment),
                indent as int,
                line_num as int,
                tlo + 1 as int,
                old(variables)@,
            );
            &&& final(variables)@ == pr.1
            &&& match r {
                Ok(pl) => pr.0 == Ok::<SpecLine, SpecErr>(line_model(pl)),
                Err(er) => pr.0 == Err::<SpecLine, SpecErr>(err_model(er)),
            }
        }),
{
    let ghost t = v@.subrange(tlo as int, thi as int);
    let (nlo, nhi) = trim_range(v, tlo, cp);
    let ghost name = trim_seq(t.take(cp - tlo));
    proof {
        assert(v@.subrange(tlo as int, cp as int) =~= t.take(cp - tlo));
    }
    if nlo == nhi {
        return Err(TranspilerError::new("missing variable name", line_num, 1));
    }
    proof {
        assert(name[0] == v@[nlo as int]);
    }
    if !v[nlo].is_alphabetic() {
        return Err(
            TranspilerError::new("variable name must start with a letter", line_num, tlo + 1),
        );
    }
    let ghost after = t.subrange(cp - tlo + 1, t.len() as int);
    proof {
        assert(v@.subrange(cp + 1, thi as int) =~= after);
    }
    let ep_opt = find_char_range(v, cp + 1, thi, '=');
    let ty_end = match ep_opt {
        Some(ep) => ep,
        None => thi,
    };
    let ghost ty_raw = match find_from(after, 0, '=') {
        Some(ep) => after.take(ep),
        None => after,
    };
    proof {
        assert(v@.subrange(cp + 1, ty_end as int) =~= ty_raw);
    }
    let (ylo, yhi) = trim_range(v, cp + 1, ty_end);
    let known = map_type_range(v, ylo, yhi);
    if known.is_none() {
        let tytxt = string_from_range(v, ylo, yhi);
        let mut m = String::from_str("unknown type: ");
        m.append(tytxt.as_str());
        return Err(TranspilerError::with_kind(ErrorKind::UnknownType, m, line_num, ylo + 1));
    }
    let namevec = vec_from_range(v, nlo, nhi);
    let tystr = string_from_range(v, ylo, yhi);
    variables.insert_chars(namevec, tystr);
    match ep_opt {
        None => {
            let name_s = string_from_range(v, nlo, nhi);
            let ty_s = string_from_range(v, ylo, yhi);
            Ok(
                ParsedLine::VariableDecl {
                    name: name_s,
                    ty_name: ty_s,
                    value: None,
                    comment,
                    indent,
                },
            )
        },
        Some(ep) => {
            proof {
                assert(v@.subrange(ep + 1, thi as int) =~= after.subrange(
                    ep - cp,
                    after.len() as int,
                ));
            }
            let ve = match parse_expression_range(v, ep + 1, thi, variables, line_num, ep + 2) {
                Ok(e) => e,
                Err(er) => {
                    return Err(er);
                },
            };
            let ty_s = string_from_range(v, ylo, yhi);
            if !str_eq(ve.get_type(), ty_s.as_str()) {
                let (ilo, _ihi) = trim_range(v, ep + 1, thi);
                let mut m = String::from_str("incompatible types: ");
                m.append(ty_s.as_str());
                m.append(" and ");
                m.append(ve.get_type());
                return Err(
                    TranspilerError::with_kind(ErrorKind::TypeMismatch, m, line_num, ilo + 1),
                );
            }
            let name_s = string_from_range(v, nlo, nhi);
            Ok(
                ParsedLine::VariableDecl {
                    name: name_s,
                    ty_name: ty_s,
                    value: Some(ve),
                    comment,
                    indent,
                },
            )
        },
    }
}

/// Parses an assignment statement out of the trimmed code `v[tlo..thi]`
/// whose first `=` stands at `ep`.
fn parse_assign_stmt(
    v: &Vec<char>,
    tlo: usize,
    thi: usize,
    ep: usize,
    st: &SymbolTable,
    line_num: usize,
    comment: Option<String>,
    indent: usize,
) -> (r: Result<ParsedLine, TranspilerError>)
    requires
        tlo <= ep < thi <= v@.len(),
        v@.len() <= usize::MAX - 2,
    ensures
        ({
            let t = v@.subrange(tlo as int, thi as int);
            let sp = spec_assign_stmt(
                t,
                ep - tlo,
                opt_str_model(comment),
                indent as int,
                line_num as int,
                tlo + 1 as int,
                st@,
            );
            match r {
                Ok(pl) => sp == Ok::<SpecLine, SpecErr>(line_model(pl)),
                Err(er) => sp == Err::<SpecLine, SpecErr>(err_model(er)),
            }
        }),
{
    let ghost t = v@.subrange(tlo as int, thi as int);
    match find_comp_range(v, tlo, thi) {
        Some(_) => {
            let ve = match parse_expression_range(v, tlo, thi, st, line_num, tlo + 1) {
                Ok(e) => e,
                Err(er) => {
                    return Err(er);
                },
            };
            let is_comp = match &ve {
                Expression::CompoundAssign { .. } => true,
                _ => false,
            };
            if is_comp {
                let nm = match &ve {
                    Expression::CompoundAssign { name, .. } => name.clone(),
                    _ => String::new(),
                };
                return Ok(ParsedLine::VariableAssign { name: nm, value: ve, comment, indent });
            }
            parse_plain_assign(v, tlo, thi, ep, st, line_num, comment, indent)
        },
        None => parse_plain_assign(v, tlo, thi, ep, st, line_num, comment, indent),
    }
}

/// Parses one raw line against the symbol table, which a declaration
/// updates before its initializer is parsed.
#[verifier::rlimit(100)]
pub fn parse_line(line: &str, line_num: usize, variables: &mut SymbolTable) -> (r: Result<
    ParsedLine,
    TranspilerError,
>)
    requires
        line@.len() <= usize::MAX - 2,
    ensures
        ({
            let pr = spec_parse_line(line@, line_num as int, old(variables)@);
            &&& final(variables)@ == pr.1
            &&& match r {
                Ok(pl) => pr.0 == Ok::<SpecLine, SpecErr>(line_model(pl)),
                Err(er) => pr.0 == Err::<SpecLine, SpecErr>(err_model(er)),
            }
        }),
{
    let v = chars_of(line);
    let n = v.len();
    proof {
        assert(v@.subrange(0, n as int) =~= line@);
    }
    let indent = trim_start_range(&v, 0, n);
    let cpos = comment_pos_range(&v, 0, n);
    let code_end = match cpos {
        Some(k) => k,
        None => n,
    };
    let ghost code = split_code(line@);
    proof {
        assert(v@.subrange(0, code_end as int) =~= code);
    }
    let (tlo, thi) = trim_range(&v, 0, code_end);
    let ghost t = trim_seq(code);
    if tlo == thi {
        match cpos {
            Some(k) => {
                let clo = trim_start_range(&v, k + 1, n);
                proof {
                    assert(v@.subrange(k + 1, n as int) =~= line@.subrange(
                        k + 1,
                        line@.len() as int,
                    ));
                }
                if clo == n {
                    return Ok(ParsedLine::Comment { content: String::from_str("//"), indent });
                } else {
                    let mut content = String::from_str("// ");
                    let cmstr = string_from_range(&v, clo, n);
                    content.append(cmstr.as_str());
                    return Ok(ParsedLine::Comment { content, indent });
                }
            },
            None => {
                return Ok(ParsedLine::Empty);
            },
        }
    }
    let comment: Option<String> = match cpos {
        Some(k) => {
            let clo = trim_start_range(&v, k + 1, n);
            proof {
                assert(v@.subrange(k + 1, n as int) =~= line@.subrange(k + 1, line@.len() as int));
            }
            Some(string_from_range(&v, clo, n))
        },
        None => None,
    };
    let base = tlo + 1;
    let is_print = thi - tlo >= 5 && range_eq_str(&v, tlo, tlo + 5, "print");
    proof {
        if thi - tlo >= 5 {
            assert(v@.subrange(tlo as int, tlo + 5) =~= t.subrange(0, 5));
        }
    }
    if is_print {
        return parse_print_stmt(&v, tlo, thi, line_num, comment, indent);
    }
    match find_char_range(&v, tlo, thi, ':') {
        Some(cp) => parse_decl_stmt(&v, tlo, thi, cp, variables, line_num, comment, indent),
        None => {
            match find_char_range(&v, tlo, thi, '=') {
                Some(ep) => {
                    let (llo, lhi) = trim_range(&v, tlo, ep);
                    proof {
                        assert(v@.subrange(tlo as int, ep as int) =~= t.take(ep - tlo));
                        if lhi > llo {
                            assert(trim_seq(t.take(ep - tlo))[0] == v@[llo as int]);
                        }
                    }
                    if lhi > llo && v[llo].is_alphabetic() {
                        parse_assign_stmt(&v, tlo, thi, ep, variables, line_num, comment, indent)
                    } else {
                        Err(
                            TranspilerError::new(
                                "unrecognized statement; expected print, a declaration or an assignment",
                                line_num,
                                1,
                            ),
                        )
                    }
                },
                None => Err(
                    TranspilerError::new(
                        "unrecognized statement; expected print, a declaration or an assignment",
                        line_num,
                        1,
                    ),
                ),
            }
        },
    }
}

} // verus!
