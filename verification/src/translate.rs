//! The whole translation run: one pass over the input lines, fail-fast,
//! producing a single program-entry block that wraps every rendered
//! statement in order.

use crate::error::{err_model, serr, ErrorKind, SpecErr, TranspilerError};
use crate::generator::{gen_line, generate_rust_line};
use crate::parser::{parse_line, spec_parse_line};
use crate::symtab::SymbolTable;
use crate::types::{line_model, ParsedLine, SpecLine};
use vstd::prelude::*;
use vstd::string::StrSliceExecFns;
use vstd::string::StringExecFns;

verus! {

/// Whether a statement produces runnable code in the output program.
pub open spec fn is_executable(p: SpecLine) -> bool {
    match p {
        SpecLine::Print { .. } => true,
        SpecLine::VariableDecl { .. } => true,
        _ => false,
    }
}

/// What parsing the lines from index `i` on returns, threading the
/// symbol table forward and stopping at the first failure.
pub open spec fn spec_parse_program(
    lines: Seq<Seq<char>>,
    i: int,
    st: Map<Seq<char>, Seq<char>>,
) -> Result<Seq<SpecLine>, SpecErr>
    decreases lines.len() - i,
{
    if i < 0 || i >= lines.len() {
        Ok(Seq::empty())
    } else {
        let pr = spec_parse_line(lines[i], i + 1, st);
        match pr.0 {
            Err(e) => Err(e),
            Ok(pl) => match spec_parse_program(lines, i + 1, pr.1) {
                Err(e) => Err(e),
                Ok(rest) => Ok(seq![pl] + rest),
            },
        }
    }
}

/// Whether any statement of the program produces runnable code.
pub open spec fn has_executable(ps: Seq<SpecLine>) -> bool {
    exists|i: int| 0 <= i < ps.len() && is_executable(ps[i])
}

/// The rendered program body from statement `i` on: every non-empty
/// rendered line stands behind four spaces of body indentation, every
/// blank line stays an empty line.
pub open spec fn render_program(ps: Seq<SpecLine>, i: int) -> Seq<char>
    decreases ps.len() - i,
{
    if i < 0 || i >= ps.len() {
        Seq::empty()
    } else {
        let l = gen_line(ps[i]);
        (if l.len() == 0 {
            seq!['\n']
        } else {
            "    "@ + l + seq!['\n']
        }) + render_program(ps, i + 1)
    }
}

/// What the whole translation returns: the first failure anywhere aborts
/// the run; a program without a single runnable statement is rejected;
/// otherwise every rendered line stands, in order, inside one
/// program-entry block.
pub open spec fn spec_transpile(lines: Seq<Seq<char>>) -> Result<Seq<char>, SpecErr> {
    match spec_parse_program(lines, 0, Map::empty()) {
        Err(e) => Err(e),
        Ok(ps) => if !has_executable(ps) {
            Err(serr(ErrorKind::Syntax, "no executable statements in the input"@, 1, 1))
        } else {
            Ok("fn main() {\n"@ + render_program(ps, 0) + "}"@)
        },
    }
}

/// The models of a sequence of classified statements.
pub open spec fn models_of(ps: Seq<ParsedLine>) -> Seq<SpecLine> {
    ps.map(|i: int, p: ParsedLine| line_model(p))
}

/// Translates the input lines into one target program. The single pass
/// threads a fresh symbol table through every line in order and aborts at
/// the first failure with no partial output.
pub fn transpile(lines: &Vec<String>) -> (r: Result<String, TranspilerError>)
    requires
        forall|i: int| 0 <= i < lines@.len() ==> #[trigger] lines@[i]@.len() <= usize::MAX - 2,
    ensures
        match r {
            Ok(out) => spec_transpile(lines.deep_view()) == Ok::<Seq<char>, SpecErr>(out@),
            Err(er) => spec_transpile(lines.deep_view()) == Err::<Seq<char>, SpecErr>(
                err_model(er),
            ),
        },
{
    let ghost ls = lines.deep_view();
    proof {
        assert(ls.len() == lines@.len());
        assert forall|i: int| 0 <= i < ls.len() implies ls[i] == lines@[i]@ by {
            assert(lines.deep_view()[i] == lines@[i].deep_view());
        }
    }
    let mut variables = SymbolTable::new();
    let mut parsed: Vec<ParsedLine> = Vec::new();
    let n = lines.len();
    let mut i: usize = 0;
    while i < n
        invariant
            0 <= i <= n,
            n == lines@.len(),
            ls == lines.deep_view(),
            ls.len() == n,
            forall|j: int| 0 <= j < ls.len() ==> ls[j] == lines@[j]@,
            forall|j: int| 0 <= j < lines@.len() ==> #[trigger] lines@[j]@.len() <= usize::MAX - 2,
            parsed@.len() == i,
            match spec_parse_program(ls, i as int, variables@) {
                Ok(rest) => spec_parse_program(ls, 0, Map::empty()) == Ok::<Seq<SpecLine>, SpecErr>(
                    models_of(parsed@) + rest,
                ),
                Err(e) => spec_parse_program(ls, 0, Map::empty()) == Err::<Seq<SpecLine>, SpecErr>(
                    e,
                ),
            },
        decreases n - i,
    {
        let ghost st_before = variables@;
        let pl = match parse_line(lines[i].as_str(), i + 1, &mut variables) {
            Ok(p) => p,
            Err(e) => {
                return Err(e);
            },
        };
        let ghost plm = line_model(pl);
        let ghost parsed_old = parsed@;
        parsed.push(pl);
        proof {
            let pr = spec_parse_line(ls[i as int], i + 1, st_before);
            assert(pr.0 == Ok::<SpecLine, SpecErr>(plm));
            assert(variables@ == pr.1);
            let old_models = models_of(parsed_old);
            assert(parsed@.drop_last() =~= parsed_old);
            assert(models_of(parsed@) =~= old_models.push(plm));
            match spec_parse_program(ls, i + 1, variables@) {
                Ok(rest) => {
                    assert(spec_parse_program(ls, i as int, st_before) == Ok::<
                        Seq<SpecLine>,
                        SpecErr,
                    >(seq![plm] + rest));
                    assert(old_models + (seq![plm] + rest) =~= models_of(parsed@) + rest);
                },
                Err(e) => {},
            }
        }
        i = i + 1;
    }
    proof {
        assert(spec_parse_program(ls, n as int, variables@) == Ok::<Seq<SpecLine>, SpecErr>(
            Seq::empty(),
        ));
        assert(models_of(parsed@) + Seq::<SpecLine>::empty() =~= models_of(parsed@));
    }
    let ghost ps = models_of(parsed@);
    let mut any = false;
    let m = parsed.len();
    let mut j: usize = 0;
    while j < m
        invariant
            0 <= j <= m,
            m == parsed@.len(),
            ps == models_of(parsed@),
            any == exists|k: int| 0 <= k < j && is_executable(ps[k]),
        decreases m - j,
    {
        let e = match &parsed[j] {
            ParsedLine::Print { .. } => true,
            ParsedLine::VariableDecl { .. } => true,
            _ => false,
        };
        proof {
            assert(ps[j as int] == line_model(parsed@[j as int]));
            if e {
                assert(is_executable(ps[j as int]));
            }
        }
        if e {
            any = true;
        }
        j = j + 1;
    }
    if !any {
        return Err(
            TranspilerError::with_kind(
                ErrorKind::Syntax,
                String::from_str("no executable statements in the input"),
                1,
                1,
            ),
        );
    }
    let mut out = String::from_str("fn main() {\n");
    let mut k: usize = 0;
    while k < m
        invariant
            0 <= k <= m,
            m == parsed@.len(),
            ps == models_of(parsed@),
            "fn main() {\n"@ + render_program(ps, 0) == out@ + render_program(ps, k as int),
        decreases m - k,
    {
        let linetext = generate_rust_line(&parsed[k]);
        proof {
            assert(ps[k as int] == line_model(parsed@[k as int]));
        }
        let ghost before = out@;
        if linetext.as_str().unicode_len() == 0 {
            out.push('\n');
            proof {
                assert(out@ =~= before + seq!['\n']);
            }
        } else {
            out.append("    ");
            out.append(linetext.as_str());
            out.push('\n');
            proof {
                assert(out@ =~= before + ("    "@ + linetext@ + seq!['\n']));
            }
        }
        proof {
            let piece = if gen_line(ps[k as int]).len() == 0 {
                seq!['\n']
            } else {
                "    "@ + gen_line(ps[k as int]) + seq!['\n']
            };
            assert(render_program(ps, k as int) == piece + render_program(ps, k + 1));
            assert(before + (piece + render_program(ps, k + 1)) =~= out@ + render_program(
                ps,
                k + 1,
            ));
        }
        k = k + 1;
    }
    proof {
        assert(render_program(ps, m as int) =~= Seq::<char>::empty());
        assert(out@ + Seq::<char>::empty() =~= out@);
    }
    out.append("}");
    Ok(out)
}

} // verus!
