//! The renderer: from a term to the language's concrete syntax.

use vstd::prelude::*;
use vstd::string::*;
use crate::term::{Term, TermModel, Parameter, term_models, lemma_term_models, param_names};
use crate::text::{decimal, join, write_decimal};

verus! {

/// The concrete syntax of a term.
pub open spec fn render(t: TermModel) -> Seq<char>
    decreases t,
{
    match t {
        TermModel::Int { value } => decimal(value),
        TermModel::Str { value } => "\""@ + value + "\""@,
        TermModel::Call { callee, args } => render(*callee) + "("@ + render_list(args) + ")"@,
        TermModel::Binary { lhs, op, rhs } => render(*lhs) + " "@ + op.symbol() + " "@ + render(
            *rhs,
        ),
        TermModel::Function { params, value } => "fn ("@ + join(params, ", "@) + ") => { "@
            + render(*value) + " }"@,
        TermModel::Let { name, value, next } => "let "@ + name + " = "@ + render(*value) + "; "@
            + render(*next),
        TermModel::If { cond, then, els_ } => "if ("@ + render(*cond) + ") { "@ + render(*then)
            + " } else { "@ + render(*els_) + " }"@,
        TermModel::Print { value } => "print("@ + render(*value) + ")"@,
        TermModel::First { value } => "first("@ + render(*value) + ")"@,
        TermModel::Second { value } => "second("@ + render(*value) + ")"@,
        TermModel::Bool { value } => if value {
            "true"@
        } else {
            "false"@
        },
        TermModel::Tuple { first, second } => "("@ + render(*first) + ", "@ + render(*second)
            + ")"@,
        TermModel::Var { text } => text,
    }
}

/// The concrete syntax of a list of terms: each term's, separated by `", "`.
pub open spec fn render_list(ts: Seq<TermModel>) -> Seq<char>
    decreases ts,
{
    if ts.len() == 0 {
        Seq::empty()
    } else if ts.len() == 1 {
        render(ts[0])
    } else {
        render_list(ts.drop_last()) + ", "@ + render(ts.last())
    }
}

/// Appends the names of the parameters, separated by `", "`, to `out`.
fn write_params(params: &Vec<Parameter>, out: &mut String)
    ensures
        final(out)@ == old(out)@ + join(param_names(params@), ", "@),
{
    let ghost names = param_names(params@);
    let mut i: usize = 0;
    while i < params.len()
        invariant
            i <= params.len(),
            names == param_names(params@),
            out@ == old(out)@ + join(names.take(i as int), ", "@),
        decreases params.len() - i,
    {
        let ghost before = out@;
        if i > 0 {
            out.append(", ");
        }
        out.append(params[i].text.as_str());
        proof {
            let now = names.take(i + 1);
            assert(now.drop_last() =~= names.take(i as int));
            assert(now.last() == params[i as int].text@);
            assert(out@ =~= old(out)@ + join(now, ", "@));
        }
        i += 1;
    }
    assert(names.take(i as int) =~= names);
}

/// Appends the concrete syntax of `term` to `out`.
#[verifier::loop_isolation(false)]
fn write_term(term: &Term, out: &mut String)
    ensures
        final(out)@ == old(out)@ + render(term@),
    decreases term,
{
    match term {
        Term::Int { value } => {
            write_decimal(*value, out);
        },
        Term::Str { value } => {
            out.append("\"");
            out.append(value.as_str());
            out.append("\"");
            assert(out@ =~= old(out)@ + render(term@));
        },
        Term::Call { callee, args } => {
            write_term(callee, out);
            out.append("(");
            let ghost base = out@;
            let ghost models = term_models(args@);
            proof {
                lemma_term_models(args@);
            }
            let mut i: usize = 0;
            while i < args.len()
                invariant
                    i <= args.len(),
                    out@ == base + render_list(models.take(i as int)),
                decreases args.len() - i,
            {
                if i > 0 {
                    out.append(", ");
                }
                write_term(&args[i], out);
                proof {
                    let now = models.take(i + 1);
                    assert(now.drop_last() =~= models.take(i as int));
                    assert(now.last() == args[i as int]@);
                    assert(out@ =~= base + render_list(now));
                }
                i += 1;
            }
            assert(models.take(i as int) =~= models);
            out.append(")");
            assert(out@ =~= old(out)@ + render(term@));
        },
        Term::Binary { lhs, op, rhs } => {
            write_term(lhs, out);
            out.append(" ");
            out.append(op.as_str());
            out.append(" ");
            write_term(rhs, out);
            assert(out@ =~= old(out)@ + render(term@));
        },
        Term::Function { params, value } => {
            out.append("fn (");
            write_params(params, out);
            out.append(") => { ");
            write_term(value, out);
            out.append(" }");
            assert(out@ =~= old(out)@ + render(term@));
        },
        Term::Let { name, value, next } => {
            out.append("let ");
            out.append(name.text.as_str());
            out.append(" = ");
            write_term(value, out);
            out.append("; ");
            write_term(next, out);
            assert(out@ =~= old(out)@ + render(term@));
        },
        Term::If { cond, then, els_ } => {
            out.append("if (");
            write_term(cond, out);
            out.append(") { ");
            write_term(then, out);
            out.append(" } else { ");
            write_term(els_, out);
            out.append(" }");
            assert(out@ =~= old(out)@ + render(term@));
        },
        Term::Print { value } => {
            out.append("print(");
            write_term(value, out);
            out.append(")");
            assert(out@ =~= old(out)@ + render(term@));
        },
        Term::First { value } => {
            out.append("first(");
            write_term(value, out);
            out.append(")");
            assert(out@ =~= old(out)@ + render(term@));
        },
        Term::Second { value } => {
            out.append("second(");
            write_term(value, out);
            out.append(")");
            assert(out@ =~= old(out)@ + render(term@));
        },
        Term::Bool { value } => {
            if *value {
                out.append("true");
            } else {
                out.append("false");
            }
        },
        Term::Tuple { first, second } => {
            out.append("(");
            write_term(first, out);
            out.append(", ");
            write_term(second, out);
            out.append(")");
            assert(out@ =~= old(out)@ + render(term@));
        },
        Term::Var { text } => {
            out.append(text.as_str());
        },
    }
}

/// Renders a term in the language's concrete syntax.
pub fn term_to_string(term: &Term) -> (text: String)
    ensures
        text@ == render(term@),
{
    let mut out = String::new();
    write_term(term, &mut out);
    assert(out@ =~= render(term@));
    out
}

} // verus!
