//! The encoder: from a term to the intermediate calculus.
//!
//! Variables, functions, calls and `let` go to the pure calculus. Each other
//! construct goes to the node of the calculus that stands for it, one for
//! one, so that the encoding can be read back without loss.

use vstd::prelude::*;
use vstd::string::*;
use crate::lambda::{LambdaModel, LambdaTerm, all_named, holds_foreign};
use crate::laws::encoding_is_plain;
use crate::term::{Parameter, Term, TermModel, lemma_term_models, param_names, term_models};

verus! {

/// The body under one abstraction for each parameter: the first parameter
/// binds outermost.
pub open spec fn abstract_over(params: Seq<Seq<char>>, body: LambdaModel) -> LambdaModel
    decreases params.len(),
{
    if params.len() == 0 {
        body
    } else {
        LambdaModel::Lam {
            name: Some(params[0]),
            body: Box::new(abstract_over(params.drop_first(), body)),
        }
    }
}

/// The function applied to each argument in turn: a chain of applications
/// that associates to the left.
pub open spec fn apply_to(fun: LambdaModel, args: Seq<LambdaModel>) -> LambdaModel
    decreases args.len(),
{
    if args.len() == 0 {
        fun
    } else {
        LambdaModel::App {
            fun: Box::new(apply_to(fun, args.drop_last())),
            arg: Box::new(args.last()),
        }
    }
}

/// The encoding of a term.
pub open spec fn encode(t: TermModel) -> LambdaModel
    decreases t,
{
    match t {
        TermModel::Var { text } => LambdaModel::Var { name: text },
        TermModel::Function { params, value } => abstract_over(params, encode(*value)),
        TermModel::Call { callee, args } => apply_to(encode(*callee), encode_list(args)),
        TermModel::Let { name, value, next } => LambdaModel::App {
            fun: Box::new(LambdaModel::Lam { name: Some(name), body: Box::new(encode(*next)) }),
            arg: Box::new(encode(*value)),
        },
        TermModel::Int { value } => LambdaModel::Int { value },
        TermModel::Str { value } => LambdaModel::Str { value },
        TermModel::Bool { value } => LambdaModel::Bool { value },
        TermModel::Binary { lhs, op, rhs } => LambdaModel::Binary {
            op,
            lhs: Box::new(encode(*lhs)),
            rhs: Box::new(encode(*rhs)),
        },
        TermModel::If { cond, then, els_ } => LambdaModel::If {
            cond: Box::new(encode(*cond)),
            then: Box::new(encode(*then)),
            els_: Box::new(encode(*els_)),
        },
        TermModel::Print { value } => LambdaModel::Print { value: Box::new(encode(*value)) },
        TermModel::First { value } => LambdaModel::First { value: Box::new(encode(*value)) },
        TermModel::Second { value } => LambdaModel::Second { value: Box::new(encode(*value)) },
        TermModel::Tuple { first, second } => LambdaModel::Tuple {
            first: Box::new(encode(*first)),
            second: Box::new(encode(*second)),
        },
    }
}

/// The encodings of a list of terms, in order.
pub open spec fn encode_list(ts: Seq<TermModel>) -> Seq<LambdaModel>
    decreases ts,
{
    if ts.len() == 0 {
        Seq::empty()
    } else {
        encode_list(ts.drop_last()).push(encode(ts.last()))
    }
}

/// The list of encodings has the length of the list of terms, and holds at
/// each place the encoding of the term at that place.
pub proof fn lemma_encode_list(ts: Seq<TermModel>)
    ensures
        encode_list(ts).len() == ts.len(),
        forall|i: int| 0 <= i < ts.len() ==> #[trigger] encode_list(ts)[i] == encode(ts[i]),
    decreases ts.len(),
{
    if ts.len() > 0 {
        lemma_encode_list(ts.drop_last());
    }
}

/// Encodes a term into the intermediate calculus.
///
/// The encoding is total: every term has one. It names every binder and
/// holds no foreign node.
#[verifier::loop_isolation(false)]
pub fn rinha_term_to_hvm_lang_term(term: &Term) -> (lambda: LambdaTerm)
    ensures
        lambda@ == encode(term@),
        all_named(lambda@),
        !holds_foreign(lambda@),
    decreases term,
{
    proof {
        encoding_is_plain(term@);
    }
    match term {
        Term::Var { text } => LambdaTerm::Var { name: text.clone() },
        Term::Function { params, value } => {
            let mut acc = rinha_term_to_hvm_lang_term(value);
            let ghost names = param_names(params@);
            let ghost body = acc@;
            let mut i: usize = params.len();
            proof {
                assert(names.skip(i as int) =~= Seq::<Seq<char>>::empty());
            }
            while i > 0
                invariant
                    i <= params.len(),
                    acc@ == abstract_over(names.skip(i as int), body),
                decreases i,
            {
                i -= 1;
                proof {
                    assert(names.skip(i as int).drop_first() =~= names.skip(i + 1));
                    assert(names.skip(i as int)[0] == params[i as int].text@);
                }
                acc = LambdaTerm::Lam { name: Some(params[i].text.clone()), body: Box::new(acc) };
            }
            proof {
                assert(names.skip(0) =~= names);
            }
            acc
        },
        Term::Call { callee, args } => {
            let mut acc = rinha_term_to_hvm_lang_term(callee);
            let ghost head = acc@;
            let ghost encoded = encode_list(term_models(args@));
            proof {
                lemma_term_models(args@);
                lemma_encode_list(term_models(args@));
            }
            let mut i: usize = 0;
            while i < args.len()
                invariant
                    i <= args.len(),
                    acc@ == apply_to(head, encoded.take(i as int)),
                decreases args.len() - i,
            {
                let arg = rinha_term_to_hvm_lang_term(&args[i]);
                proof {
                    assert(encoded.take(i + 1).drop_last() =~= encoded.take(i as int));
                    assert(encoded.take(i + 1).last() == arg@);
                }
                acc = LambdaTerm::App { fun: Box::new(acc), arg: Box::new(arg) };
                i += 1;
            }
            proof {
                assert(encoded.take(i as int) =~= encoded);
            }
            acc
        },
        Term::Let { name, value, next } => {
            let body = rinha_term_to_hvm_lang_term(next);
            let arg = rinha_term_to_hvm_lang_term(value);
            let fun = LambdaTerm::Lam { name: Some(name.text.clone()), body: Box::new(body) };
            assert(fun@ == LambdaModel::Lam { name: Some(name.text@), body: Box::new(body@) });
            LambdaTerm::App { fun: Box::new(fun), arg: Box::new(arg) }
        },
        Term::Int { value } => LambdaTerm::Int { value: *value },
        Term::Str { value } => LambdaTerm::Str { value: value.clone() },
        Term::Bool { value } => LambdaTerm::Bool { value: *value },
        Term::Binary { lhs, op, rhs } => {
            let l = rinha_term_to_hvm_lang_term(lhs);
            let r = rinha_term_to_hvm_lang_term(rhs);
            LambdaTerm::Binary { op: *op, lhs: Box::new(l), rhs: Box::new(r) }
        },
        Term::If { cond, then, els_ } => {
            let c = rinha_term_to_hvm_lang_term(cond);
            let t = rinha_term_to_hvm_lang_term(then);
            let e = rinha_term_to_hvm_lang_term(els_);
            LambdaTerm::If { cond: Box::new(c), then: Box::new(t), els_: Box::new(e) }
        },
        Term::Print { value } => LambdaTerm::Print {
            value: Box::new(rinha_term_to_hvm_lang_term(value)),
        },
        Term::First { value } => LambdaTerm::First {
            value: Box::new(rinha_term_to_hvm_lang_term(value)),
        },
        Term::Second { value } => LambdaTerm::Second {
            value: Box::new(rinha_term_to_hvm_lang_term(value)),
        },
        Term::Tuple { first, second } => {
            let a = rinha_term_to_hvm_lang_term(first);
            let b = rinha_term_to_hvm_lang_term(second);
            LambdaTerm::Tuple { first: Box::new(a), second: Box::new(b) }
        },
    }
}

} // verus!
