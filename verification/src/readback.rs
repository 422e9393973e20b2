//! The readback: from the intermediate calculus to a term.
//!
//! It inverts the encoder. A chain of abstractions becomes one function
//! with all the chain's binders as parameters, and a chain of applications
//! becomes one call with all the chain's arguments.

use vstd::prelude::*;
use vstd::string::*;
use crate::outcome::result_model;
use crate::lambda::{LambdaModel, LambdaTerm, holds_foreign};
use crate::laws::{readback_fails_on_foreign, readback_is_normal};
use crate::normal::is_normal;
use crate::term::{Parameter, Term, TermModel, lemma_term_models, param_names, term_models};

verus! {

/// Why a term of the calculus reads back as no term of the language.
#[derive(Debug, Clone, Copy, PartialEq, Eq)]
pub enum ReadbackError {
    /// The term holds a node that no encoding produces.
    Malformed,
}

impl View for ReadbackError {
    type V = ReadbackError;

    open spec fn view(&self) -> ReadbackError {
        *self
    }
}

/// The parameter name that a binder reads back as: its own name, or `"_"`
/// for an anonymous binder.
pub open spec fn binder_name(name: Option<Seq<char>>) -> Seq<char> {
    match name {
        Some(n) => n,
        None => "_"@,
    }
}

/// The term that a term of the calculus reads back as.
///
/// Children are read in order and the first failure is the result.
pub open spec fn readback(l: LambdaModel) -> Result<TermModel, ReadbackError>
    decreases l, 0int,
{
    match l {
        LambdaModel::Var { name } => Ok(TermModel::Var { text: name }),
        LambdaModel::Lam { name, body } => match chain(*body) {
            Err(e) => Err(e),
            Ok((names, inner)) => Ok(
                TermModel::Function {
                    params: seq![binder_name(name)] + names,
                    value: Box::new(inner),
                },
            ),
        },
        LambdaModel::App { fun, arg } => match spine(*fun) {
            Err(e) => Err(e),
            Ok((callee, args)) => match readback(*arg) {
                Err(e) => Err(e),
                Ok(last) => Ok(TermModel::Call { callee: Box::new(callee), args: args.push(last) }),
            },
        },
        LambdaModel::Int { value } => Ok(TermModel::Int { value }),
        LambdaModel::Str { value } => Ok(TermModel::Str { value }),
        LambdaModel::Bool { value } => Ok(TermModel::Bool { value }),
        LambdaModel::Binary { op, lhs, rhs } => match readback(*lhs) {
            Err(e) => Err(e),
            Ok(l) => match readback(*rhs) {
                Err(e) => Err(e),
                Ok(r) => Ok(TermModel::Binary { lhs: Box::new(l), op, rhs: Box::new(r) }),
            },
        },
        LambdaModel::If { cond, then, els_ } => match readback(*cond) {
            Err(e) => Err(e),
            Ok(c) => match readback(*then) {
                Err(e) => Err(e),
                Ok(t) => match readback(*els_) {
                    Err(e) => Err(e),
                    Ok(f) => Ok(
                        TermModel::If {
                            cond: Box::new(c),
                            then: Box::new(t),
                            els_: Box::new(f),
                        },
                    ),
                },
            },
        },
        LambdaModel::Print { value } => match readback(*value) {
            Err(e) => Err(e),
            Ok(v) => Ok(TermModel::Print { value: Box::new(v) }),
        },
        LambdaModel::First { value } => match readback(*value) {
            Err(e) => Err(e),
            Ok(v) => Ok(TermModel::First { value: Box::new(v) }),
        },
        LambdaModel::Second { value } => match readback(*value) {
            Err(e) => Err(e),
            Ok(v) => Ok(TermModel::Second { value: Box::new(v) }),
        },
        LambdaModel::Tuple { first, second } => match readback(*first) {
            Err(e) => Err(e),
            Ok(a) => match readback(*second) {
                Err(e) => Err(e),
                Ok(b) => Ok(TermModel::Tuple { first: Box::new(a), second: Box::new(b) }),
            },
        },
        LambdaModel::Foreign { label } => Err(ReadbackError::Malformed),
    }
}

/// The names of the chain of abstractions that starts at `l`, outermost
/// first, and the term that what lies under them reads back as. The chain is
/// empty where `l` is no abstraction.
pub open spec fn chain(l: LambdaModel) -> Result<(Seq<Seq<char>>, TermModel), ReadbackError>
    decreases l, 1int,
{
    match l {
        LambdaModel::Lam { name, body } => match chain(*body) {
            Err(e) => Err(e),
            Ok((names, inner)) => Ok((seq![binder_name(name)] + names, inner)),
        },
        _ => match readback(l) {
            Err(e) => Err(e),
            Ok(inner) => Ok((Seq::empty(), inner)),
        },
    }
}

/// The term that the head of the chain of applications that ends at `l`
/// reads back as, and those of the chain's arguments, first applied first.
/// The chain is empty where `l` is no application.
pub open spec fn spine(l: LambdaModel) -> Result<(TermModel, Seq<TermModel>), ReadbackError>
    decreases l, 1int,
{
    match l {
        LambdaModel::App { fun, arg } => match spine(*fun) {
            Err(e) => Err(e),
            Ok((callee, args)) => match readback(*arg) {
                Err(e) => Err(e),
                Ok(last) => Ok((callee, args.push(last))),
            },
        },
        _ => match readback(l) {
            Err(e) => Err(e),
            Ok(callee) => Ok((callee, Seq::empty())),
        },
    }
}

/// The parameter that a binder reads back as.
fn binder_parameter(name: &Option<String>) -> (p: Parameter)
    ensures
        p@ == binder_name(crate::lambda::binder_model(*name)),
{
    match name {
        Some(n) => Parameter { text: n.clone() },
        None => Parameter { text: "_".to_owned() },
    }
}

/// Reads a chain of abstractions: appends its names to `params` and returns
/// the term under them.
fn chain_into(l: &LambdaTerm, params: &mut Vec<Parameter>) -> (r: Result<Term, ReadbackError>)
    ensures
        match r {
            Ok(inner) => {
                &&& old(params)@.len() <= final(params)@.len()
                &&& param_names(final(params)@).take(old(params)@.len() as int) == param_names(
                    old(params)@,
                )
                &&& chain(l@) == Ok::<(Seq<Seq<char>>, TermModel), ReadbackError>(
                    (param_names(final(params)@).skip(old(params)@.len() as int), inner@),
                )
            },
            Err(e) => chain(l@) == Err::<(Seq<Seq<char>>, TermModel), ReadbackError>(e),
        },
    decreases l, 1int,
{
    match l {
        LambdaTerm::Lam { name, body } => {
            let p = binder_parameter(name);
            params.push(p);
            let ghost mid = params@;
            let r = chain_into(body, params);
            proof {
                if r is Ok {
                    let before = param_names(old(params)@);
                    let after = param_names(params@);
                    let n = old(params)@.len() as int;
                    assert(param_names(mid) =~= before.push(p@));
                    assert(after.take(n + 1) == param_names(mid));
                    assert(after.take(n) =~= before) by {
                        assert(after.take(n) =~= after.take(n + 1).take(n));
                    }
                    assert(after[n] == p@) by {
                        assert(after.take(n + 1)[n] == after[n]);
                    }
                    assert(after.skip(n) =~= seq![p@] + after.skip(n + 1));
                }
            }
            r
        },
        _ => {
            let r = hvm_lang_term_to_rinha_term(l);
            proof {
                let names = param_names(params@);
                assert(names.take(names.len() as int) =~= names);
                assert(names.skip(names.len() as int) =~= Seq::<Seq<char>>::empty());
            }
            r
        },
    }
}

/// Reads a chain of applications: appends its arguments to `args` and
/// returns the head.
fn spine_into(l: &LambdaTerm, args: &mut Vec<Term>) -> (r: Result<Term, ReadbackError>)
    ensures
        match r {
            Ok(callee) => {
                &&& old(args)@.len() <= final(args)@.len()
                &&& term_models(final(args)@).take(old(args)@.len() as int) == term_models(
                    old(args)@,
                )
                &&& spine(l@) == Ok::<(TermModel, Seq<TermModel>), ReadbackError>(
                    (callee@, term_models(final(args)@).skip(old(args)@.len() as int)),
                )
            },
            Err(e) => spine(l@) == Err::<(TermModel, Seq<TermModel>), ReadbackError>(e),
        },
    decreases l, 1int,
{
    match l {
        LambdaTerm::App { fun, arg } => {
            let callee = match spine_into(fun, args) {
                Err(e) => { return Err(e); },
                Ok(t) => t,
            };
            let ghost mid = args@;
            let last = match hvm_lang_term_to_rinha_term(arg) {
                Err(e) => { return Err(e); },
                Ok(t) => t,
            };
            args.push(last);
            proof {
                let n = old(args)@.len() as int;
                let before = term_models(mid);
                let after = term_models(args@);
                lemma_term_models(mid);
                lemma_term_models(args@);
                lemma_term_models(old(args)@);
                assert(after =~= before.push(last@));
                assert(after.take(n) =~= before.take(n));
                assert(after.skip(n) =~= before.skip(n).push(last@));
            }
            Ok(callee)
        },
        _ => {
            let r = hvm_lang_term_to_rinha_term(l);
            proof {
                let models = term_models(args@);
                assert(models.take(models.len() as int) =~= models);
                assert(models.skip(models.len() as int) =~= Seq::<TermModel>::empty());
                lemma_term_models(args@);
            }
            r
        },
    }
}

/// Reads a term of the calculus back into a term of the language.
///
/// The result is exactly what [`readback`] gives. It is
/// [`ReadbackError::Malformed`] where the input holds a node that no
/// encoding produces, and a term in normal form everywhere else.
pub fn hvm_lang_term_to_rinha_term(term: &LambdaTerm) -> (result: Result<Term, ReadbackError>)
    ensures
        result_model(result) == readback(term@),
        result is Err <==> holds_foreign(term@),
        result matches Ok(t) ==> is_normal(t@),
    decreases term, 0int,
{
    proof {
        readback_fails_on_foreign(term@);
        if readback(term@) is Ok {
            readback_is_normal(term@);
        }
    }
    match term {
        LambdaTerm::Var { name } => Ok(Term::Var { text: name.clone() }),
        LambdaTerm::Lam { name, body } => {
            let mut params: Vec<Parameter> = Vec::new();
            let p = binder_parameter(name);
            params.push(p);
            let ghost mid = params@;
            match chain_into(body, &mut params) {
                Err(e) => Err(e),
                Ok(inner) => {
                    proof {
                        let after = param_names(params@);
                        assert(param_names(mid) =~= seq![p@]);
                        assert(after =~= after.take(1) + after.skip(1));
                    }
                    Ok(Term::Function { params, value: Box::new(inner) })
                },
            }
        },
        LambdaTerm::App { fun, arg } => {
            let mut args: Vec<Term> = Vec::new();
            let callee = match spine_into(fun, &mut args) {
                Err(e) => { return Err(e); },
                Ok(t) => t,
            };
            let ghost mid = args@;
            let last = match hvm_lang_term_to_rinha_term(arg) {
                Err(e) => { return Err(e); },
                Ok(t) => t,
            };
            args.push(last);
            proof {
                lemma_term_models(mid);
                lemma_term_models(args@);
                assert(term_models(mid).skip(0) =~= term_models(mid));
                assert(term_models(args@) =~= term_models(mid).push(last@));
            }
            Ok(Term::Call { callee: Box::new(callee), args })
        },
        LambdaTerm::Int { value } => Ok(Term::Int { value: *value }),
        LambdaTerm::Str { value } => Ok(Term::Str { value: value.clone() }),
        LambdaTerm::Bool { value } => Ok(Term::Bool { value: *value }),
        LambdaTerm::Binary { op, lhs, rhs } => {
            let l = match hvm_lang_term_to_rinha_term(lhs) {
                Err(e) => { return Err(e); },
                Ok(t) => t,
            };
            let r = match hvm_lang_term_to_rinha_term(rhs) {
                Err(e) => { return Err(e); },
                Ok(t) => t,
            };
            Ok(Term::Binary { lhs: Box::new(l), op: *op, rhs: Box::new(r) })
        },
        LambdaTerm::If { cond, then, els_ } => {
            let c = match hvm_lang_term_to_rinha_term(cond) {
                Err(e) => { return Err(e); },
                Ok(t) => t,
            };
            let t = match hvm_lang_term_to_rinha_term(then) {
                Err(e) => { return Err(e); },
                Ok(t) => t,
            };
            let f = match hvm_lang_term_to_rinha_term(els_) {
                Err(e) => { return Err(e); },
                Ok(t) => t,
            };
            Ok(Term::If { cond: Box::new(c), then: Box::new(t), els_: Box::new(f) })
        },
        LambdaTerm::Print { value } => match hvm_lang_term_to_rinha_term(value) {
            Err(e) => Err(e),
            Ok(v) => Ok(Term::Print { value: Box::new(v) }),
        },
        LambdaTerm::First { value } => match hvm_lang_term_to_rinha_term(value) {
            Err(e) => Err(e),
            Ok(v) => Ok(Term::First { value: Box::new(v) }),
        },
        LambdaTerm::Second { value } => match hvm_lang_term_to_rinha_term(value) {
            Err(e) => Err(e),
            Ok(v) => Ok(Term::Second { value: Box::new(v) }),
        },
        LambdaTerm::Tuple { first, second } => {
            let a = match hvm_lang_term_to_rinha_term(first) {
                Err(e) => { return Err(e); },
                Ok(t) => t,
            };
            let b = match hvm_lang_term_to_rinha_term(second) {
                Err(e) => { return Err(e); },
                Ok(t) => t,
            };
            Ok(Term::Tuple { first: Box::new(a), second: Box::new(b) })
        },
        LambdaTerm::Foreign { label } => Err(ReadbackError::Malformed),
    }
}

} // verus!
