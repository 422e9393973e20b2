//! The normal form of a term: what survives encoding and readback.
//!
//! Encoding curries: a function of several parameters becomes nested
//! abstractions, a call with several arguments nested applications, and a
//! `let` an applied abstraction. Readback uncurries as far as it can. So a
//! function whose body is a function comes back as one function, a call
//! whose callee is a call as one call, a function without parameters or a
//! call without arguments as what it wraps, and a `let` as the call of a
//! one-parameter function.

use vstd::prelude::*;
use crate::term::TermModel;

verus! {

/// The function of the given parameters and body, merged with the body
/// where that is a function itself; the body alone where there are no
/// parameters.
pub open spec fn function_of(params: Seq<Seq<char>>, body: TermModel) -> TermModel {
    if params.len() == 0 {
        body
    } else {
        match body {
            TermModel::Function { params: inner, value } => TermModel::Function {
                params: params + inner,
                value,
            },
            _ => TermModel::Function { params, value: Box::new(body) },
        }
    }
}

/// The call of the given callee with the given arguments, merged with the
/// callee where that is a call itself; the callee alone where there are no
/// arguments.
pub open spec fn call_of(callee: TermModel, args: Seq<TermModel>) -> TermModel {
    if args.len() == 0 {
        callee
    } else {
        match callee {
            TermModel::Call { callee: head, args: first } => TermModel::Call {
                callee: head,
                args: first + args,
            },
            _ => TermModel::Call { callee: Box::new(callee), args },
        }
    }
}

/// The normal form of a term.
pub open spec fn normalize(t: TermModel) -> TermModel
    decreases t,
{
    match t {
        TermModel::Int { value } => t,
        TermModel::Str { value } => t,
        TermModel::Bool { value } => t,
        TermModel::Var { text } => t,
        TermModel::Function { params, value } => function_of(params, normalize(*value)),
        TermModel::Call { callee, args } => call_of(normalize(*callee), normalize_list(args)),
        TermModel::Let { name, value, next } => call_of(
            function_of(seq![name], normalize(*next)),
            seq![normalize(*value)],
        ),
        TermModel::Binary { lhs, op, rhs } => TermModel::Binary {
            lhs: Box::new(normalize(*lhs)),
            op,
            rhs: Box::new(normalize(*rhs)),
        },
        TermModel::If { cond, then, els_ } => TermModel::If {
            cond: Box::new(normalize(*cond)),
            then: Box::new(normalize(*then)),
            els_: Box::new(normalize(*els_)),
        },
        TermModel::Print { value } => TermModel::Print { value: Box::new(normalize(*value)) },
        TermModel::First { value } => TermModel::First { value: Box::new(normalize(*value)) },
        TermModel::Second { value } => TermModel::Second { value: Box::new(normalize(*value)) },
        TermModel::Tuple { first, second } => TermModel::Tuple {
            first: Box::new(normalize(*first)),
            second: Box::new(normalize(*second)),
        },
    }
}

/// The normal forms of a list of terms, in order.
pub open spec fn normalize_list(ts: Seq<TermModel>) -> Seq<TermModel>
    decreases ts,
{
    if ts.len() == 0 {
        Seq::empty()
    } else {
        normalize_list(ts.drop_last()).push(normalize(ts.last()))
    }
}

/// Whether a term is in normal form: it holds no `let`, every function has
/// a parameter and a body that is no function, and every call has an
/// argument and a callee that is no call.
pub open spec fn is_normal(t: TermModel) -> bool
    decreases t,
{
    match t {
        TermModel::Int { value } => true,
        TermModel::Str { value } => true,
        TermModel::Bool { value } => true,
        TermModel::Var { text } => true,
        TermModel::Function { params, value } => {
            &&& params.len() > 0
            &&& !(*value is Function)
            &&& is_normal(*value)
        },
        TermModel::Call { callee, args } => {
            &&& args.len() > 0
            &&& !(*callee is Call)
            &&& is_normal(*callee)
            &&& all_normal(args)
        },
        TermModel::Let { name, value, next } => false,
        TermModel::Binary { lhs, op, rhs } => is_normal(*lhs) && is_normal(*rhs),
        TermModel::If { cond, then, els_ } => is_normal(*cond) && is_normal(*then) && is_normal(
            *els_,
        ),
        TermModel::Print { value } => is_normal(*value),
        TermModel::First { value } => is_normal(*value),
        TermModel::Second { value } => is_normal(*value),
        TermModel::Tuple { first, second } => is_normal(*first) && is_normal(*second),
    }
}

/// Whether every term of a list is in normal form.
pub open spec fn all_normal(ts: Seq<TermModel>) -> bool
    decreases ts,
{
    if ts.len() == 0 {
        true
    } else {
        all_normal(ts.drop_last()) && is_normal(ts.last())
    }
}

/// The list of normal forms has the length of the list of terms, and holds
/// at each place the normal form of the term at that place.
pub proof fn lemma_normalize_list(ts: Seq<TermModel>)
    ensures
        normalize_list(ts).len() == ts.len(),
        forall|i: int| 0 <= i < ts.len() ==> #[trigger] normalize_list(ts)[i] == normalize(ts[i]),
    decreases ts.len(),
{
    if ts.len() > 0 {
        lemma_normalize_list(ts.drop_last());
    }
}

/// A list is all normal exactly when each of its terms is.
pub proof fn lemma_all_normal(ts: Seq<TermModel>)
    ensures
        all_normal(ts) <==> forall|i: int| 0 <= i < ts.len() ==> is_normal(#[trigger] ts[i]),
    decreases ts.len(),
{
    if ts.len() > 0 {
        let front = ts.drop_last();
        lemma_all_normal(front);
        if all_normal(ts) {
            assert forall|i: int| 0 <= i < ts.len() implies is_normal(#[trigger] ts[i]) by {
                if i < front.len() {
                    assert(front[i] == ts[i]);
                }
            }
        }
        if forall|i: int| 0 <= i < ts.len() ==> is_normal(#[trigger] ts[i]) {
            assert forall|i: int| 0 <= i < front.len() implies is_normal(#[trigger] front[i]) by {
                assert(front[i] == ts[i]);
            }
            assert(is_normal(ts[ts.len() - 1]));
        }
    }
}

} // verus!
