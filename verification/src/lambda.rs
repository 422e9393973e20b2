//! The lambda calculus into which terms are encoded: variables,
//! abstractions and applications, extended by one node for each construct
//! of the language that the pure calculus lacks.

use vstd::prelude::*;
use crate::ops::BinaryOp;

verus! {

/// A term of the intermediate calculus. Each node owns its children.
#[derive(Debug, PartialEq, Eq)]
pub enum LambdaTerm {
    /// A variable, bound or free.
    Var { name: String },
    /// An abstraction over one binder; `None` is an anonymous binder.
    Lam { name: Option<String>, body: Box<LambdaTerm> },
    /// An application to one argument.
    App { fun: Box<LambdaTerm>, arg: Box<LambdaTerm> },
    /// An integer literal.
    Int { value: i32 },
    /// A string literal.
    Str { value: String },
    /// A boolean literal.
    Bool { value: bool },
    /// A binary operation.
    Binary { op: BinaryOp, lhs: Box<LambdaTerm>, rhs: Box<LambdaTerm> },
    /// A conditional.
    If { cond: Box<LambdaTerm>, then: Box<LambdaTerm>, els_: Box<LambdaTerm> },
    /// The print effect.
    Print { value: Box<LambdaTerm> },
    /// The first projection of a pair.
    First { value: Box<LambdaTerm> },
    /// The second projection of a pair.
    Second { value: Box<LambdaTerm> },
    /// A pair.
    Tuple { first: Box<LambdaTerm>, second: Box<LambdaTerm> },
    /// A node of the graph engine's calculus that no construct of the
    /// language encodes to; the label names its kind.
    Foreign { label: String },
}

/// The mathematical model of a [`LambdaTerm`].
pub enum LambdaModel {
    Var { name: Seq<char> },
    Lam { name: Option<Seq<char>>, body: Box<LambdaModel> },
    App { fun: Box<LambdaModel>, arg: Box<LambdaModel> },
    Int { value: int },
    Str { value: Seq<char> },
    Bool { value: bool },
    Binary { op: BinaryOp, lhs: Box<LambdaModel>, rhs: Box<LambdaModel> },
    If { cond: Box<LambdaModel>, then: Box<LambdaModel>, els_: Box<LambdaModel> },
    Print { value: Box<LambdaModel> },
    First { value: Box<LambdaModel> },
    Second { value: Box<LambdaModel> },
    Tuple { first: Box<LambdaModel>, second: Box<LambdaModel> },
    Foreign { label: Seq<char> },
}

/// The model of a binder's name.
pub open spec fn binder_model(name: Option<String>) -> Option<Seq<char>> {
    match name {
        Some(n) => Some(n@),
        None => None,
    }
}

/// The model of a term of the calculus.
pub open spec fn lambda_model(l: LambdaTerm) -> LambdaModel
    decreases l,
{
    match l {
        LambdaTerm::Var { name } => LambdaModel::Var { name: name@ },
        LambdaTerm::Lam { name, body } => LambdaModel::Lam {
            name: binder_model(name),
            body: Box::new(lambda_model(*body)),
        },
        LambdaTerm::App { fun, arg } => LambdaModel::App {
            fun: Box::new(lambda_model(*fun)),
            arg: Box::new(lambda_model(*arg)),
        },
        LambdaTerm::Int { value } => LambdaModel::Int { value: value as int },
        LambdaTerm::Str { value } => LambdaModel::Str { value: value@ },
        LambdaTerm::Bool { value } => LambdaModel::Bool { value },
        LambdaTerm::Binary { op, lhs, rhs } => LambdaModel::Binary {
            op,
            lhs: Box::new(lambda_model(*lhs)),
            rhs: Box::new(lambda_model(*rhs)),
        },
        LambdaTerm::If { cond, then, els_ } => LambdaModel::If {
            cond: Box::new(lambda_model(*cond)),
            then: Box::new(lambda_model(*then)),
            els_: Box::new(lambda_model(*els_)),
        },
        LambdaTerm::Print { value } => LambdaModel::Print {
            value: Box::new(lambda_model(*value)),
        },
        LambdaTerm::First { value } => LambdaModel::First {
            value: Box::new(lambda_model(*value)),
        },
        LambdaTerm::Second { value } => LambdaModel::Second {
            value: Box::new(lambda_model(*value)),
        },
        LambdaTerm::Tuple { first, second } => LambdaModel::Tuple {
            first: Box::new(lambda_model(*first)),
            second: Box::new(lambda_model(*second)),
        },
        LambdaTerm::Foreign { label } => LambdaModel::Foreign { label: label@ },
    }
}

/// Whether a term of the calculus holds a node that no encoding produces.
pub open spec fn holds_foreign(l: LambdaModel) -> bool
    decreases l,
{
    match l {
        LambdaModel::Var { name } => false,
        LambdaModel::Lam { name, body } => holds_foreign(*body),
        LambdaModel::App { fun, arg } => holds_foreign(*fun) || holds_foreign(*arg),
        LambdaModel::Int { value } => false,
        LambdaModel::Str { value } => false,
        LambdaModel::Bool { value } => false,
        LambdaModel::Binary { op, lhs, rhs } => holds_foreign(*lhs) || holds_foreign(*rhs),
        LambdaModel::If { cond, then, els_ } => holds_foreign(*cond) || holds_foreign(*then)
            || holds_foreign(*els_),
        LambdaModel::Print { value } => holds_foreign(*value),
        LambdaModel::First { value } => holds_foreign(*value),
        LambdaModel::Second { value } => holds_foreign(*value),
        LambdaModel::Tuple { first, second } => holds_foreign(*first) || holds_foreign(*second),
        LambdaModel::Foreign { label } => true,
    }
}

/// Whether every abstraction of a term of the calculus names its binder.
pub open spec fn all_named(l: LambdaModel) -> bool
    decreases l,
{
    match l {
        LambdaModel::Var { name } => true,
        LambdaModel::Lam { name, body } => name is Some && all_named(*body),
        LambdaModel::App { fun, arg } => all_named(*fun) && all_named(*arg),
        LambdaModel::Int { value } => true,
        LambdaModel::Str { value } => true,
        LambdaModel::Bool { value } => true,
        LambdaModel::Binary { op, lhs, rhs } => all_named(*lhs) && all_named(*rhs),
        LambdaModel::If { cond, then, els_ } => all_named(*cond) && all_named(*then)
            && all_named(*els_),
        LambdaModel::Print { value } => all_named(*value),
        LambdaModel::First { value } => all_named(*value),
        LambdaModel::Second { value } => all_named(*value),
        LambdaModel::Tuple { first, second } => all_named(*first) && all_named(*second),
        LambdaModel::Foreign { label } => true,
    }
}

impl View for LambdaTerm {
    type V = LambdaModel;

    open spec fn view(&self) -> LambdaModel {
        lambda_model(*self)
    }
}

} // verus!
