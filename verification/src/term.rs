//! The terms of the language and their mathematical models.

use vstd::prelude::*;
use crate::ops::BinaryOp;

verus! {

/// The name that a function or a `let` binds.
#[derive(Debug, PartialEq, Eq)]
pub struct Parameter {
    pub text: String,
}

/// A term of the language. Each node owns its children.
#[derive(Debug, PartialEq, Eq)]
pub enum Term {
    Int { value: i32 },
    Str { value: String },
    Call { callee: Box<Term>, args: Vec<Term> },
    Binary { lhs: Box<Term>, op: BinaryOp, rhs: Box<Term> },
    Function { params: Vec<Parameter>, value: Box<Term> },
    Let { name: Parameter, value: Box<Term>, next: Box<Term> },
    If { cond: Box<Term>, then: Box<Term>, els_: Box<Term> },
    Print { value: Box<Term> },
    First { value: Box<Term> },
    Second { value: Box<Term> },
    Bool { value: bool },
    Tuple { first: Box<Term>, second: Box<Term> },
    Var { text: String },
}

/// A program: its name and its root term.
#[derive(Debug, PartialEq, Eq)]
pub struct File {
    pub name: String,
    pub expr: Term,
}

/// The mathematical model of a [`Term`]: names are sequences of characters,
/// children are sequences of models, integers are unbounded.
pub enum TermModel {
    Int { value: int },
    Str { value: Seq<char> },
    Call { callee: Box<TermModel>, args: Seq<TermModel> },
    Binary { lhs: Box<TermModel>, op: BinaryOp, rhs: Box<TermModel> },
    Function { params: Seq<Seq<char>>, value: Box<TermModel> },
    Let { name: Seq<char>, value: Box<TermModel>, next: Box<TermModel> },
    If { cond: Box<TermModel>, then: Box<TermModel>, els_: Box<TermModel> },
    Print { value: Box<TermModel> },
    First { value: Box<TermModel> },
    Second { value: Box<TermModel> },
    Bool { value: bool },
    Tuple { first: Box<TermModel>, second: Box<TermModel> },
    Var { text: Seq<char> },
}

/// The mathematical model of a [`File`].
pub struct FileModel {
    pub name: Seq<char>,
    pub expr: TermModel,
}

/// The names of a list of parameters, in order.
pub open spec fn param_names(params: Seq<Parameter>) -> Seq<Seq<char>> {
    params.map_values(|p: Parameter| p.text@)
}

/// The model of a term.
pub open spec fn term_model(t: Term) -> TermModel
    decreases t,
{
    match t {
        Term::Int { value } => TermModel::Int { value: value as int },
        Term::Str { value } => TermModel::Str { value: value@ },
        Term::Call { callee, args } => TermModel::Call {
            callee: Box::new(term_model(*callee)),
            args: term_models(args@),
        },
        Term::Binary { lhs, op, rhs } => TermModel::Binary {
            lhs: Box::new(term_model(*lhs)),
            op,
            rhs: Box::new(term_model(*rhs)),
        },
        Term::Function { params, value } => TermModel::Function {
            params: param_names(params@),
            value: Box::new(term_model(*value)),
        },
        Term::Let { name, value, next } => TermModel::Let {
            name: name.text@,
            value: Box::new(term_model(*value)),
            next: Box::new(term_model(*next)),
        },
        Term::If { cond, then, els_ } => TermModel::If {
            cond: Box::new(term_model(*cond)),
            then: Box::new(term_model(*then)),
            els_: Box::new(term_model(*els_)),
        },
        Term::Print { value } => TermModel::Print { value: Box::new(term_model(*value)) },
        Term::First { value } => TermModel::First { value: Box::new(term_model(*value)) },
        Term::Second { value } => TermModel::Second { value: Box::new(term_model(*value)) },
        Term::Bool { value } => TermModel::Bool { value },
        Term::Tuple { first, second } => TermModel::Tuple {
            first: Box::new(term_model(*first)),
            second: Box::new(term_model(*second)),
        },
        Term::Var { text } => TermModel::Var { text: text@ },
    }
}

/// The models of a list of terms, in order.
pub open spec fn term_models(ts: Seq<Term>) -> Seq<TermModel>
    decreases ts,
{
    if ts.len() == 0 {
        Seq::empty()
    } else {
        term_models(ts.drop_last()).push(term_model(ts.last()))
    }
}

impl View for Parameter {
    type V = Seq<char>;

    open spec fn view(&self) -> Seq<char> {
        self.text@
    }
}

impl View for Term {
    type V = TermModel;

    open spec fn view(&self) -> TermModel {
        term_model(*self)
    }
}

impl View for File {
    type V = FileModel;

    open spec fn view(&self) -> FileModel {
        FileModel { name: self.name@, expr: self.expr@ }
    }
}

/// The list of models has the length of the list of terms, and holds at each
/// place the model of the term at that place.
pub proof fn lemma_term_models(ts: Seq<Term>)
    ensures
        term_models(ts).len() == ts.len(),
        forall|i: int| 0 <= i < ts.len() ==> #[trigger] term_models(ts)[i] == term_model(ts[i]),
    decreases ts.len(),
{
    if ts.len() > 0 {
        lemma_term_models(ts.drop_last());
    }
}

impl Clone for Parameter {
    /// A copy with the same name.
    fn clone(&self) -> (copy: Self)
        ensures
            copy@ == self@,
    {
        Parameter { text: self.text.clone() }
    }
}

impl Clone for File {
    /// A deep copy, with the same model.
    fn clone(&self) -> (copy: Self)
        ensures
            copy@ == self@,
    {
        File { name: self.name.clone(), expr: self.expr.clone() }
    }
}

impl Clone for Term {
    /// A deep copy, with the same model.
    #[verifier::loop_isolation(false)]
    fn clone(&self) -> (copy: Self)
        ensures
            copy@ == self@,
        decreases self,
    {
        match self {
            Term::Int { value } => Term::Int { value: *value },
            Term::Str { value } => Term::Str { value: value.clone() },
            Term::Call { callee, args } => {
                let mut copied: Vec<Term> = Vec::new();
                let mut i: usize = 0;
                while i < args.len()
                    invariant
                        i <= args.len(),
                        copied.len() == i,
                        forall|j: int| 0 <= j < i ==> (#[trigger] copied[j])@ == args[j]@,
                    decreases args.len() - i,
                {
                    let arg = args[i].clone();
                    copied.push(arg);
                    i += 1;
                }
                proof {
                    lemma_term_models(copied@);
                    lemma_term_models(args@);
                    assert(term_models(copied@) =~= term_models(args@));
                }
                Term::Call { callee: Box::new((**callee).clone()), args: copied }
            },
            Term::Binary { lhs, op, rhs } => Term::Binary {
                lhs: Box::new((**lhs).clone()),
                op: *op,
                rhs: Box::new((**rhs).clone()),
            },
            Term::Function { params, value } => {
                let mut copied: Vec<Parameter> = Vec::new();
                let mut i: usize = 0;
                while i < params.len()
                    invariant
                        i <= params.len(),
                        copied.len() == i,
                        forall|j: int| 0 <= j < i ==> (#[trigger] copied[j])@ == params[j]@,
                    decreases params.len() - i,
                {
                    copied.push(params[i].clone());
                    i += 1;
                }
                proof {
                    assert(param_names(copied@) =~= param_names(params@));
                }
                Term::Function { params: copied, value: Box::new((**value).clone()) }
            },
            Term::Let { name, value, next } => Term::Let {
                name: name.clone(),
                value: Box::new((**value).clone()),
                next: Box::new((**next).clone()),
            },
            Term::If { cond, then, els_ } => Term::If {
                cond: Box::new((**cond).clone()),
                then: Box::new((**then).clone()),
                els_: Box::new((**els_).clone()),
            },
            Term::Print { value } => Term::Print { value: Box::new((**value).clone()) },
            Term::First { value } => Term::First { value: Box::new((**value).clone()) },
            Term::Second { value } => Term::Second { value: Box::new((**value).clone()) },
            Term::Bool { value } => Term::Bool { value: *value },
            Term::Tuple { first, second } => Term::Tuple {
                first: Box::new((**first).clone()),
                second: Box::new((**second).clone()),
            },
            Term::Var { text } => Term::Var { text: text.clone() },
        }
    }
}

} // verus!
