//! The boundary to the graph engine.
//!
//! The engine compiles a term of the calculus into a graph, reduces the
//! graph to normal form and reads the normal form back as a term of the
//! calculus. It runs outside this crate. Here stands what the crate decides
//! on either side of it: what is handed to the engine, and what is made of
//! its reply.

use vstd::prelude::*;
use crate::outcome::result_model;
use crate::encode::{encode, rinha_term_to_hvm_lang_term};
use crate::lambda::{LambdaModel, LambdaTerm};
use crate::readback::{hvm_lang_term_to_rinha_term, readback, ReadbackError};
use crate::term::{Term, TermModel};

verus! {

/// The number of nodes that the engine's graph is given room for.
pub const NET_CAPACITY: usize = 67_108_864;

/// A failure of the graph engine, with the reason that it gave: a construct
/// outside its calculus, a variable used against its rules, a graph that
/// outgrew its capacity.
#[derive(Debug, Clone, PartialEq, Eq)]
pub struct ExternalEngineError {
    pub reason: String,
}

impl View for ExternalEngineError {
    type V = Seq<char>;

    open spec fn view(&self) -> Seq<char> {
        self.reason@
    }
}

/// What is handed to the engine: the term to compile, and the capacity of
/// the graph to compile it into.
#[derive(Debug, PartialEq, Eq)]
pub struct NetRequest {
    pub term: LambdaTerm,
    pub capacity: usize,
}

/// Why a run gave no term.
#[derive(Debug, Clone, PartialEq, Eq)]
pub enum EvalError {
    /// The engine failed.
    Engine(ExternalEngineError),
    /// The engine's normal form reads back as no term.
    Readback(ReadbackError),
}

/// The mathematical model of an [`EvalError`].
pub enum EvalErrorModel {
    Engine(Seq<char>),
    Readback(ReadbackError),
}

impl View for EvalError {
    type V = EvalErrorModel;

    open spec fn view(&self) -> EvalErrorModel {
        match self {
            EvalError::Engine(e) => EvalErrorModel::Engine(e@),
            EvalError::Readback(e) => EvalErrorModel::Readback(*e),
        }
    }
}

/// What a reply of the engine amounts to: its failure as it stands, or what
/// its normal form reads back as.
pub open spec fn read_reply(reply: Result<LambdaModel, Seq<char>>) -> Result<
    TermModel,
    EvalErrorModel,
> {
    match reply {
        Err(reason) => Err(EvalErrorModel::Engine(reason)),
        Ok(normal) => match readback(normal) {
            Ok(t) => Ok(t),
            Err(e) => Err(EvalErrorModel::Readback(e)),
        },
    }
}

/// Prepares a term for the engine: its encoding, to be compiled into a graph
/// of [`NET_CAPACITY`] nodes.
pub fn rinha_to_net(term: &Term) -> (request: NetRequest)
    ensures
        request.term@ == encode(term@),
        request.capacity == NET_CAPACITY,
{
    NetRequest { term: rinha_term_to_hvm_lang_term(term), capacity: NET_CAPACITY }
}

/// Turns the engine's reply into a term.
///
/// A failure of the engine comes back as that failure and never as a term;
/// a normal form that reads back as no term comes back as the readback's
/// error.
pub fn net_to_rinha(reply: Result<LambdaTerm, ExternalEngineError>) -> (result: Result<
    Term,
    EvalError,
>)
    ensures
        result_model(result) == read_reply(result_model(reply)),
        reply matches Err(failure) ==> result matches Err(EvalError::Engine(e)) && e@ == failure@,
{
    match reply {
        Err(failure) => Err(EvalError::Engine(failure)),
        Ok(normal) => match hvm_lang_term_to_rinha_term(&normal) {
            Ok(t) => Ok(t),
            Err(e) => Err(EvalError::Readback(e)),
        },
    }
}

} // verus!
