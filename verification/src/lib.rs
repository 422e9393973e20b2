//! The front end of a small expression language that is evaluated by graph
//! rewriting, and the way back from the rewritten graph.
//!
//! A program arrives as a JSON-shaped document. It is decoded into a term,
//! the term is encoded into a lambda calculus that a graph engine reduces,
//! and what the engine hands back is read back into a term and rendered.
//! The engine itself runs outside this crate.

pub mod decode;
pub mod document;
pub mod encode;
pub mod engine;
pub mod json;
pub mod lambda;
pub mod laws;
pub mod normal;
pub mod ops;
pub mod outcome;
pub mod readback;
pub mod render;
pub mod term;
pub mod text;

pub use decode::{json_to_file, json_to_term, DecodeError};
pub use encode::rinha_term_to_hvm_lang_term;
pub use engine::{
    net_to_rinha, rinha_to_net, EvalError, ExternalEngineError, NetRequest, NET_CAPACITY,
};
pub use json::{Json, Member};
pub use lambda::LambdaTerm;
pub use ops::BinaryOp;
pub use readback::{hvm_lang_term_to_rinha_term, ReadbackError};
pub use render::term_to_string;
pub use term::{File, Parameter, Term};
