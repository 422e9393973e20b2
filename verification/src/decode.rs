//! The decoder: from a document to a term, or to the reason why the document
//! describes none.

use vstd::prelude::*;
use vstd::string::*;
use crate::document::{
    decoding_file_succeeds_on_well_formed,
    decoding_succeeds_on_well_formed,
    holds_text,
    well_formed,
    well_formed_file,
};
use crate::json::{Json, JsonModel, json_models, lemma_json_models, lemma_field_decreases};
use crate::ops::BinaryOp;
use crate::outcome::result_model;
use crate::text::same_text;
use crate::term::{
    File,
    FileModel,
    Parameter,
    Term,
    TermModel,
    param_names,
    term_models,
    lemma_term_models,
};

verus! {

/// Why a document describes no term.
#[derive(Debug, Clone, PartialEq, Eq)]
pub enum DecodeError {
    /// A field that the node's kind requires is absent; holds the field's
    /// name.
    MissingField(String),
    /// A field is present and holds a value of the wrong type, or an integer
    /// outside the signed 32-bit range.
    TypeMismatch,
    /// The node has no `kind` that is a string, or the string names no kind.
    UnknownKind,
    /// The `op` of a binary node names no operator.
    UnknownOperator,
}

/// The mathematical model of a [`DecodeError`].
pub enum DecodeErrorModel {
    MissingField(Seq<char>),
    TypeMismatch,
    UnknownKind,
    UnknownOperator,
}

impl View for DecodeError {
    type V = DecodeErrorModel;

    open spec fn view(&self) -> DecodeErrorModel {
        match self {
            DecodeError::MissingField(name) => DecodeErrorModel::MissingField(name@),
            DecodeError::TypeMismatch => DecodeErrorModel::TypeMismatch,
            DecodeError::UnknownKind => DecodeErrorModel::UnknownKind,
            DecodeError::UnknownOperator => DecodeErrorModel::UnknownOperator,
        }
    }
}

/// The string under a key.
pub open spec fn text_field(j: JsonModel, key: Seq<char>) -> Result<Seq<char>, DecodeErrorModel> {
    match j.field(key) {
        None => Err(DecodeErrorModel::MissingField(key)),
        Some(JsonModel::Str(s)) => Ok(s),
        Some(_) => Err(DecodeErrorModel::TypeMismatch),
    }
}

/// The integer under a key, which has to lie in the signed 32-bit range.
pub open spec fn int_field(j: JsonModel, key: Seq<char>) -> Result<int, DecodeErrorModel> {
    match j.field(key) {
        None => Err(DecodeErrorModel::MissingField(key)),
        Some(JsonModel::Number(Some(n))) => if i32::MIN <= n <= i32::MAX {
            Ok(n)
        } else {
            Err(DecodeErrorModel::TypeMismatch)
        },
        Some(_) => Err(DecodeErrorModel::TypeMismatch),
    }
}

/// The boolean under a key.
pub open spec fn bool_field(j: JsonModel, key: Seq<char>) -> Result<bool, DecodeErrorModel> {
    match j.field(key) {
        None => Err(DecodeErrorModel::MissingField(key)),
        Some(JsonModel::Bool(b)) => Ok(b),
        Some(_) => Err(DecodeErrorModel::TypeMismatch),
    }
}

/// The items of the array under a key.
pub open spec fn list_field(j: JsonModel, key: Seq<char>) -> Result<
    Seq<JsonModel>,
    DecodeErrorModel,
> {
    match j.field(key) {
        None => Err(DecodeErrorModel::MissingField(key)),
        Some(JsonModel::Array(items)) => Ok(items),
        Some(_) => Err(DecodeErrorModel::TypeMismatch),
    }
}

/// The kind that a node names, where its `kind` is a string.
pub open spec fn kind_of(j: JsonModel) -> Option<Seq<char>> {
    match j.field("kind"@) {
        Some(JsonModel::Str(k)) => Some(k),
        _ => None,
    }
}

/// The name that a parameter node holds under `text`.
pub open spec fn decode_parameter(j: JsonModel) -> Result<Seq<char>, DecodeErrorModel> {
    text_field(j, "text"@)
}

/// The names of a list of parameter nodes; the error of the first node that
/// holds none.
pub open spec fn decode_parameters(items: Seq<JsonModel>) -> Result<
    Seq<Seq<char>>,
    DecodeErrorModel,
>
    decreases items.len(),
{
    if items.len() == 0 {
        Ok(Seq::empty())
    } else {
        match decode_parameters(items.drop_last()) {
            Err(e) => Err(e),
            Ok(front) => match decode_parameter(items.last()) {
                Err(e) => Err(e),
                Ok(name) => Ok(front.push(name)),
            },
        }
    }
}

/// The operator that a binary node names under `op`.
pub open spec fn decode_operator(j: JsonModel) -> Result<BinaryOp, DecodeErrorModel> {
    match text_field(j, "op"@) {
        Err(e) => Err(e),
        Ok(name) => match BinaryOp::named(name) {
            Some(op) => Ok(op),
            None => Err(DecodeErrorModel::UnknownOperator),
        },
    }
}

/// The term that a node describes.
///
/// The node's `kind` selects the variant. The fields that the kind requires
/// are read in a fixed order, and the first one that fails gives the error.
pub open spec fn decode_term(j: JsonModel) -> Result<TermModel, DecodeErrorModel>
    decreases j, 2int,
{
    match kind_of(j) {
        None => Err(DecodeErrorModel::UnknownKind),
        Some(kind) => if kind == "Int"@ {
            match int_field(j, "value"@) {
                Err(e) => Err(e),
                Ok(value) => Ok(TermModel::Int { value }),
            }
        } else if kind == "Str"@ {
            match text_field(j, "value"@) {
                Err(e) => Err(e),
                Ok(value) => Ok(TermModel::Str { value }),
            }
        } else if kind == "Call"@ {
            decode_call(j)
        } else if kind == "Binary"@ {
            decode_binary(j)
        } else if kind == "Function"@ {
            decode_function(j)
        } else if kind == "Let"@ {
            decode_let(j)
        } else if kind == "If"@ {
            decode_if(j)
        } else if kind == "Print"@ {
            match decode_child(j, "value"@) {
                Err(e) => Err(e),
                Ok(value) => Ok(TermModel::Print { value: Box::new(value) }),
            }
        } else if kind == "First"@ {
            match decode_child(j, "value"@) {
                Err(e) => Err(e),
                Ok(value) => Ok(TermModel::First { value: Box::new(value) }),
            }
        } else if kind == "Second"@ {
            match decode_child(j, "value"@) {
                Err(e) => Err(e),
                Ok(value) => Ok(TermModel::Second { value: Box::new(value) }),
            }
        } else if kind == "Bool"@ {
            match bool_field(j, "value"@) {
                Err(e) => Err(e),
                Ok(value) => Ok(TermModel::Bool { value }),
            }
        } else if kind == "Tuple"@ {
            decode_tuple(j)
        } else if kind == "Var"@ {
            match text_field(j, "text"@) {
                Err(e) => Err(e),
                Ok(text) => Ok(TermModel::Var { text }),
            }
        } else {
            Err(DecodeErrorModel::UnknownKind)
        },
    }
}

/// The term that the node under a key describes.
pub open spec fn decode_child(j: JsonModel, key: Seq<char>) -> Result<TermModel, DecodeErrorModel>
    decreases j, 0int,
{
    match j.field(key) {
        None => Err(DecodeErrorModel::MissingField(key)),
        Some(child) => {
            proof {
                lemma_field_decreases(j, key);
            }
            decode_term(child)
        },
    }
}

/// The terms that a list of nodes describes, in order; the error of the
/// first node that describes none.
pub open spec fn decode_terms(items: Seq<JsonModel>) -> Result<Seq<TermModel>, DecodeErrorModel>
    decreases items, 0int,
{
    if items.len() == 0 {
        Ok(Seq::empty())
    } else {
        match decode_terms(items.drop_last()) {
            Err(e) => Err(e),
            Ok(front) => match decode_term(items.last()) {
                Err(e) => Err(e),
                Ok(t) => Ok(front.push(t)),
            },
        }
    }
}

/// A call: `callee`, then `arguments`.
pub open spec fn decode_call(j: JsonModel) -> Result<TermModel, DecodeErrorModel>
    decreases j, 1int,
{
    match decode_child(j, "callee"@) {
        Err(e) => Err(e),
        Ok(callee) => match list_field(j, "arguments"@) {
            Err(e) => Err(e),
            Ok(items) => {
                proof {
                    lemma_list_field_decreases(j, "arguments"@);
                }
                match decode_terms(items) {
                    Err(e) => Err(e),
                    Ok(args) => Ok(TermModel::Call { callee: Box::new(callee), args }),
                }
            },
        },
    }
}

/// A binary operation: `lhs`, then `op`, then `rhs`.
pub open spec fn decode_binary(j: JsonModel) -> Result<TermModel, DecodeErrorModel>
    decreases j, 1int,
{
    match decode_child(j, "lhs"@) {
        Err(e) => Err(e),
        Ok(lhs) => match decode_operator(j) {
            Err(e) => Err(e),
            Ok(op) => match decode_child(j, "rhs"@) {
                Err(e) => Err(e),
                Ok(rhs) => Ok(TermModel::Binary { lhs: Box::new(lhs), op, rhs: Box::new(rhs) }),
            },
        },
    }
}

/// A function: `parameters`, then `value`.
pub open spec fn decode_function(j: JsonModel) -> Result<TermModel, DecodeErrorModel>
    decreases j, 1int,
{
    match list_field(j, "parameters"@) {
        Err(e) => Err(e),
        Ok(items) => match decode_parameters(items) {
            Err(e) => Err(e),
            Ok(params) => match decode_child(j, "value"@) {
                Err(e) => Err(e),
                Ok(value) => Ok(TermModel::Function { params, value: Box::new(value) }),
            },
        },
    }
}

/// A `let`: `name`, then `value`, then `next`.
pub open spec fn decode_let(j: JsonModel) -> Result<TermModel, DecodeErrorModel>
    decreases j, 1int,
{
    match j.field("name"@) {
        None => Err(DecodeErrorModel::MissingField("name"@)),
        Some(binder) => match decode_parameter(binder) {
            Err(e) => Err(e),
            Ok(name) => match decode_child(j, "value"@) {
                Err(e) => Err(e),
                Ok(value) => match decode_child(j, "next"@) {
                    Err(e) => Err(e),
                    Ok(next) => Ok(
                        TermModel::Let { name, value: Box::new(value), next: Box::new(next) },
                    ),
                },
            },
        },
    }
}

/// A conditional: `condition`, then `then`, then `otherwise`.
pub open spec fn decode_if(j: JsonModel) -> Result<TermModel, DecodeErrorModel>
    decreases j, 1int,
{
    match decode_child(j, "condition"@) {
        Err(e) => Err(e),
        Ok(cond) => match decode_child(j, "then"@) {
            Err(e) => Err(e),
            Ok(then) => match decode_child(j, "otherwise"@) {
                Err(e) => Err(e),
                Ok(els_) => Ok(
                    TermModel::If {
                        cond: Box::new(cond),
                        then: Box::new(then),
                        els_: Box::new(els_),
                    },
                ),
            },
        },
    }
}

/// A pair: `first`, then `second`.
pub open spec fn decode_tuple(j: JsonModel) -> Result<TermModel, DecodeErrorModel>
    decreases j, 1int,
{
    match decode_child(j, "first"@) {
        Err(e) => Err(e),
        Ok(first) => match decode_child(j, "second"@) {
            Err(e) => Err(e),
            Ok(second) => Ok(
                TermModel::Tuple { first: Box::new(first), second: Box::new(second) },
            ),
        },
    }
}

/// The program that a top-level document describes: `name`, then
/// `expression`.
pub open spec fn decode_file(j: JsonModel) -> Result<FileModel, DecodeErrorModel> {
    match text_field(j, "name"@) {
        Err(e) => Err(e),
        Ok(name) => match decode_child(j, "expression"@) {
            Err(e) => Err(e),
            Ok(expr) => Ok(FileModel { name, expr }),
        },
    }
}

/// The items of an array under a key are smaller values than the object.
pub proof fn lemma_list_field_decreases(j: JsonModel, key: Seq<char>)
    ensures
        list_field(j, key) matches Ok(items) ==> decreases_to!(j => items),
{
    lemma_field_decreases(j, key);
    if let Some(JsonModel::Array(items)) = j.field(key) {
        assert(decreases_to!(JsonModel::Array(items) => items));
    }
}

/// Where a front part of a list fails, the list fails with the same error.
pub proof fn lemma_decode_terms_front(items: Seq<JsonModel>, k: int)
    requires
        0 <= k <= items.len(),
        decode_terms(items.take(k)) is Err,
    ensures
        decode_terms(items) == decode_terms(items.take(k)),
    decreases items.len() - k,
{
    if k < items.len() {
        assert(items.take(k + 1).drop_last() =~= items.take(k));
        lemma_decode_terms_front(items, k + 1);
    } else {
        assert(items.take(k) =~= items);
    }
}

/// Where a front part of a list of parameters fails, the list fails with the
/// same error.
pub proof fn lemma_decode_parameters_front(items: Seq<JsonModel>, k: int)
    requires
        0 <= k <= items.len(),
        decode_parameters(items.take(k)) is Err,
    ensures
        decode_parameters(items) == decode_parameters(items.take(k)),
    decreases items.len() - k,
{
    if k < items.len() {
        assert(items.take(k + 1).drop_last() =~= items.take(k));
        lemma_decode_parameters_front(items, k + 1);
    } else {
        assert(items.take(k) =~= items);
    }
}

/// Reads the string under a key.
fn text_of(json: &Json, key: &str) -> (r: Result<String, DecodeError>)
    ensures
        result_model(r) == text_field(json@, key@),
{
    match json.get(key) {
        None => Err(DecodeError::MissingField(key.to_owned())),
        Some(v) => match v {
            Json::Str(s) => Ok(s.clone()),
            _ => Err(DecodeError::TypeMismatch),
        },
    }
}

/// Reads the integer under a key.
fn int_of(json: &Json, key: &str) -> (r: Result<i32, DecodeError>)
    ensures
        match r {
            Ok(n) => int_field(json@, key@) == Ok::<int, DecodeErrorModel>(n as int),
            Err(e) => int_field(json@, key@) == Err::<int, DecodeErrorModel>(e@),
        },
{
    match json.get(key) {
        None => Err(DecodeError::MissingField(key.to_owned())),
        Some(v) => match v {
            Json::Number(Some(n)) => {
                if -2147483648 <= *n && *n <= 2147483647 {
                    Ok(*n as i32)
                } else {
                    Err(DecodeError::TypeMismatch)
                }
            },
            _ => Err(DecodeError::TypeMismatch),
        },
    }
}

/// Reads the boolean under a key.
fn bool_of(json: &Json, key: &str) -> (r: Result<bool, DecodeError>)
    ensures
        match r {
            Ok(b) => bool_field(json@, key@) == Ok::<bool, DecodeErrorModel>(b),
            Err(e) => bool_field(json@, key@) == Err::<bool, DecodeErrorModel>(e@),
        },
{
    match json.get(key) {
        None => Err(DecodeError::MissingField(key.to_owned())),
        Some(v) => match v {
            Json::Bool(b) => Ok(*b),
            _ => Err(DecodeError::TypeMismatch),
        },
    }
}

/// Reads the items of the array under a key.
fn list_of<'a>(json: &'a Json, key: &str) -> (r: Result<&'a Vec<Json>, DecodeError>)
    ensures
        match r {
            Ok(items) => list_field(json@, key@) == Ok::<Seq<JsonModel>, DecodeErrorModel>(
                json_models(items@),
            ),
            Err(e) => list_field(json@, key@) == Err::<Seq<JsonModel>, DecodeErrorModel>(e@),
        },
{
    match json.get(key) {
        None => Err(DecodeError::MissingField(key.to_owned())),
        Some(v) => match v {
            Json::Array(items) => Ok(items),
            _ => Err(DecodeError::TypeMismatch),
        },
    }
}

/// Reads the operator of a binary node.
fn operator_of(json: &Json) -> (r: Result<BinaryOp, DecodeError>)
    ensures
        match r {
            Ok(op) => decode_operator(json@) == Ok::<BinaryOp, DecodeErrorModel>(op),
            Err(e) => decode_operator(json@) == Err::<BinaryOp, DecodeErrorModel>(e@),
        },
{
    match text_of(json, "op") {
        Err(e) => Err(e),
        Ok(name) => match BinaryOp::from_str(name.as_str()) {
            Some(op) => Ok(op),
            None => Err(DecodeError::UnknownOperator),
        },
    }
}

impl Parameter {
    /// Decodes a parameter node: an object whose `text` is the name.
    pub fn from_json(json: &Json) -> (result: Result<Parameter, DecodeError>)
        ensures
            result_model(result) == decode_parameter(json@),
            result is Ok <==> holds_text(json@, "text"@),
    {
        match text_of(json, "text") {
            Err(e) => Err(e),
            Ok(text) => Ok(Parameter { text }),
        }
    }
}

/// Decodes a list of parameter nodes.
fn params_of(items: &Vec<Json>) -> (r: Result<Vec<Parameter>, DecodeError>)
    ensures
        match r {
            Ok(ps) => decode_parameters(json_models(items@)) == Ok::<
                Seq<Seq<char>>,
                DecodeErrorModel,
            >(param_names(ps@)),
            Err(e) => decode_parameters(json_models(items@)) == Err::<
                Seq<Seq<char>>,
                DecodeErrorModel,
            >(e@),
        },
{
    let ghost models = json_models(items@);
    proof {
        lemma_json_models(items@);
    }
    let mut out: Vec<Parameter> = Vec::new();
    let mut i: usize = 0;
    proof {
        assert(param_names(out@) =~= Seq::<Seq<char>>::empty());
    }
    while i < items.len()
        invariant
            i <= items.len(),
            models == json_models(items@),
            models.len() == items.len(),
            forall|j: int| 0 <= j < items.len() ==> #[trigger] models[j] == items[j]@,
            decode_parameters(models.take(i as int)) == Ok::<Seq<Seq<char>>, DecodeErrorModel>(
                param_names(out@),
            ),
        decreases items.len() - i,
    {
        proof {
            assert(models.take(i + 1).drop_last() =~= models.take(i as int));
            assert(models.take(i + 1).last() == items[i as int]@);
        }
        match Parameter::from_json(&items[i]) {
            Err(e) => {
                proof {
                    lemma_decode_parameters_front(models, i + 1);
                }
                return Err(e);
            },
            Ok(p) => {
                proof {
                    assert(param_names(out@.push(p)) =~= param_names(out@).push(p@));
                }
                out.push(p);
            },
        }
        i += 1;
    }
    proof {
        assert(models.take(i as int) =~= models);
    }
    Ok(out)
}

/// Decodes the node under a key.
fn child_of(json: &Json, key: &str) -> (r: Result<Term, DecodeError>)
    ensures
        result_model(r) == decode_child(json@, key@),
    decreases json@, 0int,
{
    match json.get(key) {
        None => Err(DecodeError::MissingField(key.to_owned())),
        Some(child) => {
            proof {
                lemma_field_decreases(json@, key@);
            }
            json_to_term(child)
        },
    }
}

/// Decodes a list of nodes.
fn terms_of(items: &Vec<Json>) -> (r: Result<Vec<Term>, DecodeError>)
    ensures
        match r {
            Ok(ts) => decode_terms(json_models(items@)) == Ok::<Seq<TermModel>, DecodeErrorModel>(
                term_models(ts@),
            ),
            Err(e) => decode_terms(json_models(items@)) == Err::<Seq<TermModel>, DecodeErrorModel>(
                e@,
            ),
        },
    decreases json_models(items@), 0int,
{
    let ghost models = json_models(items@);
    proof {
        lemma_json_models(items@);
    }
    let mut out: Vec<Term> = Vec::new();
    let mut i: usize = 0;
    while i < items.len()
        invariant
            i <= items.len(),
            models == json_models(items@),
            models.len() == items.len(),
            forall|j: int| 0 <= j < items.len() ==> #[trigger] models[j] == items[j]@,
            decode_terms(models.take(i as int)) == Ok::<Seq<TermModel>, DecodeErrorModel>(
                term_models(out@),
            ),
        decreases items.len() - i,
    {
        proof {
            assert(models.take(i + 1).drop_last() =~= models.take(i as int));
            assert(models.take(i + 1).last() == items[i as int]@);
            assert(decreases_to!(models => models[i as int]));
        }
        match json_to_term(&items[i]) {
            Err(e) => {
                proof {
                    lemma_decode_terms_front(models, i + 1);
                }
                return Err(e);
            },
            Ok(t) => {
                proof {
                    assert(out@.push(t).drop_last() =~= out@);
                }
                out.push(t);
            },
        }
        i += 1;
    }
    proof {
        assert(models.take(i as int) =~= models);
    }
    Ok(out)
}

/// Decodes a call node.
fn call_of(json: &Json) -> (r: Result<Term, DecodeError>)
    ensures
        result_model(r) == decode_call(json@),
    decreases json@, 1int,
{
    let callee = match child_of(json, "callee") {
        Err(e) => { return Err(e); },
        Ok(t) => t,
    };
    let items = match list_of(json, "arguments") {
        Err(e) => { return Err(e); },
        Ok(items) => items,
    };
    proof {
        lemma_list_field_decreases(json@, "arguments"@);
    }
    let args = match terms_of(items) {
        Err(e) => { return Err(e); },
        Ok(ts) => ts,
    };
    Ok(Term::Call { callee: Box::new(callee), args })
}

/// Decodes a binary node.
fn binary_of(json: &Json) -> (r: Result<Term, DecodeError>)
    ensures
        result_model(r) == decode_binary(json@),
    decreases json@, 1int,
{
    let lhs = match child_of(json, "lhs") {
        Err(e) => { return Err(e); },
        Ok(t) => t,
    };
    let op = match operator_of(json) {
        Err(e) => { return Err(e); },
        Ok(op) => op,
    };
    let rhs = match child_of(json, "rhs") {
        Err(e) => { return Err(e); },
        Ok(t) => t,
    };
    Ok(Term::Binary { lhs: Box::new(lhs), op, rhs: Box::new(rhs) })
}

/// Decodes a function node.
fn function_of(json: &Json) -> (r: Result<Term, DecodeError>)
    ensures
        result_model(r) == decode_function(json@),
    decreases json@, 1int,
{
    let items = match list_of(json, "parameters") {
        Err(e) => { return Err(e); },
        Ok(items) => items,
    };
    let params = match params_of(items) {
        Err(e) => { return Err(e); },
        Ok(ps) => ps,
    };
    let value = match child_of(json, "value") {
        Err(e) => { return Err(e); },
        Ok(t) => t,
    };
    Ok(Term::Function { params, value: Box::new(value) })
}

/// Decodes a `let` node.
fn let_of(json: &Json) -> (r: Result<Term, DecodeError>)
    ensures
        result_model(r) == decode_let(json@),
    decreases json@, 1int,
{
    let binder = match json.get("name") {
        None => { return Err(DecodeError::MissingField("name".to_owned())); },
        Some(v) => v,
    };
    let name = match Parameter::from_json(binder) {
        Err(e) => { return Err(e); },
        Ok(p) => p,
    };
    let value = match child_of(json, "value") {
        Err(e) => { return Err(e); },
        Ok(t) => t,
    };
    let next = match child_of(json, "next") {
        Err(e) => { return Err(e); },
        Ok(t) => t,
    };
    Ok(Term::Let { name, value: Box::new(value), next: Box::new(next) })
}

/// Decodes a conditional node.
fn if_of(json: &Json) -> (r: Result<Term, DecodeError>)
    ensures
        result_model(r) == decode_if(json@),
    decreases json@, 1int,
{
    let cond = match child_of(json, "condition") {
        Err(e) => { return Err(e); },
        Ok(t) => t,
    };
    let then = match child_of(json, "then") {
        Err(e) => { return Err(e); },
        Ok(t) => t,
    };
    let els_ = match child_of(json, "otherwise") {
        Err(e) => { return Err(e); },
        Ok(t) => t,
    };
    Ok(Term::If { cond: Box::new(cond), then: Box::new(then), els_: Box::new(els_) })
}

/// Decodes a pair node.
fn tuple_of(json: &Json) -> (r: Result<Term, DecodeError>)
    ensures
        result_model(r) == decode_tuple(json@),
    decreases json@, 1int,
{
    let first = match child_of(json, "first") {
        Err(e) => { return Err(e); },
        Ok(t) => t,
    };
    let second = match child_of(json, "second") {
        Err(e) => { return Err(e); },
        Ok(t) => t,
    };
    Ok(Term::Tuple { first: Box::new(first), second: Box::new(second) })
}

/// Decodes a node into the term that it describes.
///
/// The result is exactly what [`decode_term`] gives for the document: the
/// term where the document has the shape of one, and the first error in
/// reading order otherwise.
pub fn json_to_term(json: &Json) -> (result: Result<Term, DecodeError>)
    ensures
        result_model(result) == decode_term(json@),
        result is Ok <==> well_formed(json@),
    decreases json@, 2int,
{
    proof {
        decoding_succeeds_on_well_formed(json@);
    }
    let kind = match json.get("kind") {
        None => { return Err(DecodeError::UnknownKind); },
        Some(v) => match v {
            Json::Str(k) => k.as_str(),
            _ => { return Err(DecodeError::UnknownKind); },
        },
    };
    if same_text(kind, "Int") {
        match int_of(json, "value") {
            Err(e) => Err(e),
            Ok(value) => Ok(Term::Int { value }),
        }
    } else if same_text(kind, "Str") {
        match text_of(json, "value") {
            Err(e) => Err(e),
            Ok(value) => Ok(Term::Str { value }),
        }
    } else if same_text(kind, "Call") {
        call_of(json)
    } else if same_text(kind, "Binary") {
        binary_of(json)
    } else if same_text(kind, "Function") {
        function_of(json)
    } else if same_text(kind, "Let") {
        let_of(json)
    } else if same_text(kind, "If") {
        if_of(json)
    } else if same_text(kind, "Print") {
        match child_of(json, "value") {
            Err(e) => Err(e),
            Ok(value) => Ok(Term::Print { value: Box::new(value) }),
        }
    } else if same_text(kind, "First") {
        match child_of(json, "value") {
            Err(e) => Err(e),
            Ok(value) => Ok(Term::First { value: Box::new(value) }),
        }
    } else if same_text(kind, "Second") {
        match child_of(json, "value") {
            Err(e) => Err(e),
            Ok(value) => Ok(Term::Second { value: Box::new(value) }),
        }
    } else if same_text(kind, "Bool") {
        match bool_of(json, "value") {
            Err(e) => Err(e),
            Ok(value) => Ok(Term::Bool { value }),
        }
    } else if same_text(kind, "Tuple") {
        tuple_of(json)
    } else if same_text(kind, "Var") {
        match text_of(json, "text") {
            Err(e) => Err(e),
            Ok(text) => Ok(Term::Var { text }),
        }
    } else {
        Err(DecodeError::UnknownKind)
    }
}

/// Decodes a top-level document into the program that it describes.
///
/// The result is exactly what [`decode_file`] gives: the program where the
/// document has the shape of one, and the first error in reading order
/// otherwise.
pub fn json_to_file(json: &Json) -> (result: Result<File, DecodeError>)
    ensures
        result_model(result) == decode_file(json@),
        result is Ok <==> well_formed_file(json@),
{
    proof {
        decoding_file_succeeds_on_well_formed(json@);
    }
    let name = match text_of(json, "name") {
        Err(e) => { return Err(e); },
        Ok(s) => s,
    };
    let expr = match child_of(json, "expression") {
        Err(e) => { return Err(e); },
        Ok(t) => t,
    };
    Ok(File { name, expr })
}

} // verus!
