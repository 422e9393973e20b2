//! The shape of a document that describes a term, and the document that a
//! term is described by.

use vstd::prelude::*;
use crate::decode::{
    DecodeErrorModel,
    bool_field,
    decode_binary,
    decode_call,
    decode_child,
    decode_file,
    decode_function,
    decode_if,
    decode_let,
    decode_operator,
    decode_parameter,
    decode_parameters,
    decode_term,
    decode_terms,
    decode_tuple,
    int_field,
    kind_of,
    lemma_list_field_decreases,
    list_field,
    text_field,
};
use crate::json::{JsonModel, MemberModel, find, lemma_field_decreases, lemma_find_at};
use crate::ops::{BinaryOp, operator_is_named};
use crate::term::{Term, TermModel, lemma_term_models, term_models};
use crate::text::stamp;

verus! {

/// Whether a value holds a string under a key.
pub open spec fn holds_text(j: JsonModel, key: Seq<char>) -> bool {
    j.field(key) matches Some(JsonModel::Str(s))
}

/// Whether a value holds an array under a key.
pub open spec fn holds_list(j: JsonModel, key: Seq<char>) -> bool {
    j.field(key) matches Some(JsonModel::Array(items))
}

/// Whether a value holds, under a key, an integer of the signed 32-bit
/// range.
pub open spec fn holds_int(j: JsonModel, key: Seq<char>) -> bool {
    j.field(key) matches Some(JsonModel::Number(Some(n))) && i32::MIN <= n <= i32::MAX
}

/// Whether a value holds a boolean under a key.
pub open spec fn holds_bool(j: JsonModel, key: Seq<char>) -> bool {
    j.field(key) matches Some(JsonModel::Bool(b))
}

/// Whether a value holds, under `op`, the name of an operator.
pub open spec fn holds_operator(j: JsonModel) -> bool {
    j.field("op"@) matches Some(JsonModel::Str(name)) && BinaryOp::named(name) is Some
}

/// Whether a document has the shape of a term: its `kind` names a kind, and
/// it holds each field that the kind requires, with a value of the field's
/// type, which for a child is a document of this shape again. Fields beyond
/// those are free.
pub open spec fn well_formed(j: JsonModel) -> bool
    decreases j, 1int,
{
    match kind_of(j) {
        None => false,
        Some(kind) => if kind == "Int"@ {
            holds_int(j, "value"@)
        } else if kind == "Str"@ {
            holds_text(j, "value"@)
        } else if kind == "Call"@ {
            &&& holds_well_formed(j, "callee"@)
            &&& holds_list(j, "arguments"@)
            &&& forall|i: int|
                0 <= i < list_field(j, "arguments"@)->Ok_0.len() ==> {
                    proof {
                        lemma_list_field_decreases(j, "arguments"@);
                    }
                    well_formed(#[trigger] list_field(j, "arguments"@)->Ok_0[i])
                }
        } else if kind == "Binary"@ {
            &&& holds_well_formed(j, "lhs"@)
            &&& holds_operator(j)
            &&& holds_well_formed(j, "rhs"@)
        } else if kind == "Function"@ {
            &&& holds_list(j, "parameters"@)
            &&& forall|i: int|
                0 <= i < list_field(j, "parameters"@)->Ok_0.len() ==> holds_text(
                    #[trigger] list_field(j, "parameters"@)->Ok_0[i],
                    "text"@,
                )
            &&& holds_well_formed(j, "value"@)
        } else if kind == "Let"@ {
            &&& j.field("name"@) matches Some(binder) && holds_text(binder, "text"@)
            &&& holds_well_formed(j, "value"@)
            &&& holds_well_formed(j, "next"@)
        } else if kind == "If"@ {
            &&& holds_well_formed(j, "condition"@)
            &&& holds_well_formed(j, "then"@)
            &&& holds_well_formed(j, "otherwise"@)
        } else if kind == "Print"@ || kind == "First"@ || kind == "Second"@ {
            holds_well_formed(j, "value"@)
        } else if kind == "Bool"@ {
            holds_bool(j, "value"@)
        } else if kind == "Tuple"@ {
            &&& holds_well_formed(j, "first"@)
            &&& holds_well_formed(j, "second"@)
        } else if kind == "Var"@ {
            holds_text(j, "text"@)
        } else {
            false
        },
    }
}

/// Whether a value holds, under a key, a document of the shape of a term.
pub open spec fn holds_well_formed(j: JsonModel, key: Seq<char>) -> bool
    decreases j, 0int,
{
    match j.field(key) {
        None => false,
        Some(child) => {
            proof {
                lemma_field_decreases(j, key);
            }
            well_formed(child)
        },
    }
}

/// A list of nodes decodes exactly where each node does.
proof fn lemma_decode_terms_ok(items: Seq<JsonModel>)
    ensures
        decode_terms(items) is Ok <==> forall|i: int|
            0 <= i < items.len() ==> decode_term(#[trigger] items[i]) is Ok,
    decreases items.len(),
{
    if items.len() > 0 {
        let front = items.drop_last();
        lemma_decode_terms_ok(front);
        if decode_terms(items) is Ok {
            assert forall|i: int| 0 <= i < items.len() implies decode_term(
                #[trigger] items[i],
            ) is Ok by {
                if i < front.len() {
                    assert(front[i] == items[i]);
                }
            }
        }
        if forall|i: int| 0 <= i < items.len() ==> decode_term(#[trigger] items[i]) is Ok {
            assert forall|i: int| 0 <= i < front.len() implies decode_term(
                #[trigger] front[i],
            ) is Ok by {
                assert(front[i] == items[i]);
            }
            assert(decode_term(items[items.len() - 1]) is Ok);
        }
    }
}

/// A list of parameter nodes decodes exactly where each node holds a name.
proof fn lemma_decode_parameters_ok(items: Seq<JsonModel>)
    ensures
        decode_parameters(items) is Ok <==> forall|i: int|
            0 <= i < items.len() ==> holds_text(#[trigger] items[i], "text"@),
    decreases items.len(),
{
    if items.len() > 0 {
        let front = items.drop_last();
        lemma_decode_parameters_ok(front);
        if decode_parameters(items) is Ok {
            assert forall|i: int| 0 <= i < items.len() implies holds_text(
                #[trigger] items[i],
                "text"@,
            ) by {
                if i < front.len() {
                    assert(front[i] == items[i]);
                }
            }
        }
        if forall|i: int| 0 <= i < items.len() ==> holds_text(#[trigger] items[i], "text"@) {
            assert forall|i: int| 0 <= i < front.len() implies holds_text(
                #[trigger] front[i],
                "text"@,
            ) by {
                assert(front[i] == items[i]);
            }
            assert(holds_text(items[items.len() - 1], "text"@));
        }
    }
}

/// The node under a key decodes exactly where it has the shape of a term.
proof fn lemma_child_decodes(j: JsonModel, key: Seq<char>)
    ensures
        decode_child(j, key) is Ok <==> holds_well_formed(j, key),
    decreases j, 0int,
{
    if let Some(child) = j.field(key) {
        lemma_field_decreases(j, key);
        decoding_succeeds_on_well_formed(child);
    }
}

/// **When decoding succeeds.** A document decodes to a term exactly where
/// it has the shape of a term; every such document decodes.
pub proof fn decoding_succeeds_on_well_formed(j: JsonModel)
    ensures
        decode_term(j) is Ok <==> well_formed(j),
    decreases j, 1int,
{
    if let Some(kind) = kind_of(j) {
        if kind == "Call"@ {
            lemma_child_decodes(j, "callee"@);
            if let Ok(items) = list_field(j, "arguments"@) {
                lemma_list_field_decreases(j, "arguments"@);
                lemma_decode_terms_ok(items);
                assert forall|i: int| 0 <= i < items.len() implies (decode_term(
                    #[trigger] items[i],
                ) is Ok <==> well_formed(items[i])) by {
                    decoding_succeeds_on_well_formed(items[i]);
                }
            }
        } else if kind == "Binary"@ {
            lemma_child_decodes(j, "lhs"@);
            lemma_child_decodes(j, "rhs"@);
        } else if kind == "Function"@ {
            if let Ok(items) = list_field(j, "parameters"@) {
                lemma_decode_parameters_ok(items);
            }
            lemma_child_decodes(j, "value"@);
        } else if kind == "Let"@ {
            lemma_child_decodes(j, "value"@);
            lemma_child_decodes(j, "next"@);
        } else if kind == "If"@ {
            lemma_child_decodes(j, "condition"@);
            lemma_child_decodes(j, "then"@);
            lemma_child_decodes(j, "otherwise"@);
        } else if kind == "Print"@ || kind == "First"@ || kind == "Second"@ {
            lemma_child_decodes(j, "value"@);
        } else if kind == "Tuple"@ {
            lemma_child_decodes(j, "first"@);
            lemma_child_decodes(j, "second"@);
        }
    }
}

/// Whether a document has the shape of a program: it holds a string under
/// `name` and a document of the shape of a term under `expression`.
pub open spec fn well_formed_file(j: JsonModel) -> bool {
    holds_text(j, "name"@) && holds_well_formed(j, "expression"@)
}

/// **When decoding a program succeeds.** A top-level document decodes to a
/// program exactly where it has the shape of one.
pub proof fn decoding_file_succeeds_on_well_formed(j: JsonModel)
    ensures
        decode_file(j) is Ok <==> well_formed_file(j),
{
    lemma_child_decodes(j, "expression"@);
}

/// A member.
pub open spec fn member(key: Seq<char>, value: JsonModel) -> MemberModel {
    MemberModel { key, value }
}

/// A node of the given kind with the given fields.
pub open spec fn node(kind: Seq<char>, fields: Seq<MemberModel>) -> JsonModel {
    JsonModel::Object(seq![member("kind"@, JsonModel::Str(kind))] + fields)
}

/// The document of a parameter.
pub open spec fn parameter_document(name: Seq<char>) -> JsonModel {
    JsonModel::Object(seq![member("text"@, JsonModel::Str(name))])
}

/// The documents of a list of parameters, in order.
pub open spec fn parameter_documents(names: Seq<Seq<char>>) -> Seq<JsonModel> {
    Seq::new(names.len(), |i: int| parameter_document(names[i]))
}

/// The document that describes a term: a node of the term's kind that holds
/// the kind's fields, and in them the documents of the term's children.
pub open spec fn document_of(t: TermModel) -> JsonModel
    decreases t,
{
    match t {
        TermModel::Int { value } => node(
            "Int"@,
            seq![member("value"@, JsonModel::Number(Some(value)))],
        ),
        TermModel::Str { value } => node("Str"@, seq![member("value"@, JsonModel::Str(value))]),
        TermModel::Call { callee, args } => node(
            "Call"@,
            seq![
                member("callee"@, document_of(*callee)),
                member("arguments"@, JsonModel::Array(documents_of(args))),
            ],
        ),
        TermModel::Binary { lhs, op, rhs } => node(
            "Binary"@,
            seq![
                member("lhs"@, document_of(*lhs)),
                member("op"@, JsonModel::Str(op.name())),
                member("rhs"@, document_of(*rhs)),
            ],
        ),
        TermModel::Function { params, value } => node(
            "Function"@,
            seq![
                member("parameters"@, JsonModel::Array(parameter_documents(params))),
                member("value"@, document_of(*value)),
            ],
        ),
        TermModel::Let { name, value, next } => node(
            "Let"@,
            seq![
                member("name"@, parameter_document(name)),
                member("value"@, document_of(*value)),
                member("next"@, document_of(*next)),
            ],
        ),
        TermModel::If { cond, then, els_ } => node(
            "If"@,
            seq![
                member("condition"@, document_of(*cond)),
                member("then"@, document_of(*then)),
                member("otherwise"@, document_of(*els_)),
            ],
        ),
        TermModel::Print { value } => node("Print"@, seq![member("value"@, document_of(*value))]),
        TermModel::First { value } => node("First"@, seq![member("value"@, document_of(*value))]),
        TermModel::Second { value } => node(
            "Second"@,
            seq![member("value"@, document_of(*value))],
        ),
        TermModel::Bool { value } => node("Bool"@, seq![member("value"@, JsonModel::Bool(value))]),
        TermModel::Tuple { first, second } => node(
            "Tuple"@,
            seq![member("first"@, document_of(*first)), member("second"@, document_of(*second))],
        ),
        TermModel::Var { text } => node("Var"@, seq![member("text"@, JsonModel::Str(text))]),
    }
}

/// The documents of a list of terms, in order.
pub open spec fn documents_of(ts: Seq<TermModel>) -> Seq<JsonModel>
    decreases ts,
{
    if ts.len() == 0 {
        Seq::empty()
    } else {
        documents_of(ts.drop_last()).push(document_of(ts.last()))
    }
}

/// Whether every integer literal of a term lies in the signed 32-bit range,
/// as those of every executable term do.
pub open spec fn fits(t: TermModel) -> bool
    decreases t,
{
    match t {
        TermModel::Int { value } => i32::MIN <= value <= i32::MAX,
        TermModel::Str { value } => true,
        TermModel::Bool { value } => true,
        TermModel::Var { text } => true,
        TermModel::Call { callee, args } => fits(*callee) && forall|i: int|
            0 <= i < args.len() ==> fits(#[trigger] args[i]),
        TermModel::Binary { lhs, op, rhs } => fits(*lhs) && fits(*rhs),
        TermModel::Function { params, value } => fits(*value),
        TermModel::Let { name, value, next } => fits(*value) && fits(*next),
        TermModel::If { cond, then, els_ } => fits(*cond) && fits(*then) && fits(*els_),
        TermModel::Print { value } => fits(*value),
        TermModel::First { value } => fits(*value),
        TermModel::Second { value } => fits(*value),
        TermModel::Tuple { first, second } => fits(*first) && fits(*second),
    }
}

/// The model of every executable term fits: its integer literals are 32-bit.
pub proof fn executable_term_fits(t: Term)
    ensures
        fits(t@),
    decreases t,
{
    match t {
        Term::Int { value } => {},
        Term::Str { value } => {},
        Term::Bool { value } => {},
        Term::Var { text } => {},
        Term::Call { callee, args } => {
            executable_term_fits(*callee);
            lemma_term_models(args@);
            assert forall|i: int| 0 <= i < args@.len() implies fits(
                #[trigger] term_models(args@)[i],
            ) by {
                executable_term_fits(args@[i]);
            }
        },
        Term::Binary { lhs, op, rhs } => {
            executable_term_fits(*lhs);
            executable_term_fits(*rhs);
        },
        Term::Function { params, value } => {
            executable_term_fits(*value);
        },
        Term::Let { name, value, next } => {
            executable_term_fits(*value);
            executable_term_fits(*next);
        },
        Term::If { cond, then, els_ } => {
            executable_term_fits(*cond);
            executable_term_fits(*then);
            executable_term_fits(*els_);
        },
        Term::Print { value } => {
            executable_term_fits(*value);
        },
        Term::First { value } => {
            executable_term_fits(*value);
        },
        Term::Second { value } => {
            executable_term_fits(*value);
        },
        Term::Tuple { first, second } => {
            executable_term_fits(*first);
            executable_term_fits(*second);
        },
    }
}

/// The stamps of the names that documents use: no two names of fields
/// share one, nor two names of kinds.
proof fn lemma_names()
    ensures
        stamp("kind"@) == (4nat, 'k', 'i'),
        stamp("value"@) == (5nat, 'v', 'a'),
        stamp("callee"@) == (6nat, 'c', 'a'),
        stamp("arguments"@) == (9nat, 'a', 'r'),
        stamp("lhs"@) == (3nat, 'l', 'h'),
        stamp("op"@) == (2nat, 'o', 'p'),
        stamp("rhs"@) == (3nat, 'r', 'h'),
        stamp("parameters"@) == (10nat, 'p', 'a'),
        stamp("name"@) == (4nat, 'n', 'a'),
        stamp("next"@) == (4nat, 'n', 'e'),
        stamp("condition"@) == (9nat, 'c', 'o'),
        stamp("then"@) == (4nat, 't', 'h'),
        stamp("otherwise"@) == (9nat, 'o', 't'),
        stamp("first"@) == (5nat, 'f', 'i'),
        stamp("second"@) == (6nat, 's', 'e'),
        stamp("text"@) == (4nat, 't', 'e'),
        stamp("Int"@) == (3nat, 'I', 'n'),
        stamp("Str"@) == (3nat, 'S', 't'),
        stamp("Call"@) == (4nat, 'C', 'a'),
        stamp("Binary"@) == (6nat, 'B', 'i'),
        stamp("Function"@) == (8nat, 'F', 'u'),
        stamp("Let"@) == (3nat, 'L', 'e'),
        stamp("If"@) == (2nat, 'I', 'f'),
        stamp("Print"@) == (5nat, 'P', 'r'),
        stamp("First"@) == (5nat, 'F', 'i'),
        stamp("Second"@) == (6nat, 'S', 'e'),
        stamp("Bool"@) == (4nat, 'B', 'o'),
        stamp("Tuple"@) == (5nat, 'T', 'u'),
        stamp("Var"@) == (3nat, 'V', 'a'),
{
    reveal_strlit("kind");
    reveal_strlit("value");
    reveal_strlit("callee");
    reveal_strlit("arguments");
    reveal_strlit("lhs");
    reveal_strlit("op");
    reveal_strlit("rhs");
    reveal_strlit("parameters");
    reveal_strlit("name");
    reveal_strlit("next");
    reveal_strlit("condition");
    reveal_strlit("then");
    reveal_strlit("otherwise");
    reveal_strlit("first");
    reveal_strlit("second");
    reveal_strlit("text");
    reveal_strlit("Int");
    reveal_strlit("Str");
    reveal_strlit("Call");
    reveal_strlit("Binary");
    reveal_strlit("Function");
    reveal_strlit("Let");
    reveal_strlit("If");
    reveal_strlit("Print");
    reveal_strlit("First");
    reveal_strlit("Second");
    reveal_strlit("Bool");
    reveal_strlit("Tuple");
    reveal_strlit("Var");
}

/// Where no other member of an object has the key of the member at a place,
/// the object holds that member's value under the key.
proof fn lemma_field_at(ms: Seq<MemberModel>, i: int)
    requires
        0 <= i < ms.len(),
        forall|j: int| 0 <= j < ms.len() && j != i ==> (#[trigger] ms[j]).key != ms[i].key,
    ensures
        JsonModel::Object(ms).field(ms[i].key) == Some(ms[i].value),
{
    lemma_find_at(ms, ms[i].key, i);
}

/// The documents of a list of parameters decode to the parameters.
proof fn lemma_parameter_documents_decode(names: Seq<Seq<char>>)
    ensures
        decode_parameters(parameter_documents(names)) == Ok::<Seq<Seq<char>>, DecodeErrorModel>(
            names,
        ),
    decreases names.len(),
{
    let docs = parameter_documents(names);
    if names.len() == 0 {
        assert(names =~= Seq::<Seq<char>>::empty());
    } else {
        lemma_parameter_documents_decode(names.drop_last());
        assert(docs.drop_last() =~= parameter_documents(names.drop_last()));
        let ms = seq![member("text"@, JsonModel::Str(names.last()))];
        lemma_field_at(ms, 0);
        assert(names.drop_last().push(names.last()) =~= names);
    }
}

/// The documents of a list of terms decode to the terms, where each term's
/// document decodes to it.
proof fn lemma_documents_decode(ts: Seq<TermModel>)
    requires
        forall|i: int| 0 <= i < ts.len() ==> comes_back(#[trigger] ts[i]),
    ensures
        decode_terms(documents_of(ts)) == Ok::<Seq<TermModel>, DecodeErrorModel>(ts),
    decreases ts.len(),
{
    if ts.len() == 0 {
        assert(ts =~= Seq::<TermModel>::empty());
    } else {
        let front = ts.drop_last();
        assert forall|i: int| 0 <= i < front.len() implies comes_back(#[trigger] front[i]) by {
            assert(front[i] == ts[i]);
        }
        lemma_documents_decode(front);
        assert(documents_of(ts).drop_last() =~= documents_of(front));
        assert(comes_back(ts[ts.len() - 1]));
        assert(front.push(ts.last()) =~= ts);
    }
}

/// Whether the document of a term decodes to the term.
pub open spec fn comes_back(t: TermModel) -> bool {
    decode_term(document_of(t)) == Ok::<TermModel, DecodeErrorModel>(t)
}

/// The document of an integer literal decodes to it.
proof fn lemma_int_document(value: int)
    requires
        i32::MIN <= value <= i32::MAX,
    ensures
        comes_back(TermModel::Int { value }),
{
    lemma_names();
    let t = TermModel::Int { value };
    let j = document_of(t);
    let ms = j->Object_0;
    lemma_field_at(ms, 0);
    assert(kind_of(j) == Some(ms[0].value->Str_0));
    lemma_field_at(ms, 1);
}

/// The document of a string literal decodes to it.
proof fn lemma_str_document(value: Seq<char>)
    ensures
        comes_back(TermModel::Str { value }),
{
    lemma_names();
    let t = TermModel::Str { value };
    let j = document_of(t);
    let ms = j->Object_0;
    lemma_field_at(ms, 0);
    assert(kind_of(j) == Some(ms[0].value->Str_0));
    lemma_field_at(ms, 1);
}

/// The document of a boolean literal decodes to it.
proof fn lemma_bool_document(value: bool)
    ensures
        comes_back(TermModel::Bool { value }),
{
    lemma_names();
    let t = TermModel::Bool { value };
    let j = document_of(t);
    let ms = j->Object_0;
    lemma_field_at(ms, 0);
    assert(kind_of(j) == Some(ms[0].value->Str_0));
    lemma_field_at(ms, 1);
}

/// The document of a variable decodes to it.
proof fn lemma_var_document(text: Seq<char>)
    ensures
        comes_back(TermModel::Var { text }),
{
    lemma_names();
    let t = TermModel::Var { text };
    let j = document_of(t);
    let ms = j->Object_0;
    lemma_field_at(ms, 0);
    assert(kind_of(j) == Some(ms[0].value->Str_0));
    lemma_field_at(ms, 1);
}

/// The document of a call decodes to it, where those of its parts do.
proof fn lemma_call_document(callee: TermModel, args: Seq<TermModel>)
    requires
        comes_back(callee),
        decode_terms(documents_of(args)) == Ok::<Seq<TermModel>, DecodeErrorModel>(args),
    ensures
        comes_back(TermModel::Call { callee: Box::new(callee), args }),
{
    lemma_names();
    let t = TermModel::Call { callee: Box::new(callee), args };
    let j = document_of(t);
    let ms = j->Object_0;
    lemma_field_at(ms, 0);
    assert(kind_of(j) == Some(ms[0].value->Str_0));
    assert(decode_child(j, "callee"@) == Ok::<TermModel, DecodeErrorModel>(callee)) by {
        lemma_field_at(ms, 1);
    }
    lemma_field_at(ms, 2);
    assert(list_field(j, "arguments"@) == Ok::<Seq<JsonModel>, DecodeErrorModel>(
        documents_of(args),
    ));
    assert(decode_call(j) == Ok::<TermModel, DecodeErrorModel>(t));
}

/// The document of a binary operation decodes to it, where those of its
/// parts do.
proof fn lemma_binary_document(lhs: TermModel, op: BinaryOp, rhs: TermModel)
    requires
        comes_back(lhs),
        comes_back(rhs),
    ensures
        comes_back(TermModel::Binary { lhs: Box::new(lhs), op, rhs: Box::new(rhs) }),
{
    lemma_names();
    let t = TermModel::Binary { lhs: Box::new(lhs), op, rhs: Box::new(rhs) };
    let j = document_of(t);
    let ms = j->Object_0;
    lemma_field_at(ms, 0);
    assert(kind_of(j) == Some(ms[0].value->Str_0));
    assert(decode_child(j, "lhs"@) == Ok::<TermModel, DecodeErrorModel>(lhs)) by {
        lemma_field_at(ms, 1);
    }
    lemma_field_at(ms, 2);
    operator_is_named(op);
    assert(decode_operator(j) == Ok::<BinaryOp, DecodeErrorModel>(op));
    assert(decode_child(j, "rhs"@) == Ok::<TermModel, DecodeErrorModel>(rhs)) by {
        lemma_field_at(ms, 3);
    }
    assert(decode_binary(j) == Ok::<TermModel, DecodeErrorModel>(t));
}

/// The document of a function decodes to it, where that of its body does.
proof fn lemma_function_document(params: Seq<Seq<char>>, value: TermModel)
    requires
        comes_back(value),
    ensures
        comes_back(TermModel::Function { params, value: Box::new(value) }),
{
    lemma_names();
    let t = TermModel::Function { params, value: Box::new(value) };
    let j = document_of(t);
    let ms = j->Object_0;
    lemma_field_at(ms, 0);
    assert(kind_of(j) == Some(ms[0].value->Str_0));
    lemma_field_at(ms, 1);
    lemma_parameter_documents_decode(params);
    assert(list_field(j, "parameters"@) == Ok::<Seq<JsonModel>, DecodeErrorModel>(
        parameter_documents(params),
    ));
    assert(decode_child(j, "value"@) == Ok::<TermModel, DecodeErrorModel>(value)) by {
        lemma_field_at(ms, 2);
    }
    assert(decode_function(j) == Ok::<TermModel, DecodeErrorModel>(t));
}

/// The document of a `let` decodes to it, where those of its parts do.
proof fn lemma_let_document(name: Seq<char>, value: TermModel, next: TermModel)
    requires
        comes_back(value),
        comes_back(next),
    ensures
        comes_back(TermModel::Let { name, value: Box::new(value), next: Box::new(next) }),
{
    lemma_names();
    let t = TermModel::Let { name, value: Box::new(value), next: Box::new(next) };
    let j = document_of(t);
    let ms = j->Object_0;
    lemma_field_at(ms, 0);
    assert(kind_of(j) == Some(ms[0].value->Str_0));
    lemma_field_at(ms, 1);
    assert(decode_parameter(parameter_document(name)) == Ok::<Seq<char>, DecodeErrorModel>(
        name,
    )) by {
        lemma_field_at(seq![member("text"@, JsonModel::Str(name))], 0);
    }
    assert(decode_child(j, "value"@) == Ok::<TermModel, DecodeErrorModel>(value)) by {
        lemma_field_at(ms, 2);
    }
    assert(decode_child(j, "next"@) == Ok::<TermModel, DecodeErrorModel>(next)) by {
        lemma_field_at(ms, 3);
    }
    assert(decode_let(j) == Ok::<TermModel, DecodeErrorModel>(t));
}

/// The document of a conditional decodes to it, where those of its parts do.
proof fn lemma_if_document(cond: TermModel, then: TermModel, els_: TermModel)
    requires
        comes_back(cond),
        comes_back(then),
        comes_back(els_),
    ensures
        comes_back(
            TermModel::If { cond: Box::new(cond), then: Box::new(then), els_: Box::new(els_) },
        ),
{
    lemma_names();
    let t = TermModel::If {
        cond: Box::new(cond),
        then: Box::new(then),
        els_: Box::new(els_),
    };
    let j = document_of(t);
    let ms = j->Object_0;
    lemma_field_at(ms, 0);
    assert(kind_of(j) == Some(ms[0].value->Str_0));
    assert(decode_child(j, "condition"@) == Ok::<TermModel, DecodeErrorModel>(cond)) by {
        lemma_field_at(ms, 1);
    }
    assert(decode_child(j, "then"@) == Ok::<TermModel, DecodeErrorModel>(then)) by {
        lemma_field_at(ms, 2);
    }
    assert(decode_child(j, "otherwise"@) == Ok::<TermModel, DecodeErrorModel>(els_)) by {
        lemma_field_at(ms, 3);
    }
    assert(decode_if(j) == Ok::<TermModel, DecodeErrorModel>(t));
}

/// The document of a `print` decodes to it, where that of its operand does.
proof fn lemma_print_document(value: TermModel)
    requires
        comes_back(value),
    ensures
        comes_back(TermModel::Print { value: Box::new(value) }),
{
    lemma_names();
    let t = TermModel::Print { value: Box::new(value) };
    let j = document_of(t);
    let ms = j->Object_0;
    lemma_field_at(ms, 0);
    assert(kind_of(j) == Some(ms[0].value->Str_0));
    assert(decode_child(j, "value"@) == Ok::<TermModel, DecodeErrorModel>(value)) by {
        lemma_field_at(ms, 1);
    }
}

/// The document of a `first` decodes to it, where that of its operand does.
proof fn lemma_first_document(value: TermModel)
    requires
        comes_back(value),
    ensures
        comes_back(TermModel::First { value: Box::new(value) }),
{
    lemma_names();
    let t = TermModel::First { value: Box::new(value) };
    let j = document_of(t);
    let ms = j->Object_0;
    lemma_field_at(ms, 0);
    assert(kind_of(j) == Some(ms[0].value->Str_0));
    assert(decode_child(j, "value"@) == Ok::<TermModel, DecodeErrorModel>(value)) by {
        lemma_field_at(ms, 1);
    }
}

/// The document of a `second` decodes to it, where that of its operand does.
proof fn lemma_second_document(value: TermModel)
    requires
        comes_back(value),
    ensures
        comes_back(TermModel::Second { value: Box::new(value) }),
{
    lemma_names();
    let t = TermModel::Second { value: Box::new(value) };
    let j = document_of(t);
    let ms = j->Object_0;
    lemma_field_at(ms, 0);
    assert(kind_of(j) == Some(ms[0].value->Str_0));
    assert(decode_child(j, "value"@) == Ok::<TermModel, DecodeErrorModel>(value)) by {
        lemma_field_at(ms, 1);
    }
}

/// The document of a pair decodes to it, where those of its parts do.
proof fn lemma_tuple_document(first: TermModel, second: TermModel)
    requires
        comes_back(first),
        comes_back(second),
    ensures
        comes_back(TermModel::Tuple { first: Box::new(first), second: Box::new(second) }),
{
    lemma_names();
    let t = TermModel::Tuple { first: Box::new(first), second: Box::new(second) };
    let j = document_of(t);
    let ms = j->Object_0;
    lemma_field_at(ms, 0);
    assert(kind_of(j) == Some(ms[0].value->Str_0));
    assert(decode_child(j, "first"@) == Ok::<TermModel, DecodeErrorModel>(first)) by {
        lemma_field_at(ms, 1);
    }
    assert(decode_child(j, "second"@) == Ok::<TermModel, DecodeErrorModel>(second)) by {
        lemma_field_at(ms, 2);
    }
    assert(decode_tuple(j) == Ok::<TermModel, DecodeErrorModel>(t));
}

/// **Every term has a document.** The document of a term decodes to the
/// term, for every term whose integer literals fit: the decoder mirrors the
/// document node for node.
pub proof fn document_decodes_to_its_term(t: TermModel)
    requires
        fits(t),
    ensures
        decode_term(document_of(t)) == Ok::<TermModel, DecodeErrorModel>(t),
    decreases t,
{
    match t {
        TermModel::Int { value } => {
            lemma_int_document(value);
        },
        TermModel::Str { value } => {
            lemma_str_document(value);
        },
        TermModel::Call { callee, args } => {
            document_decodes_to_its_term(*callee);
            assert forall|i: int| 0 <= i < args.len() implies comes_back(#[trigger] args[i]) by {
                document_decodes_to_its_term(args[i]);
            }
            lemma_documents_decode(args);
            lemma_call_document(*callee, args);
        },
        TermModel::Binary { lhs, op, rhs } => {
            document_decodes_to_its_term(*lhs);
            document_decodes_to_its_term(*rhs);
            lemma_binary_document(*lhs, op, *rhs);
        },
        TermModel::Function { params, value } => {
            document_decodes_to_its_term(*value);
            lemma_function_document(params, *value);
        },
        TermModel::Let { name, value, next } => {
            document_decodes_to_its_term(*value);
            document_decodes_to_its_term(*next);
            lemma_let_document(name, *value, *next);
        },
        TermModel::If { cond, then, els_ } => {
            document_decodes_to_its_term(*cond);
            document_decodes_to_its_term(*then);
            document_decodes_to_its_term(*els_);
            lemma_if_document(*cond, *then, *els_);
        },
        TermModel::Print { value } => {
            document_decodes_to_its_term(*value);
            lemma_print_document(*value);
        },
        TermModel::First { value } => {
            document_decodes_to_its_term(*value);
            lemma_first_document(*value);
        },
        TermModel::Second { value } => {
            document_decodes_to_its_term(*value);
            lemma_second_document(*value);
        },
        TermModel::Bool { value } => {
            lemma_bool_document(value);
        },
        TermModel::Tuple { first, second } => {
            document_decodes_to_its_term(*first);
            document_decodes_to_its_term(*second);
            lemma_tuple_document(*first, *second);
        },
        TermModel::Var { text } => {
            lemma_var_document(text);
        },
    }
}

} // verus!
