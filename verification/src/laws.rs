//! What holds of the encoder and the readback together.

use vstd::prelude::*;
use crate::encode::{abstract_over, apply_to, encode, encode_list, lemma_encode_list};
use crate::lambda::{LambdaModel, all_named, holds_foreign};
use crate::normal::{
    all_normal,
    call_of,
    function_of,
    is_normal,
    lemma_all_normal,
    lemma_normalize_list,
    normalize,
    normalize_list,
};
use crate::readback::{binder_name, chain, readback, spine, ReadbackError};
use crate::render::render;
use crate::term::{Term, TermModel};

verus! {

/// A term seen as a chain of parameters over a body: a function's own, or
/// none over the term itself.
spec fn as_chain(t: TermModel) -> (Seq<Seq<char>>, TermModel) {
    match t {
        TermModel::Function { params, value } => (params, *value),
        _ => (Seq::empty(), t),
    }
}

/// A term seen as a callee under a chain of arguments: a call's own, or the
/// term itself under none.
spec fn as_spine(t: TermModel) -> (TermModel, Seq<TermModel>) {
    match t {
        TermModel::Call { callee, args } => (*callee, args),
        _ => (t, Seq::empty()),
    }
}

/// Where a term of the calculus reads back, its chain of abstractions is the
/// chain of what it reads back as.
proof fn lemma_chain_of_readback(l: LambdaModel)
    requires
        readback(l) is Ok,
    ensures
        chain(l) == Ok::<(Seq<Seq<char>>, TermModel), ReadbackError>(as_chain(readback(l)->Ok_0)),
{
    match l {
        LambdaModel::Lam { name, body } => {},
        _ => {},
    }
}

/// Where a term of the calculus reads back, its chain of applications is the
/// chain of what it reads back as.
proof fn lemma_spine_of_readback(l: LambdaModel)
    requires
        readback(l) is Ok,
    ensures
        spine(l) == Ok::<(TermModel, Seq<TermModel>), ReadbackError>(as_spine(readback(l)->Ok_0)),
{
    match l {
        LambdaModel::App { fun, arg } => {},
        _ => {},
    }
}

/// Abstracting over parameters puts them in front of the body's chain.
proof fn lemma_chain_of_abstraction(params: Seq<Seq<char>>, body: LambdaModel)
    requires
        chain(body) is Ok,
    ensures
        chain(abstract_over(params, body)) == Ok::<(Seq<Seq<char>>, TermModel), ReadbackError>(
            (params + chain(body)->Ok_0.0, chain(body)->Ok_0.1),
        ),
    decreases params.len(),
{
    let (names, inner) = chain(body)->Ok_0;
    if params.len() == 0 {
        assert(params + names =~= names);
    } else {
        lemma_chain_of_abstraction(params.drop_first(), body);
        assert(seq![params[0]] + (params.drop_first() + names) =~= params + names);
    }
}

/// Applying to arguments puts what they read back as behind the function's
/// chain.
proof fn lemma_spine_of_application(
    fun: LambdaModel,
    args: Seq<LambdaModel>,
    read: Seq<TermModel>,
)
    requires
        spine(fun) is Ok,
        args.len() == read.len(),
        forall|i: int|
            0 <= i < args.len() ==> readback(#[trigger] args[i]) == Ok::<TermModel, ReadbackError>(
                read[i],
            ),
    ensures
        spine(apply_to(fun, args)) == Ok::<(TermModel, Seq<TermModel>), ReadbackError>(
            (spine(fun)->Ok_0.0, spine(fun)->Ok_0.1 + read),
        ),
    decreases args.len(),
{
    let (callee, first) = spine(fun)->Ok_0;
    if args.len() == 0 {
        assert(first + read =~= first);
    } else {
        lemma_spine_of_application(fun, args.drop_last(), read.drop_last());
        assert(readback(args[args.len() - 1]) == Ok::<TermModel, ReadbackError>(
            read[read.len() - 1],
        ));
        assert((first + read.drop_last()).push(read.last()) =~= first + read);
    }
}

/// **Round trip.** Encoding a term and reading the encoding back gives the
/// term's normal form, for every term. Readback never fails on an encoding.
pub proof fn encode_then_readback(t: TermModel)
    ensures
        readback(encode(t)) == Ok::<TermModel, ReadbackError>(normalize(t)),
    decreases t,
{
    match t {
        TermModel::Int { value } => {},
        TermModel::Str { value } => {},
        TermModel::Bool { value } => {},
        TermModel::Var { text } => {},
        TermModel::Function { params, value } => {
            encode_then_readback(*value);
            let body = encode(*value);
            let nv = normalize(*value);
            lemma_chain_of_readback(body);
            if params.len() > 0 {
                lemma_chain_of_abstraction(params.drop_first(), body);
                let (names, inner) = as_chain(nv);
                assert(seq![params[0]] + (params.drop_first() + names) =~= params + names);
                assert(params + Seq::<Seq<char>>::empty() =~= params);
            }
        },
        TermModel::Call { callee, args } => {
            encode_then_readback(*callee);
            let head = encode(*callee);
            let encoded = encode_list(args);
            let normal = normalize_list(args);
            lemma_encode_list(args);
            lemma_normalize_list(args);
            lemma_spine_of_readback(head);
            assert forall|i: int| 0 <= i < args.len() implies readback(#[trigger] encoded[i])
                == Ok::<TermModel, ReadbackError>(normal[i]) by {
                encode_then_readback(args[i]);
            }
            if args.len() > 0 {
                let (first_callee, first) = as_spine(normalize(*callee));
                assert forall|i: int| 0 <= i < encoded.drop_last().len() implies readback(
                    #[trigger] encoded.drop_last()[i],
                ) == Ok::<TermModel, ReadbackError>(normal.drop_last()[i]) by {
                    assert(encoded.drop_last()[i] == encoded[i]);
                }
                lemma_spine_of_application(head, encoded.drop_last(), normal.drop_last());
                assert(readback(encoded[encoded.len() - 1]) == Ok::<TermModel, ReadbackError>(
                    normal[normal.len() - 1],
                ));
                assert((first + normal.drop_last()).push(normal.last()) =~= first + normal);
                assert(Seq::<TermModel>::empty() + normal =~= normal);
            }
        },
        TermModel::Let { name, value, next } => {
            encode_then_readback(*value);
            encode_then_readback(*next);
            let body = encode(*next);
            lemma_chain_of_readback(body);
            let fun = LambdaModel::Lam { name: Some(name), body: Box::new(body) };
            let read = function_of(seq![name], normalize(*next));
            assert(readback(fun) == Ok::<TermModel, ReadbackError>(read)) by {
                assert(seq![name] + Seq::<Seq<char>>::empty() =~= seq![name]);
            }
            assert(spine(fun) == Ok::<(TermModel, Seq<TermModel>), ReadbackError>(
                (read, Seq::empty()),
            ));
            assert(Seq::<TermModel>::empty().push(normalize(*value)) =~= seq![normalize(*value)]);
        },
        TermModel::Binary { lhs, op, rhs } => {
            encode_then_readback(*lhs);
            encode_then_readback(*rhs);
        },
        TermModel::If { cond, then, els_ } => {
            encode_then_readback(*cond);
            encode_then_readback(*then);
            encode_then_readback(*els_);
        },
        TermModel::Print { value } => {
            encode_then_readback(*value);
        },
        TermModel::First { value } => {
            encode_then_readback(*value);
        },
        TermModel::Second { value } => {
            encode_then_readback(*value);
        },
        TermModel::Tuple { first, second } => {
            encode_then_readback(*first);
            encode_then_readback(*second);
        },
    }
}

/// A term in normal form is its own normal form.
pub proof fn normal_form_is_fixed(t: TermModel)
    requires
        is_normal(t),
    ensures
        normalize(t) == t,
    decreases t,
{
    match t {
        TermModel::Int { value } => {},
        TermModel::Str { value } => {},
        TermModel::Bool { value } => {},
        TermModel::Var { text } => {},
        TermModel::Function { params, value } => {
            normal_form_is_fixed(*value);
        },
        TermModel::Call { callee, args } => {
            normal_form_is_fixed(*callee);
            lemma_normalize_list(args);
            lemma_all_normal(args);
            assert forall|i: int| 0 <= i < args.len() implies normalize_list(args)[i]
                == args[i] by {
                normal_form_is_fixed(args[i]);
            }
            assert(normalize_list(args) =~= args);
        },
        TermModel::Let { name, value, next } => {},
        TermModel::Binary { lhs, op, rhs } => {
            normal_form_is_fixed(*lhs);
            normal_form_is_fixed(*rhs);
        },
        TermModel::If { cond, then, els_ } => {
            normal_form_is_fixed(*cond);
            normal_form_is_fixed(*then);
            normal_form_is_fixed(*els_);
        },
        TermModel::Print { value } => {
            normal_form_is_fixed(*value);
        },
        TermModel::First { value } => {
            normal_form_is_fixed(*value);
        },
        TermModel::Second { value } => {
            normal_form_is_fixed(*value);
        },
        TermModel::Tuple { first, second } => {
            normal_form_is_fixed(*first);
            normal_form_is_fixed(*second);
        },
    }
}

/// **Exact round trip.** A term in normal form survives encoding and
/// readback unchanged: so does every function with parameters whose body is
/// no function, and every call with arguments whose callee is no call.
pub proof fn normal_term_round_trips(t: TermModel)
    requires
        is_normal(t),
    ensures
        readback(encode(t)) == Ok::<TermModel, ReadbackError>(t),
{
    encode_then_readback(t);
    normal_form_is_fixed(t);
}

/// What lies under a chain of abstractions reads back as a normal form that
/// is no function.
proof fn lemma_chain_is_normal(l: LambdaModel)
    requires
        chain(l) is Ok,
    ensures
        is_normal(chain(l)->Ok_0.1),
        !(chain(l)->Ok_0.1 is Function),
    decreases l, 1int,
{
    match l {
        LambdaModel::Lam { name, body } => {
            lemma_chain_is_normal(*body);
        },
        _ => {
            readback_is_normal(l);
        },
    }
}

/// The head of a chain of applications reads back as a normal form that is
/// no call, and each argument as a normal form.
proof fn lemma_spine_is_normal(l: LambdaModel)
    requires
        spine(l) is Ok,
    ensures
        is_normal(spine(l)->Ok_0.0),
        !(spine(l)->Ok_0.0 is Call),
        all_normal(spine(l)->Ok_0.1),
    decreases l, 1int,
{
    match l {
        LambdaModel::App { fun, arg } => {
            lemma_spine_is_normal(*fun);
            readback_is_normal(*arg);
            let (callee, args) = spine(*fun)->Ok_0;
            let last = readback(*arg)->Ok_0;
            assert(args.push(last).drop_last() =~= args);
            assert(all_normal(args.push(last)));
        },
        _ => {
            readback_is_normal(l);
        },
    }
}

/// **Readback gives normal forms.** Whatever a term of the calculus reads
/// back as is in normal form: its functions have parameters, its calls have
/// arguments, and it holds no `let`.
pub proof fn readback_is_normal(l: LambdaModel)
    requires
        readback(l) is Ok,
    ensures
        is_normal(readback(l)->Ok_0),
    decreases l, 0int,
{
    match l {
        LambdaModel::Var { name } => {},
        LambdaModel::Lam { name, body } => {
            lemma_chain_is_normal(*body);
            let (names, inner) = chain(*body)->Ok_0;
            assert((seq![binder_name(name)] + names).len() > 0);
        },
        LambdaModel::App { fun, arg } => {
            lemma_spine_is_normal(*fun);
            readback_is_normal(*arg);
            let (callee, args) = spine(*fun)->Ok_0;
            let last = readback(*arg)->Ok_0;
            assert(args.push(last).drop_last() =~= args);
            assert(all_normal(args.push(last)));
        },
        LambdaModel::Int { value } => {},
        LambdaModel::Str { value } => {},
        LambdaModel::Bool { value } => {},
        LambdaModel::Binary { op, lhs, rhs } => {
            readback_is_normal(*lhs);
            readback_is_normal(*rhs);
        },
        LambdaModel::If { cond, then, els_ } => {
            readback_is_normal(*cond);
            readback_is_normal(*then);
            readback_is_normal(*els_);
        },
        LambdaModel::Print { value } => {
            readback_is_normal(*value);
        },
        LambdaModel::First { value } => {
            readback_is_normal(*value);
        },
        LambdaModel::Second { value } => {
            readback_is_normal(*value);
        },
        LambdaModel::Tuple { first, second } => {
            readback_is_normal(*first);
            readback_is_normal(*second);
        },
        LambdaModel::Foreign { label } => {},
    }
}

/// **Normal forms are normal.** The normal form of a term is in normal
/// form, so taking it twice changes nothing more.
pub proof fn normalize_is_idempotent(t: TermModel)
    ensures
        is_normal(normalize(t)),
        normalize(normalize(t)) == normalize(t),
{
    encode_then_readback(t);
    readback_is_normal(encode(t));
    normal_form_is_fixed(normalize(t));
}

/// A chain of abstractions reads back exactly where it holds no foreign
/// node.
proof fn lemma_chain_fails_on_foreign(l: LambdaModel)
    ensures
        chain(l) is Err <==> holds_foreign(l),
    decreases l, 1int,
{
    match l {
        LambdaModel::Lam { name, body } => {
            lemma_chain_fails_on_foreign(*body);
        },
        _ => {
            readback_fails_on_foreign(l);
        },
    }
}

/// A chain of applications reads back exactly where it holds no foreign
/// node.
proof fn lemma_spine_fails_on_foreign(l: LambdaModel)
    ensures
        spine(l) is Err <==> holds_foreign(l),
    decreases l, 1int,
{
    match l {
        LambdaModel::App { fun, arg } => {
            lemma_spine_fails_on_foreign(*fun);
            readback_fails_on_foreign(*arg);
        },
        _ => {
            readback_fails_on_foreign(l);
        },
    }
}

/// **When readback fails.** A term of the calculus reads back as no term
/// exactly where it holds a node that no encoding produces; every other
/// term reads back.
pub proof fn readback_fails_on_foreign(l: LambdaModel)
    ensures
        readback(l) is Err <==> holds_foreign(l),
        readback(l) is Err ==> readback(l) == Err::<TermModel, ReadbackError>(
            ReadbackError::Malformed,
        ),
    decreases l, 0int,
{
    match l {
        LambdaModel::Var { name } => {},
        LambdaModel::Lam { name, body } => {
            lemma_chain_fails_on_foreign(*body);
        },
        LambdaModel::App { fun, arg } => {
            lemma_spine_fails_on_foreign(*fun);
            readback_fails_on_foreign(*arg);
        },
        LambdaModel::Int { value } => {},
        LambdaModel::Str { value } => {},
        LambdaModel::Bool { value } => {},
        LambdaModel::Binary { op, lhs, rhs } => {
            readback_fails_on_foreign(*lhs);
            readback_fails_on_foreign(*rhs);
        },
        LambdaModel::If { cond, then, els_ } => {
            readback_fails_on_foreign(*cond);
            readback_fails_on_foreign(*then);
            readback_fails_on_foreign(*els_);
        },
        LambdaModel::Print { value } => {
            readback_fails_on_foreign(*value);
        },
        LambdaModel::First { value } => {
            readback_fails_on_foreign(*value);
        },
        LambdaModel::Second { value } => {
            readback_fails_on_foreign(*value);
        },
        LambdaModel::Tuple { first, second } => {
            readback_fails_on_foreign(*first);
            readback_fails_on_foreign(*second);
        },
        LambdaModel::Foreign { label } => {},
    }
}

/// Abstracting the encoding of what lies under a chain over the chain's
/// names gives the chain back.
proof fn lemma_chain_encodes(l: LambdaModel)
    requires
        chain(l) is Ok,
        all_named(l),
    ensures
        abstract_over(chain(l)->Ok_0.0, encode(chain(l)->Ok_0.1)) == l,
    decreases l, 1int,
{
    match l {
        LambdaModel::Lam { name, body } => {
            lemma_chain_encodes(*body);
            let (names, inner) = chain(*body)->Ok_0;
            let all = seq![binder_name(name)] + names;
            assert(all.drop_first() =~= names);
        },
        _ => {
            readback_then_encode(l);
        },
    }
}

/// Applying the encoding of a chain's head to the encodings of the chain's
/// arguments gives the chain back.
proof fn lemma_spine_encodes(l: LambdaModel)
    requires
        spine(l) is Ok,
        all_named(l),
    ensures
        apply_to(encode(spine(l)->Ok_0.0), encode_list(spine(l)->Ok_0.1)) == l,
    decreases l, 1int,
{
    match l {
        LambdaModel::App { fun, arg } => {
            lemma_spine_encodes(*fun);
            readback_then_encode(*arg);
            let (callee, args) = spine(*fun)->Ok_0;
            let last = readback(*arg)->Ok_0;
            let all = args.push(last);
            assert(all.drop_last() =~= args);
            assert(encode_list(all).drop_last() =~= encode_list(args));
        },
        _ => {
            readback_then_encode(l);
        },
    }
}

/// **The other way round.** Where a term of the calculus reads back and
/// all its abstractions name their binders, encoding what it reads back as
/// gives the very term. With the round trip above, this makes encoder and
/// readback inverse to each other between normal forms and such terms.
pub proof fn readback_then_encode(l: LambdaModel)
    requires
        readback(l) is Ok,
        all_named(l),
    ensures
        encode(readback(l)->Ok_0) == l,
    decreases l, 0int,
{
    match l {
        LambdaModel::Var { name } => {},
        LambdaModel::Lam { name, body } => {
            lemma_chain_encodes(*body);
            let (names, inner) = chain(*body)->Ok_0;
            let all = seq![binder_name(name)] + names;
            assert(all.drop_first() =~= names);
        },
        LambdaModel::App { fun, arg } => {
            lemma_spine_encodes(*fun);
            readback_then_encode(*arg);
            let (callee, args) = spine(*fun)->Ok_0;
            let last = readback(*arg)->Ok_0;
            let all = args.push(last);
            assert(all.drop_last() =~= args);
            assert(encode_list(all).drop_last() =~= encode_list(args));
        },
        LambdaModel::Int { value } => {},
        LambdaModel::Str { value } => {},
        LambdaModel::Bool { value } => {},
        LambdaModel::Binary { op, lhs, rhs } => {
            readback_then_encode(*lhs);
            readback_then_encode(*rhs);
        },
        LambdaModel::If { cond, then, els_ } => {
            readback_then_encode(*cond);
            readback_then_encode(*then);
            readback_then_encode(*els_);
        },
        LambdaModel::Print { value } => {
            readback_then_encode(*value);
        },
        LambdaModel::First { value } => {
            readback_then_encode(*value);
        },
        LambdaModel::Second { value } => {
            readback_then_encode(*value);
        },
        LambdaModel::Tuple { first, second } => {
            readback_then_encode(*first);
            readback_then_encode(*second);
        },
        LambdaModel::Foreign { label } => {},
    }
}

/// Abstractions over named parameters name their binders.
proof fn lemma_abstraction_is_named(params: Seq<Seq<char>>, body: LambdaModel)
    requires
        all_named(body),
    ensures
        all_named(abstract_over(params, body)),
    decreases params.len(),
{
    if params.len() > 0 {
        lemma_abstraction_is_named(params.drop_first(), body);
    }
}

/// Applications of terms that name their binders name their binders.
proof fn lemma_application_is_named(fun: LambdaModel, args: Seq<LambdaModel>)
    requires
        all_named(fun),
        forall|i: int| 0 <= i < args.len() ==> all_named(#[trigger] args[i]),
    ensures
        all_named(apply_to(fun, args)),
    decreases args.len(),
{
    if args.len() > 0 {
        assert forall|i: int| 0 <= i < args.drop_last().len() implies all_named(
            #[trigger] args.drop_last()[i],
        ) by {
            assert(args.drop_last()[i] == args[i]);
        }
        lemma_application_is_named(fun, args.drop_last());
        assert(all_named(args[args.len() - 1]));
    }
}

/// **What the encoder produces.** An encoding names every binder and holds
/// no foreign node: it is a term that reads back, and that the readback and
/// the encoder take to each other.
pub proof fn encoding_is_plain(t: TermModel)
    ensures
        all_named(encode(t)),
        !holds_foreign(encode(t)),
    decreases t,
{
    encode_then_readback(t);
    readback_fails_on_foreign(encode(t));
    match t {
        TermModel::Int { value } => {},
        TermModel::Str { value } => {},
        TermModel::Bool { value } => {},
        TermModel::Var { text } => {},
        TermModel::Function { params, value } => {
            encoding_is_plain(*value);
            lemma_abstraction_is_named(params, encode(*value));
        },
        TermModel::Call { callee, args } => {
            encoding_is_plain(*callee);
            lemma_encode_list(args);
            assert forall|i: int| 0 <= i < args.len() implies all_named(
                #[trigger] encode_list(args)[i],
            ) by {
                encoding_is_plain(args[i]);
            }
            lemma_application_is_named(encode(*callee), encode_list(args));
        },
        TermModel::Let { name, value, next } => {
            encoding_is_plain(*value);
            encoding_is_plain(*next);
            let fun = LambdaModel::Lam { name: Some(name), body: Box::new(encode(*next)) };
            assert(all_named(fun));
        },
        TermModel::Binary { lhs, op, rhs } => {
            encoding_is_plain(*lhs);
            encoding_is_plain(*rhs);
        },
        TermModel::If { cond, then, els_ } => {
            encoding_is_plain(*cond);
            encoding_is_plain(*then);
            encoding_is_plain(*els_);
        },
        TermModel::Print { value } => {
            encoding_is_plain(*value);
        },
        TermModel::First { value } => {
            encoding_is_plain(*value);
        },
        TermModel::Second { value } => {
            encoding_is_plain(*value);
        },
        TermModel::Tuple { first, second } => {
            encoding_is_plain(*first);
            encoding_is_plain(*second);
        },
    }
}

/// **Let is an applied function.** A `let` and the call of the one-parameter
/// function of its body on its value have the same encoding, so the engine
/// is handed the same term for both.
pub proof fn let_encodes_as_call(name: Seq<char>, value: TermModel, next: TermModel)
    ensures
        encode(TermModel::Let { name, value: Box::new(value), next: Box::new(next) }) == encode(
            TermModel::Call {
                callee: Box::new(
                    TermModel::Function { params: seq![name], value: Box::new(next) },
                ),
                args: seq![value],
            },
        ),
{
    let params = seq![name];
    let fun = TermModel::Function { params, value: Box::new(next) };
    let args = seq![value];
    assert(params.drop_first() =~= Seq::<Seq<char>>::empty());
    assert(abstract_over(params.drop_first(), encode(next)) == encode(next));
    assert(encode(fun) == LambdaModel::Lam { name: Some(name), body: Box::new(encode(next)) });
    lemma_encode_list(args);
    let encoded = encode_list(args);
    assert(encoded.drop_last() =~= Seq::<LambdaModel>::empty());
    assert(apply_to(encode(fun), encoded.drop_last()) == encode(fun));
}

/// **Rendering is a function of the term.** Two terms with the same model
/// render to the same text.
pub proof fn render_is_deterministic(a: Term, b: Term)
    requires
        a@ == b@,
    ensures
        render(a@) == render(b@),
{
}

} // verus!
