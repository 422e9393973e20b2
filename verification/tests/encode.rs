use rinha::{rinha_term_to_hvm_lang_term, BinaryOp, LambdaTerm, Parameter, Term};

fn e_var(name: &str) -> Term {
    Term::Var { text: name.to_string() }
}

fn e_param(name: &str) -> Parameter {
    Parameter { text: name.to_string() }
}

fn l_var(name: &str) -> LambdaTerm {
    LambdaTerm::Var { name: name.to_string() }
}

fn l_lam(name: &str, body: LambdaTerm) -> LambdaTerm {
    LambdaTerm::Lam { name: Some(name.to_string()), body: Box::new(body) }
}

fn l_app(fun: LambdaTerm, arg: LambdaTerm) -> LambdaTerm {
    LambdaTerm::App { fun: Box::new(fun), arg: Box::new(arg) }
}

#[test]
fn a_variable_encodes_as_itself() {
    assert_eq!(rinha_term_to_hvm_lang_term(&e_var("x")), l_var("x"));
}

#[test]
fn a_function_curries_with_its_first_parameter_outermost() {
    let t = Term::Function { params: vec![e_param("a"), e_param("b"), e_param("c")], value: Box::new(e_var("b")) };
    let want = l_lam("a", l_lam("b", l_lam("c", l_var("b"))));
    assert_eq!(rinha_term_to_hvm_lang_term(&t), want);
}

#[test]
fn a_function_without_parameters_encodes_as_its_body() {
    let t = Term::Function { params: vec![], value: Box::new(e_var("b")) };
    assert_eq!(rinha_term_to_hvm_lang_term(&t), l_var("b"));
}

#[test]
fn a_call_applies_to_its_arguments_from_the_left() {
    let t = Term::Call { callee: Box::new(e_var("f")), args: vec![e_var("x"), e_var("y"), e_var("z")] };
    let want = l_app(l_app(l_app(l_var("f"), l_var("x")), l_var("y")), l_var("z"));
    assert_eq!(rinha_term_to_hvm_lang_term(&t), want);
}

#[test]
fn a_call_without_arguments_encodes_as_its_callee() {
    let t = Term::Call { callee: Box::new(e_var("f")), args: vec![] };
    assert_eq!(rinha_term_to_hvm_lang_term(&t), l_var("f"));
}

#[test]
fn a_let_encodes_as_an_applied_abstraction() {
    let t = Term::Let { name: e_param("x"), value: Box::new(e_var("v")), next: Box::new(e_var("x")) };
    let want = l_app(l_lam("x", l_var("x")), l_var("v"));
    assert_eq!(rinha_term_to_hvm_lang_term(&t), want);
}

#[test]
fn a_let_encodes_as_the_call_of_a_one_parameter_function() {
    let value = Term::Call { callee: Box::new(e_var("g")), args: vec![e_var("a")] };
    let next = Term::Tuple { first: Box::new(e_var("x")), second: Box::new(e_var("x")) };
    let as_let = Term::Let { name: e_param("x"), value: Box::new(value.clone()), next: Box::new(next.clone()) };
    let as_call = Term::Call {
        callee: Box::new(Term::Function { params: vec![e_param("x")], value: Box::new(next) }),
        args: vec![value],
    };
    assert_eq!(rinha_term_to_hvm_lang_term(&as_let), rinha_term_to_hvm_lang_term(&as_call));
}

#[test]
fn an_unbound_variable_passes_through() {
    let t = Term::Function { params: vec![e_param("x")], value: Box::new(e_var("free")) };
    assert_eq!(rinha_term_to_hvm_lang_term(&t), l_lam("x", l_var("free")));
}

#[test]
fn literals_encode_as_their_nodes() {
    assert_eq!(rinha_term_to_hvm_lang_term(&Term::Int { value: -3 }), LambdaTerm::Int { value: -3 });
    assert_eq!(
        rinha_term_to_hvm_lang_term(&Term::Str { value: "s".to_string() }),
        LambdaTerm::Str { value: "s".to_string() }
    );
    assert_eq!(rinha_term_to_hvm_lang_term(&Term::Bool { value: true }), LambdaTerm::Bool { value: true });
}

#[test]
fn compound_constructs_encode_as_their_nodes() {
    let bin = Term::Binary { lhs: Box::new(e_var("a")), op: BinaryOp::Mul, rhs: Box::new(e_var("b")) };
    assert_eq!(
        rinha_term_to_hvm_lang_term(&bin),
        LambdaTerm::Binary { op: BinaryOp::Mul, lhs: Box::new(l_var("a")), rhs: Box::new(l_var("b")) }
    );
    let cond = Term::If { cond: Box::new(e_var("c")), then: Box::new(e_var("t")), els_: Box::new(e_var("e")) };
    assert_eq!(
        rinha_term_to_hvm_lang_term(&cond),
        LambdaTerm::If { cond: Box::new(l_var("c")), then: Box::new(l_var("t")), els_: Box::new(l_var("e")) }
    );
    assert_eq!(
        rinha_term_to_hvm_lang_term(&Term::Print { value: Box::new(e_var("x")) }),
        LambdaTerm::Print { value: Box::new(l_var("x")) }
    );
    assert_eq!(
        rinha_term_to_hvm_lang_term(&Term::First { value: Box::new(e_var("x")) }),
        LambdaTerm::First { value: Box::new(l_var("x")) }
    );
    assert_eq!(
        rinha_term_to_hvm_lang_term(&Term::Second { value: Box::new(e_var("x")) }),
        LambdaTerm::Second { value: Box::new(l_var("x")) }
    );
    let pair = Term::Tuple { first: Box::new(e_var("a")), second: Box::new(e_var("b")) };
    assert_eq!(
        rinha_term_to_hvm_lang_term(&pair),
        LambdaTerm::Tuple { first: Box::new(l_var("a")), second: Box::new(l_var("b")) }
    );
}

#[test]
fn children_of_nodes_are_encoded_too() {
    let inner = Term::Let { name: e_param("x"), value: Box::new(e_var("v")), next: Box::new(e_var("x")) };
    let t = Term::Print { value: Box::new(inner) };
    let want = LambdaTerm::Print { value: Box::new(l_app(l_lam("x", l_var("x")), l_var("v"))) };
    assert_eq!(rinha_term_to_hvm_lang_term(&t), want);
}
