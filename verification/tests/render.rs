use rinha::{term_to_string, BinaryOp, Parameter, Term};

fn r_var(name: &str) -> Term {
    Term::Var { text: name.to_string() }
}

fn r_int(value: i32) -> Term {
    Term::Int { value }
}

fn r_param(name: &str) -> Parameter {
    Parameter { text: name.to_string() }
}

#[test]
fn renders_an_integer() {
    assert_eq!(term_to_string(&r_int(2)), "2");
}

#[test]
fn renders_integers_at_the_edges() {
    assert_eq!(term_to_string(&r_int(0)), "0");
    assert_eq!(term_to_string(&r_int(9)), "9");
    assert_eq!(term_to_string(&r_int(10)), "10");
    assert_eq!(term_to_string(&r_int(-1)), "-1");
    assert_eq!(term_to_string(&r_int(1005)), "1005");
    assert_eq!(term_to_string(&r_int(i32::MAX)), "2147483647");
    assert_eq!(term_to_string(&r_int(i32::MIN)), "-2147483648");
}

#[test]
fn renders_a_boolean() {
    assert_eq!(term_to_string(&Term::Bool { value: true }), "true");
    assert_eq!(term_to_string(&Term::Bool { value: false }), "false");
}

#[test]
fn renders_a_string_in_quotes() {
    assert_eq!(term_to_string(&Term::Str { value: "hi there".to_string() }), "\"hi there\"");
    assert_eq!(term_to_string(&Term::Str { value: String::new() }), "\"\"");
}

#[test]
fn renders_a_variable_as_its_name() {
    assert_eq!(term_to_string(&r_var("answer")), "answer");
}

#[test]
fn renders_a_binary_operation() {
    let t = Term::Binary { lhs: Box::new(r_var("a")), op: BinaryOp::Lte, rhs: Box::new(r_int(-7)) };
    assert_eq!(term_to_string(&t), "a <= -7");
}

#[test]
fn renders_a_function() {
    let t = Term::Function { params: vec![r_param("x"), r_param("y")], value: Box::new(r_var("x")) };
    assert_eq!(term_to_string(&t), "fn (x, y) => { x }");
}

#[test]
fn renders_a_function_without_parameters() {
    let t = Term::Function { params: vec![], value: Box::new(r_int(1)) };
    assert_eq!(term_to_string(&t), "fn () => { 1 }");
}

#[test]
fn renders_a_call() {
    let none = Term::Call { callee: Box::new(r_var("f")), args: vec![] };
    assert_eq!(term_to_string(&none), "f()");
    let one = Term::Call { callee: Box::new(r_var("f")), args: vec![r_int(1)] };
    assert_eq!(term_to_string(&one), "f(1)");
    let three = Term::Call { callee: Box::new(r_var("f")), args: vec![r_int(1), r_var("b"), r_int(3)] };
    assert_eq!(term_to_string(&three), "f(1, b, 3)");
}

#[test]
fn renders_a_let() {
    let t = Term::Let { name: r_param("x"), value: Box::new(r_int(1)), next: Box::new(r_var("x")) };
    assert_eq!(term_to_string(&t), "let x = 1; x");
}

#[test]
fn renders_a_conditional() {
    let t = Term::If {
        cond: Box::new(Term::Bool { value: true }),
        then: Box::new(r_int(1)),
        els_: Box::new(r_int(2)),
    };
    assert_eq!(term_to_string(&t), "if (true) { 1 } else { 2 }");
}

#[test]
fn renders_print_and_projections() {
    assert_eq!(term_to_string(&Term::Print { value: Box::new(r_var("x")) }), "print(x)");
    assert_eq!(term_to_string(&Term::First { value: Box::new(r_var("p")) }), "first(p)");
    assert_eq!(term_to_string(&Term::Second { value: Box::new(r_var("p")) }), "second(p)");
}

#[test]
fn renders_a_pair() {
    let t = Term::Tuple { first: Box::new(r_int(1)), second: Box::new(r_var("b")) };
    assert_eq!(term_to_string(&t), "(1, b)");
}

#[test]
fn renders_nested_terms() {
    let sum = Term::Binary { lhs: Box::new(r_var("n")), op: BinaryOp::Add, rhs: Box::new(r_int(1)) };
    let call = Term::Call { callee: Box::new(r_var("f")), args: vec![sum, Term::Str { value: "s".to_string() }] };
    let t = Term::Let {
        name: r_param("f"),
        value: Box::new(Term::Function { params: vec![r_param("a"), r_param("b")], value: Box::new(r_var("a")) }),
        next: Box::new(Term::Print { value: Box::new(call) }),
    };
    assert_eq!(term_to_string(&t), "let f = fn (a, b) => { a }; print(f(n + 1, \"s\"))");
}

#[test]
fn rendering_equal_terms_gives_equal_text() {
    let t = Term::Call {
        callee: Box::new(r_var("f")),
        args: vec![r_int(12), Term::Tuple { first: Box::new(r_int(1)), second: Box::new(r_int(2)) }],
    };
    let copy = t.clone();
    assert_eq!(copy, t);
    assert_eq!(term_to_string(&t), term_to_string(&copy));
    assert_eq!(term_to_string(&t), term_to_string(&t));
    assert_eq!(term_to_string(&t), "f(12, (1, 2))");
}
