use rinha::{json_to_file, json_to_term, BinaryOp, DecodeError, File, Json, Member, Parameter, Term};

fn d_str(text: &str) -> Json {
    Json::Str(text.to_string())
}

fn d_obj(members: Vec<(&str, Json)>) -> Json {
    let mut out = Vec::new();
    for (key, value) in members {
        out.push(Member { key: key.to_string(), value });
    }
    Json::Object(out)
}

fn d_var(name: &str) -> Json {
    d_obj(vec![("kind", d_str("Var")), ("text", d_str(name))])
}

fn d_int(value: i64) -> Json {
    d_obj(vec![("kind", d_str("Int")), ("value", Json::Number(Some(value)))])
}

fn d_text(name: &str) -> Json {
    d_obj(vec![("text", d_str(name))])
}

fn t_var(name: &str) -> Term {
    Term::Var { text: name.to_string() }
}

fn missing(field: &str) -> DecodeError {
    DecodeError::MissingField(field.to_string())
}

#[test]
fn binary_without_op_is_a_missing_field() {
    let doc = d_obj(vec![("kind", d_str("Binary")), ("lhs", d_int(1)), ("rhs", d_int(2))]);
    assert_eq!(json_to_term(&doc), Err(missing("op")));
}

#[test]
fn bogus_kind_is_unknown() {
    let doc = d_obj(vec![("kind", d_str("Bogus"))]);
    assert_eq!(json_to_term(&doc), Err(DecodeError::UnknownKind));
}

#[test]
fn absent_or_ill_typed_kind_is_unknown() {
    assert_eq!(json_to_term(&d_obj(vec![("text", d_str("x"))])), Err(DecodeError::UnknownKind));
    assert_eq!(json_to_term(&d_obj(vec![("kind", Json::Number(Some(1)))])), Err(DecodeError::UnknownKind));
    assert_eq!(json_to_term(&d_obj(vec![("kind", Json::Null)])), Err(DecodeError::UnknownKind));
    assert_eq!(json_to_term(&d_obj(vec![("kind", d_str("var")), ("text", d_str("x"))])), Err(DecodeError::UnknownKind));
    assert_eq!(json_to_term(&Json::Null), Err(DecodeError::UnknownKind));
    assert_eq!(json_to_term(&Json::Bool(true)), Err(DecodeError::UnknownKind));
    assert_eq!(json_to_term(&d_str("Var")), Err(DecodeError::UnknownKind));
    assert_eq!(json_to_term(&Json::Array(vec![d_var("x")])), Err(DecodeError::UnknownKind));
}

#[test]
fn decodes_an_integer() {
    assert_eq!(json_to_term(&d_int(2)), Ok(Term::Int { value: 2 }));
    assert_eq!(json_to_term(&d_int(-40)), Ok(Term::Int { value: -40 }));
    assert_eq!(json_to_term(&d_int(2147483647)), Ok(Term::Int { value: i32::MAX }));
    assert_eq!(json_to_term(&d_int(-2147483648)), Ok(Term::Int { value: i32::MIN }));
}

#[test]
fn integer_out_of_range_is_a_type_mismatch() {
    assert_eq!(json_to_term(&d_int(2147483648)), Err(DecodeError::TypeMismatch));
    assert_eq!(json_to_term(&d_int(-2147483649)), Err(DecodeError::TypeMismatch));
    assert_eq!(json_to_term(&d_int(i64::MAX)), Err(DecodeError::TypeMismatch));
}

#[test]
fn value_that_is_no_integer_is_a_type_mismatch() {
    let fraction = d_obj(vec![("kind", d_str("Int")), ("value", Json::Number(None))]);
    assert_eq!(json_to_term(&fraction), Err(DecodeError::TypeMismatch));
    let text = d_obj(vec![("kind", d_str("Int")), ("value", d_str("2"))]);
    assert_eq!(json_to_term(&text), Err(DecodeError::TypeMismatch));
    let null = d_obj(vec![("kind", d_str("Int")), ("value", Json::Null)]);
    assert_eq!(json_to_term(&null), Err(DecodeError::TypeMismatch));
}

#[test]
fn literal_without_value_is_a_missing_field() {
    assert_eq!(json_to_term(&d_obj(vec![("kind", d_str("Int"))])), Err(missing("value")));
    assert_eq!(json_to_term(&d_obj(vec![("kind", d_str("Str"))])), Err(missing("value")));
    assert_eq!(json_to_term(&d_obj(vec![("kind", d_str("Bool"))])), Err(missing("value")));
    assert_eq!(json_to_term(&d_obj(vec![("kind", d_str("Var"))])), Err(missing("text")));
}

#[test]
fn decodes_string_boolean_and_variable() {
    let s = d_obj(vec![("kind", d_str("Str")), ("value", d_str("hello"))]);
    assert_eq!(json_to_term(&s), Ok(Term::Str { value: "hello".to_string() }));
    let b = d_obj(vec![("kind", d_str("Bool")), ("value", Json::Bool(false))]);
    assert_eq!(json_to_term(&b), Ok(Term::Bool { value: false }));
    assert_eq!(json_to_term(&d_var("x")), Ok(t_var("x")));
}

#[test]
fn ill_typed_literals_are_type_mismatches() {
    let s = d_obj(vec![("kind", d_str("Str")), ("value", Json::Number(Some(1)))]);
    assert_eq!(json_to_term(&s), Err(DecodeError::TypeMismatch));
    let b = d_obj(vec![("kind", d_str("Bool")), ("value", d_str("true"))]);
    assert_eq!(json_to_term(&b), Err(DecodeError::TypeMismatch));
    let v = d_obj(vec![("kind", d_str("Var")), ("text", Json::Bool(true))]);
    assert_eq!(json_to_term(&v), Err(DecodeError::TypeMismatch));
}

#[test]
fn decodes_a_binary_operation() {
    let doc = d_obj(vec![("kind", d_str("Binary")), ("lhs", d_var("a")), ("op", d_str("Rem")), ("rhs", d_int(2))]);
    let want = Term::Binary { lhs: Box::new(t_var("a")), op: BinaryOp::Rem, rhs: Box::new(Term::Int { value: 2 }) };
    assert_eq!(json_to_term(&doc), Ok(want));
}

#[test]
fn unknown_operator_is_reported() {
    let doc = d_obj(vec![("kind", d_str("Binary")), ("lhs", d_var("a")), ("op", d_str("Pow")), ("rhs", d_int(2))]);
    assert_eq!(json_to_term(&doc), Err(DecodeError::UnknownOperator));
    let lower = d_obj(vec![("kind", d_str("Binary")), ("lhs", d_var("a")), ("op", d_str("add")), ("rhs", d_int(2))]);
    assert_eq!(json_to_term(&lower), Err(DecodeError::UnknownOperator));
}

#[test]
fn operator_that_is_no_string_is_a_type_mismatch() {
    let doc = d_obj(vec![("kind", d_str("Binary")), ("lhs", d_var("a")), ("op", Json::Number(Some(1))), ("rhs", d_int(2))]);
    assert_eq!(json_to_term(&doc), Err(DecodeError::TypeMismatch));
}

#[test]
fn binary_fields_are_read_in_order() {
    let nothing = d_obj(vec![("kind", d_str("Binary"))]);
    assert_eq!(json_to_term(&nothing), Err(missing("lhs")));
    let no_rhs = d_obj(vec![("kind", d_str("Binary")), ("lhs", d_var("a")), ("op", d_str("Add"))]);
    assert_eq!(json_to_term(&no_rhs), Err(missing("rhs")));
    let bad_lhs_and_op = d_obj(vec![("kind", d_str("Binary")), ("lhs", Json::Null), ("op", d_str("Pow")), ("rhs", d_int(2))]);
    assert_eq!(json_to_term(&bad_lhs_and_op), Err(DecodeError::UnknownKind));
    let bad_op_and_rhs = d_obj(vec![("kind", d_str("Binary")), ("lhs", d_var("a")), ("op", d_str("Pow")), ("rhs", Json::Null)]);
    assert_eq!(json_to_term(&bad_op_and_rhs), Err(DecodeError::UnknownOperator));
}

#[test]
fn decodes_a_call() {
    let doc = d_obj(vec![
        ("kind", d_str("Call")),
        ("callee", d_var("f")),
        ("arguments", Json::Array(vec![d_int(1), d_var("y")])),
    ]);
    let want = Term::Call { callee: Box::new(t_var("f")), args: vec![Term::Int { value: 1 }, t_var("y")] };
    assert_eq!(json_to_term(&doc), Ok(want));
    let empty = d_obj(vec![("kind", d_str("Call")), ("callee", d_var("f")), ("arguments", Json::Array(vec![]))]);
    assert_eq!(json_to_term(&empty), Ok(Term::Call { callee: Box::new(t_var("f")), args: vec![] }));
}

#[test]
fn call_failures() {
    let no_callee = d_obj(vec![("kind", d_str("Call")), ("arguments", Json::Array(vec![]))]);
    assert_eq!(json_to_term(&no_callee), Err(missing("callee")));
    let no_args = d_obj(vec![("kind", d_str("Call")), ("callee", d_var("f"))]);
    assert_eq!(json_to_term(&no_args), Err(missing("arguments")));
    let args_no_array = d_obj(vec![("kind", d_str("Call")), ("callee", d_var("f")), ("arguments", d_var("x"))]);
    assert_eq!(json_to_term(&args_no_array), Err(DecodeError::TypeMismatch));
}

#[test]
fn an_argument_that_fails_fails_the_call() {
    let bad_int = d_obj(vec![("kind", d_str("Int")), ("value", d_str("1"))]);
    let doc = d_obj(vec![
        ("kind", d_str("Call")),
        ("callee", d_var("f")),
        ("arguments", Json::Array(vec![d_int(1), bad_int, d_obj(vec![("kind", d_str("Nope"))])])),
    ]);
    assert_eq!(json_to_term(&doc), Err(DecodeError::TypeMismatch));
}

#[test]
fn decodes_a_function() {
    let doc = d_obj(vec![
        ("kind", d_str("Function")),
        ("parameters", Json::Array(vec![d_text("a"), d_text("b")])),
        ("value", d_var("a")),
    ]);
    let want = Term::Function {
        params: vec![Parameter { text: "a".to_string() }, Parameter { text: "b".to_string() }],
        value: Box::new(t_var("a")),
    };
    assert_eq!(json_to_term(&doc), Ok(want));
}

#[test]
fn decodes_a_function_without_parameters() {
    let doc = d_obj(vec![("kind", d_str("Function")), ("parameters", Json::Array(vec![])), ("value", d_int(1))]);
    assert_eq!(json_to_term(&doc), Ok(Term::Function { params: vec![], value: Box::new(Term::Int { value: 1 }) }));
}

#[test]
fn function_failures() {
    let no_params = d_obj(vec![("kind", d_str("Function")), ("value", d_var("a"))]);
    assert_eq!(json_to_term(&no_params), Err(missing("parameters")));
    let params_no_array = d_obj(vec![("kind", d_str("Function")), ("parameters", d_text("a")), ("value", d_var("a"))]);
    assert_eq!(json_to_term(&params_no_array), Err(DecodeError::TypeMismatch));
    let nameless = d_obj(vec![
        ("kind", d_str("Function")),
        ("parameters", Json::Array(vec![d_text("a"), d_obj(vec![])])),
        ("value", d_var("a")),
    ]);
    assert_eq!(json_to_term(&nameless), Err(missing("text")));
    let ill_named = d_obj(vec![
        ("kind", d_str("Function")),
        ("parameters", Json::Array(vec![d_obj(vec![("text", Json::Number(Some(1)))]), d_obj(vec![])])),
        ("value", d_var("a")),
    ]);
    assert_eq!(json_to_term(&ill_named), Err(DecodeError::TypeMismatch));
    let no_body = d_obj(vec![("kind", d_str("Function")), ("parameters", Json::Array(vec![d_text("a")]))]);
    assert_eq!(json_to_term(&no_body), Err(missing("value")));
}

#[test]
fn decodes_a_let() {
    let doc = d_obj(vec![("kind", d_str("Let")), ("name", d_text("x")), ("value", d_int(1)), ("next", d_var("x"))]);
    let want = Term::Let {
        name: Parameter { text: "x".to_string() },
        value: Box::new(Term::Int { value: 1 }),
        next: Box::new(t_var("x")),
    };
    assert_eq!(json_to_term(&doc), Ok(want));
}

#[test]
fn let_failures() {
    let no_name = d_obj(vec![("kind", d_str("Let")), ("value", d_int(1)), ("next", d_var("x"))]);
    assert_eq!(json_to_term(&no_name), Err(missing("name")));
    let name_no_text = d_obj(vec![("kind", d_str("Let")), ("name", d_str("x")), ("value", d_int(1)), ("next", d_var("x"))]);
    assert_eq!(json_to_term(&name_no_text), Err(missing("text")));
    let no_value = d_obj(vec![("kind", d_str("Let")), ("name", d_text("x")), ("next", d_var("x"))]);
    assert_eq!(json_to_term(&no_value), Err(missing("value")));
    let no_next = d_obj(vec![("kind", d_str("Let")), ("name", d_text("x")), ("value", d_int(1))]);
    assert_eq!(json_to_term(&no_next), Err(missing("next")));
}

#[test]
fn decodes_a_conditional() {
    let doc = d_obj(vec![
        ("kind", d_str("If")),
        ("condition", d_var("c")),
        ("then", d_int(1)),
        ("otherwise", d_int(2)),
    ]);
    let want = Term::If {
        cond: Box::new(t_var("c")),
        then: Box::new(Term::Int { value: 1 }),
        els_: Box::new(Term::Int { value: 2 }),
    };
    assert_eq!(json_to_term(&doc), Ok(want));
}

#[test]
fn conditional_failures() {
    let none = d_obj(vec![("kind", d_str("If"))]);
    assert_eq!(json_to_term(&none), Err(missing("condition")));
    let no_then = d_obj(vec![("kind", d_str("If")), ("condition", d_var("c")), ("otherwise", d_int(2))]);
    assert_eq!(json_to_term(&no_then), Err(missing("then")));
    let no_otherwise = d_obj(vec![("kind", d_str("If")), ("condition", d_var("c")), ("then", d_int(2))]);
    assert_eq!(json_to_term(&no_otherwise), Err(missing("otherwise")));
}

#[test]
fn decodes_print_and_projections() {
    let p = d_obj(vec![("kind", d_str("Print")), ("value", d_var("x"))]);
    assert_eq!(json_to_term(&p), Ok(Term::Print { value: Box::new(t_var("x")) }));
    let f = d_obj(vec![("kind", d_str("First")), ("value", d_var("x"))]);
    assert_eq!(json_to_term(&f), Ok(Term::First { value: Box::new(t_var("x")) }));
    let s = d_obj(vec![("kind", d_str("Second")), ("value", d_var("x"))]);
    assert_eq!(json_to_term(&s), Ok(Term::Second { value: Box::new(t_var("x")) }));
    assert_eq!(json_to_term(&d_obj(vec![("kind", d_str("Print"))])), Err(missing("value")));
    assert_eq!(json_to_term(&d_obj(vec![("kind", d_str("First"))])), Err(missing("value")));
    assert_eq!(json_to_term(&d_obj(vec![("kind", d_str("Second"))])), Err(missing("value")));
}

#[test]
fn decodes_a_pair() {
    let doc = d_obj(vec![("kind", d_str("Tuple")), ("first", d_int(1)), ("second", d_var("b"))]);
    let want = Term::Tuple { first: Box::new(Term::Int { value: 1 }), second: Box::new(t_var("b")) };
    assert_eq!(json_to_term(&doc), Ok(want));
    let no_first = d_obj(vec![("kind", d_str("Tuple")), ("second", d_var("b"))]);
    assert_eq!(json_to_term(&no_first), Err(missing("first")));
    let no_second = d_obj(vec![("kind", d_str("Tuple")), ("first", d_var("b"))]);
    assert_eq!(json_to_term(&no_second), Err(missing("second")));
}

#[test]
fn a_child_that_fails_fails_its_parent() {
    let doc = d_obj(vec![
        ("kind", d_str("Print")),
        ("value", d_obj(vec![("kind", d_str("Binary")), ("lhs", d_int(1)), ("rhs", d_int(2))])),
    ]);
    assert_eq!(json_to_term(&doc), Err(missing("op")));
}

#[test]
fn fields_beyond_the_required_ones_are_free() {
    let location = d_obj(vec![("start", Json::Number(Some(0))), ("end", Json::Number(Some(4)))]);
    let doc = d_obj(vec![("location", location), ("text", d_str("x")), ("kind", d_str("Var")), ("value", Json::Null)]);
    assert_eq!(json_to_term(&doc), Ok(t_var("x")));
}

#[test]
fn the_last_member_with_a_key_counts() {
    let doc = d_obj(vec![("kind", d_str("Int")), ("kind", d_str("Var")), ("text", d_str("a")), ("text", d_str("b"))]);
    assert_eq!(json_to_term(&doc), Ok(t_var("b")));
    let value = d_obj(vec![("k", d_str("first")), ("k", d_str("second"))]);
    assert_eq!(value.get("k"), Some(&d_str("second")));
    assert_eq!(value.get("other"), None);
    assert_eq!(Json::Null.get("k"), None);
}

#[test]
fn parameter_from_json() {
    assert_eq!(Parameter::from_json(&d_text("n")), Ok(Parameter { text: "n".to_string() }));
    assert_eq!(Parameter::from_json(&d_obj(vec![])), Err(missing("text")));
    assert_eq!(Parameter::from_json(&d_str("n")), Err(missing("text")));
    assert_eq!(Parameter::from_json(&d_obj(vec![("text", Json::Null)])), Err(DecodeError::TypeMismatch));
}

#[test]
fn decodes_a_file() {
    let doc = d_obj(vec![("name", d_str("main.rinha")), ("expression", d_int(7)), ("location", Json::Null)]);
    assert_eq!(json_to_file(&doc), Ok(File { name: "main.rinha".to_string(), expr: Term::Int { value: 7 } }));
}

#[test]
fn file_failures() {
    let no_name = d_obj(vec![("expression", d_int(7))]);
    assert_eq!(json_to_file(&no_name), Err(missing("name")));
    let ill_name = d_obj(vec![("name", Json::Number(Some(1))), ("expression", d_int(7))]);
    assert_eq!(json_to_file(&ill_name), Err(DecodeError::TypeMismatch));
    let no_expression = d_obj(vec![("name", d_str("f"))]);
    assert_eq!(json_to_file(&no_expression), Err(missing("expression")));
    let bad_expression = d_obj(vec![("name", d_str("f")), ("expression", d_obj(vec![("kind", d_str("Bogus"))]))]);
    assert_eq!(json_to_file(&bad_expression), Err(DecodeError::UnknownKind));
    assert_eq!(json_to_file(&Json::Null), Err(missing("name")));
}

#[test]
fn decoding_twice_gives_the_same_term() {
    let doc = d_obj(vec![
        ("kind", d_str("Call")),
        ("callee", d_var("f")),
        ("arguments", Json::Array(vec![d_int(1), d_var("y")])),
    ]);
    assert_eq!(json_to_term(&doc), json_to_term(&doc));
}
