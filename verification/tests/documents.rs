use rinha::{json_to_file, json_to_term, rinha_to_net, term_to_string, DecodeError, Json, Member, Term};
use serde_json::Value;

fn document(value: &Value) -> Json {
    match value {
        Value::Null => Json::Null,
        Value::Bool(b) => Json::Bool(*b),
        Value::Number(n) => Json::Number(n.as_i64()),
        Value::String(s) => Json::Str(s.clone()),
        Value::Array(items) => Json::Array(items.iter().map(document).collect()),
        Value::Object(members) => Json::Object(
            members.iter().map(|(key, value)| Member { key: key.clone(), value: document(value) }).collect(),
        ),
    }
}

fn parse(text: &str) -> Json {
    let value: Value = serde_json::from_str(text).unwrap();
    document(&value)
}

#[test]
fn parsed_identity_program_decodes_and_renders() {
    let text = r#"{
        "name": "f",
        "expression": {
            "kind": "Let",
            "name": {"text": "id"},
            "value": {"kind": "Function", "parameters": [{"text": "x"}], "value": {"kind": "Var", "text": "x"}},
            "next": {"kind": "Call", "callee": {"kind": "Var", "text": "id"}, "arguments": [{"kind": "Var", "text": "id"}]}
        }
    }"#;
    let file = json_to_file(&parse(text)).unwrap();
    assert_eq!(file.name, "f");
    assert_eq!(term_to_string(&file.expr), "let id = fn (x) => { x }; id(id)");
    let request = rinha_to_net(&file.expr);
    assert_eq!(request.capacity, 67108864);
}

#[test]
fn parsed_binary_without_op_is_a_missing_field() {
    let text = r#"{"kind": "Binary", "lhs": {"kind": "Int", "value": 1}, "rhs": {"kind": "Int", "value": 2}}"#;
    assert_eq!(json_to_term(&parse(text)), Err(DecodeError::MissingField("op".to_string())));
}

#[test]
fn parsed_bogus_kind_is_unknown() {
    assert_eq!(json_to_term(&parse(r#"{"kind": "Bogus"}"#)), Err(DecodeError::UnknownKind));
}

#[test]
fn parsed_numbers_that_are_no_32_bit_integers_are_type_mismatches() {
    assert_eq!(json_to_term(&parse(r#"{"kind": "Int", "value": 1.5}"#)), Err(DecodeError::TypeMismatch));
    assert_eq!(json_to_term(&parse(r#"{"kind": "Int", "value": 2.0}"#)), Err(DecodeError::TypeMismatch));
    assert_eq!(json_to_term(&parse(r#"{"kind": "Int", "value": 1e100}"#)), Err(DecodeError::TypeMismatch));
    assert_eq!(
        json_to_term(&parse(r#"{"kind": "Int", "value": 18446744073709551615}"#)),
        Err(DecodeError::TypeMismatch)
    );
    assert_eq!(json_to_term(&parse(r#"{"kind": "Int", "value": 4294967296}"#)), Err(DecodeError::TypeMismatch));
    assert_eq!(json_to_term(&parse(r#"{"kind": "Int", "value": -2147483648}"#)), Ok(Term::Int { value: i32::MIN }));
}

#[test]
fn parsed_program_with_locations_decodes() {
    let text = r#"{
        "name": "files/sum.rinha",
        "expression": {
            "kind": "Print",
            "value": {
                "kind": "Binary",
                "lhs": {"kind": "Int", "value": 1, "location": {"start": 7, "end": 8, "filename": "files/sum.rinha"}},
                "op": "Add",
                "rhs": {"kind": "Int", "value": 2, "location": {"start": 11, "end": 12, "filename": "files/sum.rinha"}},
                "location": {"start": 7, "end": 12, "filename": "files/sum.rinha"}
            },
            "location": {"start": 0, "end": 13, "filename": "files/sum.rinha"}
        },
        "location": {"start": 0, "end": 13, "filename": "files/sum.rinha"}
    }"#;
    let file = json_to_file(&parse(text)).unwrap();
    assert_eq!(term_to_string(&file.expr), "print(1 + 2)");
}
