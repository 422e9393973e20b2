use rinha::BinaryOp;

#[test]
fn every_operator_is_read_from_its_name() {
    assert_eq!(BinaryOp::from_str("Add"), Some(BinaryOp::Add));
    assert_eq!(BinaryOp::from_str("Sub"), Some(BinaryOp::Sub));
    assert_eq!(BinaryOp::from_str("Mul"), Some(BinaryOp::Mul));
    assert_eq!(BinaryOp::from_str("Div"), Some(BinaryOp::Div));
    assert_eq!(BinaryOp::from_str("Rem"), Some(BinaryOp::Rem));
    assert_eq!(BinaryOp::from_str("Eq"), Some(BinaryOp::Eq));
    assert_eq!(BinaryOp::from_str("Neq"), Some(BinaryOp::Neq));
    assert_eq!(BinaryOp::from_str("Lt"), Some(BinaryOp::Lt));
    assert_eq!(BinaryOp::from_str("Gt"), Some(BinaryOp::Gt));
    assert_eq!(BinaryOp::from_str("Lte"), Some(BinaryOp::Lte));
    assert_eq!(BinaryOp::from_str("Gte"), Some(BinaryOp::Gte));
    assert_eq!(BinaryOp::from_str("And"), Some(BinaryOp::And));
    assert_eq!(BinaryOp::from_str("Or"), Some(BinaryOp::Or));
}

#[test]
fn operator_names_are_exact_and_case_sensitive() {
    assert_eq!(BinaryOp::from_str("add"), None);
    assert_eq!(BinaryOp::from_str("ADD"), None);
    assert_eq!(BinaryOp::from_str("Add "), None);
    assert_eq!(BinaryOp::from_str("Ad"), None);
    assert_eq!(BinaryOp::from_str("Ltee"), None);
    assert_eq!(BinaryOp::from_str("+"), None);
    assert_eq!(BinaryOp::from_str(""), None);
}

#[test]
fn every_operator_has_its_symbol() {
    assert_eq!(BinaryOp::Add.to_string(), "+");
    assert_eq!(BinaryOp::Sub.to_string(), "-");
    assert_eq!(BinaryOp::Mul.to_string(), "*");
    assert_eq!(BinaryOp::Div.to_string(), "/");
    assert_eq!(BinaryOp::Rem.to_string(), "%");
    assert_eq!(BinaryOp::Eq.to_string(), "==");
    assert_eq!(BinaryOp::Neq.to_string(), "!=");
    assert_eq!(BinaryOp::Lt.to_string(), "<");
    assert_eq!(BinaryOp::Gt.to_string(), ">");
    assert_eq!(BinaryOp::Lte.to_string(), "<=");
    assert_eq!(BinaryOp::Gte.to_string(), ">=");
    assert_eq!(BinaryOp::And.to_string(), "&&");
    assert_eq!(BinaryOp::Or.to_string(), "||");
}

#[test]
fn symbol_as_slice_agrees_with_owned_symbol() {
    assert_eq!(BinaryOp::Neq.as_str(), "!=");
    assert_eq!(BinaryOp::Neq.as_str(), BinaryOp::Neq.to_string());
}
