use microlisp::Expression;

#[test]
fn environment_it_works() {
    let result = 2 + 2;
    assert_eq!(result, 4);
}

#[test]
fn expression_it_works() {
    let result = 2 + 2;
    assert_eq!(result, 4);
}

#[test]
fn variant_predicates() {
    assert!(Expression::Nil.is_nil());
    assert!(Expression::Bool(true).is_bool());
    assert!(Expression::Number(7).is_number());
    assert!(Expression::Symbol(String::from("x")).is_symbol());
    assert!(Expression::List(vec![]).is_list());
    assert!(Expression::Vector(vec![]).is_vector());
    assert!(!Expression::Nil.is_number());
}
