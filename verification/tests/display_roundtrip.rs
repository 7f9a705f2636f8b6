use microlisp::Expression;

#[test]
fn atoms_display() {
    assert_eq!(Expression::Nil.to_text(), "nil");
    assert_eq!(Expression::Bool(true).to_text(), "true");
    assert_eq!(Expression::Bool(false).to_text(), "false");
    assert_eq!(Expression::Number(0).to_text(), "0");
    assert_eq!(Expression::Number(42).to_text(), "42");
    assert_eq!(Expression::Number(-7).to_text(), "-7");
    assert_eq!(Expression::Number(i64::MAX).to_text(), "9223372036854775807");
    assert_eq!(Expression::Number(i64::MIN).to_text(), "-9223372036854775808");
    assert_eq!(
        Expression::Symbol(String::from("myVar")).to_text(),
        "myVar"
    );
}

#[test]
fn aggregates_display() {
    let tree = Expression::List(vec![
        Expression::Symbol(String::from("+")),
        Expression::Number(1),
        Expression::Vector(vec![Expression::Number(2), Expression::Nil]),
    ]);
    assert_eq!(tree.to_text(), "( + 1 [ 2 nil ] )");
    assert_eq!(Expression::List(vec![]).to_text(), "( )");
    assert_eq!(Expression::Vector(vec![]).to_text(), "[ ]");
}

#[test]
fn parse_display_round_trip() {
    // Parsing, re-displaying and re-parsing yields a structurally equal
    // tree.
    let sources = [
        "(+ 1 2)",
        "( a [ b c ] ( d 4 ) nil true false -10 )",
        "(let [x 1] (def x 2))",
        "()",
        "(nth [1 2 3] 4 9)",
    ];
    for src in sources {
        let first = Expression::parse_text(src).expect("source must parse");
        let text = first.to_text();
        let second = Expression::parse_text(text.as_str()).expect("canonical text must parse");
        assert_eq!(first, second);
        // The canonical text is a fixed point of the round trip.
        assert_eq!(second.to_text(), text);
    }
}

#[test]
fn tokenize_returns_remainder() {
    // The tokenizer stops at the matching close and hands back the rest.
    let (rem, expr) = microlisp::parser::tokenize("1 2 ) trailing").expect("must tokenize");
    assert_eq!(rem, " trailing");
    assert_eq!(
        expr,
        Expression::List(vec![Expression::Number(1), Expression::Number(2)])
    );
}

#[test]
fn structural_equality() {
    // Equality is structural within one variant and false across variants.
    let a = Expression::List(vec![Expression::Number(1)]);
    let b = Expression::List(vec![Expression::Number(1)]);
    let c = Expression::Vector(vec![Expression::Number(1)]);
    assert_eq!(a, b);
    assert_ne!(a, c);
    assert_eq!(Expression::List(vec![]), Expression::List(vec![]));
    assert_ne!(Expression::Nil, Expression::Bool(false));
    assert_ne!(Expression::Number(0), Expression::Bool(false));
}

#[test]
fn error_messages_exist() {
    assert_eq!(
        microlisp::Error::MathError.message(),
        "Underflow, overflow, or divide by zero error."
    );
    assert_eq!(microlisp::Error::Empty.message(), "Vector/list is empty.");
}
