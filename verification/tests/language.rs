use microlisp::Builtin;
use microlisp::Environment;
use microlisp::Error;
use microlisp::Expression;
use microlisp::FnBody;

#[test]
fn def_targets_global_frame() {
    // A `def` nested inside a `let` scope still writes the global frame:
    // the bare symbol read afterwards, outside the `let`, sees the value.
    let mut env = Environment::new();
    env.load_default_builtins().unwrap();
    assert_eq!(env.parse_eval("(let [x 1] (def x 2))"), Ok(Expression::Nil));
    assert_eq!(env.parse_eval("(+ x 0)"), Ok(Expression::Number(2)));
    assert_eq!(env.eval(Expression::Symbol(String::from("x"))), Ok(Expression::Number(2)));
}

#[test]
fn overflow_is_math_error() {
    // Arithmetic on operands that would leave the 64-bit range reports
    // MathError, never a wrapped value.
    let mut env = Environment::new();
    env.load_default_builtins().unwrap();
    assert_eq!(
        env.parse_eval("(+ 9223372036854775807 1)"),
        Err(Error::MathError)
    );
    assert_eq!(
        env.parse_eval("(- -9223372036854775808 1)"),
        Err(Error::MathError)
    );
    assert_eq!(
        env.parse_eval("(* 4611686018427387904 2)"),
        Err(Error::MathError)
    );
    assert_eq!(
        env.parse_eval("(inc 9223372036854775807)"),
        Err(Error::MathError)
    );
    assert_eq!(
        env.parse_eval("(dec -9223372036854775808)"),
        Err(Error::MathError)
    );
    assert_eq!(
        env.parse_eval("(- -9223372036854775808)"),
        Err(Error::MathError)
    );
    assert_eq!(
        env.parse_eval("(/ -9223372036854775808 -1)"),
        Err(Error::MathError)
    );
    assert_eq!(env.parse_eval("(rem 1 0)"), Err(Error::MathError));
    // The extremes of the range themselves still compute.
    assert_eq!(
        env.parse_eval("(+ 9223372036854775806 1)"),
        Ok(Expression::Number(i64::MAX))
    );
    assert_eq!(
        env.parse_eval("(- -9223372036854775807 1)"),
        Ok(Expression::Number(i64::MIN))
    );
}

#[test]
fn binding_named_and_positional() {
    // A function declared `a b & ys` binds two arguments under the named
    // slots; extra arguments gather under `ys` and do not error. The body
    // here is the remainder builtin, which drains `a` and `b`.
    let mut env = Environment::new();
    env.load_default_builtins().unwrap();
    env.load_builtin("remx", ("a b & ys", FnBody(Builtin::Rem)))
        .unwrap();
    assert_eq!(env.parse_eval("(remx 10 3)"), Ok(Expression::Number(1)));
    assert_eq!(
        env.parse_eval("(remx 10 3 99 98)"),
        Ok(Expression::Number(1))
    );
    assert_eq!(env.parse_eval("(remx 10)"), Err(Error::TooFewArgs));
}

#[test]
fn duplicate_builtin_is_rejected() {
    let mut env = Environment::new();
    env.load_default_builtins().unwrap();
    assert_eq!(
        env.load_builtin("def", ("a b", FnBody(Builtin::Def))),
        Err(Error::DuplicateSymbol)
    );
    assert_eq!(env.load_default_builtins(), Err(Error::DuplicateSymbol));
}

#[test]
fn parse_errors() {
    let mut env = Environment::new();
    env.load_default_builtins().unwrap();
    // Text must open a list.
    assert_eq!(env.parse_eval("7"), Err(Error::ExpectedList));
    assert_eq!(env.parse_eval(""), Err(Error::ExpectedList));
    // A list left open is unterminated, whether the text stops inside a
    // token, right after a delimiter, or inside a nested form.
    assert_eq!(env.parse_eval("(+ 1 2"), Err(Error::UnterminatedList));
    assert_eq!(env.parse_eval("("), Err(Error::UnterminatedList));
    assert_eq!(env.parse_eval("(+ 1 2 "), Err(Error::UnterminatedList));
    assert_eq!(env.parse_eval("(do (def a "), Err(Error::UnterminatedList));
    // Text after the top-level close is not allowed.
    assert_eq!(
        env.parse_eval("(+ 1 2) 3"),
        Err(Error::IncompleteTokenization)
    );
    // A bracketed form closed with the wrong delimiter; the top level
    // itself closed as a vector is the same mismatch.
    assert_eq!(env.parse_eval("(+ [1 2)])"), Err(Error::MismatchedDelimiter));
    assert_eq!(env.parse_eval("(]"), Err(Error::MismatchedDelimiter));
    assert_eq!(env.parse_eval("(1 2]"), Err(Error::MismatchedDelimiter));
}

#[test]
fn resolution_errors() {
    let mut env = Environment::new();
    env.load_default_builtins().unwrap();
    // An unknown head symbol is no function.
    assert_eq!(env.parse_eval("(nosuch 1)"), Err(Error::ExpectedFunction));
    // A bare symbol that only names a builtin is not data.
    assert_eq!(
        env.eval(Expression::Symbol(String::from("+"))),
        Err(Error::DataNotFound)
    );
    // A list headed by a non-symbol cannot convert to a name.
    assert_eq!(
        env.parse_eval("((+ 1 2) 3)"),
        Err(Error::ImpossibleConversion)
    );
    // An empty list evaluates to nil.
    assert_eq!(env.parse_eval("()"), Ok(Expression::Nil));
}

#[test]
fn truthiness() {
    // Only nil and false choose the else branch; zero is true.
    let mut env = Environment::new();
    env.load_default_builtins().unwrap();
    assert_eq!(
        env.parse_eval("(if 0 true false)"),
        Ok(Expression::Bool(true))
    );
    assert_eq!(
        env.parse_eval("(if [] true false)"),
        Ok(Expression::Bool(true))
    );
    // The branch not chosen is never evaluated: the division by zero in
    // the dead branch does not surface.
    assert_eq!(
        env.parse_eval("(if true 7 (/ 1 0))"),
        Ok(Expression::Number(7))
    );
    assert_eq!(
        env.parse_eval("(if false (/ 1 0) 8)"),
        Ok(Expression::Number(8))
    );
}

#[test]
fn while_uses_strict_booleans() {
    let mut env = Environment::new();
    env.load_default_builtins().unwrap();
    // The while test must evaluate to a boolean, not merely a truthy value.
    assert_eq!(
        env.parse_eval("(while 0 1)"),
        Err(Error::ImpossibleConversion)
    );
    // And the boolean operators reject non-booleans.
    assert_eq!(env.parse_eval("(and 1)"), Err(Error::ImpossibleConversion));
    assert_eq!(env.parse_eval("(not 1)"), Err(Error::ImpossibleConversion));
}

#[test]
fn comparisons_across_variants() {
    let mut env = Environment::new();
    env.load_default_builtins().unwrap();
    // Equality across variants is false, never an error.
    assert_eq!(env.parse_eval("(== 1 true)"), Ok(Expression::Bool(false)));
    assert_eq!(env.parse_eval("(== nil nil)"), Ok(Expression::Bool(true)));
    // Relational chains on incomparable pairs are false, never an error.
    assert_eq!(env.parse_eval("(> 1 true)"), Ok(Expression::Bool(false)));
    assert_eq!(env.parse_eval("(< nil 1)"), Ok(Expression::Bool(false)));
    // max and min need a total order: mixing variants is a type mismatch.
    assert_eq!(env.parse_eval("(max 1 true)"), Err(Error::TypeMismatch));
    assert_eq!(env.parse_eval("(min [1] 2)"), Err(Error::TypeMismatch));
    // Symbols order lexicographically once bound.
    assert_eq!(
        env.parse_eval("(let [s 5 t 6] (< s t))"),
        Ok(Expression::Bool(true))
    );
}

#[test]
fn numbers_parse_like_the_platform() {
    let mut env = Environment::new();
    env.load_default_builtins().unwrap();
    // Signs and range limits.
    assert_eq!(
        env.parse_eval("(+ +5 0)"),
        Ok(Expression::Number(5))
    );
    assert_eq!(
        env.parse_eval("(+ -9223372036854775808 0)"),
        Ok(Expression::Number(i64::MIN))
    );
    assert_eq!(
        env.parse_eval("(+ 9223372036854775807 0)"),
        Ok(Expression::Number(i64::MAX))
    );
    // A numeric overflow in the literal falls back to a symbol, which is
    // then unbound.
    assert_eq!(
        env.parse_eval("(+ 9223372036854775808 0)"),
        Err(Error::DataNotFound)
    );
    // Leading zeros read as the same number.
    assert_eq!(env.parse_eval("(+ 007 0)"), Ok(Expression::Number(7)));
}

#[test]
fn empty_vector_errors() {
    let mut env = Environment::new();
    env.load_default_builtins().unwrap();
    assert_eq!(env.parse_eval("(peek [])"), Err(Error::Empty));
    assert_eq!(env.parse_eval("(pop [])"), Err(Error::Empty));
}

#[test]
fn nth_index_must_be_a_number() {
    let mut env = Environment::new();
    env.load_default_builtins().unwrap();
    assert_eq!(
        env.parse_eval("(nth [1 2 3] true)"),
        Err(Error::TypeMismatch)
    );
}

#[test]
fn mismatched_slot_names_error() {
    // A body drains its slots by name: registered under a spec whose
    // names differ from the slots the body expects, the call reports that
    // the expected arguments were not found.
    let mut env = Environment::new();
    env.load_default_builtins().unwrap();
    env.load_builtin("oddloop", ("z & ys", FnBody(Builtin::While)))
        .unwrap();
    assert_eq!(env.parse_eval("(oddloop 1)"), Err(Error::UnexpectedArgs));
}

#[test]
fn at_most_one_positional_name() {
    // A parameter spec may name at most one positional slot; the check
    // fires at call time, once extra arguments must be collected.
    let mut env = Environment::new();
    env.load_default_builtins().unwrap();
    env.load_builtin("manypos", ("a & b c", FnBody(Builtin::Rem)))
        .unwrap();
    assert_eq!(
        env.parse_eval("(manypos 1 2 3)"),
        Err(Error::UnexpectedSymbol)
    );
}
