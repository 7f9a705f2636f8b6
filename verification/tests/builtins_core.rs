use microlisp::Environment;
use microlisp::Error;
use microlisp::Expression;

#[test]
fn def() {
    let mut env = Environment::new();
    env.load_default_builtins().unwrap();
    assert_eq!(env.parse_eval("(def)"), Err(Error::TooFewArgs));
    assert_eq!(env.parse_eval("(def myVar 2)"), Ok(Expression::Nil));
    assert_eq!(env.parse_eval("(+ myVar 9)"), Ok(Expression::Number(11)));
    assert_eq!(env.parse_eval("(def myVar 8)"), Ok(Expression::Nil));
    assert_eq!(env.parse_eval("(+ myVar 0)"), Ok(Expression::Number(8)));
    assert_eq!(
        env.parse_eval("(def myVar (dec myVar))"),
        Ok(Expression::Nil)
    );
    assert_eq!(env.parse_eval("(+ myVar 0)"), Ok(Expression::Number(7)));
}

#[test]
fn op_let() {
    let mut env = Environment::new();
    env.load_default_builtins().unwrap();
    assert_eq!(env.parse_eval("(let)"), Err(Error::TooFewArgs));
    assert_eq!(env.parse_eval("(let [a])"), Err(Error::UnbalancedBindings));
    assert_eq!(env.parse_eval("(let [myVar 2])"), Ok(Expression::Nil));
    assert_eq!(
        env.parse_eval("(let [myVar 2] (+ myVar 1))"),
        Ok(Expression::Number(3))
    );
    assert_eq!(
        env.parse_eval("(let [myVar (inc 2)] (+ myVar 1))"),
        Ok(Expression::Number(4))
    );
    assert_eq!(
        env.parse_eval("(let [a 1 b 2] (+ a b))"),
        Ok(Expression::Number(3))
    );
    assert_eq!(
        env.parse_eval("(let [a 1 b 2] (+ a b) (inc a))"),
        Ok(Expression::Number(2))
    );
}

#[test]
fn op_if() {
    let mut env = Environment::new();
    env.load_default_builtins().unwrap();
    assert_eq!(env.parse_eval("(if)"), Err(Error::TooFewArgs));
    assert_eq!(
        env.parse_eval("(if (< 10 11 12) true false)"),
        Ok(Expression::Bool(true))
    );
    assert_eq!(
        env.parse_eval("(if (< 10 11 10) true false)"),
        Ok(Expression::Bool(false))
    );
    assert_eq!(
        env.parse_eval("(if (inc 10) true false)"),
        Ok(Expression::Bool(true))
    );
    assert_eq!(
        env.parse_eval("(if true true false)"),
        Ok(Expression::Bool(true))
    );
    assert_eq!(
        env.parse_eval("(if false true false)"),
        Ok(Expression::Bool(false))
    );
    assert_eq!(
        env.parse_eval("(if nil true false)"),
        Ok(Expression::Bool(false))
    );
    assert_eq!(
        env.parse_eval("(if (dec 1) true false)"),
        Ok(Expression::Bool(true))
    );
}

#[test]
fn op_do() {
    let mut env = Environment::new();
    env.load_default_builtins().unwrap();
    assert_eq!(env.parse_eval("(do)"), Ok(Expression::Nil));
    assert_eq!(
        env.parse_eval("(do true true false)"),
        Ok(Expression::Bool(false))
    );
    assert_eq!(
        env.parse_eval("(do (+ 1 3) (- 9 (+ 8 1)))"),
        Ok(Expression::Number(0))
    );
}

#[test]
fn op_while() {
    let mut env = Environment::new();
    env.load_default_builtins().unwrap();
    assert_eq!(env.parse_eval("(while)"), Err(Error::TooFewArgs));
    assert_eq!(env.parse_eval("(while false)"), Ok(Expression::Nil));
    assert_eq!(env.parse_eval("(def myVar 8)"), Ok(Expression::Nil));
    assert_eq!(
        env.parse_eval("(do (while (> myVar 3) (def myVar (dec myVar))) myVar)"),
        Ok(Expression::Number(3))
    );
}

#[test]
fn doseq() {
    let mut env = Environment::new();
    env.load_default_builtins().unwrap();
    assert_eq!(env.parse_eval("(doseq)"), Err(Error::TooFewArgs));
    assert_eq!(
        env.parse_eval("(doseq [a])"),
        Err(Error::UnbalancedBindings)
    );
    assert_eq!(
        env.parse_eval("(doseq [a [1 2] b [9]])"),
        Err(Error::UnbalancedBindings)
    );
    assert_eq!(
        env.parse_eval("(doseq [a [1] b [9 8]])"),
        Err(Error::UnbalancedBindings)
    );
    assert_eq!(env.parse_eval("(doseq [a 1])"), Err(Error::TypeMismatch));
    assert_eq!(
        env.parse_eval("(doseq [a [1 2] b [9 8]])"),
        Ok(Expression::Nil)
    );
    // Define some vars
    env.parse_eval("(do (def sum 0) (def prod 1))").unwrap();
    assert_eq!(
        env.parse_eval(
            "(doseq [a [1 2] b [9 8]] (def sum (+ sum a b)) (def prod (* prod a b)))"
        ),
        Ok(Expression::Nil)
    );
    assert_eq!(env.parse_eval("(+ sum 0)"), Ok(Expression::Number(20)));
    assert_eq!(env.parse_eval("(+ prod 0)"), Ok(Expression::Number(144)));
}

#[test]
fn dotimes() {
    let mut env = Environment::new();
    env.load_default_builtins().unwrap();
    assert_eq!(env.parse_eval("(dotimes)"), Err(Error::TooFewArgs));
    assert_eq!(env.parse_eval("(dotimes [n 5])"), Err(Error::TooFewArgs));
    assert_eq!(
        env.parse_eval("(dotimes true (+ n 10))"),
        Err(Error::ImpossibleConversion)
    );
    // Define some vars
    env.parse_eval("(do (def sum 0))").unwrap();
    assert_eq!(
        env.parse_eval("(dotimes [4 5] (+ sum n))"),
        Err(Error::ExpectedSymbol)
    );
    assert_eq!(
        env.parse_eval("(dotimes [n 5] (def sum (+ sum n)))"),
        Ok(Expression::Nil)
    );
    assert_eq!(env.parse_eval("(+ sum 0)"), Ok(Expression::Number(10)));
}

#[test]
fn vector() {
    let mut env = Environment::new();
    env.load_default_builtins().unwrap();
    let res: Vec<_> = env
        .parse_eval("(vector)")
        .expect("Failed to evaluate expression.")
        .into_items()
        .expect("Result is not a vector.");
    assert!(res.into_iter().eq(vec![].into_iter()));
    let res: Vec<_> = env
        .parse_eval("(vector 1)")
        .expect("Failed to evaluate expression.")
        .into_items()
        .expect("Result is not a vector.");
    assert!(res.into_iter().eq(vec![Expression::Number(1)].into_iter()));
    let res: Vec<_> = env
        .parse_eval("(vector 1 2 3)")
        .expect("Failed to evaluate expression.")
        .into_items()
        .expect("Result is not a vector.");
    assert!(res.into_iter().eq(vec![
        Expression::Number(1),
        Expression::Number(2),
        Expression::Number(3)
    ]
    .into_iter()));
}

#[test]
fn nth() {
    let mut env = Environment::new();
    env.load_default_builtins().unwrap();
    assert_eq!(env.parse_eval("(nth)"), Err(Error::TooFewArgs));
    assert_eq!(env.parse_eval("(nth [1 2 3])"), Err(Error::TooFewArgs));
    assert_eq!(env.parse_eval("(nth 3)"), Err(Error::ExpectedVector));
    assert_eq!(env.parse_eval("(nth [1 2 3] 0)"), Ok(Expression::Number(1)));
    assert_eq!(env.parse_eval("(nth [1 2 3] 1)"), Ok(Expression::Number(2)));
    assert_eq!(env.parse_eval("(nth [1 2 3] 2)"), Ok(Expression::Number(3)));
    assert_eq!(env.parse_eval("(nth [1 2 3] 4)"), Ok(Expression::Nil));
    assert_eq!(
        env.parse_eval("(nth [1 2 3] 4 9)"),
        Ok(Expression::Number(9))
    );
    assert_eq!(
        env.parse_eval("(nth [1 2 3] 4 9 8)"),
        Err(Error::TooManyArgs)
    );
}

#[test]
fn peek() {
    let mut env = Environment::new();
    env.load_default_builtins().unwrap();
    assert_eq!(env.parse_eval("(peek)"), Err(Error::TooFewArgs));
    assert_eq!(env.parse_eval("(peek [1 2 3] 3)"), Err(Error::TooManyArgs));
    assert_eq!(env.parse_eval("(peek 3)"), Err(Error::ExpectedVector));
    assert_eq!(env.parse_eval("(peek [1 2 3])"), Ok(Expression::Number(3)));
}

#[test]
fn pop() {
    let mut env = Environment::new();
    env.load_default_builtins().unwrap();
    assert_eq!(env.parse_eval("(pop)"), Err(Error::TooFewArgs));
    assert_eq!(env.parse_eval("(pop [1 2 3] 3)"), Err(Error::TooManyArgs));
    assert_eq!(env.parse_eval("(pop 3)"), Err(Error::ExpectedVector));
    assert_eq!(
        env.parse_eval("(pop [1 2 3])"),
        env.parse_eval("(vector 1 2)")
    );
}
