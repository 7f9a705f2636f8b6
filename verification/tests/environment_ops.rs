use microlisp::Environment;
use microlisp::Error;
use microlisp::Expression;

#[test]
fn fresh_environment_shape() {
    let env = Environment::new();
    assert_eq!(env.stack_height(), 1);
    assert_eq!(env.stack_frame_len(), 0);
    assert!(env.find_builtin("def").is_none());
    assert!(env.find_data("x").is_none());
}

#[test]
fn define_var_and_find_data() {
    let mut env = Environment::new();
    assert_eq!(env.define_var("x", Expression::Number(1)), Ok(()));
    assert_eq!(env.find_data("x"), Some(&Expression::Number(1)));
    // Redefinition overwrites in place.
    assert_eq!(env.define_var("x", Expression::Number(2)), Ok(()));
    assert_eq!(env.find_data("x"), Some(&Expression::Number(2)));
    assert_eq!(env.stack_frame_len(), 1);
}

#[test]
fn stack_slots_are_strictly_lifo() {
    let mut env = Environment::new();
    assert_eq!(env.push_stack("a", Expression::Number(1)), Ok(()));
    assert_eq!(env.push_stack("b", Expression::Number(2)), Ok(()));
    // Only the last-pushed name can be drained.
    assert_eq!(env.pop_stack_if_named("a"), Err(Error::DataNotFound));
    assert_eq!(env.pop_stack_if_named("b"), Ok(Expression::Number(2)));
    assert_eq!(env.pop_stack_if_named("a"), Ok(Expression::Number(1)));
    assert_eq!(env.pop_stack_if_named("a"), Err(Error::DataNotFound));
}

#[test]
fn push_stack_overwrites_same_name() {
    let mut env = Environment::new();
    assert_eq!(env.push_stack("a", Expression::Number(1)), Ok(()));
    assert_eq!(env.push_stack("a", Expression::Number(9)), Ok(()));
    assert_eq!(env.stack_frame_len(), 1);
    assert_eq!(env.pop_stack_if_named("a"), Ok(Expression::Number(9)));
}

#[test]
fn builtins_are_not_data() {
    let mut env = Environment::new();
    env.load_default_builtins().unwrap();
    assert!(env.find_builtin("+").is_some());
    assert!(env.find_data("+").is_none());
    // A frame is pushed and popped around every call, win or lose.
    let before = env.stack_height();
    let _ = env.parse_eval("(+ 1 2)");
    assert_eq!(env.stack_height(), before);
    let _ = env.parse_eval("(def)");
    assert_eq!(env.stack_height(), before);
}

#[test]
fn environments_clone_independently() {
    let mut env = Environment::new();
    env.load_default_builtins().unwrap();
    env.parse_eval("(def x 1)").unwrap();
    let mut copy = env.clone();
    copy.parse_eval("(def x 2)").unwrap();
    assert_eq!(env.parse_eval("(+ x 0)"), Ok(Expression::Number(1)));
    assert_eq!(copy.parse_eval("(+ x 0)"), Ok(Expression::Number(2)));
}
