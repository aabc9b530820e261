use rlox::ast::AstType;
use rlox::environment::Environment;
use rlox::eval::{
    downcast_bool, downcast_number, downcast_string, eval, Event, EvalResult, ReturnType,
};

const FUEL: u64 = 1_000_000;

fn run(ast: &AstType, env: &mut Environment) -> EvalResult {
    let mut events: Vec<Event> = Vec::new();
    eval(ast, env, &mut events, FUEL)
}

#[test]
fn literal_eval() {
    let ast = AstType::Number(1);
    let mut env = Environment::new();
    assert_eq!(1, downcast_number(run(&ast, &mut env).unwrap()));

    let ast = AstType::String("test".to_string());
    let mut env = Environment::new();
    assert_eq!("test", downcast_string(run(&ast, &mut env).unwrap()));

    let ast = AstType::True;
    let mut env = Environment::new();
    assert!(downcast_bool(run(&ast, &mut env).unwrap()));

    let ast = AstType::False;
    let mut env = Environment::new();
    assert!(!downcast_bool(run(&ast, &mut env).unwrap()));
}

#[test]
fn addition_eval() {
    let ast = AstType::Plus(Box::new(AstType::Number(1)), Box::new(AstType::Number(2)));
    let mut env = Environment::new();
    assert_eq!(3, downcast_number(run(&ast, &mut env).unwrap()));

    let ast = AstType::Plus(
        Box::new(AstType::Number(1)),
        Box::new(AstType::Plus(
            Box::new(AstType::Number(2)),
            Box::new(AstType::Number(3)),
        )),
    );
    let mut env = Environment::new();
    assert_eq!(6, downcast_number(run(&ast, &mut env).unwrap()));
}

#[test]
fn subtraction_eval() {
    let ast = AstType::Minus(Box::new(AstType::Number(3)), Box::new(AstType::Number(2)));
    let mut env = Environment::new();
    assert_eq!(1, downcast_number(run(&ast, &mut env).unwrap()));

    let ast = AstType::Minus(
        Box::new(AstType::Minus(
            Box::new(AstType::Number(10)),
            Box::new(AstType::Number(3)),
        )),
        Box::new(AstType::Number(1)),
    );
    let mut env = Environment::new();
    assert_eq!(6, downcast_number(run(&ast, &mut env).unwrap()));
}

#[test]
fn string_concat_eval() {
    let ast = AstType::Plus(
        Box::new(AstType::String(String::from("test,"))),
        Box::new(AstType::String(String::from("hello"))),
    );
    let mut env = Environment::new();
    assert_eq!("test,hello", downcast_string(run(&ast, &mut env).unwrap()));
}

#[test]
fn multiplication_eval() {
    let ast = AstType::Mul(Box::new(AstType::Number(3)), Box::new(AstType::Number(2)));
    let mut env = Environment::new();
    assert_eq!(6, downcast_number(run(&ast, &mut env).unwrap()));

    let ast = AstType::Mul(
        Box::new(AstType::Mul(
            Box::new(AstType::Number(10)),
            Box::new(AstType::Number(3)),
        )),
        Box::new(AstType::Number(2)),
    );
    let mut env = Environment::new();
    assert_eq!(60, downcast_number(run(&ast, &mut env).unwrap()));
}

#[test]
fn division_eval() {
    let ast = AstType::Div(Box::new(AstType::Number(6)), Box::new(AstType::Number(2)));
    let mut env = Environment::new();
    assert_eq!(3, downcast_number(run(&ast, &mut env).unwrap()));

    let ast = AstType::Div(
        Box::new(AstType::Div(
            Box::new(AstType::Number(30)),
            Box::new(AstType::Number(3)),
        )),
        Box::new(AstType::Number(2)),
    );
    let mut env = Environment::new();
    assert_eq!(5, downcast_number(run(&ast, &mut env).unwrap()));
}

#[test]
fn unary_minus_eval() {
    let ast = AstType::UnaryMinus(Box::new(AstType::Number(1)));
    let mut env = Environment::new();
    assert_eq!(-1, downcast_number(run(&ast, &mut env).unwrap()));

    let ast = AstType::UnaryMinus(Box::new(AstType::Plus(
        Box::new(AstType::Number(1)),
        Box::new(AstType::Number(4)),
    )));
    let mut env = Environment::new();
    assert_eq!(-5, downcast_number(run(&ast, &mut env).unwrap()));
}

#[test]
fn unary_bang_eval() {
    let ast = AstType::Bang(Box::new(AstType::Number(1)));
    let mut env = Environment::new();
    assert!(!downcast_bool(run(&ast, &mut env).unwrap()));

    let ast = AstType::Bang(Box::new(AstType::Nil));
    let mut env = Environment::new();
    assert!(downcast_bool(run(&ast, &mut env).unwrap()));

    let ast = AstType::Bang(Box::new(AstType::True));
    let mut env = Environment::new();
    assert!(!downcast_bool(run(&ast, &mut env).unwrap()));

    let ast = AstType::Bang(Box::new(AstType::False));
    assert!(downcast_bool(run(&ast, &mut env).unwrap()));

    let ast = AstType::Bang(Box::new(AstType::String(String::from("a"))));
    let mut env = Environment::new();
    assert!(!downcast_bool(run(&ast, &mut env).unwrap()));
}

#[test]
fn equal_equal_eval() {
    let ast = AstType::EqualEqual(Box::new(AstType::Number(1)), Box::new(AstType::Number(1)));
    let mut env = Environment::new();
    assert!(downcast_bool(run(&ast, &mut env).unwrap()));

    let ast = AstType::EqualEqual(Box::new(AstType::Number(1)), Box::new(AstType::Number(2)));
    let mut env = Environment::new();
    assert!(!downcast_bool(run(&ast, &mut env).unwrap()));

    let ast = AstType::EqualEqual(
        Box::new(AstType::String(String::from("test"))),
        Box::new(AstType::String(String::from("test"))),
    );
    let mut env = Environment::new();
    assert!(downcast_bool(run(&ast, &mut env).unwrap()));

    let ast = AstType::EqualEqual(
        Box::new(AstType::String(String::from("test"))),
        Box::new(AstType::String(String::from("test, test"))),
    );
    let mut env = Environment::new();
    assert!(!downcast_bool(run(&ast, &mut env).unwrap()));

    let ast = AstType::EqualEqual(Box::new(AstType::True), Box::new(AstType::True));
    let mut env = Environment::new();
    assert!(downcast_bool(run(&ast, &mut env).unwrap()));

    let ast = AstType::EqualEqual(Box::new(AstType::False), Box::new(AstType::False));
    let mut env = Environment::new();
    assert!(downcast_bool(run(&ast, &mut env).unwrap()));

    let ast = AstType::EqualEqual(Box::new(AstType::False), Box::new(AstType::True));
    let mut env = Environment::new();
    assert!(!downcast_bool(run(&ast, &mut env).unwrap()));
}

#[test]
fn bang_equal_eval() {
    let ast = AstType::BangEqual(Box::new(AstType::Number(1)), Box::new(AstType::Number(1)));
    let mut env = Environment::new();
    assert!(!downcast_bool(run(&ast, &mut env).unwrap()));

    let ast = AstType::BangEqual(Box::new(AstType::Number(1)), Box::new(AstType::Number(2)));
    let mut env = Environment::new();
    assert!(downcast_bool(run(&ast, &mut env).unwrap()));

    let ast = AstType::BangEqual(
        Box::new(AstType::String(String::from("test"))),
        Box::new(AstType::String(String::from("test"))),
    );
    let mut env = Environment::new();
    assert!(!downcast_bool(run(&ast, &mut env).unwrap()));

    let ast = AstType::BangEqual(
        Box::new(AstType::String(String::from("test"))),
        Box::new(AstType::String(String::from("test, test"))),
    );
    let mut env = Environment::new();
    assert!(downcast_bool(run(&ast, &mut env).unwrap()));

    let ast = AstType::BangEqual(Box::new(AstType::True), Box::new(AstType::True));
    let mut env = Environment::new();
    assert!(!downcast_bool(run(&ast, &mut env).unwrap()));

    let ast = AstType::BangEqual(Box::new(AstType::False), Box::new(AstType::False));
    let mut env = Environment::new();
    assert!(!downcast_bool(run(&ast, &mut env).unwrap()));

    let ast = AstType::BangEqual(Box::new(AstType::False), Box::new(AstType::True));
    let mut env = Environment::new();
    assert!(downcast_bool(run(&ast, &mut env).unwrap()));
}

#[test]
fn greater_eval() {
    let ast = AstType::Greater(Box::new(AstType::Number(2)), Box::new(AstType::Number(1)));
    let mut env = Environment::new();
    assert!(downcast_bool(run(&ast, &mut env).unwrap()));

    let ast = AstType::Greater(Box::new(AstType::Number(1)), Box::new(AstType::Number(2)));
    let mut env = Environment::new();
    assert!(!downcast_bool(run(&ast, &mut env).unwrap()));

    let ast = AstType::Greater(
        Box::new(AstType::String(String::from("b"))),
        Box::new(AstType::String(String::from("a"))),
    );
    let mut env = Environment::new();
    assert!(downcast_bool(run(&ast, &mut env).unwrap()));

    let ast = AstType::Greater(
        Box::new(AstType::String(String::from("a"))),
        Box::new(AstType::String(String::from("b"))),
    );
    let mut env = Environment::new();
    assert!(!downcast_bool(run(&ast, &mut env).unwrap()));

    let ast = AstType::Greater(
        Box::new(AstType::String(String::from("bc"))),
        Box::new(AstType::String(String::from("ab"))),
    );
    let mut env = Environment::new();
    assert!(downcast_bool(run(&ast, &mut env).unwrap()));

    let ast = AstType::Greater(
        Box::new(AstType::String(String::from("a"))),
        Box::new(AstType::String(String::from("ba"))),
    );
    let mut env = Environment::new();
    assert!(!downcast_bool(run(&ast, &mut env).unwrap()));

    let ast = AstType::Greater(Box::new(AstType::True), Box::new(AstType::True));
    let mut env = Environment::new();
    assert!(!downcast_bool(run(&ast, &mut env).unwrap()));

    let ast = AstType::Greater(Box::new(AstType::False), Box::new(AstType::False));
    let mut env = Environment::new();
    assert!(!downcast_bool(run(&ast, &mut env).unwrap()));

    let ast = AstType::Greater(Box::new(AstType::False), Box::new(AstType::True));
    let mut env = Environment::new();
    assert!(!downcast_bool(run(&ast, &mut env).unwrap()));

    let ast = AstType::Greater(Box::new(AstType::True), Box::new(AstType::False));
    let mut env = Environment::new();
    assert!(downcast_bool(run(&ast, &mut env).unwrap()));
}

#[test]
fn less_eval() {
    let ast = AstType::Less(Box::new(AstType::Number(2)), Box::new(AstType::Number(1)));
    let mut env = Environment::new();
    assert!(!downcast_bool(run(&ast, &mut env).unwrap()));

    let ast = AstType::Less(Box::new(AstType::Number(1)), Box::new(AstType::Number(2)));
    let mut env = Environment::new();
    assert!(downcast_bool(run(&ast, &mut env).unwrap()));

    let ast = AstType::Less(
        Box::new(AstType::String(String::from("b"))),
        Box::new(AstType::String(String::from("a"))),
    );
    let mut env = Environment::new();
    assert!(!downcast_bool(run(&ast, &mut env).unwrap()));

    let ast = AstType::Less(
        Box::new(AstType::String(String::from("a"))),
        Box::new(AstType::String(String::from("b"))),
    );
    let mut env = Environment::new();
    assert!(downcast_bool(run(&ast, &mut env).unwrap()));

    let ast = AstType::Less(
        Box::new(AstType::String(String::from("bc"))),
        Box::new(AstType::String(String::from("ab"))),
    );
    let mut env = Environment::new();
    assert!(!downcast_bool(run(&ast, &mut env).unwrap()));

    let ast = AstType::Less(
        Box::new(AstType::String(String::from("a"))),
        Box::new(AstType::String(String::from("ba"))),
    );
    let mut env = Environment::new();
    assert!(downcast_bool(run(&ast, &mut env).unwrap()));

    let ast = AstType::Less(Box::new(AstType::True), Box::new(AstType::True));
    let mut env = Environment::new();
    assert!(!downcast_bool(run(&ast, &mut env).unwrap()));

    let ast = AstType::Less(Box::new(AstType::False), Box::new(AstType::False));
    let mut env = Environment::new();
    assert!(!downcast_bool(run(&ast, &mut env).unwrap()));

    let ast = AstType::Less(Box::new(AstType::False), Box::new(AstType::True));
    let mut env = Environment::new();
    assert!(downcast_bool(run(&ast, &mut env).unwrap()));

    let ast = AstType::Less(Box::new(AstType::True), Box::new(AstType::False));
    let mut env = Environment::new();
    assert!(!downcast_bool(run(&ast, &mut env).unwrap()));
}

#[test]
fn greater_equal_eval() {
    let ast = AstType::GreaterEqual(Box::new(AstType::Number(2)), Box::new(AstType::Number(1)));
    let mut env = Environment::new();
    assert!(downcast_bool(run(&ast, &mut env).unwrap()));

    let ast = AstType::GreaterEqual(Box::new(AstType::Number(1)), Box::new(AstType::Number(2)));
    let mut env = Environment::new();
    assert!(!downcast_bool(run(&ast, &mut env).unwrap()));

    let ast = AstType::GreaterEqual(Box::new(AstType::Number(2)), Box::new(AstType::Number(2)));
    let mut env = Environment::new();
    assert!(downcast_bool(run(&ast, &mut env).unwrap()));

    let ast = AstType::GreaterEqual(
        Box::new(AstType::String(String::from("b"))),
        Box::new(AstType::String(String::from("a"))),
    );
    let mut env = Environment::new();
    assert!(downcast_bool(run(&ast, &mut env).unwrap()));

    let ast = AstType::GreaterEqual(
        Box::new(AstType::String(String::from("a"))),
        Box::new(AstType::String(String::from("b"))),
    );
    let mut env = Environment::new();
    assert!(!downcast_bool(run(&ast, &mut env).unwrap()));

    let ast = AstType::GreaterEqual(
        Box::new(AstType::String(String::from("bc"))),
        Box::new(AstType::String(String::from("ab"))),
    );
    let mut env = Environment::new();
    assert!(downcast_bool(run(&ast, &mut env).unwrap()));

    let ast = AstType::GreaterEqual(
        Box::new(AstType::String(String::from("a"))),
        Box::new(AstType::String(String::from("ba"))),
    );
    let mut env = Environment::new();
    assert!(!downcast_bool(run(&ast, &mut env).unwrap()));

    let ast = AstType::GreaterEqual(
        Box::new(AstType::String(String::from("a"))),
        Box::new(AstType::String(String::from("a"))),
    );
    let mut env = Environment::new();
    assert!(downcast_bool(run(&ast, &mut env).unwrap()));

    let ast = AstType::GreaterEqual(Box::new(AstType::True), Box::new(AstType::True));
    let mut env = Environment::new();
    assert!(downcast_bool(run(&ast, &mut env).unwrap()));

    let ast = AstType::GreaterEqual(Box::new(AstType::False), Box::new(AstType::False));
    let mut env = Environment::new();
    assert!(downcast_bool(run(&ast, &mut env).unwrap()));

    let ast = AstType::GreaterEqual(Box::new(AstType::False), Box::new(AstType::True));
    let mut env = Environment::new();
    assert!(!downcast_bool(run(&ast, &mut env).unwrap()));

    let ast = AstType::GreaterEqual(Box::new(AstType::True), Box::new(AstType::False));
    let mut env = Environment::new();
    assert!(downcast_bool(run(&ast, &mut env).unwrap()));
}

#[test]
fn less_equal_eval() {
    let ast = AstType::LessEqual(Box::new(AstType::Number(2)), Box::new(AstType::Number(1)));
    let mut env = Environment::new();
    assert!(!downcast_bool(run(&ast, &mut env).unwrap()));

    let ast = AstType::LessEqual(Box::new(AstType::Number(1)), Box::new(AstType::Number(2)));
    let mut env = Environment::new();
    assert!(downcast_bool(run(&ast, &mut env).unwrap()));

    let ast = AstType::LessEqual(Box::new(AstType::Number(2)), Box::new(AstType::Number(2)));
    let mut env = Environment::new();
    assert!(downcast_bool(run(&ast, &mut env).unwrap()));

    let ast = AstType::LessEqual(
        Box::new(AstType::String(String::from("b"))),
        Box::new(AstType::String(String::from("a"))),
    );
    let mut env = Environment::new();
    assert!(!downcast_bool(run(&ast, &mut env).unwrap()));

    let ast = AstType::LessEqual(
        Box::new(AstType::String(String::from("a"))),
        Box::new(AstType::String(String::from("b"))),
    );
    let mut env = Environment::new();
    assert!(downcast_bool(run(&ast, &mut env).unwrap()));

    let ast = AstType::LessEqual(
        Box::new(AstType::String(String::from("bc"))),
        Box::new(AstType::String(String::from("ab"))),
    );
    let mut env = Environment::new();
    assert!(!downcast_bool(run(&ast, &mut env).unwrap()));

    let ast = AstType::LessEqual(
        Box::new(AstType::String(String::from("a"))),
        Box::new(AstType::String(String::from("ba"))),
    );
    let mut env = Environment::new();
    assert!(downcast_bool(run(&ast, &mut env).unwrap()));

    let ast = AstType::LessEqual(
        Box::new(AstType::String(String::from("a"))),
        Box::new(AstType::String(String::from("a"))),
    );
    let mut env = Environment::new();
    assert!(downcast_bool(run(&ast, &mut env).unwrap()));

    let ast = AstType::LessEqual(Box::new(AstType::True), Box::new(AstType::True));
    let mut env = Environment::new();
    assert!(downcast_bool(run(&ast, &mut env).unwrap()));

    let ast = AstType::LessEqual(Box::new(AstType::False), Box::new(AstType::False));
    let mut env = Environment::new();
    assert!(downcast_bool(run(&ast, &mut env).unwrap()));

    let ast = AstType::LessEqual(Box::new(AstType::False), Box::new(AstType::True));
    let mut env = Environment::new();
    assert!(downcast_bool(run(&ast, &mut env).unwrap()));

    let ast = AstType::LessEqual(Box::new(AstType::True), Box::new(AstType::False));
    let mut env = Environment::new();
    assert!(!downcast_bool(run(&ast, &mut env).unwrap()));
}

#[test]
fn if_eval() {
    let ast = AstType::If(
        Box::new(AstType::Less(
            Box::new(AstType::Number(1)),
            Box::new(AstType::Number(2)),
        )),
        Box::new(AstType::Number(3)),
        Box::new(AstType::Number(4)),
    );
    let mut env = Environment::new();
    assert_eq!(3, downcast_number(run(&ast, &mut env).unwrap()));

    let ast = AstType::If(
        Box::new(AstType::Greater(
            Box::new(AstType::Number(1)),
            Box::new(AstType::Number(2)),
        )),
        Box::new(AstType::Number(3)),
        Box::new(AstType::Number(4)),
    );
    let mut env = Environment::new();
    assert_eq!(4, downcast_number(run(&ast, &mut env).unwrap()));
}

#[test]
fn or_eval() {
    let ast = AstType::Or(Box::new(AstType::True), Box::new(AstType::True));
    let mut env = Environment::new();
    assert!(downcast_bool(run(&ast, &mut env).unwrap()));

    let ast = AstType::Or(Box::new(AstType::True), Box::new(AstType::False));
    let mut env = Environment::new();
    assert!(downcast_bool(run(&ast, &mut env).unwrap()));

    let ast = AstType::Or(Box::new(AstType::False), Box::new(AstType::False));
    let mut env = Environment::new();
    assert!(!downcast_bool(run(&ast, &mut env).unwrap()));
}

#[test]
fn and_eval() {
    let ast = AstType::And(Box::new(AstType::True), Box::new(AstType::True));
    let mut env = Environment::new();
    assert!(downcast_bool(run(&ast, &mut env).unwrap()));

    let ast = AstType::And(Box::new(AstType::True), Box::new(AstType::False));
    let mut env = Environment::new();
    assert!(!downcast_bool(run(&ast, &mut env).unwrap()));

    let ast = AstType::And(Box::new(AstType::False), Box::new(AstType::False));
    let mut env = Environment::new();
    assert!(!downcast_bool(run(&ast, &mut env).unwrap()));
}

#[test]
fn call_eval() {
    let ast = AstType::Call("clock".to_string(), vec![]);
    let env = Environment::new();
    let mut env = rlox::embedded::func::register_func(&env);

    assert_eq!(ReturnType::Void, run(&ast, &mut env).unwrap());
}
