use bolt::evaluator::Evaluator;
use bolt::object::Object;
use std::rc::Rc;

fn eval_source(source: &str) -> Rc<Object> {
    let mut evaluator = Evaluator::new(source, None);
    evaluator
        .eval()
        .expect("the program should not be empty")
        .expect("the program should evaluate")
}

fn eval_inspect(source: &str) -> String {
    eval_source(source).inspect()
}

fn eval_int(source: &str) -> i64 {
    match &*eval_source(source) {
        Object::Integer(n) => *n,
        other => panic!("expected a number, got {:?}", other),
    }
}

fn eval_bool(source: &str) -> bool {
    match &*eval_source(source) {
        Object::Boolean(b) => b.value,
        other => panic!("expected a boolean, got {:?}", other),
    }
}

#[test]
fn test_bool_prefix_evaluation() {
    assert_eq!(eval_inspect("!false").as_str(), "true");
    assert_eq!(eval_inspect("!true").as_str(), "false");
    assert_eq!(eval_inspect("!null").as_str(), "true");
}

#[test]
fn test_boolean_binary_evaluation() {
    let tests = [
        "1 < 2", "1 > 2", "1 < 1", "1 > 1", "1 == 1", "1 != 1", "1 == 2", "1 != 2", "1 >= 1",
        "3 <= 2", "true == true", "false == false", "true == false", "true != false",
        "false != true",
    ];
    let expected_results = vec![
        true, false, false, false, true, false, false, true, true, false, true, true, false, true,
        true,
    ];
    for (i, source) in tests.iter().enumerate() {
        assert_eq!(eval_bool(source), expected_results[i], "at {}", source);
    }
}

#[test]
fn test_conditional_evaluation_nil() {
    for source in ["if (false) { 10 }", "if (true) { null }", "if (1 > 2) { 10 }"] {
        assert_eq!(eval_inspect(source).as_str(), "null", "at {}", source);
    }
}

#[test]
fn minus_prefix_yields_negative_number() {
    assert_eq!(eval_int("-5"), -5);
}

#[test]
fn arithmetic_follows_the_precedence_table() {
    assert_eq!(eval_int("(5 + 10 * 2 + 15 / 3) * 2 + -10"), 50);
    assert_eq!(eval_int("2 + 2 * 2"), 6);
    assert_eq!(eval_int("3 * (3 * 3) + 10"), 37);
    assert_eq!(eval_int("2 * 2 * 2 * 2 * 2"), 32);
    assert_eq!(eval_int("-50 + 100 + -50"), 0);
}

#[test]
fn bang_on_a_number_is_an_error() {
    let mut evaluator = Evaluator::new("!5", None);
    match evaluator.eval() {
        Some(Err(_)) => {},
        other => panic!("expected an error, got {:?}", other),
    }
}

#[test]
fn division_by_zero_is_an_error() {
    let mut evaluator = Evaluator::new("5 / 0", None);
    match evaluator.eval() {
        Some(Err(_)) => {},
        other => panic!("expected an error, got {:?}", other),
    }
}

#[test]
fn unbound_name_is_an_error() {
    let mut evaluator = Evaluator::new("missing", None);
    match evaluator.eval() {
        Some(Err(_)) => {},
        other => panic!("expected an error, got {:?}", other),
    }
}

#[test]
fn conditionals_choose_by_truthiness() {
    assert_eq!(eval_int("if (1 < 2) { 10 } else { 20 }"), 10);
    assert_eq!(eval_int("if (1) { 10 } else { 1 }"), 10);
    assert_eq!(eval_int("if (1 > 2) { 10 } else { 20 }"), 20);
    assert_eq!(eval_inspect("if (false) { 10 }").as_str(), "null");
}

#[test]
fn let_bindings_shadow_and_accumulate() {
    assert_eq!(eval_int("let a = 5; let b = a; let c = a + b + 5; c"), 15);
    assert_eq!(eval_int("let a = 10; a;"), 10);
    assert_eq!(eval_int("let a = 5 * 5; a;"), 25);
}

#[test]
fn function_calls_bind_positionally() {
    assert_eq!(eval_int("let add = fn(x, y) { x + y }; add(10, 20)"), 30);
    assert_eq!(eval_int("let a = fn(x){let c = x + 10; c;} a(10);"), 20);
}

#[test]
fn closures_keep_their_defining_scope() {
    assert_eq!(
        eval_int("let base = 100; let add = fn(x) { base + x }; let other = add(1); add(5)"),
        105
    );
    assert_eq!(
        eval_int("let make = fn(a) { fn(b) { a + b } }; let addthree = make(3); addthree(4)"),
        7
    );
}

#[test]
fn return_unwinds_nested_ifs_at_top_level() {
    let result = eval_source(
        "if (true) { if (true) { if (false) { return 1 } else { return 10 }; return 20 }; return 30 }",
    );
    match &*result {
        Object::Return(r) => match &*r.value {
            Object::Integer(n) => assert_eq!(*n, 10),
            other => panic!("expected a number inside the sentinel, got {:?}", other),
        },
        other => panic!("expected a return sentinel, got {:?}", other),
    }
}

#[test]
fn return_unwinds_from_a_function_body() {
    assert_eq!(eval_int("let f = fn() { if (true) { if (true) { return 42 }; return 1 }; return 2 }; f()"), 42);
}

#[test]
fn boolean_comparison_chain() {
    assert_eq!(eval_bool("true == true"), true);
    assert_eq!(eval_bool("true != false"), true);
    assert_eq!(eval_bool("1 < 2 == true"), true);
}

#[test]
fn session_keeps_bindings_between_lines() {
    let mut first = Evaluator::new("let a = 41;", None);
    first.eval().unwrap().unwrap();
    let mut second = Evaluator::new("a + 1", Some(first.environment));
    match &*second.eval().unwrap().unwrap() {
        Object::Integer(n) => assert_eq!(*n, 42),
        other => panic!("expected a number, got {:?}", other),
    }
}

#[test]
fn function_value_inspects_its_parameters() {
    assert_eq!(eval_inspect("fn(a, b) { a }").as_str(), "fn(a,b)");
    assert_eq!(eval_inspect("let x = 5; x").as_str(), "5");
    assert_eq!(eval_inspect("-12").as_str(), "-12");
}

#[test]
fn arity_mismatch_is_an_error() {
    let mut evaluator = Evaluator::new("let f = fn(x) { x }; f(1, 2)", None);
    match evaluator.eval() {
        Some(Err(_)) => {},
        other => panic!("expected an error, got {:?}", other),
    }
}

#[test]
fn empty_program_yields_nothing() {
    let mut evaluator = Evaluator::new("   // only a comment\n", None);
    assert!(evaluator.eval().is_none());
}
