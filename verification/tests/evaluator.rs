use mag::expression::Expression;
use mag::expression::ExpressionKind;
use mag::expression::InfixOperator;
use mag::expression::Literal;
use mag::expression::LiteralKind;
use mag::expression::Infix;
use mag::expression::Call;
use mag::expression::Method;
use mag::expression::Pattern;
use mag::interpreter::Interpreter;
use mag::interpreter::InterpreterError;

fn float(x: f64) -> Expression {
    Expression::new(ExpressionKind::Literal(Literal::Float { bits: x.to_bits() }))
}

fn integer(x: i64) -> Expression {
    Expression::new(ExpressionKind::Literal(Literal::Int { value: x }))
}

fn ident(name: &str) -> Expression {
    Expression::new(ExpressionKind::Identifier { name: name.to_string() })
}

fn infix(op: InfixOperator, left: Expression, right: Expression) -> Expression {
    Expression::new(ExpressionKind::Infix(Infix {
        operator: op,
        left: Box::new(left),
        right: Box::new(right),
    }))
}

fn variable(name: Option<&str>, constraint: Option<LiteralKind>) -> Pattern {
    Pattern::Variable { name: name.map(|n| n.to_string()), type_constraint: constraint }
}

fn tuple(elements: Vec<Expression>) -> Pattern {
    Pattern::Tuple { elements }
}

fn pattern_expr(p: Pattern) -> Expression {
    Expression::new(ExpressionKind::Pattern(p))
}

fn method(name: &str, signature: Pattern, body: Expression) -> Expression {
    Expression::new(ExpressionKind::Method(Method {
        name: name.to_string(),
        signature,
        body: Box::new(body),
    }))
}

fn call(name: &str, arguments: Expression) -> Expression {
    Expression::new(ExpressionKind::Call(Call {
        callee: Box::new(ident(name)),
        arguments: Box::new(arguments),
    }))
}

fn expect_float(r: Result<Box<Expression>, InterpreterError>) -> f64 {
    match r.expect("evaluation should succeed").kind {
        ExpressionKind::Literal(Literal::Float { bits }) => f64::from_bits(bits),
        other => panic!("expected a float literal, got {:?}", other),
    }
}

#[test]
fn addition_of_literals() {
    let mut interp = Interpreter::new();
    let r = interp.evaluate(Box::new(infix(InfixOperator::Plus, float(2.0), float(3.0))));
    assert_eq!(expect_float(r), 5.0);
}

#[test]
fn multiplication_of_literals() {
    let mut interp = Interpreter::new();
    let r = interp.evaluate(Box::new(infix(InfixOperator::Star, float(2.0), float(3.0))));
    assert_eq!(expect_float(r), 6.0);
}

#[test]
fn division_of_literals() {
    let mut interp = Interpreter::new();
    let r = interp.evaluate(Box::new(infix(InfixOperator::Slash, float(6.0), float(3.0))));
    assert_eq!(expect_float(r), 2.0);
}

#[test]
fn division_by_zero_is_infinity() {
    let mut interp = Interpreter::new();
    let r = interp.evaluate(Box::new(infix(InfixOperator::Slash, float(1.0), float(0.0))));
    let v = expect_float(r);
    assert!(v.is_infinite() && v > 0.0);
}

#[test]
fn nested_arithmetic() {
    let mut interp = Interpreter::new();
    let sum = infix(InfixOperator::Plus, float(1.0), float(2.0));
    let r = interp.evaluate(Box::new(infix(InfixOperator::Star, sum, float(4.0))));
    assert_eq!(expect_float(r), 12.0);
}

#[test]
fn minus_is_not_yet_supported() {
    let mut interp = Interpreter::new();
    let r = interp.evaluate(Box::new(infix(InfixOperator::Minus, float(2.0), float(3.0))));
    assert_eq!(r.unwrap_err(), InterpreterError::NotYetSupported);
}

#[test]
fn int_operand_is_unexpected_type() {
    let mut interp = Interpreter::new();
    let r = interp.evaluate(Box::new(infix(InfixOperator::Plus, integer(2), float(3.0))));
    assert_eq!(r.unwrap_err(), InterpreterError::UnexpectedType);
}

#[test]
fn unbound_identifier_operand_is_unexpected_type() {
    let mut interp = Interpreter::new();
    let r = interp.evaluate(Box::new(infix(InfixOperator::Plus, ident("z"), float(3.0))));
    assert_eq!(r.unwrap_err(), InterpreterError::UnexpectedType);
}

#[test]
fn literal_evaluates_to_itself() {
    let mut interp = Interpreter::new();
    let r = interp.evaluate(Box::new(float(4.5)));
    assert_eq!(expect_float(r), 4.5);
}

#[test]
fn grouping_passes_through() {
    let mut interp = Interpreter::new();
    let grouped = pattern_expr(tuple(vec![float(4.0)]));
    let r = interp.evaluate(Box::new(grouped));
    assert_eq!(expect_float(r), 4.0);
}

#[test]
fn grouping_evaluates_its_child() {
    let mut interp = Interpreter::new();
    let grouped = pattern_expr(tuple(vec![infix(InfixOperator::Plus, float(2.0), float(3.0))]));
    let r = interp.evaluate(Box::new(grouped));
    assert_eq!(expect_float(r), 5.0);
}

#[test]
fn bare_variable_pattern_is_not_yet_supported() {
    let mut interp = Interpreter::new();
    let r = interp.evaluate(Box::new(pattern_expr(variable(Some("x"), None))));
    assert_eq!(r.unwrap_err(), InterpreterError::NotYetSupported);
}

#[test]
fn wide_tuple_in_value_position_is_not_yet_supported() {
    let mut interp = Interpreter::new();
    let r = interp.evaluate(Box::new(pattern_expr(tuple(vec![float(1.0), float(2.0)]))));
    assert_eq!(r.unwrap_err(), InterpreterError::NotYetSupported);
}

#[test]
fn method_definition_acknowledges_with_identifier() {
    let mut interp = Interpreter::new();
    let r = interp.evaluate(Box::new(method("double", variable(Some("x"), None), float(0.0))));
    match r.expect("definition should succeed").kind {
        ExpressionKind::Identifier { name } => assert_eq!(name, "double"),
        other => panic!("expected an identifier, got {:?}", other),
    }
}

#[test]
fn duplicate_signature_is_rejected() {
    let mut interp = Interpreter::new();
    let first = interp.evaluate(Box::new(method("f", variable(Some("x"), None), float(1.0))));
    assert!(first.is_ok());
    let second = interp.evaluate(Box::new(method("f", variable(Some("x"), None), float(2.0))));
    assert_eq!(second.unwrap_err(), InterpreterError::MethodSignatureExists);
    // The registry still behaves exactly as before the rejected call.
    let r = interp.evaluate(Box::new(call("f", float(9.0))));
    assert_eq!(expect_float(r), 1.0);
}

#[test]
fn two_distinct_signatures_coexist() {
    let mut interp = Interpreter::new();
    interp
        .evaluate(Box::new(method("g", variable(Some("x"), None), float(1.0))))
        .expect("first definition");
    let sig2 = tuple(vec![
        pattern_expr(variable(Some("x"), None)),
        pattern_expr(variable(Some("y"), None)),
    ]);
    interp.evaluate(Box::new(method("g", sig2, float(2.0)))).expect("second definition");
    // A single argument is matched by the first receiver.
    let r1 = interp.evaluate(Box::new(call("g", float(0.0))));
    assert_eq!(expect_float(r1), 1.0);
    // A two-element tuple fails the first receiver only by being consumed
    // by it: the wildcard-like variable matches any single value, so the
    // first receiver still wins on tuple arguments as well.
    let args = pattern_expr(tuple(vec![float(0.0), float(0.0)]));
    let r2 = interp.evaluate(Box::new(call("g", args)));
    assert_eq!(expect_float(r2), 1.0);
}

#[test]
fn first_match_wins_over_later_tuple() {
    let mut interp = Interpreter::new();
    interp
        .evaluate(Box::new(method("add", variable(None, None), float(111.0))))
        .expect("first definition");
    let sig2 = tuple(vec![
        pattern_expr(variable(Some("x"), None)),
        pattern_expr(variable(Some("y"), None)),
    ]);
    interp.evaluate(Box::new(method("add", sig2, float(222.0)))).expect("second definition");
    let r = interp.evaluate(Box::new(call("add", float(1.0))));
    assert_eq!(expect_float(r), 111.0);
}

#[test]
fn tuple_signature_dispatches_on_arity() {
    let mut interp = Interpreter::new();
    let sig = tuple(vec![
        pattern_expr(variable(Some("x"), None)),
        pattern_expr(variable(Some("y"), None)),
    ]);
    let body = infix(InfixOperator::Plus, ident("x"), ident("y"));
    interp.evaluate(Box::new(method("add", sig, body))).expect("definition");
    let args = pattern_expr(tuple(vec![float(2.0), float(3.0)]));
    let r = interp.evaluate(Box::new(call("add", args)));
    assert_eq!(expect_float(r), 5.0);
}

#[test]
fn call_arguments_are_reduced_before_matching() {
    let mut interp = Interpreter::new();
    let sig = tuple(vec![
        pattern_expr(variable(Some("x"), None)),
        pattern_expr(variable(Some("y"), None)),
    ]);
    let body = infix(InfixOperator::Star, ident("x"), ident("y"));
    interp.evaluate(Box::new(method("mul", sig, body))).expect("definition");
    let args = pattern_expr(tuple(vec![
        infix(InfixOperator::Plus, float(1.0), float(1.0)),
        float(3.0),
    ]));
    let r = interp.evaluate(Box::new(call("mul", args)));
    assert_eq!(expect_float(r), 6.0);
}

#[test]
fn undefined_name_fails() {
    let mut interp = Interpreter::new();
    let r = interp.evaluate(Box::new(call("nowhere", float(1.0))));
    assert_eq!(r.unwrap_err(), InterpreterError::MethodSignatureNotFound);
}

#[test]
fn arity_mismatch_is_not_found_not_a_type_error() {
    let mut interp = Interpreter::new();
    let sig = tuple(vec![
        pattern_expr(variable(Some("x"), None)),
        pattern_expr(variable(Some("y"), None)),
    ]);
    interp.evaluate(Box::new(method("pair", sig, float(7.0)))).expect("definition");
    let r = interp.evaluate(Box::new(call("pair", float(1.0))));
    assert_eq!(r.unwrap_err(), InterpreterError::MethodSignatureNotFound);
}

#[test]
fn definitions_persist_across_evaluations() {
    let mut interp = Interpreter::new();
    interp
        .evaluate(Box::new(method("keep", variable(Some("x"), None), ident("x"))))
        .expect("definition");
    // A later, separate top-level evaluation sees the earlier receiver.
    let r = interp.evaluate(Box::new(call("keep", float(8.0))));
    assert_eq!(expect_float(r), 8.0);
    // A brand-new session starts with resolution failing for that name.
    let mut fresh = Interpreter::new();
    let r2 = fresh.evaluate(Box::new(call("keep", float(8.0))));
    assert_eq!(r2.unwrap_err(), InterpreterError::MethodSignatureNotFound);
}

#[test]
fn errors_do_not_roll_back_definitions() {
    let mut interp = Interpreter::new();
    // The left operand defines a method, then the right operand fails.
    let defining = method("sneaky", variable(Some("x"), None), float(5.0));
    let failing = infix(InfixOperator::Plus, defining, ident("oops"));
    let r = interp.evaluate(Box::new(failing));
    assert_eq!(r.unwrap_err(), InterpreterError::UnexpectedType);
    // The definition made before the error is still in force.
    let r2 = interp.evaluate(Box::new(call("sneaky", float(1.0))));
    assert_eq!(expect_float(r2), 5.0);
}

#[test]
fn type_constraint_matches_only_its_kind() {
    let mut interp = Interpreter::new();
    interp
        .evaluate(Box::new(method("only_float", variable(Some("x"), Some(LiteralKind::Float)), ident("x"))))
        .expect("definition");
    let ok = interp.evaluate(Box::new(call("only_float", float(3.5))));
    assert_eq!(expect_float(ok), 3.5);
    let bad = interp.evaluate(Box::new(call("only_float", integer(3))));
    assert_eq!(bad.unwrap_err(), InterpreterError::MethodSignatureNotFound);
}

#[test]
fn wildcard_name_binds_nothing() {
    let mut interp = Interpreter::new();
    // The body refers to `_`, which the wildcard must not have bound, so
    // the bare identifier reduces to itself.
    interp
        .evaluate(Box::new(method("w", variable(Some("_"), None), ident("_"))))
        .expect("definition");
    let r = interp.evaluate(Box::new(call("w", float(1.0))));
    match r.expect("call should succeed").kind {
        ExpressionKind::Identifier { name } => assert_eq!(name, "_"),
        other => panic!("expected the bare identifier, got {:?}", other),
    }
}

#[test]
fn callee_must_reduce_to_identifier() {
    let mut interp = Interpreter::new();
    let bad_call = Expression::new(ExpressionKind::Call(Call {
        callee: Box::new(float(1.0)),
        arguments: Box::new(float(2.0)),
    }));
    let r = interp.evaluate(Box::new(bad_call));
    assert_eq!(r.unwrap_err(), InterpreterError::UnexpectedType);
}

#[test]
fn runaway_recursion_is_cut_off() {
    let mut interp = Interpreter::new();
    // f(x) calls f(x) forever; the evaluator's dispatch budget stops it.
    let body = call("f", ident("x"));
    interp
        .evaluate(Box::new(method("f", variable(Some("x"), None), body)))
        .expect("definition");
    let r = interp.evaluate(Box::new(call("f", float(1.0))));
    assert_eq!(r.unwrap_err(), InterpreterError::NotYetSupported);
}

#[test]
fn local_bindings_do_not_leak_between_dispatches() {
    let mut interp = Interpreter::new();
    interp
        .evaluate(Box::new(method("inner", variable(Some("y"), None), ident("x"))))
        .expect("inner definition");
    // outer binds x, then calls inner, whose body mentions x: the call-local
    // scope of inner does not see outer's binding, so x reduces to itself.
    let outer_body = call("inner", float(2.0));
    interp
        .evaluate(Box::new(method("outer", variable(Some("x"), None), outer_body)))
        .expect("outer definition");
    let r = interp.evaluate(Box::new(call("outer", float(9.0))));
    match r.expect("call should succeed").kind {
        ExpressionKind::Identifier { name } => assert_eq!(name, "x"),
        other => panic!("expected the bare identifier, got {:?}", other),
    }
}

#[test]
fn zero_arity_tuple_signature() {
    let mut interp = Interpreter::new();
    interp
        .evaluate(Box::new(method("nullary", tuple(vec![]), float(42.0))))
        .expect("definition");
    let args = pattern_expr(tuple(vec![]));
    let r = interp.evaluate(Box::new(call("nullary", args)));
    assert_eq!(expect_float(r), 42.0);
    // A single non-tuple argument does not match the zero-arity signature.
    let r2 = interp.evaluate(Box::new(call("nullary", float(1.0))));
    assert_eq!(r2.unwrap_err(), InterpreterError::MethodSignatureNotFound);
}

#[test]
fn resolution_scans_past_non_matching_receivers() {
    let mut interp = Interpreter::new();
    let sig1 = tuple(vec![pattern_expr(variable(Some("x"), None))]);
    interp.evaluate(Box::new(method("pick", sig1, float(1.0)))).expect("first definition");
    interp
        .evaluate(Box::new(method("pick", variable(None, None), float(2.0))))
        .expect("second definition");
    // A bare argument is no tuple, so the first receiver is skipped and
    // the second one wins.
    let r = interp.evaluate(Box::new(call("pick", float(0.0))));
    assert_eq!(expect_float(r), 2.0);
}
