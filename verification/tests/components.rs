use mag::expression::Expression;
use mag::expression::ExpressionKind;
use mag::expression::Literal;
use mag::expression::LiteralKind;
use mag::expression::Pattern;
use mag::expression::expr_eq;
use mag::expression::pattern_eq;
use mag::environment::Environment;
use mag::interpreter::Interpreter;
use mag::interpreter::InterpreterError;
use mag::registry::Multimethod;

fn float(x: f64) -> Expression {
    Expression::new(ExpressionKind::Literal(Literal::Float { bits: x.to_bits() }))
}

fn ident(name: &str) -> Expression {
    Expression::new(ExpressionKind::Identifier { name: name.to_string() })
}

fn variable(name: Option<&str>, constraint: Option<LiteralKind>) -> Pattern {
    Pattern::Variable { name: name.map(|n| n.to_string()), type_constraint: constraint }
}

fn tuple(elements: Vec<Expression>) -> Pattern {
    Pattern::Tuple { elements }
}

fn pattern_expr(p: Pattern) -> Expression {
    Expression::new(ExpressionKind::Pattern(p))
}

#[test]
fn structural_equality_ignores_spans() {
    let a = Expression { kind: ExpressionKind::Identifier { name: "x".to_string() }, start_pos: 3, end_pos: 4 };
    let b = Expression { kind: ExpressionKind::Identifier { name: "x".to_string() }, start_pos: 7, end_pos: 9 };
    assert!(expr_eq(&a, &b));
    let c = ident("y");
    assert!(!expr_eq(&a, &c));
}

#[test]
fn pattern_equality_is_deep() {
    let p1 = tuple(vec![pattern_expr(variable(Some("x"), None)), float(1.0)]);
    let p2 = tuple(vec![pattern_expr(variable(Some("x"), None)), float(1.0)]);
    let p3 = tuple(vec![pattern_expr(variable(Some("y"), None)), float(1.0)]);
    let p4 = tuple(vec![pattern_expr(variable(Some("x"), None))]);
    assert!(pattern_eq(&p1, &p2));
    assert!(!pattern_eq(&p1, &p3));
    assert!(!pattern_eq(&p1, &p4));
    assert!(!pattern_eq(&p1, &variable(Some("x"), None)));
}

#[test]
fn variable_names_and_constraints_distinguish_patterns() {
    assert!(pattern_eq(&variable(None, None), &variable(None, None)));
    assert!(!pattern_eq(&variable(None, None), &variable(Some("x"), None)));
    assert!(!pattern_eq(
        &variable(Some("x"), Some(LiteralKind::Float)),
        &variable(Some("x"), Some(LiteralKind::Int)),
    ));
}

#[test]
fn duplicate_copies_deeply() {
    let e = pattern_expr(tuple(vec![float(1.0), ident("x")]));
    let copy = e.duplicate();
    assert!(expr_eq(&e, &copy));
}

#[test]
fn environment_lookup_and_shadowing() {
    let mut env = Environment::new();
    assert!(env.get(&"x".to_string()).is_none());
    env.set("x".to_string(), float(1.0));
    env.set("y".to_string(), float(2.0));
    env.set("x".to_string(), float(3.0));
    let bound = env.get(&"x".to_string()).expect("x should be bound");
    match &bound.kind {
        ExpressionKind::Literal(Literal::Float { bits }) => {
            assert_eq!(f64::from_bits(*bits), 3.0);
        },
        other => panic!("expected a float literal, got {:?}", other),
    }
    assert!(env.get(&"z".to_string()).is_none());
}

#[test]
fn multimethod_stores_and_finds_signatures() {
    let mm = Multimethod::new(variable(Some("x"), None), Box::new(float(1.0)));
    assert!(mm.contains_signature(&variable(Some("x"), None)));
    assert!(!mm.contains_signature(&variable(Some("y"), None)));
    let mm2 = mm.appended(variable(Some("y"), None), Box::new(float(2.0)));
    assert!(mm2.contains_signature(&variable(Some("x"), None)));
    assert!(mm2.contains_signature(&variable(Some("y"), None)));
}

#[test]
fn multimethod_resolution_returns_first_matching_body() {
    let mm = Multimethod::new(variable(None, None), Box::new(float(1.0)));
    let mm2 = mm.appended(variable(Some("x"), None), Box::new(float(2.0)));
    let (_bindings, body) = mm2.resolve(&float(5.0)).expect("should resolve");
    match body.kind {
        ExpressionKind::Literal(Literal::Float { bits }) => {
            assert_eq!(f64::from_bits(bits), 1.0);
        },
        other => panic!("expected the first body, got {:?}", other),
    }
}

#[test]
fn multimethod_resolution_fails_when_nothing_matches() {
    let sig = tuple(vec![pattern_expr(variable(Some("x"), None))]);
    let mm = Multimethod::new(sig, Box::new(float(1.0)));
    assert!(mm.resolve(&float(5.0)).is_none());
}

#[test]
fn interpreter_define_and_resolve_directly() {
    let mut interp = Interpreter::new();
    let ack = interp
        .define("h".to_string(), variable(Some("x"), None), Box::new(float(1.0)))
        .expect("definition should succeed");
    match ack.kind {
        ExpressionKind::Identifier { name } => assert_eq!(name, "h"),
        other => panic!("expected an identifier, got {:?}", other),
    }
    let dup = interp.define("h".to_string(), variable(Some("x"), None), Box::new(float(2.0)));
    assert_eq!(dup.unwrap_err(), InterpreterError::MethodSignatureExists);
    assert!(interp.resolve(&"h".to_string(), &float(4.0)).is_ok());
    let missing = interp.resolve(&"absent".to_string(), &float(4.0));
    match missing {
        Err(e) => assert_eq!(e, InterpreterError::MethodSignatureNotFound),
        Ok(_) => panic!("resolution of an absent name should fail"),
    }
}
