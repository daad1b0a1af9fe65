use interpreter::ast::ArithmeticOperator;
use interpreter::ast::ComparisonOperator;
use interpreter::ast::Expression;
use interpreter::ast::NodeLabel;
use interpreter::environment::Binding;
use interpreter::environment::Environment;
use interpreter::value::Value;

#[test]
fn integer_constant_get_value() {
    let e = Expression::integerConstant(474);
    let v = e.getValue();
    assert!(matches!(v, Value::Integer { value: 474 }));
}

#[test]
fn boolean_constant_get_value() {
    let e = Expression::booleanConstant(true);
    let v = e.getValue();
    assert!(matches!(v, Value::Boolean { value: true }));
}

#[test]
fn get_value_of_non_constant_is_null() {
    let e = Expression::readVariable("x".to_string());
    assert!(e.getValue().isNull());
}

#[test]
fn get_value_of_call_wraps_first_argument() {
    let e = Expression::functionCall("f".to_string(), vec![Expression::integerConstant(7)]);
    let v = e.getValue();
    match v {
        Value::Function { body, formal_arg_names } => {
            assert!(matches!(*body, Expression::IntegerConstant { value: 7 }));
            assert!(formal_arg_names.is_empty());
        },
        _ => panic!("expected a function value"),
    }
}

#[test]
fn is_null_distinguishes_cases() {
    assert!(Value::null().isNull());
    assert!(!Value::integer(0).isNull());
    assert!(!Value::boolean(false).isNull());
    assert!(!Value::function(Expression::integerConstant(1), Vec::new()).isNull());
}

#[test]
fn lookup_in_empty_environment_is_null() {
    let env = Environment::new();
    let v = env.lookup("nope".to_string());
    assert!(v.isNull());
}

#[test]
fn bind_then_lookup() {
    let env = Environment::new().bind("x".to_string(), Value::integer(3));
    let v = env.lookup("x".to_string());
    assert!(matches!(v, Value::Integer { value: 3 }));
}

#[test]
fn newest_binding_shadows_older() {
    let outer = Environment::new().bind("x".to_string(), Value::integer(3));
    let inner = outer.bind("x".to_string(), Value::integer(2));
    assert!(matches!(inner.lookup("x".to_string()), Value::Integer { value: 2 }));
    // Extending never mutates the receiver: the outer environment still
    // resolves to its own binding.
    assert!(matches!(outer.lookup("x".to_string()), Value::Integer { value: 3 }));
}

#[test]
fn lookup_of_other_name_unaffected_by_new_binding() {
    let env = Environment::new()
        .bind("x".to_string(), Value::integer(1))
        .bind("y".to_string(), Value::integer(2));
    assert!(matches!(env.lookup("x".to_string()), Value::Integer { value: 1 }));
    assert!(matches!(env.lookup("y".to_string()), Value::Integer { value: 2 }));
}

#[test]
fn binding_constructors() {
    let b1 = Binding::integer("a".to_string(), 5);
    assert_eq!(b1.name, "a".to_string());
    assert!(matches!(b1.value, Value::Integer { value: 5 }));

    let b2 = Binding::boolean("b".to_string(), true);
    assert!(matches!(b2.value, Value::Boolean { value: true }));

    let b3 = Binding::null("c".to_string());
    assert!(b3.value.isNull());

    let b4 = Binding::value("d".to_string(), Value::integer(-1));
    assert!(matches!(b4.value, Value::Integer { value: -1 }));
}

#[test]
fn describe_renders_variant_and_payload() {
    let e = Expression::binaryOperation(
        ArithmeticOperator::Divide,
        Expression::integerConstant(1),
        Expression::integerConstant(2),
    );
    assert_eq!(e.describe(), NodeLabel::BinaryOp { op: ArithmeticOperator::Divide });

    let c = Expression::comparison(
        ComparisonOperator::Equals,
        Expression::integerConstant(1),
        Expression::integerConstant(2),
    );
    assert_eq!(c.describe(), NodeLabel::Comparison { op: ComparisonOperator::Equals });

    let l = Expression::assignVariable(
        "bot".to_string(),
        Expression::integerConstant(3),
        Expression::readVariable("bot".to_string()),
    );
    assert_eq!(l.describe(), NodeLabel::Let { name: "bot".to_string() });

    let r = Expression::readVariable("top".to_string());
    assert_eq!(r.describe(), NodeLabel::Variable { name: "top".to_string() });
}

#[test]
fn clone_makes_an_independent_deep_copy() {
    let original = Expression::functionCall(
        "f".to_string(),
        vec![
            Expression::integerConstant(1),
            Expression::binaryOperation(
                ArithmeticOperator::Add,
                Expression::integerConstant(2),
                Expression::integerConstant(3),
            ),
        ],
    );
    let copy = original.clone();
    match (original, copy) {
        (
            Expression::FunctionCall { name: n1, actual_args: a1 },
            Expression::FunctionCall { name: n2, actual_args: a2 },
        ) => {
            assert_eq!(n1, n2);
            assert_eq!(a1.len(), a2.len());
        },
        _ => panic!("clone changed the variant"),
    }
}
