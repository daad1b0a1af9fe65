use interpreter::ast::ArithmeticOperator;
use interpreter::ast::ComparisonOperator;
use interpreter::ast::Expression;
use interpreter::ast::NodeLabel;
use interpreter::environment::Environment;
use interpreter::eval::evaluate;
use interpreter::eval::TraceEntry;
use interpreter::semantics::EvalError;
use interpreter::value::Value;

const FUEL: usize = 100000;

fn run(program: &Expression) -> Result<(Value, usize), EvalError> {
    let mut trace: Vec<TraceEntry> = Vec::new();
    evaluate(program, 0, &Environment::new(), FUEL, &mut trace)
}

fn run_traced(program: &Expression) -> (Result<(Value, usize), EvalError>, Vec<TraceEntry>) {
    let mut trace: Vec<TraceEntry> = Vec::new();
    let r = evaluate(program, 0, &Environment::new(), FUEL, &mut trace);
    (r, trace)
}

fn num(v: i32) -> Expression {
    Expression::integerConstant(v)
}

fn binop(op: ArithmeticOperator, l: Expression, r: Expression) -> Expression {
    Expression::binaryOperation(op, l, r)
}

/// The worked function of the language: f(top, bot) = if bot == 0 then 0
/// else top / bot.
fn declare_f() -> Expression {
    Expression::functionDeclaration(
        Expression::ifBranch(
            Expression::comparison(
                ComparisonOperator::Equals,
                Expression::readVariable("bot".to_string()),
                num(0),
            ),
            num(0),
            binop(
                ArithmeticOperator::Divide,
                Expression::readVariable("top".to_string()),
                Expression::readVariable("bot".to_string()),
            ),
        ),
        vec!["top".to_string(), "bot".to_string()],
    )
}

#[test]
fn addition_of_constants() {
    let r = run(&binop(ArithmeticOperator::Add, num(7), num(3)));
    let (v, pc) = r.unwrap();
    assert!(matches!(v, Value::Integer { value: 10 }));
    assert_eq!(pc, 3);
}

#[test]
fn subtraction_of_constants() {
    let (v, pc) = run(&binop(ArithmeticOperator::Subtract, num(7), num(3))).unwrap();
    assert!(matches!(v, Value::Integer { value: 4 }));
    assert_eq!(pc, 3);
}

#[test]
fn multiplication_of_constants() {
    let (v, pc) = run(&binop(ArithmeticOperator::Multiply, num(7), num(3))).unwrap();
    assert!(matches!(v, Value::Integer { value: 21 }));
    assert_eq!(pc, 3);
}

#[test]
fn division_truncates() {
    let (v, _) = run(&binop(ArithmeticOperator::Divide, num(7), num(3))).unwrap();
    assert!(matches!(v, Value::Integer { value: 2 }));
}

#[test]
fn division_truncates_toward_zero_for_negatives() {
    let (v, _) = run(&binop(ArithmeticOperator::Divide, num(-7), num(2))).unwrap();
    assert!(matches!(v, Value::Integer { value: -3 }));
    let (v2, _) = run(&binop(ArithmeticOperator::Divide, num(7), num(-2))).unwrap();
    assert!(matches!(v2, Value::Integer { value: -3 }));
    let (v3, _) = run(&binop(ArithmeticOperator::Divide, num(-7), num(-2))).unwrap();
    assert!(matches!(v3, Value::Integer { value: 3 }));
}

#[test]
fn division_of_worked_example() {
    // (400 + 74) / 3 == 158
    let p = binop(
        ArithmeticOperator::Divide,
        binop(ArithmeticOperator::Add, num(400), num(74)),
        num(3),
    );
    let (v, pc) = run(&p).unwrap();
    assert!(matches!(v, Value::Integer { value: 158 }));
    assert_eq!(pc, 5);
}

#[test]
fn comparison_of_equal_integers() {
    let p = Expression::comparison(ComparisonOperator::Equals, num(5), num(5));
    let (v, pc) = run(&p).unwrap();
    assert!(matches!(v, Value::Boolean { value: true }));
    assert_eq!(pc, 3);
}

#[test]
fn comparison_of_unequal_integers() {
    let p = Expression::comparison(ComparisonOperator::Equals, num(5), num(6));
    let (v, _) = run(&p).unwrap();
    assert!(matches!(v, Value::Boolean { value: false }));
}

#[test]
fn null_equals_null() {
    // Two unbound variables both evaluate to the absent value, and the
    // absent value always equals itself.
    let p = Expression::comparison(
        ComparisonOperator::Equals,
        Expression::readVariable("nope".to_string()),
        Expression::readVariable("also_nope".to_string()),
    );
    let (v, _) = run(&p).unwrap();
    assert!(matches!(v, Value::Boolean { value: true }));
}

#[test]
fn cross_case_comparison_is_false_not_an_error() {
    let p = Expression::comparison(
        ComparisonOperator::Equals,
        num(1),
        Expression::booleanConstant(true),
    );
    let (v, _) = run(&p).unwrap();
    assert!(matches!(v, Value::Boolean { value: false }));
}

#[test]
fn function_never_equals_itself() {
    // let f = <declaration> in f == f
    let p = Expression::assignVariable(
        "f".to_string(),
        declare_f(),
        Expression::comparison(
            ComparisonOperator::Equals,
            Expression::readVariable("f".to_string()),
            Expression::readVariable("f".to_string()),
        ),
    );
    let (v, _) = run(&p).unwrap();
    assert!(matches!(v, Value::Boolean { value: false }));
}

#[test]
fn if_true_skips_else_subtree() {
    let p = Expression::ifBranch(Expression::booleanConstant(true), num(1), num(2));
    let (r, trace) = run_traced(&p);
    let (v, pc) = r.unwrap();
    assert!(matches!(v, Value::Integer { value: 1 }));
    // Only the if node, the condition and the taken branch are visited.
    assert_eq!(pc, 3);
    assert_eq!(trace.len(), 3);
    assert_eq!(trace[0].label, NodeLabel::If);
    assert_eq!(trace[0].pc, 0);
    assert_eq!(trace[1].label, NodeLabel::BooleanConstant { value: true });
    assert_eq!(trace[1].pc, 1);
    assert_eq!(trace[2].label, NodeLabel::IntegerConstant { value: 1 });
    assert_eq!(trace[2].pc, 2);
    assert!(!trace.iter().any(|t| t.label == NodeLabel::IntegerConstant { value: 2 }));
}

#[test]
fn if_false_skips_then_subtree() {
    let p = Expression::ifBranch(Expression::booleanConstant(false), num(1), num(2));
    let (r, trace) = run_traced(&p);
    let (v, pc) = r.unwrap();
    assert!(matches!(v, Value::Integer { value: 2 }));
    assert_eq!(pc, 3);
    assert!(!trace.iter().any(|t| t.label == NodeLabel::IntegerConstant { value: 1 }));
}

#[test]
fn untaken_division_by_zero_never_runs() {
    // if (((400 + 74) / 3) == 158) then 474 else 474/0: the else branch
    // would abort, but it is never visited.
    let p = Expression::ifBranch(
        Expression::comparison(
            ComparisonOperator::Equals,
            binop(
                ArithmeticOperator::Divide,
                binop(ArithmeticOperator::Add, num(400), num(74)),
                num(3),
            ),
            num(158),
        ),
        num(474),
        binop(ArithmeticOperator::Divide, num(474), num(0)),
    );
    let (v, _) = run(&p).unwrap();
    assert!(matches!(v, Value::Integer { value: 474 }));
}

#[test]
fn let_binds_inside_body_only() {
    // let x = 3 in x
    let p = Expression::assignVariable(
        "x".to_string(),
        num(3),
        Expression::readVariable("x".to_string()),
    );
    let (v, _) = run(&p).unwrap();
    assert!(matches!(v, Value::Integer { value: 3 }));
}

#[test]
fn shadow_then_restore() {
    // let bot = 3 in (let bot = 2 in bot) + (if (bot == 0) then 474/0 else
    // (400+74)/bot): the inner body sees bot = 2, the right operand sees
    // bot = 3 again, giving 2 + 158 == 160.
    let p = Expression::assignVariable(
        "bot".to_string(),
        num(3),
        binop(
            ArithmeticOperator::Add,
            Expression::assignVariable(
                "bot".to_string(),
                num(2),
                Expression::readVariable("bot".to_string()),
            ),
            Expression::ifBranch(
                Expression::comparison(
                    ComparisonOperator::Equals,
                    Expression::readVariable("bot".to_string()),
                    num(0),
                ),
                binop(ArithmeticOperator::Divide, num(474), num(0)),
                binop(
                    ArithmeticOperator::Divide,
                    binop(ArithmeticOperator::Add, num(400), num(74)),
                    Expression::readVariable("bot".to_string()),
                ),
            ),
        ),
    );
    let (v, _) = run(&p).unwrap();
    assert!(matches!(v, Value::Integer { value: 160 }));
}

#[test]
fn unbound_variable_is_null_not_an_error() {
    let p = Expression::readVariable("nope".to_string());
    let (v, pc) = run(&p).unwrap();
    assert!(v.isNull());
    assert_eq!(pc, 1);
}

#[test]
fn division_by_zero_aborts() {
    let p = binop(ArithmeticOperator::Divide, num(1), num(0));
    let r = run(&p);
    assert_eq!(r.unwrap_err(), EvalError::DivisionByZero);
}

#[test]
fn call_short_circuits_division() {
    // let f = <declaration> in f(474, 0) returns 0: the guard takes the
    // then branch and the division never runs.
    let p = Expression::assignVariable(
        "f".to_string(),
        declare_f(),
        Expression::functionCall("f".to_string(), vec![num(474), num(0)]),
    );
    let (v, _) = run(&p).unwrap();
    assert!(matches!(v, Value::Integer { value: 0 }));
}

#[test]
fn call_divides_when_guard_fails() {
    // let f = <declaration> in f(400 + 74, 3) returns 158.
    let p = Expression::assignVariable(
        "f".to_string(),
        declare_f(),
        Expression::functionCall(
            "f".to_string(),
            vec![binop(ArithmeticOperator::Add, num(400), num(74)), num(3)],
        ),
    );
    let (v, _) = run(&p).unwrap();
    assert!(matches!(v, Value::Integer { value: 158 }));
}

#[test]
fn dynamic_scoping_resolves_free_variables_at_the_call_site() {
    // let g = <declaration of body top + bot, formals [top]> in
    //   let bot = 100 in g(1)
    // Under dynamic scoping the free variable bot of the body resolves
    // against the caller's environment, giving 101.
    let g = Expression::functionDeclaration(
        binop(
            ArithmeticOperator::Add,
            Expression::readVariable("top".to_string()),
            Expression::readVariable("bot".to_string()),
        ),
        vec!["top".to_string()],
    );
    let p = Expression::assignVariable(
        "g".to_string(),
        g,
        Expression::assignVariable(
            "bot".to_string(),
            num(100),
            Expression::functionCall("g".to_string(), vec![num(1)]),
        ),
    );
    let (v, _) = run(&p).unwrap();
    assert!(matches!(v, Value::Integer { value: 101 }));
}

#[test]
fn end_to_end_worked_program() {
    // let f = <declaration> in
    //   let bot = 3 in
    //     (let bot = 2 in bot) + (f(400+74, bot) + f(470+4, 0))
    // evaluates to 2 + (158 + 0) == 160.
    let p = Expression::assignVariable(
        "f".to_string(),
        declare_f(),
        Expression::assignVariable(
            "bot".to_string(),
            num(3),
            binop(
                ArithmeticOperator::Add,
                Expression::assignVariable(
                    "bot".to_string(),
                    num(2),
                    Expression::readVariable("bot".to_string()),
                ),
                binop(
                    ArithmeticOperator::Add,
                    Expression::functionCall(
                        "f".to_string(),
                        vec![
                            binop(ArithmeticOperator::Add, num(400), num(74)),
                            Expression::readVariable("bot".to_string()),
                        ],
                    ),
                    Expression::functionCall(
                        "f".to_string(),
                        vec![binop(ArithmeticOperator::Add, num(470), num(4)), num(0)],
                    ),
                ),
            ),
        ),
    );
    let (v, _) = run(&p).unwrap();
    assert!(matches!(v, Value::Integer { value: 160 }));
}

#[test]
fn too_few_arguments_is_an_arity_error() {
    let p = Expression::assignVariable(
        "f".to_string(),
        declare_f(),
        Expression::functionCall("f".to_string(), vec![num(1)]),
    );
    assert_eq!(run(&p).unwrap_err(), EvalError::ArityMismatch);
}

#[test]
fn extra_arguments_are_evaluated_and_ignored() {
    // Actual arguments beyond the formal names are still evaluated in
    // order, but no binding is made for them.
    let p = Expression::assignVariable(
        "f".to_string(),
        declare_f(),
        Expression::functionCall("f".to_string(), vec![num(474), num(3), num(999)]),
    );
    let (v, _) = run(&p).unwrap();
    assert!(matches!(v, Value::Integer { value: 158 }));
}

#[test]
fn arithmetic_on_a_boolean_is_a_type_error() {
    let p = binop(ArithmeticOperator::Add, Expression::booleanConstant(true), num(1));
    assert_eq!(run(&p).unwrap_err(), EvalError::TypeMismatch);
}

#[test]
fn calling_an_undeclared_name_is_a_type_error() {
    let p = Expression::functionCall("nope".to_string(), vec![num(1)]);
    assert_eq!(run(&p).unwrap_err(), EvalError::TypeMismatch);
}

#[test]
fn non_boolean_condition_is_a_type_error() {
    let p = Expression::ifBranch(num(1), num(2), num(3));
    assert_eq!(run(&p).unwrap_err(), EvalError::TypeMismatch);
}

#[test]
fn addition_overflow_is_fatal() {
    let p = binop(ArithmeticOperator::Add, num(i32::MAX), num(1));
    assert_eq!(run(&p).unwrap_err(), EvalError::Overflow);
}

#[test]
fn division_overflow_is_fatal() {
    let p = binop(ArithmeticOperator::Divide, num(i32::MIN), num(-1));
    assert_eq!(run(&p).unwrap_err(), EvalError::Overflow);
}

#[test]
fn fuel_exhaustion_is_reported() {
    let mut trace: Vec<TraceEntry> = Vec::new();
    let p = binop(ArithmeticOperator::Add, num(1), num(2));
    let r = evaluate(&p, 0, &Environment::new(), 2, &mut trace);
    assert_eq!(r.unwrap_err(), EvalError::OutOfFuel);
    let mut trace2: Vec<TraceEntry> = Vec::new();
    let r2 = evaluate(&p, 0, &Environment::new(), 0, &mut trace2);
    assert_eq!(r2.unwrap_err(), EvalError::OutOfFuel);
    assert!(trace2.is_empty());
}

#[test]
fn counter_starts_at_the_caller_seed() {
    let mut trace: Vec<TraceEntry> = Vec::new();
    let p = num(42);
    let (v, pc) = evaluate(&p, 5, &Environment::new(), FUEL, &mut trace).unwrap();
    assert!(matches!(v, Value::Integer { value: 42 }));
    assert_eq!(pc, 6);
    assert_eq!(trace.len(), 1);
    assert_eq!(trace[0].pc, 5);
    assert_eq!(trace[0].label, NodeLabel::IntegerConstant { value: 42 });
}

#[test]
fn trace_is_deterministic() {
    let p = Expression::assignVariable(
        "f".to_string(),
        declare_f(),
        Expression::functionCall("f".to_string(), vec![num(474), num(3)]),
    );
    let (r1, t1) = run_traced(&p);
    let (r2, t2) = run_traced(&p);
    assert!(r1.is_ok());
    assert!(r2.is_ok());
    assert_eq!(t1, t2);
    // The counter advances by exactly one per visit, from the seed on.
    for (i, entry) in t1.iter().enumerate() {
        assert_eq!(entry.pc, i);
    }
}

#[test]
fn arguments_evaluate_under_the_call_site_environment() {
    // let h = <declaration of body a, formals [a, b]> in
    //   let a = 7 in h(1, a)
    // The second actual argument reads a from the call site (7), not the
    // first argument's binding (1): argument expressions never see earlier
    // arguments' bindings.
    let h = Expression::functionDeclaration(
        Expression::readVariable("b".to_string()),
        vec!["a".to_string(), "b".to_string()],
    );
    let p = Expression::assignVariable(
        "h".to_string(),
        h,
        Expression::assignVariable(
            "a".to_string(),
            num(7),
            Expression::functionCall(
                "h".to_string(),
                vec![num(1), Expression::readVariable("a".to_string())],
            ),
        ),
    );
    let (v, _) = run(&p).unwrap();
    assert!(matches!(v, Value::Integer { value: 7 }));
}
