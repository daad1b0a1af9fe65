//! The executable evaluator: a structural recursion over the expression
//! tree that threads a step counter and a fuel bound through every call and
//! records one trace entry per node visited, in pre-order. Its result and
//! its trace are exactly those of the mathematical semantics
//! (`semantics::spec_eval`).
use crate::ast::args_model;
use crate::ast::clone_names;
use crate::ast::lemma_args_model;
use crate::ast::Expression;
use crate::ast::NodeLabel;
use crate::ast::SpecExpr;
use crate::ast::SpecLabel;
use crate::environment::Environment;
use crate::environment::SpecBinding;
use crate::ast::ArithmeticOperator;
use crate::ast::ComparisonOperator;
use crate::semantics::apply_binary;
use crate::semantics::call_environment;
use crate::semantics::lemma_eval_args_trace_len;
use crate::semantics::lemma_eval_trace_len;
use crate::semantics::spec_eval;
use crate::semantics::spec_eval_args;
use crate::semantics::values_equal;
use crate::semantics::EvalError;
use crate::value::SpecValue;
use crate::value::Value;
use vstd::prelude::*;

verus! {

/// One line of the evaluation trace: the step counter before the visit and
/// the label of the node visited.
#[derive(Debug, PartialEq, Eq)]
pub struct TraceEntry {
    pub pc: usize,
    pub label: NodeLabel,
}

/// The models of a sequence of values, element by element.
pub open spec fn values_model(s: Seq<Value>) -> Seq<SpecValue> {
    Seq::new(s.len(), |i: int| s[i].model())
}

/// How a call extends the trace: the entries already present are unchanged,
/// and one new entry stands per label, carrying consecutive counter values
/// from `pc` on.
pub open spec fn trace_extended(
    old_trace: Seq<TraceEntry>,
    new_trace: Seq<TraceEntry>,
    labels: Seq<SpecLabel>,
    pc: nat,
) -> bool {
    &&& new_trace.len() == old_trace.len() + labels.len()
    &&& forall|j: int| 0 <= j < old_trace.len() ==> new_trace[j] == old_trace[j]
    &&& forall|j: int|
        0 <= j < labels.len() ==> ((#[trigger] new_trace[old_trace.len() + j]).label.model()
            == labels[j] && new_trace[old_trace.len() + j].pc == pc + j)
}

/// Two successive trace extensions make one extension by the concatenated
/// labels.
proof fn lemma_trace_compose(
    t0: Seq<TraceEntry>,
    t1: Seq<TraceEntry>,
    t2: Seq<TraceEntry>,
    l1: Seq<SpecLabel>,
    l2: Seq<SpecLabel>,
    pc: nat,
)
    requires
        trace_extended(t0, t1, l1, pc),
        trace_extended(t1, t2, l2, pc + l1.len()),
    ensures
        trace_extended(t0, t2, l1 + l2, pc),
{
    assert forall|j: int| 0 <= j < (l1 + l2).len() implies ((#[trigger] t2[t0.len() + j]).label.model()
        == (l1 + l2)[j] && t2[t0.len() + j].pc == pc + j) by {
        if j < l1.len() {
            assert(t2[t0.len() + j] == t1[t0.len() + j]);
        } else {
            assert(t2[t1.len() + (j - l1.len())].label.model() == l2[j - l1.len()]);
        }
    }
}

/// Applies one arithmetic operator to two integer operands, with the checks
/// the semantics asks for: division by zero is fatal and a result outside
/// the 32-bit signed range is fatal.
fn apply_arithmetic(op: ArithmeticOperator, a: i32, b: i32) -> (r: Result<Value, EvalError>)
    ensures
        (match r {
            Ok(v) => apply_binary(
                op,
                SpecValue::Integer { value: a },
                SpecValue::Integer { value: b },
            ) == Ok::<SpecValue, EvalError>(v.model()),
            Err(err) => apply_binary(
                op,
                SpecValue::Integer { value: a },
                SpecValue::Integer { value: b },
            ) == Err::<SpecValue, EvalError>(err),
        }),
{
    match op {
        ArithmeticOperator::Add => {
            match a.checked_add(b) {
                Some(v) => Ok(Value::integer(v)),
                None => Err(EvalError::Overflow),
            }
        },
        ArithmeticOperator::Subtract => {
            match a.checked_sub(b) {
                Some(v) => Ok(Value::integer(v)),
                None => Err(EvalError::Overflow),
            }
        },
        ArithmeticOperator::Multiply => {
            match a.checked_mul(b) {
                Some(v) => Ok(Value::integer(v)),
                None => Err(EvalError::Overflow),
            }
        },
        ArithmeticOperator::Divide => {
            if b == 0 {
                Err(EvalError::DivisionByZero)
            } else {
                match a.checked_div(b) {
                    Some(v) => Ok(Value::integer(v)),
                    None => Err(EvalError::Overflow),
                }
            }
        },
    }
}

/// Decides equality of two runtime values as the `Comparison` node does:
/// total, and never an error.
fn equal_values(lhs: &Value, rhs: &Value) -> (r: bool)
    ensures
        r == values_equal(lhs.model(), rhs.model()),
{
    match (lhs, rhs) {
        (Value::Integer { value: a }, Value::Integer { value: b }) => *a == *b,
        (Value::Boolean { value: a }, Value::Boolean { value: b }) => *a == *b,
        (Value::Null, Value::Null) => true,
        _ => false,
    }
}


/// The contract every node evaluator meets: the trace is extended by
/// exactly the spec trace with consecutive counters from `pc`, and the
/// result is the spec outcome, with the returned counter advanced by the
/// number of nodes visited.
pub open spec fn eval_contract(
    node: SpecExpr,
    env: Seq<SpecBinding>,
    fuel: nat,
    pc: nat,
    old_trace: Seq<TraceEntry>,
    new_trace: Seq<TraceEntry>,
    r: Result<(Value, usize), EvalError>,
) -> bool {
    let sr = spec_eval(node, env, fuel);
    &&& trace_extended(old_trace, new_trace, sr.trace, pc)
    &&& (match r {
        Ok(p) => sr.outcome == Ok::<SpecValue, EvalError>(p.0.model()) && p.1 == pc
            + sr.trace.len(),
        Err(err) => sr.outcome == Err::<SpecValue, EvalError>(err),
    })
}

/// Evaluates a `BinaryOp` node: its own visit, the two operands left to
/// right, then the checked arithmetic.
#[verifier::rlimit(50)]
fn eval_binary_node(
    op: ArithmeticOperator,
    left: &Expression,
    right: &Expression,
    pc: usize,
    e: &Environment,
    fuel: usize,
    trace: &mut Vec<TraceEntry>,
) -> (r: Result<(Value, usize), EvalError>)
    requires
        pc + fuel <= usize::MAX,
    ensures
        eval_contract(
            (SpecExpr::BinaryOp {
                op,
                left: Box::new(left.model()),
                right: Box::new(right.model()),
            }),
            e.model(),
            fuel as nat,
            pc as nat,
            old(trace)@,
            final(trace)@,
            r,
        ),
    decreases fuel, 0int,
{
    let ghost node_m = SpecExpr::BinaryOp {
        op,
        left: Box::new(left.model()),
        right: Box::new(right.model()),
    };
    let ghost env_m = e.model();
    if fuel == 0 {
        return Err(EvalError::OutOfFuel);
    }
    trace.push(TraceEntry { pc, label: NodeLabel::BinaryOp { op } });
    let ghost t1 = trace@;
    let ghost visit = seq![crate::ast::label_of(node_m)];
    let pc1 = pc + 1;
    let f1 = fuel - 1;
    let ghost lr = spec_eval(left.model(), env_m, f1 as nat);
    let lres = evaluate(left, pc1, e, f1, trace);
    proof {
        lemma_eval_trace_len(left.model(), env_m, f1 as nat);
        lemma_trace_compose(old(trace)@, t1, trace@, visit, lr.trace, pc as nat);
    }
    match lres {
        Err(err) => Err(err),
        Ok((lv, pc2)) => {
            let ghost t2 = trace@;
            let f2 = f1 - (pc2 - pc1);
            let ghost rr = spec_eval(right.model(), env_m, f2 as nat);
            let rres = evaluate(right, pc2, e, f2, trace);
            proof {
                lemma_trace_compose(old(trace)@, t2, trace@, visit + lr.trace, rr.trace, pc as nat);
            }
            match rres {
                Err(err) => Err(err),
                Ok((rv, pc3)) => {
                    match (&lv, &rv) {
                        (Value::Integer { value: a }, Value::Integer { value: b }) => {
                            match apply_arithmetic(op, *a, *b) {
                                Ok(v) => Ok((v, pc3)),
                                Err(err) => Err(err),
                            }
                        },
                        _ => Err(EvalError::TypeMismatch),
                    }
                },
            }
        },
    }
}

/// Evaluates a `Comparison` node: its own visit, the two operands left to
/// right, then the total equality decision.
#[verifier::rlimit(50)]
fn eval_comparison_node(
    op: ComparisonOperator,
    left: &Expression,
    right: &Expression,
    pc: usize,
    e: &Environment,
    fuel: usize,
    trace: &mut Vec<TraceEntry>,
) -> (r: Result<(Value, usize), EvalError>)
    requires
        pc + fuel <= usize::MAX,
    ensures
        eval_contract(
            (SpecExpr::Comparison {
                op,
                left: Box::new(left.model()),
                right: Box::new(right.model()),
            }),
            e.model(),
            fuel as nat,
            pc as nat,
            old(trace)@,
            final(trace)@,
            r,
        ),
    decreases fuel, 0int,
{
    let ghost node_m = SpecExpr::Comparison {
        op,
        left: Box::new(left.model()),
        right: Box::new(right.model()),
    };
    let ghost env_m = e.model();
    if fuel == 0 {
        return Err(EvalError::OutOfFuel);
    }
    trace.push(TraceEntry { pc, label: NodeLabel::Comparison { op } });
    let ghost t1 = trace@;
    let ghost visit = seq![crate::ast::label_of(node_m)];
    let pc1 = pc + 1;
    let f1 = fuel - 1;
    let ghost lr = spec_eval(left.model(), env_m, f1 as nat);
    let lres = evaluate(left, pc1, e, f1, trace);
    proof {
        lemma_eval_trace_len(left.model(), env_m, f1 as nat);
        lemma_trace_compose(old(trace)@, t1, trace@, visit, lr.trace, pc as nat);
    }
    match lres {
        Err(err) => Err(err),
        Ok((lv, pc2)) => {
            let ghost t2 = trace@;
            let f2 = f1 - (pc2 - pc1);
            let ghost rr = spec_eval(right.model(), env_m, f2 as nat);
            let rres = evaluate(right, pc2, e, f2, trace);
            proof {
                lemma_trace_compose(old(trace)@, t2, trace@, visit + lr.trace, rr.trace, pc as nat);
            }
            match rres {
                Err(err) => Err(err),
                Ok((rv, pc3)) => {
                    let equal = equal_values(&lv, &rv);
                    Ok((Value::boolean(equal), pc3))
                },
            }
        },
    }
}

/// Evaluates an `If` node: its own visit, the condition, then exactly one
/// branch; the untaken branch is never visited.
#[verifier::rlimit(50)]
fn eval_if_node(
    condition: &Expression,
    then_branch: &Expression,
    else_branch: &Expression,
    pc: usize,
    e: &Environment,
    fuel: usize,
    trace: &mut Vec<TraceEntry>,
) -> (r: Result<(Value, usize), EvalError>)
    requires
        pc + fuel <= usize::MAX,
    ensures
        eval_contract(
            (SpecExpr::If {
                condition: Box::new(condition.model()),
                then_branch: Box::new(then_branch.model()),
                else_branch: Box::new(else_branch.model()),
            }),
            e.model(),
            fuel as nat,
            pc as nat,
            old(trace)@,
            final(trace)@,
            r,
        ),
    decreases fuel, 0int,
{
    let ghost node_m = SpecExpr::If {
        condition: Box::new(condition.model()),
        then_branch: Box::new(then_branch.model()),
        else_branch: Box::new(else_branch.model()),
    };
    let ghost env_m = e.model();
    if fuel == 0 {
        return Err(EvalError::OutOfFuel);
    }
    trace.push(TraceEntry { pc, label: NodeLabel::If });
    let ghost t1 = trace@;
    let ghost visit = seq![crate::ast::label_of(node_m)];
    let pc1 = pc + 1;
    let f1 = fuel - 1;
    let ghost cr = spec_eval(condition.model(), env_m, f1 as nat);
    let cres = evaluate(condition, pc1, e, f1, trace);
    proof {
        lemma_eval_trace_len(condition.model(), env_m, f1 as nat);
        lemma_trace_compose(old(trace)@, t1, trace@, visit, cr.trace, pc as nat);
    }
    match cres {
        Err(err) => Err(err),
        Ok((cv, pc2)) => {
            match cv {
                Value::Boolean { value } => {
                    let ghost t2 = trace@;
                    let f2 = f1 - (pc2 - pc1);
                    let branch: &Expression = if value {
                        then_branch
                    } else {
                        else_branch
                    };
                    let ghost br = spec_eval(branch.model(), env_m, f2 as nat);
                    let bres = evaluate(branch, pc2, e, f2, trace);
                    proof {
                        lemma_trace_compose(
                            old(trace)@,
                            t2,
                            trace@,
                            visit + cr.trace,
                            br.trace,
                            pc as nat,
                        );
                    }
                    match bres {
                        Err(err) => Err(err),
                        Ok((bv, pc3)) => Ok((bv, pc3)),
                    }
                },
                _ => Err(EvalError::TypeMismatch),
            }
        },
    }
}

/// Evaluates a `Let` node: its own visit, the bound value under the current
/// environment, then the body under the extended environment. The receiver
/// environment is left untouched.
#[verifier::rlimit(50)]
fn eval_let_node(
    name: &String,
    bound_value: &Expression,
    body: &Expression,
    pc: usize,
    e: &Environment,
    fuel: usize,
    trace: &mut Vec<TraceEntry>,
) -> (r: Result<(Value, usize), EvalError>)
    requires
        pc + fuel <= usize::MAX,
    ensures
        eval_contract(
            (SpecExpr::Let {
                name: name@,
                bound_value: Box::new(bound_value.model()),
                body: Box::new(body.model()),
            }),
            e.model(),
            fuel as nat,
            pc as nat,
            old(trace)@,
            final(trace)@,
            r,
        ),
    decreases fuel, 0int,
{
    let ghost node_m = SpecExpr::Let {
        name: name@,
        bound_value: Box::new(bound_value.model()),
        body: Box::new(body.model()),
    };
    let ghost env_m = e.model();
    if fuel == 0 {
        return Err(EvalError::OutOfFuel);
    }
    trace.push(TraceEntry { pc, label: NodeLabel::Let { name: name.clone() } });
    let ghost t1 = trace@;
    let ghost visit = seq![crate::ast::label_of(node_m)];
    let pc1 = pc + 1;
    let f1 = fuel - 1;
    let ghost vr = spec_eval(bound_value.model(), env_m, f1 as nat);
    let vres = evaluate(bound_value, pc1, e, f1, trace);
    proof {
        lemma_eval_trace_len(bound_value.model(), env_m, f1 as nat);
        lemma_trace_compose(old(trace)@, t1, trace@, visit, vr.trace, pc as nat);
    }
    match vres {
        Err(err) => Err(err),
        Ok((v, pc2)) => {
            let ghost t2 = trace@;
            let new_env = e.bind(name.clone(), v);
            let f2 = f1 - (pc2 - pc1);
            let ghost br = spec_eval(body.model(), new_env.model(), f2 as nat);
            let bres = evaluate(body, pc2, &new_env, f2, trace);
            proof {
                lemma_trace_compose(old(trace)@, t2, trace@, visit + vr.trace, br.trace, pc as nat);
            }
            match bres {
                Err(err) => Err(err),
                Ok((bv, pc3)) => Ok((bv, pc3)),
            }
        },
    }
}

/// Evaluates a `FunctionCall` node: its own visit, the called name looked
/// up in the caller's environment, every actual argument in order under
/// that same environment, then the body under the caller's environment
/// extended with the formal bindings — dynamic scoping.
#[verifier::loop_isolation(false)]
#[verifier::rlimit(80)]
fn eval_call_node(
    name: &String,
    actual_args: &Vec<Expression>,
    pc: usize,
    e: &Environment,
    fuel: usize,
    trace: &mut Vec<TraceEntry>,
) -> (r: Result<(Value, usize), EvalError>)
    requires
        pc + fuel <= usize::MAX,
    ensures
        eval_contract(
            (SpecExpr::FunctionCall { name: name@, actual_args: args_model(actual_args@) }),
            e.model(),
            fuel as nat,
            pc as nat,
            old(trace)@,
            final(trace)@,
            r,
        ),
    decreases fuel, 0int,
{
    let ghost node_m = SpecExpr::FunctionCall { name: name@, actual_args: args_model(actual_args@) };
    let ghost env_m = e.model();
    if fuel == 0 {
        return Err(EvalError::OutOfFuel);
    }
    trace.push(TraceEntry { pc, label: NodeLabel::FunctionCall { name: name.clone() } });
    let ghost t1 = trace@;
    let ghost visit = seq![crate::ast::label_of(node_m)];
    let pc1 = pc + 1;
    let f1 = fuel - 1;
    let fv = e.lookup(name.clone());
    match fv {
        Value::Function { body, formal_arg_names } => {
            let ghost args_m = args_model(actual_args@);
            let ghost formals_m = formal_arg_names.deep_view();
            proof {
                assert(args_m.skip(0) =~= args_m);
            }
            let ghost ar = spec_eval_args(args_m, env_m, f1 as nat);
            let ares = evaluate_args(actual_args, 0, pc1, e, f1, trace);
            proof {
                lemma_eval_args_trace_len(args_m, env_m, f1 as nat);
                lemma_trace_compose(old(trace)@, t1, trace@, visit, ar.trace, pc as nat);
            }
            match ares {
                Err(err) => Err(err),
                Ok((vals, pc2)) => {
                    if vals.len() < formal_arg_names.len() {
                        Err(EvalError::ArityMismatch)
                    } else {
                        let ghost values_m = values_model(vals@);
                        let mut call_env = e.clone();
                        let mut i: usize = 0;
                        while i < formal_arg_names.len()
                            invariant
                                i <= formal_arg_names.len(),
                                call_env.model() == env_m + Seq::new(
                                    i as nat,
                                    |j: int| SpecBinding { name: formals_m[j], value: values_m[j] },
                                ),
                            decreases formal_arg_names.len() - i,
                        {
                            call_env = call_env.bind(formal_arg_names[i].clone(), vals[i].clone());
                            i = i + 1;
                            proof {
                                assert(call_env.model() =~= env_m + Seq::new(
                                    i as nat,
                                    |j: int| SpecBinding { name: formals_m[j], value: values_m[j] },
                                ));
                            }
                        }
                        proof {
                            assert(call_env.model() =~= call_environment(env_m, formals_m, values_m));
                        }
                        let ghost t2 = trace@;
                        let f2 = f1 - (pc2 - pc1);
                        let ghost br = spec_eval(body.model(), call_env.model(), f2 as nat);
                        let bres = evaluate(&body, pc2, &call_env, f2, trace);
                        proof {
                            lemma_trace_compose(
                                old(trace)@,
                                t2,
                                trace@,
                                visit + ar.trace,
                                br.trace,
                                pc as nat,
                            );
                        }
                        match bres {
                            Err(err) => Err(err),
                            Ok((bv, pc3)) => Ok((bv, pc3)),
                        }
                    }
                },
            }
        },
        _ => Err(EvalError::TypeMismatch),
    }
}

/// Evaluates one expression under an environment.
///
/// `pc` is the step counter: it advances by exactly one per node visited, so
/// the counter in the result equals `pc` plus the number of trace entries
/// appended. `fuel` bounds the number of visits; when it runs out the
/// evaluation aborts with `EvalError::OutOfFuel` rather than recursing
/// further. On any fatal error no value is returned and the trace holds
/// exactly the nodes visited up to the abort.
#[verifier::rlimit(50)]
pub fn evaluate(program: &Expression, pc: usize, e: &Environment, fuel: usize, trace: &mut Vec<
    TraceEntry,
>) -> (r: Result<(Value, usize), EvalError>)
    requires
        pc + fuel <= usize::MAX,
    ensures
        eval_contract(
            program.model(),
            e.model(),
            fuel as nat,
            pc as nat,
            old(trace)@,
            final(trace)@,
            r,
        ),
    decreases fuel, 1int,
{
    let ghost prog_m = program.model();
    let ghost env_m = e.model();
    match program {
        Expression::IntegerConstant { value } => {
            if fuel == 0 {
                return Err(EvalError::OutOfFuel);
            }
            trace.push(TraceEntry { pc, label: NodeLabel::IntegerConstant { value: *value } });
            Ok((Value::integer(*value), pc + 1))
        },
        Expression::BooleanConstant { value } => {
            if fuel == 0 {
                return Err(EvalError::OutOfFuel);
            }
            trace.push(TraceEntry { pc, label: NodeLabel::BooleanConstant { value: *value } });
            Ok((Value::boolean(*value), pc + 1))
        },
        Expression::BinaryOp { op, left, right } => {
            eval_binary_node(*op, left, right, pc, e, fuel, trace)
        },
        Expression::Comparison { op, left, right } => {
            eval_comparison_node(*op, left, right, pc, e, fuel, trace)
        },
        Expression::If { condition, then_branch, else_branch } => {
            eval_if_node(condition, then_branch, else_branch, pc, e, fuel, trace)
        },
        Expression::Let { name, bound_value, body } => {
            eval_let_node(name, bound_value, body, pc, e, fuel, trace)
        },
        Expression::Variable { name } => {
            if fuel == 0 {
                return Err(EvalError::OutOfFuel);
            }
            trace.push(TraceEntry { pc, label: NodeLabel::Variable { name: name.clone() } });
            let v = e.lookup(name.clone());
            Ok((v, pc + 1))
        },
        Expression::FunctionDeclaration { body, formal_arg_names } => {
            if fuel == 0 {
                return Err(EvalError::OutOfFuel);
            }
            trace.push(TraceEntry { pc, label: NodeLabel::FunctionDeclaration });
            let v = Value::function((&**body).clone(), clone_names(formal_arg_names));
            Ok((v, pc + 1))
        },
        Expression::FunctionCall { name, actual_args } => {
            eval_call_node(name, actual_args, pc, e, fuel, trace)
        },
    }
}

/// Evaluates the actual-argument expressions `args[start..]`, in order, each
/// under the same environment `e`, threading the step counter and fuel left
/// to right. On success the values stand in argument order.
fn evaluate_args(
    args: &Vec<Expression>,
    start: usize,
    pc: usize,
    e: &Environment,
    fuel: usize,
    trace: &mut Vec<TraceEntry>,
) -> (r: Result<(Vec<Value>, usize), EvalError>)
    requires
        start <= args.len(),
        pc + fuel <= usize::MAX,
    ensures
        trace_extended(
            old(trace)@,
            final(trace)@,
            spec_eval_args(args_model(args@).skip(start as int), e.model(), fuel as nat).trace,
            pc as nat,
        ),
        (match r {
            Ok(p) => spec_eval_args(
                args_model(args@).skip(start as int),
                e.model(),
                fuel as nat,
            ).outcome == Ok::<Seq<SpecValue>, EvalError>(values_model(p.0@)) && p.1 == pc
                + spec_eval_args(
                args_model(args@).skip(start as int),
                e.model(),
                fuel as nat,
            ).trace.len(),
            Err(err) => spec_eval_args(
                args_model(args@).skip(start as int),
                e.model(),
                fuel as nat,
            ).outcome == Err::<Seq<SpecValue>, EvalError>(err),
        }),
    decreases fuel, args.len() - start + 1,
{
    let ghost env_m = e.model();
    let ghost rem = args_model(args@).skip(start as int);
    proof {
        lemma_args_model(args@);
    }
    if start == args.len() {
        let empty: Vec<Value> = Vec::new();
        proof {
            assert(rem =~= Seq::<SpecExpr>::empty());
            assert(values_model(empty@) =~= Seq::<SpecValue>::empty());
        }
        return Ok((empty, pc));
    }
    let ghost first_m = args@[start as int].model();
    proof {
        assert(rem[0] == args_model(args@)[start as int]);
    }
    let ghost fr = spec_eval(first_m, env_m, fuel as nat);
    let fres = evaluate(&args[start], pc, e, fuel, trace);
    proof {
        lemma_eval_trace_len(first_m, env_m, fuel as nat);
    }
    match fres {
        Err(err) => Err(err),
        Ok((v, pc2)) => {
            let ghost t1 = trace@;
            let f2 = fuel - (pc2 - pc);
            proof {
                assert(rem.drop_first() =~= args_model(args@).skip(start as int + 1));
            }
            let ghost rr = spec_eval_args(
                args_model(args@).skip(start as int + 1),
                env_m,
                f2 as nat,
            );
            let rres = evaluate_args(args, start + 1, pc2, e, f2, trace);
            proof {
                lemma_trace_compose(old(trace)@, t1, trace@, fr.trace, rr.trace, pc as nat);
            }
            match rres {
                Err(err) => Err(err),
                Ok((vs, pc3)) => {
                    let ghost vs_m = vs@;
                    let ghost v_m = v.model();
                    let mut out: Vec<Value> = vs;
                    out.insert(0, v);
                    proof {
                        assert(out@ =~= seq![out@[0]] + vs_m);
                        assert(values_model(out@) =~= seq![v_m] + values_model(vs_m));
                    }
                    Ok((out, pc3))
                },
            }
        },
    }
}

} // verus!
