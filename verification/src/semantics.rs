//! The mathematical semantics of the language: a recursive evaluation
//! function over expression models, environments and a fuel bound, producing
//! the visited-node trace and either a value or a fatal error.
//!
//! Fuel counts node visits: every visit consumes exactly one unit, so the
//! step counter of an evaluation advances by exactly the length of its
//! trace. A program whose evaluation would visit more nodes than the fuel
//! allows ends in `EvalError::OutOfFuel`.
use crate::ast::label_of;
use crate::ast::ArithmeticOperator;
use crate::ast::SpecExpr;
use crate::ast::SpecLabel;
use crate::environment::spec_lookup;
use crate::environment::SpecBinding;
use crate::value::SpecValue;
use vstd::prelude::*;

verus! {

/// A fatal evaluation outcome. Evaluation stops at once; no value is
/// produced and no recovery path exists.
///
/// Rather than read a meaningless payload where a value of the wrong case
/// reaches an operation — an arithmetic operand that is not an integer, a
/// condition that is not a boolean, a called name not bound to a function —
/// this evaluator stops with `TypeMismatch`. A call with fewer actual
/// arguments than formal names would skip a binding out of range and stops
/// with `ArityMismatch` instead; an arithmetic result outside the 32-bit
/// signed range stops with `Overflow`.
#[derive(Copy, Clone, Debug, PartialEq, Eq, Structural)]
pub enum EvalError {
    /// A division whose right operand evaluated to zero.
    DivisionByZero,
    /// An arithmetic result outside the 32-bit signed integer range.
    Overflow,
    /// A value of the wrong case where an integer, boolean or function was
    /// needed.
    TypeMismatch,
    /// A function call with fewer actual arguments than formal names.
    ArityMismatch,
    /// The fuel bound was exhausted before evaluation finished.
    OutOfFuel,
}

/// What one evaluation yields: the labels of the nodes visited, in pre-order
/// visit order, and the resulting value or fatal error.
pub struct SpecEvalResult {
    pub trace: Seq<SpecLabel>,
    pub outcome: Result<SpecValue, EvalError>,
}

/// What evaluating a list of argument expressions yields: the labels of the
/// nodes visited and the argument values, in order, or the first fatal
/// error.
pub struct SpecArgsResult {
    pub trace: Seq<SpecLabel>,
    pub outcome: Result<Seq<SpecValue>, EvalError>,
}

/// The fuel left after `used` visits, never less than zero.
pub open spec fn fuel_minus(fuel: nat, used: nat) -> nat {
    if used <= fuel {
        (fuel - used) as nat
    } else {
        0
    }
}

/// Whether a mathematical integer fits the 32-bit signed range.
pub open spec fn in_i32_range(x: int) -> bool {
    i32::MIN <= x <= i32::MAX
}

/// Integer division truncating toward zero, as the `/` of the implementation
/// language computes it on machine integers.
pub open spec fn trunc_div(a: int, b: int) -> int
    recommends
        b != 0,
{
    if a == 0 {
        0
    } else if a > 0 && b > 0 {
        a / b
    } else if a < 0 && b < 0 {
        (a * -1) / (b * -1)
    } else if a < 0 {
        ((a * -1) / b) * -1
    } else {
        (a / (b * -1)) * -1
    }
}

/// The unbounded mathematical result of one arithmetic operator.
pub open spec fn apply_op(op: ArithmeticOperator, a: int, b: int) -> int
    recommends
        op is Divide ==> b != 0,
{
    match op {
        ArithmeticOperator::Add => a + b,
        ArithmeticOperator::Subtract => a - b,
        ArithmeticOperator::Multiply => a * b,
        ArithmeticOperator::Divide => trunc_div(a, b),
    }
}

/// What a `BinaryOp` node produces from its operator and two operand
/// values: the operands must both be integers, division by zero is fatal,
/// and a result outside the 32-bit signed range is fatal.
pub open spec fn apply_binary(op: ArithmeticOperator, lhs: SpecValue, rhs: SpecValue) -> Result<
    SpecValue,
    EvalError,
> {
    match (lhs, rhs) {
        (SpecValue::Integer { value: a }, SpecValue::Integer { value: b }) => {
            if op is Divide && b == 0 {
                Err(EvalError::DivisionByZero)
            } else {
                let r = apply_op(op, a as int, b as int);
                if in_i32_range(r) {
                    Ok(SpecValue::Integer { value: r as i32 })
                } else {
                    Err(EvalError::Overflow)
                }
            }
        },
        _ => Err(EvalError::TypeMismatch),
    }
}

/// Equality between two runtime values, as the `Comparison` node decides
/// it: values of different cases are unequal (never an error), integers and
/// booleans compare by payload, the absent value always equals itself, and
/// two functions are never equal, even a function to itself.
pub open spec fn values_equal(lhs: SpecValue, rhs: SpecValue) -> bool {
    match (lhs, rhs) {
        (SpecValue::Integer { value: a }, SpecValue::Integer { value: b }) => a == b,
        (SpecValue::Boolean { value: a }, SpecValue::Boolean { value: b }) => a == b,
        (SpecValue::Null, SpecValue::Null) => true,
        _ => false,
    }
}

/// The environment a function body runs under: the caller's environment at
/// the call site, extended with one binding per formal name, in declaration
/// order. This is dynamic scoping: free variables of the body resolve
/// against the caller's bindings, not against the declaration site's.
pub open spec fn call_environment(
    env: Seq<SpecBinding>,
    formals: Seq<Seq<char>>,
    values: Seq<SpecValue>,
) -> Seq<SpecBinding>
    recommends
        values.len() >= formals.len(),
{
    env + Seq::new(formals.len(), |i: int| SpecBinding { name: formals[i], value: values[i] })
}

/// Evaluates one expression under an environment with a fuel bound.
///
/// Every invocation visits the node first — recording its label and
/// consuming one unit of fuel — and then recurses per variant, threading the
/// remaining fuel left to right, so the trace lists every node visited in
/// pre-order and nothing else.
pub open spec fn spec_eval(e: SpecExpr, env: Seq<SpecBinding>, fuel: nat) -> SpecEvalResult
    decreases fuel, 0nat,
{
    if fuel == 0 {
        SpecEvalResult { trace: Seq::empty(), outcome: Err(EvalError::OutOfFuel) }
    } else {
        let f1 = (fuel - 1) as nat;
        let visit = seq![label_of(e)];
        match e {
            SpecExpr::IntegerConstant { value } => SpecEvalResult {
                trace: visit,
                outcome: Ok(SpecValue::Integer { value }),
            },
            SpecExpr::BooleanConstant { value } => SpecEvalResult {
                trace: visit,
                outcome: Ok(SpecValue::Boolean { value }),
            },
            SpecExpr::BinaryOp { op, left, right } => {
                let lr = spec_eval(*left, env, f1);
                match lr.outcome {
                    Err(err) => SpecEvalResult { trace: visit + lr.trace, outcome: Err(err) },
                    Ok(lv) => {
                        let rr = spec_eval(*right, env, fuel_minus(f1, lr.trace.len()));
                        match rr.outcome {
                            Err(err) => SpecEvalResult {
                                trace: visit + lr.trace + rr.trace,
                                outcome: Err(err),
                            },
                            Ok(rv) => SpecEvalResult {
                                trace: visit + lr.trace + rr.trace,
                                outcome: apply_binary(op, lv, rv),
                            },
                        }
                    },
                }
            },
            SpecExpr::Comparison { op, left, right } => {
                let lr = spec_eval(*left, env, f1);
                match lr.outcome {
                    Err(err) => SpecEvalResult { trace: visit + lr.trace, outcome: Err(err) },
                    Ok(lv) => {
                        let rr = spec_eval(*right, env, fuel_minus(f1, lr.trace.len()));
                        match rr.outcome {
                            Err(err) => SpecEvalResult {
                                trace: visit + lr.trace + rr.trace,
                                outcome: Err(err),
                            },
                            Ok(rv) => SpecEvalResult {
                                trace: visit + lr.trace + rr.trace,
                                outcome: Ok(SpecValue::Boolean { value: values_equal(lv, rv) }),
                            },
                        }
                    },
                }
            },
            SpecExpr::If { condition, then_branch, else_branch } => {
                let cr = spec_eval(*condition, env, f1);
                match cr.outcome {
                    Err(err) => SpecEvalResult { trace: visit + cr.trace, outcome: Err(err) },
                    Ok(cv) => match cv {
                        SpecValue::Boolean { value } => {
                            let branch = if value {
                                *then_branch
                            } else {
                                *else_branch
                            };
                            let br = spec_eval(branch, env, fuel_minus(f1, cr.trace.len()));
                            SpecEvalResult { trace: visit + cr.trace + br.trace, outcome: br.outcome }
                        },
                        _ => SpecEvalResult {
                            trace: visit + cr.trace,
                            outcome: Err(EvalError::TypeMismatch),
                        },
                    },
                }
            },
            SpecExpr::Let { name, bound_value, body } => {
                let vr = spec_eval(*bound_value, env, f1);
                match vr.outcome {
                    Err(err) => SpecEvalResult { trace: visit + vr.trace, outcome: Err(err) },
                    Ok(v) => {
                        let br = spec_eval(
                            *body,
                            env.push(SpecBinding { name, value: v }),
                            fuel_minus(f1, vr.trace.len()),
                        );
                        SpecEvalResult { trace: visit + vr.trace + br.trace, outcome: br.outcome }
                    },
                }
            },
            SpecExpr::Variable { name } => SpecEvalResult {
                trace: visit,
                outcome: Ok(spec_lookup(env, name)),
            },
            SpecExpr::FunctionDeclaration { body, formal_arg_names } => SpecEvalResult {
                trace: visit,
                outcome: Ok(SpecValue::Function { body, formal_arg_names }),
            },
            SpecExpr::FunctionCall { name, actual_args } => {
                match spec_lookup(env, name) {
                    SpecValue::Function { body, formal_arg_names } => {
                        let ar = spec_eval_args(actual_args, env, f1);
                        match ar.outcome {
                            Err(err) => SpecEvalResult {
                                trace: visit + ar.trace,
                                outcome: Err(err),
                            },
                            Ok(values) => {
                                if values.len() < formal_arg_names.len() {
                                    SpecEvalResult {
                                        trace: visit + ar.trace,
                                        outcome: Err(EvalError::ArityMismatch),
                                    }
                                } else {
                                    let br = spec_eval(
                                        *body,
                                        call_environment(env, formal_arg_names, values),
                                        fuel_minus(f1, ar.trace.len()),
                                    );
                                    SpecEvalResult {
                                        trace: visit + ar.trace + br.trace,
                                        outcome: br.outcome,
                                    }
                                }
                            },
                        }
                    },
                    _ => SpecEvalResult { trace: visit, outcome: Err(EvalError::TypeMismatch) },
                }
            },
        }
    }
}

/// Evaluates a list of actual-argument expressions, in order, all under the
/// same environment — an argument expression never sees an earlier
/// argument's binding — threading the fuel left to right.
pub open spec fn spec_eval_args(args: Seq<SpecExpr>, env: Seq<SpecBinding>, fuel: nat) -> SpecArgsResult
    decreases fuel, args.len() + 1,
{
    if args.len() == 0 {
        SpecArgsResult { trace: Seq::empty(), outcome: Ok(Seq::empty()) }
    } else {
        let first = spec_eval(args[0], env, fuel);
        match first.outcome {
            Err(err) => SpecArgsResult { trace: first.trace, outcome: Err(err) },
            Ok(v) => {
                let rest = spec_eval_args(
                    args.drop_first(),
                    env,
                    fuel_minus(fuel, first.trace.len()),
                );
                match rest.outcome {
                    Err(err) => SpecArgsResult { trace: first.trace + rest.trace, outcome: Err(err) },
                    Ok(values) => SpecArgsResult {
                        trace: first.trace + rest.trace,
                        outcome: Ok(seq![v] + values),
                    },
                }
            },
        }
    }
}

/// An evaluation never visits more nodes than its fuel allows: the trace is
/// at most `fuel` long. The step counter therefore advances by at most
/// `fuel`.
pub proof fn lemma_eval_trace_len(e: SpecExpr, env: Seq<SpecBinding>, fuel: nat)
    ensures
        spec_eval(e, env, fuel).trace.len() <= fuel,
    decreases fuel, 0nat,
{
    if fuel == 0 {
    } else {
        let f1 = (fuel - 1) as nat;
        match e {
            SpecExpr::BinaryOp { op, left, right } => {
                lemma_eval_trace_len(*left, env, f1);
                let lr = spec_eval(*left, env, f1);
                if lr.outcome is Ok {
                    lemma_eval_trace_len(*right, env, fuel_minus(f1, lr.trace.len()));
                }
            },
            SpecExpr::Comparison { op, left, right } => {
                lemma_eval_trace_len(*left, env, f1);
                let lr = spec_eval(*left, env, f1);
                if lr.outcome is Ok {
                    lemma_eval_trace_len(*right, env, fuel_minus(f1, lr.trace.len()));
                }
            },
            SpecExpr::If { condition, then_branch, else_branch } => {
                lemma_eval_trace_len(*condition, env, f1);
                let cr = spec_eval(*condition, env, f1);
                match cr.outcome {
                    Ok(SpecValue::Boolean { value }) => {
                        let branch = if value {
                            *then_branch
                        } else {
                            *else_branch
                        };
                        lemma_eval_trace_len(branch, env, fuel_minus(f1, cr.trace.len()));
                    },
                    _ => {},
                }
            },
            SpecExpr::Let { name, bound_value, body } => {
                lemma_eval_trace_len(*bound_value, env, f1);
                let vr = spec_eval(*bound_value, env, f1);
                match vr.outcome {
                    Ok(v) => {
                        lemma_eval_trace_len(
                            *body,
                            env.push(SpecBinding { name, value: v }),
                            fuel_minus(f1, vr.trace.len()),
                        );
                    },
                    _ => {},
                }
            },
            SpecExpr::FunctionCall { name, actual_args } => {
                match spec_lookup(env, name) {
                    SpecValue::Function { body, formal_arg_names } => {
                        lemma_eval_args_trace_len(actual_args, env, f1);
                        let ar = spec_eval_args(actual_args, env, f1);
                        match ar.outcome {
                            Ok(values) => {
                                if values.len() >= formal_arg_names.len() {
                                    lemma_eval_trace_len(
                                        *body,
                                        call_environment(env, formal_arg_names, values),
                                        fuel_minus(f1, ar.trace.len()),
                                    );
                                }
                            },
                            _ => {},
                        }
                    },
                    _ => {},
                }
            },
            _ => {},
        }
    }
}

/// Evaluating an argument list never visits more nodes than its fuel
/// allows, and on success yields exactly one value per argument.
pub proof fn lemma_eval_args_trace_len(args: Seq<SpecExpr>, env: Seq<SpecBinding>, fuel: nat)
    ensures
        spec_eval_args(args, env, fuel).trace.len() <= fuel,
        spec_eval_args(args, env, fuel).outcome matches Ok(values) ==> values.len() == args.len(),
    decreases fuel, args.len() + 1,
{
    if args.len() == 0 {
    } else {
        lemma_eval_trace_len(args[0], env, fuel);
        let first = spec_eval(args[0], env, fuel);
        if first.outcome is Ok {
            lemma_eval_args_trace_len(args.drop_first(), env, fuel_minus(fuel, first.trace.len()));
        }
    }
}

} // verus!
