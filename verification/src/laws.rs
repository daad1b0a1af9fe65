//! The laws of the evaluator, stated over the mathematical semantics and
//! proved once and for all. Together with the contract of `eval::evaluate`
//! — whose result and trace are exactly those of `semantics::spec_eval` —
//! each law carries over to the executable evaluator.
use crate::ast::ArithmeticOperator;
use crate::ast::SpecExpr;
use crate::ast::SpecLabel;
use crate::environment::spec_lookup;
use crate::environment::SpecBinding;
use crate::semantics::apply_op;
use crate::semantics::call_environment;
use crate::semantics::fuel_minus;
use crate::semantics::in_i32_range;
use crate::semantics::spec_eval;
use crate::semantics::spec_eval_args;
use crate::semantics::values_equal;
use crate::semantics::EvalError;
use crate::value::SpecValue;
use vstd::prelude::*;

verus! {

/// An arithmetic node over two integer constants, under any environment,
/// returns exactly the operator applied to the two payloads whenever the
/// divisor is not zero and the mathematical result fits the 32-bit signed
/// range, and the step counter advances by exactly 3: the node itself and
/// its two constant leaves.
pub proof fn lemma_binary_op_on_constants(
    op: ArithmeticOperator,
    a: i32,
    b: i32,
    env: Seq<SpecBinding>,
    fuel: nat,
)
    requires
        b != 0,
        in_i32_range(apply_op(op, a as int, b as int)),
        fuel >= 3,
    ensures
        spec_eval(
            (SpecExpr::BinaryOp {
                op,
                left: Box::new(SpecExpr::IntegerConstant { value: a }),
                right: Box::new(SpecExpr::IntegerConstant { value: b }),
            }),
            env,
            fuel,
        ).outcome == Ok::<SpecValue, EvalError>(
            SpecValue::Integer { value: apply_op(op, a as int, b as int) as i32 },
        ),
        spec_eval(
            (SpecExpr::BinaryOp {
                op,
                left: Box::new(SpecExpr::IntegerConstant { value: a }),
                right: Box::new(SpecExpr::IntegerConstant { value: b }),
            }),
            env,
            fuel,
        ).trace.len() == 3,
{
    let node = SpecExpr::BinaryOp {
        op,
        left: Box::new(SpecExpr::IntegerConstant { value: a }),
        right: Box::new(SpecExpr::IntegerConstant { value: b }),
    };
    let f1 = (fuel - 1) as nat;
    let lr = spec_eval(SpecExpr::IntegerConstant { value: a }, env, f1);
    assert(lr.trace.len() == 1);
    let rr = spec_eval(SpecExpr::IntegerConstant { value: b }, env, fuel_minus(f1, 1));
    assert(rr.trace.len() == 1);
    assert(spec_eval(node, env, fuel).trace.len() == 3);
}

/// Division by zero is fatal: a division node whose right operand is the
/// zero constant aborts the whole evaluation with `DivisionByZero`, under
/// any environment and for any left payload; no value is produced.
pub proof fn lemma_division_by_zero_aborts(a: i32, env: Seq<SpecBinding>, fuel: nat)
    requires
        fuel >= 3,
    ensures
        spec_eval(
            (SpecExpr::BinaryOp {
                op: ArithmeticOperator::Divide,
                left: Box::new(SpecExpr::IntegerConstant { value: a }),
                right: Box::new(SpecExpr::IntegerConstant { value: 0 }),
            }),
            env,
            fuel,
        ).outcome == Err::<SpecValue, EvalError>(EvalError::DivisionByZero),
{
    let f1 = (fuel - 1) as nat;
    let lr = spec_eval(SpecExpr::IntegerConstant { value: a }, env, f1);
    assert(lr.trace.len() == 1);
    let rr = spec_eval(SpecExpr::IntegerConstant { value: 0 }, env, fuel_minus(f1, 1));
    assert(rr.outcome == Ok::<SpecValue, EvalError>(SpecValue::Integer { value: 0 }));
}

/// Value equality as the comparison node decides it: two integers compare
/// by payload, the absent value always equals itself, an integer never
/// equals a boolean, and a function value never equals any value — itself
/// included.
pub proof fn lemma_value_equality(x: i32, y: i32, b: bool, f: SpecValue, other: SpecValue)
    ensures
        values_equal(
            (SpecValue::Integer { value: x }),
            (SpecValue::Integer { value: y }),
        ) == (x == y),
        values_equal(SpecValue::Null, SpecValue::Null),
        !values_equal((SpecValue::Integer { value: x }), (SpecValue::Boolean { value: b })),
        f is Function ==> !values_equal(f, other),
{
}

/// A comparison node over two integer constants returns exactly the
/// payload equality as a boolean, and the step counter advances by exactly
/// 3.
pub proof fn lemma_comparison_of_constants(x: i32, y: i32, env: Seq<SpecBinding>, fuel: nat)
    requires
        fuel >= 3,
    ensures
        spec_eval(
            (SpecExpr::Comparison {
                op: crate::ast::ComparisonOperator::Equals,
                left: Box::new(SpecExpr::IntegerConstant { value: x }),
                right: Box::new(SpecExpr::IntegerConstant { value: y }),
            }),
            env,
            fuel,
        ).outcome == Ok::<SpecValue, EvalError>(SpecValue::Boolean { value: x == y }),
        spec_eval(
            (SpecExpr::Comparison {
                op: crate::ast::ComparisonOperator::Equals,
                left: Box::new(SpecExpr::IntegerConstant { value: x }),
                right: Box::new(SpecExpr::IntegerConstant { value: y }),
            }),
            env,
            fuel,
        ).trace.len() == 3,
{
    let f1 = (fuel - 1) as nat;
    let lr = spec_eval(SpecExpr::IntegerConstant { value: x }, env, f1);
    assert(lr.trace.len() == 1);
    let rr = spec_eval(SpecExpr::IntegerConstant { value: y }, env, fuel_minus(f1, 1));
    assert(rr.trace.len() == 1);
}

/// A conditional on the true constant visits its own node, the condition,
/// and the then-branch subtree only: the trace is exactly those labels, so
/// the else-branch subtree is never visited, and the result is the
/// then-branch's result.
pub proof fn lemma_if_true_skips_else(t: SpecExpr, e: SpecExpr, env: Seq<SpecBinding>, fuel: nat)
    requires
        fuel >= 2,
    ensures
        spec_eval(
            (SpecExpr::If {
                condition: Box::new(SpecExpr::BooleanConstant { value: true }),
                then_branch: Box::new(t),
                else_branch: Box::new(e),
            }),
            env,
            fuel,
        ).trace == seq![SpecLabel::If, (SpecLabel::BooleanConstant { value: true })] + spec_eval(
            t,
            env,
            (fuel - 2) as nat,
        ).trace,
        spec_eval(
            (SpecExpr::If {
                condition: Box::new(SpecExpr::BooleanConstant { value: true }),
                then_branch: Box::new(t),
                else_branch: Box::new(e),
            }),
            env,
            fuel,
        ).outcome == spec_eval(t, env, (fuel - 2) as nat).outcome,
{
    let node = SpecExpr::If {
        condition: Box::new(SpecExpr::BooleanConstant { value: true }),
        then_branch: Box::new(t),
        else_branch: Box::new(e),
    };
    let f1 = (fuel - 1) as nat;
    let cr = spec_eval(SpecExpr::BooleanConstant { value: true }, env, f1);
    assert(cr.trace.len() == 1);
    assert(fuel_minus(f1, 1) == (fuel - 2) as nat);
    let br = spec_eval(t, env, (fuel - 2) as nat);
    assert(spec_eval(node, env, fuel).trace =~= seq![
        SpecLabel::If,
        (SpecLabel::BooleanConstant { value: true }),
    ] + br.trace);
}

/// The mirror of `lemma_if_true_skips_else`: a conditional on the false
/// constant visits its own node, the condition, and the else-branch
/// subtree only, and returns the else-branch's result.
pub proof fn lemma_if_false_skips_then(t: SpecExpr, e: SpecExpr, env: Seq<SpecBinding>, fuel: nat)
    requires
        fuel >= 2,
    ensures
        spec_eval(
            (SpecExpr::If {
                condition: Box::new(SpecExpr::BooleanConstant { value: false }),
                then_branch: Box::new(t),
                else_branch: Box::new(e),
            }),
            env,
            fuel,
        ).trace == seq![SpecLabel::If, (SpecLabel::BooleanConstant { value: false })] + spec_eval(
            e,
            env,
            (fuel - 2) as nat,
        ).trace,
        spec_eval(
            (SpecExpr::If {
                condition: Box::new(SpecExpr::BooleanConstant { value: false }),
                then_branch: Box::new(t),
                else_branch: Box::new(e),
            }),
            env,
            fuel,
        ).outcome == spec_eval(e, env, (fuel - 2) as nat).outcome,
{
    let node = SpecExpr::If {
        condition: Box::new(SpecExpr::BooleanConstant { value: false }),
        then_branch: Box::new(t),
        else_branch: Box::new(e),
    };
    let f1 = (fuel - 1) as nat;
    let cr = spec_eval(SpecExpr::BooleanConstant { value: false }, env, f1);
    assert(cr.trace.len() == 1);
    assert(fuel_minus(f1, 1) == (fuel - 2) as nat);
    let br = spec_eval(e, env, (fuel - 2) as nat);
    assert(spec_eval(node, env, fuel).trace =~= seq![
        SpecLabel::If,
        (SpecLabel::BooleanConstant { value: false }),
    ] + br.trace);
}

/// Appending a binding shadows only its own name: under the extended
/// environment the bound name resolves to the new value, and every other
/// name resolves exactly as it did before. The original environment itself
/// is a value and is never changed by extension, so sibling evaluations
/// holding it are unaffected — shadow, then restore.
pub proof fn lemma_bind_shadows(
    env: Seq<SpecBinding>,
    name: Seq<char>,
    v: SpecValue,
    other: Seq<char>,
)
    ensures
        spec_lookup(env.push(SpecBinding { name, value: v }), name) == v,
        other != name ==> spec_lookup(env.push(SpecBinding { name, value: v }), other)
            == spec_lookup(env, other),
{
    let extended = env.push(SpecBinding { name, value: v });
    assert(extended.last() == SpecBinding { name, value: v });
    assert(extended.drop_last() =~= env);
}

/// A let node evaluates its body under the current environment extended
/// with the new binding — under which the bound name resolves to the bound
/// value and all other names resolve as before — and the let's result is
/// the body's result.
pub proof fn lemma_let_binds_body(
    name: Seq<char>,
    value_expr: SpecExpr,
    body: SpecExpr,
    env: Seq<SpecBinding>,
    fuel: nat,
)
    requires
        fuel >= 1,
    ensures
        ({
            let vr = spec_eval(value_expr, env, (fuel - 1) as nat);
            vr.outcome matches Ok(v) ==> spec_eval(
                (SpecExpr::Let {
                    name,
                    bound_value: Box::new(value_expr),
                    body: Box::new(body),
                }),
                env,
                fuel,
            ).outcome == spec_eval(
                body,
                env.push(SpecBinding { name, value: v }),
                fuel_minus((fuel - 1) as nat, vr.trace.len()),
            ).outcome
        }),
{
}

/// Comparison is total on values: whenever both operand evaluations
/// succeed, the comparison succeeds with the equality of the two values as
/// a boolean — cross-case comparison in particular is false, never an
/// error.
pub proof fn lemma_comparison_never_fails(
    left: SpecExpr,
    right: SpecExpr,
    env: Seq<SpecBinding>,
    fuel: nat,
)
    requires
        fuel >= 1,
    ensures
        ({
            let f1 = (fuel - 1) as nat;
            let lr = spec_eval(left, env, f1);
            lr.outcome matches Ok(lv) ==> {
                let rr = spec_eval(right, env, fuel_minus(f1, lr.trace.len()));
                rr.outcome matches Ok(rv) ==> spec_eval(
                    (SpecExpr::Comparison {
                        op: crate::ast::ComparisonOperator::Equals,
                        left: Box::new(left),
                        right: Box::new(right),
                    }),
                    env,
                    fuel,
                ).outcome == Ok::<SpecValue, EvalError>(
                    SpecValue::Boolean { value: values_equal(lv, rv) },
                )
            }
        }),
{
}

/// Dynamic scoping: when a called name is bound to a function and the
/// actual arguments all evaluate, the body runs under the *caller's*
/// environment at the call site extended with one binding per formal name —
/// not under the environment of the declaration site — and the call's
/// result is the body's result. A free variable of the body therefore
/// resolves against whatever the caller has bound at the moment of the
/// call.
pub proof fn lemma_call_uses_dynamic_scope(
    name: Seq<char>,
    actual_args: Seq<SpecExpr>,
    env: Seq<SpecBinding>,
    fuel: nat,
)
    requires
        fuel >= 1,
    ensures
        ({
            let f1 = (fuel - 1) as nat;
            let ar = spec_eval_args(actual_args, env, f1);
            spec_lookup(env, name) matches SpecValue::Function { body, formal_arg_names }
                ==> (ar.outcome matches Ok(values) ==> (values.len() >= formal_arg_names.len()
                ==> spec_eval((SpecExpr::FunctionCall { name, actual_args }), env, fuel).outcome
                == spec_eval(
                *body,
                call_environment(env, formal_arg_names, values),
                fuel_minus(f1, ar.trace.len()),
            ).outcome))
        }),
{
}

/// Lookup is total: under an environment that binds a name nowhere — the
/// empty environment in particular — that name resolves to the absent
/// value, and reading it as a variable succeeds with that value rather
/// than failing.
pub proof fn lemma_unbound_variable_is_null(env: Seq<SpecBinding>, name: Seq<char>, fuel: nat)
    requires
        forall|i: int| 0 <= i < env.len() ==> (#[trigger] env[i].name) != name,
        fuel >= 1,
    ensures
        spec_lookup(env, name) == SpecValue::Null,
        spec_eval((SpecExpr::Variable { name }), env, fuel).outcome == Ok::<SpecValue, EvalError>(
            SpecValue::Null,
        ),
        spec_eval((SpecExpr::Variable { name }), env, fuel).trace.len() == 1,
    decreases env.len(),
{
    if env.len() > 0 {
        assert(env.last().name != name);
        assert(forall|i: int| 0 <= i < env.drop_last().len() ==> (#[trigger] env.drop_last()[i].name)
            != name);
        lemma_unbound_variable_is_null(env.drop_last(), name, fuel);
    }
}

} // verus!
