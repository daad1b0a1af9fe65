//! The runtime result type produced by evaluation, together with its
//! mathematical model (`SpecValue`).
use crate::ast::clone_names;
use crate::ast::lemma_args_model;
use crate::ast::Expression;
use crate::ast::SpecExpr;
use vstd::prelude::*;

verus! {

/// A runtime value: exactly one case is active. A `Function` value owns an
/// independent copy of its body, decoupled from the declaration site.
#[allow(inconsistent_fields)]
#[derive(Debug)]
pub enum Value {
    Integer { value: i32 },
    Boolean { value: bool },
    Function { body: Box<Expression>, formal_arg_names: Vec<String> },
    Null,
}

/// The mathematical model of a `Value`.
#[allow(inconsistent_fields)]
pub enum SpecValue {
    Integer { value: i32 },
    Boolean { value: bool },
    Function { body: Box<SpecExpr>, formal_arg_names: Seq<Seq<char>> },
    Null,
}

impl Value {
    /// The mathematical model of this value.
    pub open spec fn model(&self) -> SpecValue {
        match self {
            Value::Integer { value } => SpecValue::Integer { value: *value },
            Value::Boolean { value } => SpecValue::Boolean { value: *value },
            Value::Function { body, formal_arg_names } => SpecValue::Function {
                body: Box::new(body.model()),
                formal_arg_names: formal_arg_names.deep_view(),
            },
            Value::Null => SpecValue::Null,
        }
    }

    /// Wraps an integer.
    pub fn integer(value: i32) -> (v: Value)
        ensures
            v.model() == (SpecValue::Integer { value }),
    {
        Value::Integer { value }
    }

    /// Wraps a boolean.
    pub fn boolean(value: bool) -> (v: Value)
        ensures
            v.model() == (SpecValue::Boolean { value }),
    {
        Value::Boolean { value }
    }

    /// The absent/undefined value.
    pub fn null() -> (v: Value)
        ensures
            v.model() == SpecValue::Null,
    {
        Value::Null
    }

    /// Wraps a function body and its formal argument names.
    pub fn function(body: Expression, argNames: Vec<String>) -> (v: Value)
        ensures
            v.model() == (SpecValue::Function {
                body: Box::new(body.model()),
                formal_arg_names: argNames.deep_view(),
            }),
    {
        Value::Function { body: Box::new(body), formal_arg_names: argNames }
    }

    /// Whether this is the absent/undefined value.
    pub fn isNull(&self) -> (r: bool)
        ensures
            r == (self.model() is Null),
    {
        match self {
            Value::Null => true,
            _ => false,
        }
    }
}

impl Clone for Value {
    /// Duplicates a value deeply; a function value's body is copied in full.
    fn clone(&self) -> (res: Self)
        ensures
            res.model() == self.model(),
    {
        match self {
            Value::Integer { value } => Value::Integer { value: *value },
            Value::Boolean { value } => Value::Boolean { value: *value },
            Value::Function { body, formal_arg_names } => Value::Function {
                body: Box::new((&**body).clone()),
                formal_arg_names: clone_names(formal_arg_names),
            },
            Value::Null => Value::Null,
        }
    }
}

/// What `getValue` reads off a node without evaluating it.
pub open spec fn spec_get_value(e: SpecExpr) -> SpecValue {
    match e {
        SpecExpr::IntegerConstant { value } => SpecValue::Integer { value },
        SpecExpr::BooleanConstant { value } => SpecValue::Boolean { value },
        SpecExpr::FunctionCall { name, actual_args } => SpecValue::Function {
            body: Box::new(actual_args[0]),
            formal_arg_names: Seq::empty(),
        },
        _ => SpecValue::Null,
    }
}

impl Expression {
    /// The value embedded in this node, read without evaluation: the payload
    /// of a constant leaf, a function made of a call node's first actual
    /// argument and an empty formal-name list, and the absent value for
    /// every other variant.
    pub fn getValue(&self) -> (v: Value)
        requires
            self matches Expression::FunctionCall { actual_args, .. } ==> actual_args@.len() >= 1,
        ensures
            v.model() == spec_get_value(self.model()),
    {
        match self {
            Expression::IntegerConstant { value } => Value::integer(*value),
            Expression::BooleanConstant { value } => Value::boolean(*value),
            Expression::FunctionCall { name, actual_args } => {
                let empty_names: Vec<String> = Vec::new();
                proof {
                    lemma_args_model(actual_args@);
                    assert(empty_names.deep_view() =~= Seq::<Seq<char>>::empty());
                }
                Value::function(actual_args[0].clone(), empty_names)
            },
            _ => Value::null(),
        }
    }
}

} // verus!
