//! The abstract syntax tree of the expression language, together with its
//! mathematical model (`SpecExpr`) and the one-line node labels used for
//! tracing.
use vstd::prelude::*;

verus! {

/// The operator of a `BinaryOp` node.
#[derive(Copy, Clone, Debug, PartialEq, Eq, Structural)]
pub enum ArithmeticOperator {
    Add,
    Subtract,
    Multiply,
    Divide,
}

/// The operator of a `Comparison` node.
#[derive(Copy, Clone, Debug, PartialEq, Eq, Structural)]
pub enum ComparisonOperator {
    Equals,
}

/// A node of the abstract syntax tree. A node owns its children outright:
/// trees are tree-shaped, with no sharing and no cycles, and are immutable
/// once built.
#[allow(inconsistent_fields)]
#[derive(Debug)]
pub enum Expression {
    IntegerConstant { value: i32 },
    BooleanConstant { value: bool },
    BinaryOp { op: ArithmeticOperator, left: Box<Expression>, right: Box<Expression> },
    Comparison { op: ComparisonOperator, left: Box<Expression>, right: Box<Expression> },
    If { condition: Box<Expression>, then_branch: Box<Expression>, else_branch: Box<Expression> },
    Let { name: String, bound_value: Box<Expression>, body: Box<Expression> },
    Variable { name: String },
    FunctionDeclaration { body: Box<Expression>, formal_arg_names: Vec<String> },
    FunctionCall { name: String, actual_args: Vec<Expression> },
}

/// The mathematical model of an `Expression`: the same tree with strings as
/// character sequences and sequences in place of vectors.
#[allow(inconsistent_fields)]
pub enum SpecExpr {
    IntegerConstant { value: i32 },
    BooleanConstant { value: bool },
    BinaryOp { op: ArithmeticOperator, left: Box<SpecExpr>, right: Box<SpecExpr> },
    Comparison { op: ComparisonOperator, left: Box<SpecExpr>, right: Box<SpecExpr> },
    If { condition: Box<SpecExpr>, then_branch: Box<SpecExpr>, else_branch: Box<SpecExpr> },
    Let { name: Seq<char>, bound_value: Box<SpecExpr>, body: Box<SpecExpr> },
    Variable { name: Seq<char> },
    FunctionDeclaration { body: Box<SpecExpr>, formal_arg_names: Seq<Seq<char>> },
    FunctionCall { name: Seq<char>, actual_args: Seq<SpecExpr> },
}

/// The mathematical model of a sequence of trees, element by element.
pub open spec fn args_model(s: Seq<Expression>) -> Seq<SpecExpr>
    decreases s,
{
    if s.len() == 0 {
        Seq::empty()
    } else {
        seq![s[0].model()] + args_model(s.drop_first())
    }
}

impl Expression {
    /// The mathematical model of this tree.
    pub open spec fn model(&self) -> SpecExpr
        decreases self,
        via Self::model_decreases
    {
        match self {
            Expression::IntegerConstant { value } => SpecExpr::IntegerConstant { value: *value },
            Expression::BooleanConstant { value } => SpecExpr::BooleanConstant { value: *value },
            Expression::BinaryOp { op, left, right } => SpecExpr::BinaryOp {
                op: *op,
                left: Box::new(left.model()),
                right: Box::new(right.model()),
            },
            Expression::Comparison { op, left, right } => SpecExpr::Comparison {
                op: *op,
                left: Box::new(left.model()),
                right: Box::new(right.model()),
            },
            Expression::If { condition, then_branch, else_branch } => SpecExpr::If {
                condition: Box::new(condition.model()),
                then_branch: Box::new(then_branch.model()),
                else_branch: Box::new(else_branch.model()),
            },
            Expression::Let { name, bound_value, body } => SpecExpr::Let {
                name: name@,
                bound_value: Box::new(bound_value.model()),
                body: Box::new(body.model()),
            },
            Expression::Variable { name } => SpecExpr::Variable { name: name@ },
            Expression::FunctionDeclaration { body, formal_arg_names } => SpecExpr::FunctionDeclaration {
                body: Box::new(body.model()),
                formal_arg_names: formal_arg_names.deep_view(),
            },
            Expression::FunctionCall { name, actual_args } => SpecExpr::FunctionCall {
                name: name@,
                actual_args: args_model(actual_args@),
            },
        }
    }

    #[via_fn]
    proof fn model_decreases(&self) {
        match self {
            Expression::FunctionCall { name, actual_args } => {
                assert(decreases_to!(self => actual_args));
                assert(decreases_to!(actual_args => actual_args@));
                assert(decreases_to!(self => actual_args@));
            },
            _ => {},
        }
    }

    /// Builds an integer-constant leaf.
    pub fn integerConstant(value: i32) -> (e: Expression)
        ensures
            e.model() == (SpecExpr::IntegerConstant { value }),
    {
        Expression::IntegerConstant { value }
    }

    /// Builds a boolean-constant leaf.
    pub fn booleanConstant(value: bool) -> (e: Expression)
        ensures
            e.model() == (SpecExpr::BooleanConstant { value }),
    {
        Expression::BooleanConstant { value }
    }

    /// Builds an arithmetic node over two operand subtrees.
    pub fn binaryOperation(operator: ArithmeticOperator, left: Expression, right: Expression) -> (e:
        Expression)
        ensures
            e.model() == (SpecExpr::BinaryOp {
                op: operator,
                left: Box::new(left.model()),
                right: Box::new(right.model()),
            }),
    {
        Expression::BinaryOp { op: operator, left: Box::new(left), right: Box::new(right) }
    }

    /// Builds an equality-comparison node over two operand subtrees.
    pub fn comparison(comparison: ComparisonOperator, left: Expression, right: Expression) -> (e:
        Expression)
        ensures
            e.model() == (SpecExpr::Comparison {
                op: comparison,
                left: Box::new(left.model()),
                right: Box::new(right.model()),
            }),
    {
        Expression::Comparison { op: comparison, left: Box::new(left), right: Box::new(right) }
    }

    /// Builds a conditional node; only one of the two branches is later
    /// evaluated.
    pub fn ifBranch(condition: Expression, thenSide: Expression, elseSide: Expression) -> (e:
        Expression)
        ensures
            e.model() == (SpecExpr::If {
                condition: Box::new(condition.model()),
                then_branch: Box::new(thenSide.model()),
                else_branch: Box::new(elseSide.model()),
            }),
    {
        Expression::If {
            condition: Box::new(condition),
            then_branch: Box::new(thenSide),
            else_branch: Box::new(elseSide),
        }
    }

    /// Builds a let-binding node: `val` is evaluated first, then `body` runs
    /// with `varName` bound to the result.
    pub fn assignVariable(varName: String, val: Expression, body: Expression) -> (e: Expression)
        ensures
            e.model() == (SpecExpr::Let {
                name: varName@,
                bound_value: Box::new(val.model()),
                body: Box::new(body.model()),
            }),
    {
        Expression::Let { name: varName, bound_value: Box::new(val), body: Box::new(body) }
    }

    /// Builds a variable-read leaf.
    pub fn readVariable(varName: String) -> (e: Expression)
        ensures
            e.model() == (SpecExpr::Variable { name: varName@ }),
    {
        Expression::Variable { name: varName }
    }

    /// Builds a function-declaration node capturing a body and its formal
    /// argument names; the names must be unique within one declaration.
    pub fn functionDeclaration(func: Expression, formalArgNames: Vec<String>) -> (e: Expression)
        requires
            forall|i: int, j: int|
                0 <= i < j < formalArgNames@.len() ==> formalArgNames@[i]@ != formalArgNames@[j]@,
        ensures
            e.model() == (SpecExpr::FunctionDeclaration {
                body: Box::new(func.model()),
                formal_arg_names: formalArgNames.deep_view(),
            }),
    {
        Expression::FunctionDeclaration { body: Box::new(func), formal_arg_names: formalArgNames }
    }

    /// Builds a function-call node with its actual-argument subtrees.
    pub fn functionCall(name: String, actualArgs: Vec<Expression>) -> (e: Expression)
        ensures
            e.model() == (SpecExpr::FunctionCall {
                name: name@,
                actual_args: args_model(actualArgs@),
            }),
    {
        Expression::FunctionCall { name, actual_args: actualArgs }
    }

    /// Renders the one-line label of this node alone (its variant, and the
    /// operator or name where the variant carries one), used for tracing.
    pub fn describe(&self) -> (l: NodeLabel)
        ensures
            l.model() == label_of(self.model()),
    {
        match self {
            Expression::IntegerConstant { value } => NodeLabel::IntegerConstant { value: *value },
            Expression::BooleanConstant { value } => NodeLabel::BooleanConstant { value: *value },
            Expression::BinaryOp { op, .. } => NodeLabel::BinaryOp { op: *op },
            Expression::Comparison { op, .. } => NodeLabel::Comparison { op: *op },
            Expression::If { .. } => NodeLabel::If,
            Expression::Let { name, .. } => NodeLabel::Let { name: name.clone() },
            Expression::Variable { name } => NodeLabel::Variable { name: name.clone() },
            Expression::FunctionDeclaration { .. } => NodeLabel::FunctionDeclaration,
            Expression::FunctionCall { name, .. } => NodeLabel::FunctionCall { name: name.clone() },
        }
    }
}

/// The one-line rendering of a single node, as recorded in the evaluation
/// trace: the variant, and the operator or name where the variant carries
/// one.
#[allow(inconsistent_fields)]
#[derive(Debug, PartialEq, Eq)]
pub enum NodeLabel {
    IntegerConstant { value: i32 },
    BooleanConstant { value: bool },
    BinaryOp { op: ArithmeticOperator },
    Comparison { op: ComparisonOperator },
    If,
    Let { name: String },
    Variable { name: String },
    FunctionDeclaration,
    FunctionCall { name: String },
}

/// The mathematical model of a `NodeLabel`.
#[allow(inconsistent_fields)]
pub enum SpecLabel {
    IntegerConstant { value: i32 },
    BooleanConstant { value: bool },
    BinaryOp { op: ArithmeticOperator },
    Comparison { op: ComparisonOperator },
    If,
    Let { name: Seq<char> },
    Variable { name: Seq<char> },
    FunctionDeclaration,
    FunctionCall { name: Seq<char> },
}

impl NodeLabel {
    /// The mathematical model of this label.
    pub open spec fn model(&self) -> SpecLabel {
        match self {
            NodeLabel::IntegerConstant { value } => SpecLabel::IntegerConstant { value: *value },
            NodeLabel::BooleanConstant { value } => SpecLabel::BooleanConstant { value: *value },
            NodeLabel::BinaryOp { op } => SpecLabel::BinaryOp { op: *op },
            NodeLabel::Comparison { op } => SpecLabel::Comparison { op: *op },
            NodeLabel::If => SpecLabel::If,
            NodeLabel::Let { name } => SpecLabel::Let { name: name@ },
            NodeLabel::Variable { name } => SpecLabel::Variable { name: name@ },
            NodeLabel::FunctionDeclaration => SpecLabel::FunctionDeclaration,
            NodeLabel::FunctionCall { name } => SpecLabel::FunctionCall { name: name@ },
        }
    }
}

/// The label of the root node of an expression.
pub open spec fn label_of(e: SpecExpr) -> SpecLabel {
    match e {
        SpecExpr::IntegerConstant { value } => SpecLabel::IntegerConstant { value },
        SpecExpr::BooleanConstant { value } => SpecLabel::BooleanConstant { value },
        SpecExpr::BinaryOp { op, .. } => SpecLabel::BinaryOp { op },
        SpecExpr::Comparison { op, .. } => SpecLabel::Comparison { op },
        SpecExpr::If { .. } => SpecLabel::If,
        SpecExpr::Let { name, .. } => SpecLabel::Let { name },
        SpecExpr::Variable { name } => SpecLabel::Variable { name },
        SpecExpr::FunctionDeclaration { .. } => SpecLabel::FunctionDeclaration,
        SpecExpr::FunctionCall { name, .. } => SpecLabel::FunctionCall { name },
    }
}

/// The length of `args_model` and its entries, element by element.
pub proof fn lemma_args_model(s: Seq<Expression>)
    ensures
        args_model(s).len() == s.len(),
        forall|i: int| 0 <= i < s.len() ==> args_model(s)[i] == s[i].model(),
    decreases s,
{
    if s.len() != 0 {
        lemma_args_model(s.drop_first());
    }
}

/// Copies a vector of names, preserving its model.
pub(crate) fn clone_names(names: &Vec<String>) -> (r: Vec<String>)
    ensures
        r.deep_view() == names.deep_view(),
{
    let mut r: Vec<String> = Vec::new();
    let mut i: usize = 0;
    while i < names.len()
        invariant
            i <= names.len(),
            r@.len() == i as int,
            forall|j: int| 0 <= j < i ==> r@[j]@ == names@[j]@,
        decreases names.len() - i,
    {
        r.push(names[i].clone());
        i = i + 1;
    }
    proof {
        assert(r.deep_view() =~= names.deep_view());
    }
    r
}

impl Clone for Expression {
    /// Duplicates a tree deeply: the copy shares nothing with the original
    /// and has the same model.
    #[verifier::loop_isolation(false)]
    fn clone(&self) -> (res: Self)
        ensures
            res.model() == self.model(),
        decreases self,
    {
        match self {
            Expression::IntegerConstant { value } => Expression::IntegerConstant { value: *value },
            Expression::BooleanConstant { value } => Expression::BooleanConstant { value: *value },
            Expression::BinaryOp { op, left, right } => Expression::BinaryOp {
                op: *op,
                left: Box::new((&**left).clone()),
                right: Box::new((&**right).clone()),
            },
            Expression::Comparison { op, left, right } => Expression::Comparison {
                op: *op,
                left: Box::new((&**left).clone()),
                right: Box::new((&**right).clone()),
            },
            Expression::If { condition, then_branch, else_branch } => Expression::If {
                condition: Box::new((&**condition).clone()),
                then_branch: Box::new((&**then_branch).clone()),
                else_branch: Box::new((&**else_branch).clone()),
            },
            Expression::Let { name, bound_value, body } => Expression::Let {
                name: name.clone(),
                bound_value: Box::new((&**bound_value).clone()),
                body: Box::new((&**body).clone()),
            },
            Expression::Variable { name } => Expression::Variable { name: name.clone() },
            Expression::FunctionDeclaration { body, formal_arg_names } => Expression::FunctionDeclaration {
                body: Box::new((&**body).clone()),
                formal_arg_names: clone_names(formal_arg_names),
            },
            Expression::FunctionCall { name, actual_args } => {
                let mut cloned_args: Vec<Expression> = Vec::new();
                let mut i: usize = 0;
                while i < actual_args.len()
                    invariant
                        i <= actual_args.len(),
                        cloned_args@.len() == i as int,
                        forall|j: int| 0 <= j < i ==> (#[trigger] cloned_args@[j].model())
                            == actual_args@[j].model(),
                    decreases actual_args.len() - i,
                {
                    proof {
                        assert(decreases_to!(self => actual_args));
                        assert(decreases_to!(actual_args => actual_args@));
                        assert(decreases_to!(actual_args@ => actual_args@[i as int]));
                        assert(decreases_to!(self => actual_args@[i as int]));
                    }
                    cloned_args.push(actual_args[i].clone());
                    i = i + 1;
                }
                proof {
                    lemma_args_model(cloned_args@);
                    lemma_args_model(actual_args@);
                    assert(args_model(cloned_args@) =~= args_model(actual_args@));
                }
                Expression::FunctionCall { name: name.clone(), actual_args: cloned_args }
            },
        }
    }
}

} // verus!
