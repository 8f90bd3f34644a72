//! The abstract syntax tree for the language: a program is a named function
//! with typed inputs and a sequence of statements over 8-bit unsigned
//! integers, booleans and identifiers.
//!
//! Each tree type has a mathematical view (`ProgramV`, `StatementV`, ...)
//! in which names are character sequences and statement lists are `Seq`s;
//! every contract of the crate speaks of those views.

use vstd::prelude::*;

verus! {

/// A whole source program: `function <name>(<inputs>) { <statements> }`.
#[derive(Debug, PartialEq, Eq)]
pub struct Program {
    pub name: String,
    pub inputs: Vec<Input>,
    pub statements: Vec<Statement>,
}

/// One typed function input, `name: u8`.
#[derive(Debug, PartialEq, Eq)]
pub struct Input {
    pub name: String,
    pub input_type: Type,
}

/// The closed set of input types; only `u8` exists today.
#[derive(Debug, Clone, Copy, PartialEq, Eq, Structural)]
pub enum Type {
    U8,
}

/// A statement: an assignment or a two-armed conditional.
#[derive(Debug, PartialEq, Eq)]
pub enum Statement {
    /// `let <variable> = <expression>;`
    Assign { variable: String, expression: Expression },
    /// `if <expression> { <statements_a> } else { <statements_b> }`
    If { expression: Expression, statements_a: Vec<Statement>, statements_b: Vec<Statement> },
}

/// An expression: either a single value, or `<value> <operator> <expression>`.
/// The left operand of a binary node is restricted to a `Value`; grouping a
/// compound left operand takes an explicit `Value::Expression`, so the shape
/// encodes right association.
#[derive(Debug, PartialEq, Eq)]
pub enum Expression {
    Binary { left: Value, operator: Operator, right: Box<Expression> },
    Value(Box<Value>),
}

/// A leaf value: an integer literal, an identifier, a boolean literal, or a
/// parenthesized sub-expression.
#[derive(Debug, PartialEq, Eq)]
pub enum Value {
    Integer(u8),
    Identifier(String),
    Boolean(bool),
    Expression(Box<Expression>),
}

/// The binary operators of the language.
#[derive(Debug, Clone, Copy, PartialEq, Eq, Structural)]
pub enum Operator {
    Add,
    Subtract,
    Multiply,
    Divide,
    GreaterThan,
    LessThan,
    Equal,
}

/// Mathematical view of a `Program`.
#[verifier::ext_equal]
pub struct ProgramV {
    pub name: Seq<char>,
    pub inputs: Seq<InputV>,
    pub statements: Seq<StatementV>,
}

/// Mathematical view of an `Input`.
#[verifier::ext_equal]
pub struct InputV {
    pub name: Seq<char>,
    pub input_type: Type,
}

/// Mathematical view of a `Statement`.
#[verifier::ext_equal]
pub enum StatementV {
    Assign { variable: Seq<char>, expression: ExpressionV },
    If { expression: ExpressionV, statements_a: Seq<StatementV>, statements_b: Seq<StatementV> },
}

/// Mathematical view of an `Expression`.
#[verifier::ext_equal]
pub enum ExpressionV {
    Binary { left: ValueV, operator: Operator, right: Box<ExpressionV> },
    Value(Box<ValueV>),
}

/// Mathematical view of a `Value`.
#[verifier::ext_equal]
pub enum ValueV {
    Integer(u8),
    Identifier(Seq<char>),
    Boolean(bool),
    Expression(Box<ExpressionV>),
}

pub open spec fn view_value(v: Value) -> ValueV
    decreases v,
{
    match v {
        Value::Integer(x) => ValueV::Integer(x),
        Value::Identifier(name) => ValueV::Identifier(name@),
        Value::Boolean(b) => ValueV::Boolean(b),
        Value::Expression(e) => ValueV::Expression(Box::new(view_expression(*e))),
    }
}

pub open spec fn view_expression(e: Expression) -> ExpressionV
    decreases e,
{
    match e {
        Expression::Binary { left, operator, right } => ExpressionV::Binary {
            left: view_value(left),
            operator: operator,
            right: Box::new(view_expression(*right)),
        },
        Expression::Value(v) => ExpressionV::Value(Box::new(view_value(*v))),
    }
}

pub open spec fn view_statement(s: Statement) -> StatementV
    decreases s,
{
    match s {
        Statement::Assign { variable, expression } => StatementV::Assign {
            variable: variable@,
            expression: view_expression(expression),
        },
        Statement::If { expression, statements_a, statements_b } => StatementV::If {
            expression: view_expression(expression),
            statements_a: view_statements(statements_a@),
            statements_b: view_statements(statements_b@),
        },
    }
}

pub open spec fn view_statements(ss: Seq<Statement>) -> Seq<StatementV>
    decreases ss,
{
    if ss.len() == 0 {
        Seq::empty()
    } else {
        seq![view_statement(ss[0])] + view_statements(ss.subrange(1, ss.len() as int))
    }
}

pub open spec fn view_inputs(inputs: Seq<Input>) -> Seq<InputV>
    decreases inputs,
{
    if inputs.len() == 0 {
        Seq::empty()
    } else {
        seq![InputV { name: inputs[0].name@, input_type: inputs[0].input_type }]
            + view_inputs(inputs.subrange(1, inputs.len() as int))
    }
}

impl View for Value {
    type V = ValueV;

    open spec fn view(&self) -> ValueV {
        view_value(*self)
    }
}

impl View for Expression {
    type V = ExpressionV;

    open spec fn view(&self) -> ExpressionV {
        view_expression(*self)
    }
}

impl View for Statement {
    type V = StatementV;

    open spec fn view(&self) -> StatementV {
        view_statement(*self)
    }
}

impl View for Input {
    type V = InputV;

    open spec fn view(&self) -> InputV {
        InputV { name: self.name@, input_type: self.input_type }
    }
}

impl View for Program {
    type V = ProgramV;

    open spec fn view(&self) -> ProgramV {
        ProgramV {
            name: self.name@,
            inputs: view_inputs(self.inputs@),
            statements: view_statements(self.statements@),
        }
    }
}

/// `view_statements` is the pointwise view of its argument.
pub proof fn lemma_view_statements(ss: Seq<Statement>)
    ensures
        view_statements(ss).len() == ss.len(),
        forall|i: int| 0 <= i < ss.len() ==> #[trigger] view_statements(ss)[i] == ss[i]@,
    decreases ss,
{
    if ss.len() > 0 {
        lemma_view_statements(ss.subrange(1, ss.len() as int));
    }
}

/// Appending one statement appends its view.
pub proof fn lemma_view_statements_push(ss: Seq<Statement>, x: Statement)
    ensures
        view_statements(ss.push(x)) =~= view_statements(ss).push(x@),
{
    lemma_view_statements(ss.push(x));
    lemma_view_statements(ss);
    assert(ss.push(x).len() == ss.len() + 1);
    assert(forall|i: int| 0 <= i < ss.len() ==> ss.push(x)[i] == ss[i]);
    assert(ss.push(x)[ss.len() as int] == x);
}

/// Concatenating statement sequences concatenates their views.
pub proof fn lemma_view_statements_concat(s1: Seq<Statement>, s2: Seq<Statement>)
    ensures
        view_statements(s1 + s2) =~= view_statements(s1) + view_statements(s2),
{
    lemma_view_statements(s1 + s2);
    lemma_view_statements(s1);
    lemma_view_statements(s2);
}

/// `view_inputs` is the pointwise view of its argument.
pub proof fn lemma_view_inputs(inputs: Seq<Input>)
    ensures
        view_inputs(inputs).len() == inputs.len(),
        forall|i: int| 0 <= i < inputs.len() ==> #[trigger] view_inputs(inputs)[i] == inputs[i]@,
    decreases inputs,
{
    if inputs.len() > 0 {
        lemma_view_inputs(inputs.subrange(1, inputs.len() as int));
    }
}

/// Deep copy of a `Value`; the copy has the view of the original.
pub fn clone_value(v: &Value) -> (r: Value)
    ensures
        r@ == v@,
    decreases *v,
{
    match v {
        Value::Integer(x) => Value::Integer(*x),
        Value::Identifier(name) => Value::Identifier(name.clone()),
        Value::Boolean(b) => Value::Boolean(*b),
        Value::Expression(e) => Value::Expression(Box::new(clone_expression(e))),
    }
}

/// Deep copy of an `Expression`; the copy has the view of the original.
pub fn clone_expression(e: &Expression) -> (r: Expression)
    ensures
        r@ == e@,
    decreases *e,
{
    match e {
        Expression::Binary { left, operator, right } => Expression::Binary {
            left: clone_value(left),
            operator: *operator,
            right: Box::new(clone_expression(right)),
        },
        Expression::Value(v) => Expression::Value(Box::new(clone_value(v))),
    }
}

/// Deep copy of a `Statement`; the copy has the view of the original.
pub fn clone_statement(s: &Statement) -> (r: Statement)
    ensures
        r@ == s@,
    decreases *s,
{
    match s {
        Statement::Assign { variable, expression } => Statement::Assign {
            variable: variable.clone(),
            expression: clone_expression(expression),
        },
        Statement::If { expression, statements_a, statements_b } => Statement::If {
            expression: clone_expression(expression),
            statements_a: clone_statements(statements_a),
            statements_b: clone_statements(statements_b),
        },
    }
}

/// Deep copy of a statement list; the copy has the views of the original.
pub fn clone_statements(ss: &Vec<Statement>) -> (r: Vec<Statement>)
    ensures
        view_statements(r@) == view_statements(ss@),
    decreases *ss,
{
    let mut r: Vec<Statement> = Vec::new();
    let n = ss.len();
    for i in 0..n
        invariant
            n == ss@.len(),
            r@.len() == i,
            forall|j: int| 0 <= j < i ==> #[trigger] r@[j]@ == ss@[j]@,
        decreases n - i,
    {
        r.push(clone_statement(&ss[i]));
    }
    proof {
        lemma_view_statements(r@);
        lemma_view_statements(ss@);
        assert(view_statements(r@) =~= view_statements(ss@));
    }
    r
}

impl Clone for Value {
    /// Deep copy; the copy has the view of the original.
    fn clone(&self) -> (r: Self)
        ensures
            r@ == self@,
    {
        clone_value(self)
    }
}

impl Clone for Expression {
    /// Deep copy; the copy has the view of the original.
    fn clone(&self) -> (r: Self)
        ensures
            r@ == self@,
    {
        clone_expression(self)
    }
}

impl Clone for Statement {
    /// Deep copy; the copy has the view of the original.
    fn clone(&self) -> (r: Self)
        ensures
            r@ == self@,
    {
        clone_statement(self)
    }
}

impl Clone for Input {
    /// Deep copy; the copy has the view of the original.
    fn clone(&self) -> (r: Self)
        ensures
            r@ == self@,
    {
        Input { name: self.name.clone(), input_type: self.input_type }
    }
}

impl Clone for Program {
    /// Deep copy; the copy has the view of the original.
    fn clone(&self) -> (r: Self)
        ensures
            r@ == self@,
    {
        let mut inputs: Vec<Input> = Vec::new();
        let n = self.inputs.len();
        for i in 0..n
            invariant
                n == self.inputs@.len(),
                inputs@.len() == i,
                forall|j: int| 0 <= j < i ==> #[trigger] inputs@[j]@ == self.inputs@[j]@,
            decreases n - i,
        {
            inputs.push(self.inputs[i].clone());
        }
        proof {
            lemma_view_inputs(inputs@);
            lemma_view_inputs(self.inputs@);
            assert(view_inputs(inputs@) =~= view_inputs(self.inputs@));
        }
        Program {
            name: self.name.clone(),
            inputs,
            statements: clone_statements(&self.statements),
        }
    }
}

} // verus!
