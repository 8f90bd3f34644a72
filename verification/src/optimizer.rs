//! The constant-folding / branch-eliminating optimizer: a single
//! left-to-right pass over a program's statements that evaluates every
//! expression it can, propagates identifier bindings, splices the selected
//! branch of a conditional whose condition folds to a boolean literal, and
//! aborts on the first arithmetic or type error.

use vstd::prelude::*;

use crate::ast::{
    clone_statement, clone_statements, clone_value, lemma_view_statements,
    lemma_view_statements_concat, lemma_view_statements_push, view_inputs, view_statements, Expression,
    ExpressionV, Operator, Program, ProgramV, Statement, StatementV, Value, ValueV,
};
use crate::error::CompilerError;

verus! {

/// The environment the folder carries: identifier bindings in the order they
/// were made; a later binding for the same name overwrites an earlier one.
pub type EnvV = Seq<(Seq<char>, ValueV)>;

/// The binding of `name` in `env`, where the latest binding wins.
pub open spec fn lookup(env: EnvV, name: Seq<char>) -> Option<ValueV>
    decreases env,
{
    if env.len() == 0 {
        None
    } else if env.last().0 == name {
        Some(env.last().1)
    } else {
        lookup(env.drop_last(), name)
    }
}

/// What applying `op` to two resolved operands yields: checked 8-bit
/// arithmetic or a numeric comparison on two integers, and `MismatchType`
/// whenever an operand is not an integer.
pub open spec fn spec_apply(op: Operator, v1: ValueV, v2: ValueV) -> Result<ValueV, CompilerError> {
    match (v1, v2) {
        (ValueV::Integer(x), ValueV::Integer(y)) => match op {
            Operator::Add => if x + y <= 255 {
                Ok(ValueV::Integer((x + y) as u8))
            } else {
                Err(CompilerError::Overflow)
            },
            Operator::Subtract => if x >= y {
                Ok(ValueV::Integer((x - y) as u8))
            } else {
                Err(CompilerError::Underflow)
            },
            Operator::Multiply => if x * y <= 255 {
                Ok(ValueV::Integer((x * y) as u8))
            } else {
                Err(CompilerError::Overflow)
            },
            Operator::Divide => if y == 0 {
                Err(CompilerError::DivByZero)
            } else {
                Ok(ValueV::Integer((x / y) as u8))
            },
            Operator::GreaterThan => Ok(ValueV::Boolean(x > y)),
            Operator::LessThan => Ok(ValueV::Boolean(x < y)),
            Operator::Equal => Ok(ValueV::Boolean(x == y)),
        },
        _ => Err(CompilerError::MismatchType),
    }
}

/// What the evaluator does with a single value: integer and boolean
/// literals resolve to themselves, an identifier resolves to its binding or
/// is unresolved when it has none, and a parenthesized sub-expression is
/// always unresolved (it is never unwrapped).
pub open spec fn spec_evaluate_value(v: ValueV, env: EnvV) -> Option<Result<ValueV, CompilerError>> {
    match v {
        ValueV::Integer(_) => Some(Ok(v)),
        ValueV::Boolean(_) => Some(Ok(v)),
        ValueV::Identifier(name) => match lookup(env, name) {
            Some(val) => Some(Ok(val)),
            None => None,
        },
        ValueV::Expression(_) => None,
    }
}

/// What the evaluator does with an expression: the left value first, then
/// the right expression, each short-circuiting the whole expression when it
/// is unresolved or fails; only two resolved operands reach the operator.
/// `None` is "unresolved", which is not an error.
pub open spec fn spec_evaluate(e: ExpressionV, env: EnvV) -> Option<
    Result<ValueV, CompilerError>,
>
    decreases e,
{
    match e {
        ExpressionV::Value(v) => spec_evaluate_value(*v, env),
        ExpressionV::Binary { left, operator, right } => match spec_evaluate_value(left, env) {
            None => None,
            Some(Err(er)) => Some(Err(er)),
            Some(Ok(lv)) => match spec_evaluate(*right, env) {
                None => None,
                Some(Err(er)) => Some(Err(er)),
                Some(Ok(rv)) => Some(spec_apply(operator, lv, rv)),
            },
        },
    }
}

/// What folding a statement sequence under an environment yields: the folded
/// output sequence and the final environment, or the first error.
///
/// An assignment whose expression resolves is replaced by a literal
/// assignment and bound; one that is unresolved is kept unchanged and binds
/// nothing. A conditional whose condition resolves to a boolean is replaced
/// by the statements of the selected branch, spliced in as they are (they
/// are not folded in this same pass); a condition that resolves to a
/// non-boolean is a type error; an unresolved condition keeps the
/// conditional unchanged. The first error aborts the whole fold.
pub open spec fn spec_fold_stmts(stmts: Seq<StatementV>, env: EnvV) -> Result<
    (Seq<StatementV>, EnvV),
    CompilerError,
>
    decreases stmts,
{
    if stmts.len() == 0 {
        Ok((Seq::empty(), env))
    } else {
        let rest = stmts.subrange(1, stmts.len() as int);
        match stmts[0] {
            StatementV::Assign { variable, expression } => match spec_evaluate(expression, env) {
                None => match spec_fold_stmts(rest, env) {
                    Ok((out, env2)) => Ok((seq![stmts[0]] + out, env2)),
                    Err(e) => Err(e),
                },
                Some(Err(e)) => Err(e),
                Some(Ok(val)) => {
                    let folded = StatementV::Assign {
                        variable,
                        expression: ExpressionV::Value(Box::new(val)),
                    };
                    match spec_fold_stmts(rest, env.push((variable, val))) {
                        Ok((out, env2)) => Ok((seq![folded] + out, env2)),
                        Err(e) => Err(e),
                    }
                },
            },
            StatementV::If { expression, statements_a, statements_b } => match spec_evaluate(
                expression,
                env,
            ) {
                None => match spec_fold_stmts(rest, env) {
                    Ok((out, env2)) => Ok((seq![stmts[0]] + out, env2)),
                    Err(e) => Err(e),
                },
                Some(Err(e)) => Err(e),
                Some(Ok(ValueV::Boolean(b))) => {
                    let branch = if b {
                        statements_a
                    } else {
                        statements_b
                    };
                    match spec_fold_stmts(rest, env) {
                        Ok((out, env2)) => Ok((branch + out, env2)),
                        Err(e) => Err(e),
                    }
                },
                Some(Ok(_)) => Err(CompilerError::MismatchType),
            },
        }
    }
}

/// What folding a whole program yields: the same name and inputs, with the
/// statement sequence folded under an initially empty environment.
pub open spec fn spec_fold(p: ProgramV) -> Result<ProgramV, CompilerError> {
    match spec_fold_stmts(p.statements, Seq::empty()) {
        Ok((out, _)) => Ok(ProgramV { name: p.name, inputs: p.inputs, statements: out }),
        Err(e) => Err(e),
    }
}

/// The view of an evaluator result.
pub open spec fn eval_res_view(r: Option<Result<Value, CompilerError>>) -> Option<
    Result<ValueV, CompilerError>,
> {
    match r {
        None => None,
        Some(Err(e)) => Some(Err(e)),
        Some(Ok(v)) => Some(Ok(v@)),
    }
}

/// The view of an operator-application result.
pub open spec fn apply_res_view(r: Result<Value, CompilerError>) -> Result<ValueV, CompilerError> {
    match r {
        Ok(v) => Ok(v@),
        Err(e) => Err(e),
    }
}

/// The view of a fold result.
pub open spec fn fold_res_view(r: Result<Program, CompilerError>) -> Result<
    ProgramV,
    CompilerError,
> {
    match r {
        Ok(p) => Ok(p@),
        Err(e) => Err(e),
    }
}

/// One identifier binding held by the folder.
struct EnvEntry {
    name: String,
    value: Value,
}

/// The view of a binding list.
spec fn view_env(entries: Seq<EnvEntry>) -> EnvV
    decreases entries,
{
    if entries.len() == 0 {
        Seq::empty()
    } else {
        seq![(entries[0].name@, entries[0].value@)] + view_env(
            entries.subrange(1, entries.len() as int),
        )
    }
}

/// `view_env` is the pointwise view of its argument.
proof fn lemma_view_env(entries: Seq<EnvEntry>)
    ensures
        view_env(entries).len() == entries.len(),
        forall|i: int|
            0 <= i < entries.len() ==> #[trigger] view_env(entries)[i] == (
            entries[i].name@,
            entries[i].value@,
            ),
    decreases entries,
{
    if entries.len() > 0 {
        lemma_view_env(entries.subrange(1, entries.len() as int));
    }
}

/// The environment the folder builds: identifier bindings in the order they
/// were made.
pub struct Env {
    entries: Vec<EnvEntry>,
}

impl View for Env {
    type V = EnvV;

    closed spec fn view(&self) -> EnvV {
        view_env(self.entries@)
    }
}

impl Env {
    /// A fresh, empty environment.
    pub fn new() -> (e: Env)
        ensures
            e@ == Seq::<(Seq<char>, ValueV)>::empty(),
    {
        let e = Env { entries: Vec::new() };
        proof {
            assert(e@ =~= Seq::<(Seq<char>, ValueV)>::empty());
        }
        e
    }

    /// Bind `name` to `value`; a later binding overwrites an earlier one at
    /// lookup.
    pub fn insert(&mut self, name: String, value: Value)
        ensures
            final(self)@ == old(self)@.push((name@, value@)),
    {
        let ghost old_entries = self.entries@;
        let ghost pair = (name@, value@);
        self.entries.push(EnvEntry { name, value });
        proof {
            lemma_view_env(old_entries);
            lemma_view_env(self.entries@);
            assert(self@ =~= view_env(old_entries).push(pair));
        }
    }

    /// The value bound to `name`, if any; the latest binding wins.
    pub fn get(&self, name: &String) -> (r: Option<Value>)
        ensures
            match r {
                Some(v) => lookup(self@, name@) == Some(v@),
                None => lookup(self@, name@) is None,
            },
    {
        let n = self.entries.len();
        let mut i = n;
        proof {
            lemma_view_env(self.entries@);
            assert(view_env(self.entries@).subrange(0, n as int) =~= view_env(self.entries@));
        }
        while i > 0
            invariant
                0 <= i <= n,
                n == self.entries@.len(),
                view_env(self.entries@).len() == n,
                forall|j: int|
                    0 <= j < n ==> #[trigger] view_env(self.entries@)[j] == (
                    self.entries@[j].name@,
                    self.entries@[j].value@,
                    ),
                lookup(self@, name@) == lookup(
                    view_env(self.entries@).subrange(0, i as int),
                    name@,
                ),
            decreases i,
        {
            let entry = &self.entries[i - 1];
            proof {
                let prefix = view_env(self.entries@).subrange(0, i as int);
                assert(prefix.last() == (self.entries@[i - 1].name@, self.entries@[i - 1].value@));
                assert(prefix.drop_last() =~= view_env(self.entries@).subrange(0, i - 1));
            }
            if entry.name == *name {
                return Some(clone_value(&entry.value));
            }
            i = i - 1;
        }
        proof {
            assert(view_env(self.entries@).subrange(0, 0) =~= Seq::<
                (Seq<char>, ValueV),
            >::empty());
        }
        None
    }
}

/// Evaluate a single value under an environment: literals resolve to
/// themselves, identifiers to their binding (or unresolved when unbound),
/// and a parenthesized sub-expression is always unresolved.
pub fn evaluate_value(v: &Value, env: &Env) -> (r: Option<Result<Value, CompilerError>>)
    ensures
        eval_res_view(r) == spec_evaluate_value(v@, env@),
{
    match v {
        Value::Integer(x) => Some(Ok(Value::Integer(*x))),
        Value::Boolean(b) => Some(Ok(Value::Boolean(*b))),
        Value::Identifier(name) => match env.get(name) {
            Some(val) => Some(Ok(val)),
            None => None,
        },
        Value::Expression(_) => None,
    }
}

/// Evaluate an expression under an environment. `None` means unresolved
/// (not an error); `Some(Err(_))` is the first error found; `Some(Ok(_))`
/// is the resolved literal value.
pub fn evaluate(exp: &Expression, env: &Env) -> (r: Option<Result<Value, CompilerError>>)
    ensures
        eval_res_view(r) == spec_evaluate(exp@, env@),
    decreases *exp,
{
    match exp {
        Expression::Value(v) => evaluate_value(v, env),
        Expression::Binary { left, operator, right } => {
            let lv = match evaluate_value(left, env) {
                None => {
                    return None;
                },
                Some(Err(e)) => {
                    return Some(Err(e));
                },
                Some(Ok(v)) => v,
            };
            let rv = match evaluate(right, env) {
                None => {
                    return None;
                },
                Some(Err(e)) => {
                    return Some(Err(e));
                },
                Some(Ok(v)) => v,
            };
            match operator {
                Operator::Add => Some(add_u8(lv, rv)),
                Operator::Subtract => Some(sub_u8(lv, rv)),
                Operator::Multiply => Some(mul_u8(lv, rv)),
                Operator::Divide => Some(div_u8(lv, rv)),
                Operator::GreaterThan => Some(gt_bool(lv, rv)),
                Operator::LessThan => Some(lt_bool(lv, rv)),
                Operator::Equal => Some(eq_bool(lv, rv)),
            }
        },
    }
}

/// Checked 8-bit addition on two integer values; `Overflow` past 255,
/// `MismatchType` unless both operands are integers.
pub fn add_u8(v1: Value, v2: Value) -> (r: Result<Value, CompilerError>)
    ensures
        apply_res_view(r) == spec_apply(Operator::Add, v1@, v2@),
{
    match (v1, v2) {
        (Value::Integer(x), Value::Integer(y)) => {
            let sum: u16 = x as u16 + y as u16;
            if sum <= 255 {
                Ok(Value::Integer(sum as u8))
            } else {
                Err(CompilerError::Overflow)
            }
        },
        _ => Err(CompilerError::MismatchType),
    }
}

/// Checked 8-bit subtraction; `Underflow` below 0, `MismatchType` unless
/// both operands are integers.
pub fn sub_u8(v1: Value, v2: Value) -> (r: Result<Value, CompilerError>)
    ensures
        apply_res_view(r) == spec_apply(Operator::Subtract, v1@, v2@),
{
    match (v1, v2) {
        (Value::Integer(x), Value::Integer(y)) => {
            if x >= y {
                Ok(Value::Integer(x - y))
            } else {
                Err(CompilerError::Underflow)
            }
        },
        _ => Err(CompilerError::MismatchType),
    }
}

/// Checked 8-bit multiplication; `Overflow` past 255, `MismatchType` unless
/// both operands are integers.
pub fn mul_u8(v1: Value, v2: Value) -> (r: Result<Value, CompilerError>)
    ensures
        apply_res_view(r) == spec_apply(Operator::Multiply, v1@, v2@),
{
    match (v1, v2) {
        (Value::Integer(x), Value::Integer(y)) => {
            proof {
                assert((x as int) * (y as int) <= 255 * 255) by (nonlinear_arith)
                    requires
                        x <= 255,
                        y <= 255,
                ;
            }
            let product: u16 = x as u16 * y as u16;
            if product <= 255 {
                Ok(Value::Integer(product as u8))
            } else {
                Err(CompilerError::Overflow)
            }
        },
        _ => Err(CompilerError::MismatchType),
    }
}

/// Floor division on two integer values; `DivByZero` when the divisor is
/// zero, `MismatchType` unless both operands are integers.
pub fn div_u8(v1: Value, v2: Value) -> (r: Result<Value, CompilerError>)
    ensures
        apply_res_view(r) == spec_apply(Operator::Divide, v1@, v2@),
{
    match (v1, v2) {
        (Value::Integer(x), Value::Integer(y)) => {
            if y == 0 {
                Err(CompilerError::DivByZero)
            } else {
                Ok(Value::Integer(x / y))
            }
        },
        _ => Err(CompilerError::MismatchType),
    }
}

/// Numeric `>` on two integer values; `MismatchType` unless both operands
/// are integers.
pub fn gt_bool(v1: Value, v2: Value) -> (r: Result<Value, CompilerError>)
    ensures
        apply_res_view(r) == spec_apply(Operator::GreaterThan, v1@, v2@),
{
    match (v1, v2) {
        (Value::Integer(x), Value::Integer(y)) => Ok(Value::Boolean(x > y)),
        _ => Err(CompilerError::MismatchType),
    }
}

/// Numeric `<` on two integer values; `MismatchType` unless both operands
/// are integers.
pub fn lt_bool(v1: Value, v2: Value) -> (r: Result<Value, CompilerError>)
    ensures
        apply_res_view(r) == spec_apply(Operator::LessThan, v1@, v2@),
{
    match (v1, v2) {
        (Value::Integer(x), Value::Integer(y)) => Ok(Value::Boolean(x < y)),
        _ => Err(CompilerError::MismatchType),
    }
}

/// Numeric `==` on two integer values; `MismatchType` unless both operands
/// are integers.
pub fn eq_bool(v1: Value, v2: Value) -> (r: Result<Value, CompilerError>)
    ensures
        apply_res_view(r) == spec_apply(Operator::Equal, v1@, v2@),
{
    match (v1, v2) {
        (Value::Integer(x), Value::Integer(y)) => Ok(Value::Boolean(x == y)),
        _ => Err(CompilerError::MismatchType),
    }
}

/// Fold a program: a pure transform that returns a new program with the
/// same name and inputs and the folded statement sequence, or the first
/// error the pass detects.
pub fn fold(program: Program) -> (r: Result<Program, CompilerError>)
    ensures
        fold_res_view(r) == spec_fold(program@),
{
    let ghost pv = program@;
    let Program { name, inputs, statements } = program;
    let mut env = Env::new();
    let mut out: Vec<Statement> = Vec::new();
    let n = statements.len();
    proof {
        lemma_view_statements(statements@);
        assert(statements@.subrange(0, n as int) =~= statements@);
        assert(view_statements(statements@).subrange(0, n as int) =~= view_statements(
            statements@,
        ));
    }
    let ghost stmts_v = view_statements(statements@);
    let ghost empty_env: EnvV = Seq::empty();
    proof {
        assert(stmts_v.subrange(0, stmts_v.len() as int) =~= stmts_v);
        assert(view_statements(out@) =~= Seq::<StatementV>::empty());
    }
    for i in 0..n
        invariant
            n == statements@.len(),
            stmts_v == view_statements(statements@),
            stmts_v.len() == n,
            pv == (ProgramV { name: name@, inputs: view_inputs(inputs@), statements: stmts_v }),
            empty_env == Seq::<(Seq<char>, ValueV)>::empty(),
            pv == program@,
            forall|j: int| 0 <= j < n ==> #[trigger] stmts_v[j] == statements@[j]@,
            match spec_fold_stmts(stmts_v.subrange(i as int, n as int), env@) {
                Ok((o2, e2)) => spec_fold_stmts(stmts_v, empty_env) == Ok::<
                    (Seq<StatementV>, EnvV),
                    CompilerError,
                >((view_statements(out@) + o2, e2)),
                Err(e) => spec_fold_stmts(stmts_v, empty_env) == Err::<
                    (Seq<StatementV>, EnvV),
                    CompilerError,
                >(e),
            },
        decreases n - i,
    {
        let ghost suffix = stmts_v.subrange(i as int, n as int);
        let ghost rest = stmts_v.subrange(i + 1, n as int);
        proof {
            assert(suffix.len() == n - i);
            assert(suffix[0] == stmts_v[i as int]);
            assert(suffix.subrange(1, suffix.len() as int) =~= rest);
        }
        let stmt = &statements[i];
        let ghost env_before = env@;
        let ghost out_before = out@;
        match stmt {
            Statement::Assign { variable, expression } => {
                match evaluate(expression, &env) {
                    None => {
                        out.push(clone_statement(stmt));
                        proof {
                            lemma_view_statements_push(out_before, out@.last());
                            assert(out@ =~= out_before.push(out@.last()));
                            match spec_fold_stmts(rest, env@) {
                                Ok((o2, e2)) => {
                                    assert(view_statements(out_before) + (seq![suffix[0]] + o2)
                                        =~= view_statements(out@) + o2);
                                },
                                Err(e) => {},
                            }
                        }
                    },
                    Some(Err(e)) => {
                        proof {
                            assert(suffix[0] == StatementV::Assign {
                                variable: variable@,
                                expression: expression@,
                            });
                            assert(spec_evaluate(expression@, env@) == Some(
                                Err::<ValueV, CompilerError>(e),
                            ));
                            assert(spec_fold_stmts(suffix, env@) == Err::<
                                (Seq<StatementV>, EnvV),
                                CompilerError,
                            >(e));
                        }
                        return Err(e);
                    },
                    Some(Ok(val)) => {
                        let ghost val_v = val@;
                        let bound = clone_value(&val);
                        env.insert(variable.clone(), bound);
                        out.push(
                            Statement::Assign {
                                variable: variable.clone(),
                                expression: Expression::Value(Box::new(val)),
                            },
                        );
                        proof {
                            let folded_v = StatementV::Assign {
                                variable: variable@,
                                expression: ExpressionV::Value(Box::new(val_v)),
                            };
                            lemma_view_statements_push(out_before, out@.last());
                            assert(out@ =~= out_before.push(out@.last()));
                            assert(out@.last()@ == folded_v);
                            assert(env@ == env_before.push((variable@, val_v)));
                            match spec_fold_stmts(rest, env@) {
                                Ok((o2, e2)) => {
                                    assert(view_statements(out_before) + (seq![folded_v] + o2)
                                        =~= view_statements(out@) + o2);
                                },
                                Err(e) => {},
                            }
                        }
                    },
                }
            },
            Statement::If { expression, statements_a, statements_b } => {
                match evaluate(expression, &env) {
                    None => {
                        out.push(clone_statement(stmt));
                        proof {
                            lemma_view_statements_push(out_before, out@.last());
                            assert(out@ =~= out_before.push(out@.last()));
                            match spec_fold_stmts(rest, env@) {
                                Ok((o2, e2)) => {
                                    assert(view_statements(out_before) + (seq![suffix[0]] + o2)
                                        =~= view_statements(out@) + o2);
                                },
                                Err(e) => {},
                            }
                        }
                    },
                    Some(Err(e)) => {
                        proof {
                            assert(suffix[0] == StatementV::If {
                                expression: expression@,
                                statements_a: view_statements(statements_a@),
                                statements_b: view_statements(statements_b@),
                            });
                            assert(spec_evaluate(expression@, env@) == Some(
                                Err::<ValueV, CompilerError>(e),
                            ));
                            assert(spec_fold_stmts(suffix, env@) == Err::<
                                (Seq<StatementV>, EnvV),
                                CompilerError,
                            >(e));
                        }
                        return Err(e);
                    },
                    Some(Ok(Value::Boolean(b))) => {
                        let branch = if b {
                            statements_a
                        } else {
                            statements_b
                        };
                        let ghost branch_v = view_statements(branch@);
                        let mut spliced = clone_statements(branch);
                        let ghost spliced_v = spliced@;
                        out.append(&mut spliced);
                        proof {
                            lemma_view_statements_concat(out_before, spliced_v);
                            assert(out@ =~= out_before + spliced_v);
                            assert(view_statements(out@) == view_statements(out_before)
                                + branch_v);
                            match spec_fold_stmts(rest, env@) {
                                Ok((o2, e2)) => {
                                    assert(view_statements(out_before) + (branch_v + o2)
                                        =~= view_statements(out@) + o2);
                                },
                                Err(e) => {},
                            }
                        }
                    },
                    Some(Ok(other)) => {
                        proof {
                            assert(suffix[0] == StatementV::If {
                                expression: expression@,
                                statements_a: view_statements(statements_a@),
                                statements_b: view_statements(statements_b@),
                            });
                            assert(spec_evaluate(expression@, env@) == Some(
                                Ok::<ValueV, CompilerError>(other@),
                            ));
                            assert(!(other@ is Boolean));
                            assert(spec_fold_stmts(suffix, env@) == Err::<
                                (Seq<StatementV>, EnvV),
                                CompilerError,
                            >(CompilerError::MismatchType));
                        }
                        return Err(CompilerError::MismatchType);
                    },
                }
            },
        }
    }
    proof {
        assert(stmts_v.subrange(n as int, n as int) =~= Seq::<StatementV>::empty());
        match spec_fold_stmts(stmts_v.subrange(n as int, n as int), env@) {
            Ok((o2, e2)) => {
                assert(view_statements(out@) + o2 =~= view_statements(out@));
            },
            Err(e) => {},
        }
    }
    let folded = Program { name, inputs, statements: out };
    Ok(folded)
}

} // verus!
