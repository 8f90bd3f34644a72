//! Laws of the optimizer and renderer, stated over the same spec functions
//! the executable contracts use, and proved once for all inputs.

use vstd::prelude::*;

use crate::ast::{ExpressionV, Program, ProgramV, StatementV, ValueV, Operator};
use crate::error::CompilerError;
use crate::optimizer::{
    fold_res_view, spec_apply, spec_evaluate, spec_fold, spec_fold_stmts, EnvV,
};
use crate::render::spec_render_program;

verus! {

/// A binary expression over two integer literals, `a <op> b`.
pub open spec fn lit_binary(a: u8, op: Operator, b: u8) -> ExpressionV {
    ExpressionV::Binary {
        left: ValueV::Integer(a),
        operator: op,
        right: Box::new(ExpressionV::Value(Box::new(ValueV::Integer(b)))),
    }
}

/// Arithmetic laws: under any environment, folding `a <op> b` on integer
/// literals performs exact checked 8-bit arithmetic: a sum or product past
/// 255 overflows, a difference below 0 underflows, division by zero is an
/// error, and otherwise the literal result appears.
pub proof fn lemma_arithmetic_laws(a: u8, b: u8, env: EnvV)
    ensures
        spec_evaluate(lit_binary(a, Operator::Add, b), env) == Some(
            if a + b <= 255 {
                Ok::<ValueV, CompilerError>(ValueV::Integer((a + b) as u8))
            } else {
                Err::<ValueV, CompilerError>(CompilerError::Overflow)
            },
        ),
        spec_evaluate(lit_binary(a, Operator::Subtract, b), env) == Some(
            if a >= b {
                Ok::<ValueV, CompilerError>(ValueV::Integer((a - b) as u8))
            } else {
                Err::<ValueV, CompilerError>(CompilerError::Underflow)
            },
        ),
        spec_evaluate(lit_binary(a, Operator::Multiply, b), env) == Some(
            if a * b <= 255 {
                Ok::<ValueV, CompilerError>(ValueV::Integer((a * b) as u8))
            } else {
                Err::<ValueV, CompilerError>(CompilerError::Overflow)
            },
        ),
        spec_evaluate(lit_binary(a, Operator::Divide, b), env) == Some(
            if b == 0 {
                Err::<ValueV, CompilerError>(CompilerError::DivByZero)
            } else {
                Ok::<ValueV, CompilerError>(ValueV::Integer((a / b) as u8))
            },
        ),
{
    assert forall|op: Operator|
        spec_evaluate(lit_binary(a, op, b), env) == Some(
            spec_apply(op, ValueV::Integer(a), ValueV::Integer(b)),
        ) by {
        assert(spec_evaluate(
            ExpressionV::Value(Box::new(ValueV::Integer(b))),
            env,
        ) == Some(Ok::<ValueV, CompilerError>(ValueV::Integer(b))));
    }
}

/// Comparison laws: under any environment, folding `a > b`, `a < b` and
/// `a == b` on integer literals yields the boolean of the corresponding
/// numeric relation.
pub proof fn lemma_comparison_laws(a: u8, b: u8, env: EnvV)
    ensures
        spec_evaluate(lit_binary(a, Operator::GreaterThan, b), env) == Some(
            Ok::<ValueV, CompilerError>(ValueV::Boolean(a > b)),
        ),
        spec_evaluate(lit_binary(a, Operator::LessThan, b), env) == Some(
            Ok::<ValueV, CompilerError>(ValueV::Boolean(a < b)),
        ),
        spec_evaluate(lit_binary(a, Operator::Equal, b), env) == Some(
            Ok::<ValueV, CompilerError>(ValueV::Boolean(a == b)),
        ),
{
    assert(spec_evaluate(ExpressionV::Value(Box::new(ValueV::Integer(b))), env) == Some(
        Ok::<ValueV, CompilerError>(ValueV::Integer(b)),
    ));
}

/// Type mismatch: every operator applied to a boolean operand, on either
/// side, is a `MismatchType` error.
pub proof fn lemma_type_mismatch(op: Operator, v1: ValueV, v2: ValueV)
    requires
        v1 is Boolean || v2 is Boolean,
    ensures
        spec_apply(op, v1, v2) == Err::<ValueV, CompilerError>(CompilerError::MismatchType),
{
}

/// A statement that assigns a literal integer or boolean value.
pub open spec fn is_literal_assign(s: StatementV) -> bool {
    match s {
        StatementV::Assign { variable, expression } => match expression {
            ExpressionV::Value(v) => *v is Integer || *v is Boolean,
            _ => false,
        },
        _ => false,
    }
}

/// Idempotence of folding on literal statement sequences: a sequence whose
/// statements all assign literal values folds to itself, under any
/// environment.
pub proof fn lemma_fold_stmts_identity(stmts: Seq<StatementV>, env: EnvV)
    requires
        forall|i: int| 0 <= i < stmts.len() ==> is_literal_assign(#[trigger] stmts[i]),
    ensures
        spec_fold_stmts(stmts, env) matches Ok(p) && p.0 == stmts,
    decreases stmts,
{
    if stmts.len() == 0 {
        match spec_fold_stmts(stmts, env) {
            Ok(p) => {
                assert(p.0 =~= stmts);
            },
            Err(_) => {},
        }
    } else {
        let rest = stmts.subrange(1, stmts.len() as int);
        assert(is_literal_assign(stmts[0]));
        match stmts[0] {
            StatementV::Assign { variable, expression } => {
                match expression {
                    ExpressionV::Value(v) => {
                        assert(spec_evaluate(expression, env) == Some(
                            Ok::<ValueV, CompilerError>(*v),
                        ));
                        let folded = StatementV::Assign {
                            variable,
                            expression: ExpressionV::Value(Box::new(*v)),
                        };
                        assert(folded =~= stmts[0]);
                        let env2 = env.push((variable, *v));
                        assert(forall|i: int|
                            0 <= i < rest.len() ==> is_literal_assign(#[trigger] rest[i]));
                        lemma_fold_stmts_identity(rest, env2);
                        match spec_fold_stmts(rest, env2) {
                            Ok(p2) => {
                                assert(seq![folded] + p2.0 =~= stmts);
                            },
                            Err(_) => {},
                        }
                    },
                    _ => {},
                }
            },
            _ => {},
        }
    }
}

/// Idempotence: a program whose statements all assign literal values folds
/// to itself, unchanged.
pub proof fn lemma_fold_idempotent(p: ProgramV)
    requires
        forall|i: int| 0 <= i < p.statements.len() ==> is_literal_assign(#[trigger] p.statements[i]),
    ensures
        spec_fold(p) == Ok::<ProgramV, CompilerError>(p),
{
    lemma_fold_stmts_identity(p.statements, Seq::empty());
    match spec_fold_stmts(p.statements, Seq::empty()) {
        Ok(pair) => {
            assert(ProgramV { name: p.name, inputs: p.inputs, statements: pair.0 } =~= p);
        },
        Err(_) => {},
    }
}

/// Determinism of folding: any two results that satisfy `fold`'s contract
/// for the same program agree: same success or failure, same error, and
/// equal views of the folded program.
pub proof fn lemma_fold_deterministic(
    p: Program,
    r1: Result<Program, CompilerError>,
    r2: Result<Program, CompilerError>,
)
    requires
        fold_res_view(r1) == spec_fold(p@),
        fold_res_view(r2) == spec_fold(p@),
    ensures
        match (r1, r2) {
            (Ok(q1), Ok(q2)) => q1@ == q2@,
            (Err(e1), Err(e2)) => e1 == e2,
            _ => false,
        },
{
}

/// Determinism of rendering: any two results that satisfy `render`'s
/// contract for the same program are the same text.
pub proof fn lemma_render_deterministic(p: Program, s1: String, s2: String)
    requires
        s1@ == spec_render_program(p@),
        s2@ == spec_render_program(p@),
    ensures
        s1@ == s2@,
{
}

/// First error wins: once a statement prefix folds to an error, that error
/// is the outcome of the whole sequence, whatever statements follow; the
/// statements after the error are never evaluated.
pub proof fn lemma_first_error_wins(s1: Seq<StatementV>, s2: Seq<StatementV>, env: EnvV, e: CompilerError)
    requires
        spec_fold_stmts(s1, env) == Err::<(Seq<StatementV>, EnvV), CompilerError>(e),
    ensures
        spec_fold_stmts(s1 + s2, env) == Err::<(Seq<StatementV>, EnvV), CompilerError>(e),
    decreases s1,
{
    let all = s1 + s2;
    assert(s1.len() > 0);
    assert(all[0] == s1[0]);
    let rest1 = s1.subrange(1, s1.len() as int);
    let rest_all = all.subrange(1, all.len() as int);
    assert(rest_all =~= rest1 + s2);
    match s1[0] {
        StatementV::Assign { variable, expression } => {
            match spec_evaluate(expression, env) {
                None => {
                    assert(spec_fold_stmts(rest1, env) == Err::<
                        (Seq<StatementV>, EnvV),
                        CompilerError,
                    >(e));
                    lemma_first_error_wins(rest1, s2, env, e);
                },
                Some(Err(_)) => {},
                Some(Ok(val)) => {
                    let env2 = env.push((variable, val));
                    assert(spec_fold_stmts(rest1, env2) == Err::<
                        (Seq<StatementV>, EnvV),
                        CompilerError,
                    >(e));
                    lemma_first_error_wins(rest1, s2, env2, e);
                },
            }
        },
        StatementV::If { expression, statements_a, statements_b } => {
            match spec_evaluate(expression, env) {
                None => {
                    assert(spec_fold_stmts(rest1, env) == Err::<
                        (Seq<StatementV>, EnvV),
                        CompilerError,
                    >(e));
                    lemma_first_error_wins(rest1, s2, env, e);
                },
                Some(Err(_)) => {},
                Some(Ok(ValueV::Boolean(_))) => {
                    assert(spec_fold_stmts(rest1, env) == Err::<
                        (Seq<StatementV>, EnvV),
                        CompilerError,
                    >(e));
                    lemma_first_error_wins(rest1, s2, env, e);
                },
                Some(Ok(_)) => {},
            }
        },
    }
}

} // verus!
