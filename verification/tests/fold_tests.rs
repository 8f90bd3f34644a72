use leo_fold::ast::{Expression, Input, Program, Statement, Type, Value};
use leo_fold::error::CompilerError;
use leo_fold::optimizer::{evaluate, fold, Env};
use leo_fold::parser::parse;
use leo_fold::render::render;

fn compile(source: &str) -> Result<String, CompilerError> {
    let program = parse(source).expect("parse failed");
    let folded = fold(program)?;
    Ok(render(&folded))
}

fn compile_err(source: &str) -> CompilerError {
    let program = parse(source).expect("parse failed");
    fold(program).expect_err("fold unexpectedly succeeded")
}

#[test]
fn test_basic() {
    let out = compile("function main(a: u8) {\n    let b = 1u8 + 2u8;\n}").unwrap();
    assert_eq!(out, "function main(a: u8) {\n    let b = 3u8;\n}");
}

#[test]
fn test_revert() {
    let out = compile(
        "function main() {\n    let a = 1u8 + 2u8;\n    let b = a - 2u8;\n}",
    )
    .unwrap();
    assert_eq!(out, "function main() {\n    let a = 3u8;\n    let b = 1u8;\n}");
}

#[test]
fn test_ident() {
    let out = compile("function main() {\n    let a = 1u8;\n    let b = a + 1u8;\n}").unwrap();
    assert_eq!(out, "function main() {\n    let a = 1u8;\n    let b = 2u8;\n}");
}

#[test]
fn test_subtract_underflow() {
    assert_eq!(
        compile_err("function main() {\n    let a = 1u8 - 2u8;\n}"),
        CompilerError::Underflow
    );
}

#[test]
fn test_add_overflow() {
    assert_eq!(
        compile_err("function main() {\n    let a = 255u8 + 1u8;\n}"),
        CompilerError::Overflow
    );
}

#[test]
fn test_div_zero() {
    assert_eq!(
        compile_err("function main() {\n    let a = 1u8 / 0u8;\n}"),
        CompilerError::DivByZero
    );
}

#[test]
fn test_mul_overflow() {
    assert_eq!(
        compile_err("function main() {\n    let a = 16u8 * 16u8;\n}"),
        CompilerError::Overflow
    );
}

#[test]
fn fold_is_idempotent_on_literal_programs() {
    let program = Program {
        name: String::from("main"),
        inputs: vec![Input { name: String::from("a"), input_type: Type::U8 }],
        statements: vec![
            Statement::Assign {
                variable: String::from("x"),
                expression: Expression::Value(Box::new(Value::Integer(7))),
            },
            Statement::Assign {
                variable: String::from("y"),
                expression: Expression::Value(Box::new(Value::Boolean(true))),
            },
        ],
    };
    let folded = fold(program.clone()).unwrap();
    assert_eq!(folded, program);
}

#[test]
fn fold_is_deterministic() {
    let source = "function main(a: u8) {\n    let b = 2u8 * 3u8;\n    let c = b > 5u8;\n}";
    let p1 = parse(source).unwrap();
    let p2 = parse(source).unwrap();
    let f1 = fold(p1).unwrap();
    let f2 = fold(p2).unwrap();
    assert_eq!(f1, f2);
    assert_eq!(render(&f1), render(&f2));
}

#[test]
fn arithmetic_exact_values() {
    assert_eq!(
        compile("function main() {\n    let a = 200u8 + 55u8;\n}").unwrap(),
        "function main() {\n    let a = 255u8;\n}"
    );
    assert_eq!(
        compile("function main() {\n    let a = 200u8 - 55u8;\n}").unwrap(),
        "function main() {\n    let a = 145u8;\n}"
    );
    assert_eq!(
        compile("function main() {\n    let a = 12u8 * 12u8;\n}").unwrap(),
        "function main() {\n    let a = 144u8;\n}"
    );
    assert_eq!(
        compile("function main() {\n    let a = 7u8 / 2u8;\n}").unwrap(),
        "function main() {\n    let a = 3u8;\n}"
    );
}

#[test]
fn comparison_exact_values() {
    assert_eq!(
        compile("function main() {\n    let a = 2u8 > 1u8;\n}").unwrap(),
        "function main() {\n    let a = true;\n}"
    );
    assert_eq!(
        compile("function main() {\n    let a = 2u8 < 1u8;\n}").unwrap(),
        "function main() {\n    let a = false;\n}"
    );
    assert_eq!(
        compile("function main() {\n    let a = 3u8 == 3u8;\n}").unwrap(),
        "function main() {\n    let a = true;\n}"
    );
    assert_eq!(
        compile("function main() {\n    let a = 3u8 == 4u8;\n}").unwrap(),
        "function main() {\n    let a = false;\n}"
    );
}

#[test]
fn boolean_operand_is_type_mismatch() {
    assert_eq!(
        compile_err("function main() {\n    let a = true + 1u8;\n}"),
        CompilerError::MismatchType
    );
    assert_eq!(
        compile_err("function main() {\n    let a = 1u8 + true;\n}"),
        CompilerError::MismatchType
    );
    assert_eq!(
        compile_err("function main() {\n    let a = true == false;\n}"),
        CompilerError::MismatchType
    );
}

#[test]
fn unresolved_identifier_passes_through() {
    let out = compile("function main() {\n    let b = a + 1u8;\n}").unwrap();
    assert_eq!(out, "function main() {\n    let b = a + 1u8;\n}");
}

#[test]
fn unresolved_assignment_binds_nothing() {
    let out = compile(
        "function main() {\n    let b = a + 1u8;\n    let c = b + 1u8;\n}",
    )
    .unwrap();
    assert_eq!(
        out,
        "function main() {\n    let b = a + 1u8;\n    let c = b + 1u8;\n}"
    );
}

#[test]
fn branch_elimination_true_keeps_then() {
    let out = compile(
        "function main() {\n    if 1u8 > 0u8 {\n        let a = 1u8;\n    } else {\n        let a = 2u8;\n    }\n}",
    )
    .unwrap();
    assert_eq!(out, "function main() {\n    let a = 1u8;\n}");
}

#[test]
fn branch_elimination_false_keeps_else() {
    let out = compile(
        "function main() {\n    if 1u8 < 0u8 {\n        let a = 1u8;\n    } else {\n        let a = 2u8;\n    }\n}",
    )
    .unwrap();
    assert_eq!(out, "function main() {\n    let a = 2u8;\n}");
}

#[test]
fn first_error_wins() {
    let err = compile_err(
        "function main() {\n    let a = 1u8;\n    let b = 255u8 + 1u8;\n    let c = 2u8;\n    let d = 3u8;\n    let e = 1u8 / 0u8;\n}",
    );
    assert_eq!(err, CompilerError::Overflow);
}

#[test]
fn parenthesized_literal_stays_unresolved() {
    let out = compile("function main() {\n    let a = (1u8 + 2u8);\n}").unwrap();
    assert_eq!(out, "function main() {\n    let a = (1u8 + 2u8);\n}");
}

#[test]
fn non_boolean_condition_is_type_mismatch() {
    assert_eq!(
        compile_err("function main() {\n    if 1u8 {\n    } else {\n    }\n}"),
        CompilerError::MismatchType
    );
}

#[test]
fn unresolved_condition_keeps_the_conditional() {
    let out = compile(
        "function main(a: u8) {\n    if a > 0u8 {\n        let b = 1u8;\n    } else {\n        let b = 2u8;\n    }\n}",
    )
    .unwrap();
    assert_eq!(
        out,
        "function main(a: u8) {\n    if a > 0u8 {\n        let b = 1u8;\n    } else {\n        let b = 2u8;\n    }\n}"
    );
}

#[test]
fn later_binding_overwrites_earlier() {
    let out = compile(
        "function main() {\n    let a = 1u8;\n    let a = 2u8;\n    let b = a;\n}",
    )
    .unwrap();
    assert_eq!(
        out,
        "function main() {\n    let a = 1u8;\n    let a = 2u8;\n    let b = 2u8;\n}"
    );
}

#[test]
fn spliced_statements_are_not_refolded() {
    let out = compile(
        "function main() {\n    if 1u8 == 1u8 {\n        let a = 1u8 + 1u8;\n    } else {\n    }\n}",
    )
    .unwrap();
    assert_eq!(out, "function main() {\n    let a = 1u8 + 1u8;\n}");
}

#[test]
fn evaluate_resolves_bound_identifier() {
    let mut env = Env::new();
    env.insert(String::from("a"), Value::Integer(4));
    let expr = Expression::Binary {
        left: Value::Identifier(String::from("a")),
        operator: leo_fold::ast::Operator::Multiply,
        right: Box::new(Expression::Value(Box::new(Value::Integer(3)))),
    };
    assert_eq!(evaluate(&expr, &env), Some(Ok(Value::Integer(12))));
}

#[test]
fn evaluate_unbound_identifier_is_unresolved() {
    let env = Env::new();
    let expr = Expression::Value(Box::new(Value::Identifier(String::from("a"))));
    assert_eq!(evaluate(&expr, &env), None);
}

#[test]
fn compiler_error_messages() {
    assert_eq!(
        CompilerError::Underflow.message(),
        "Integer underflow during evaluation"
    );
    assert_eq!(
        CompilerError::Overflow.message(),
        "Integer overflow during evaluation"
    );
    assert_eq!(
        CompilerError::DivByZero.message(),
        "Division by Zero during evaluation"
    );
    assert_eq!(
        CompilerError::MismatchType.message(),
        "Operation on mismatched types during evaluation"
    );
}
