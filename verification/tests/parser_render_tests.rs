use leo_fold::ast::{Expression, Input, Operator, Program, Statement, Type, Value};
use leo_fold::error::CompilerError;
use leo_fold::optimizer::{add_u8, div_u8, eq_bool, gt_bool, lt_bool, mul_u8, sub_u8};
use leo_fold::parser::parse;
use leo_fold::render::{render, render_u8};

#[test]
fn parse_builds_the_expected_tree() {
    let p = parse("function main(a: u8, b: u8) {\n    let c = a + 1u8;\n}").unwrap();
    assert_eq!(
        p,
        Program {
            name: String::from("main"),
            inputs: vec![
                Input { name: String::from("a"), input_type: Type::U8 },
                Input { name: String::from("b"), input_type: Type::U8 },
            ],
            statements: vec![Statement::Assign {
                variable: String::from("c"),
                expression: Expression::Binary {
                    left: Value::Identifier(String::from("a")),
                    operator: Operator::Add,
                    right: Box::new(Expression::Value(Box::new(Value::Integer(1)))),
                },
            }],
        }
    );
}

#[test]
fn parse_accepts_empty_function() {
    let p = parse("function main() {\n}").unwrap();
    assert_eq!(p.name, "main");
    assert!(p.inputs.is_empty());
    assert!(p.statements.is_empty());
}

#[test]
fn parse_is_right_associative() {
    let p = parse("function main() { let a = 1u8 + 2u8 + 3u8; }").unwrap();
    match &p.statements[0] {
        Statement::Assign { expression, .. } => match expression {
            Expression::Binary { left, operator, right } => {
                assert_eq!(left, &Value::Integer(1));
                assert_eq!(operator, &Operator::Add);
                match &**right {
                    Expression::Binary { left, .. } => assert_eq!(left, &Value::Integer(2)),
                    other => panic!("unexpected right shape: {:?}", other),
                }
            },
            other => panic!("unexpected expression: {:?}", other),
        },
        other => panic!("unexpected statement: {:?}", other),
    }
}

#[test]
fn parse_nested_conditionals() {
    let p = parse(
        "function main(a: u8) { if a > 1u8 { if a > 2u8 { let b = 1u8; } else { } } else { let c = 2u8; } }",
    )
    .unwrap();
    match &p.statements[0] {
        Statement::If { statements_a, statements_b, .. } => {
            assert_eq!(statements_a.len(), 1);
            assert_eq!(statements_b.len(), 1);
            assert!(matches!(statements_a[0], Statement::If { .. }));
        },
        other => panic!("unexpected statement: {:?}", other),
    }
}

#[test]
fn parse_rejects_missing_header() {
    let err = parse("let a = 1u8;").unwrap_err();
    assert_eq!(err.at, 0);
}

#[test]
fn parse_rejects_oversized_literal() {
    assert!(parse("function main() { let a = 256u8; }").is_err());
    assert!(parse("function main() { let a = 999u8; }").is_err());
    assert!(parse("function main() { let a = 255u8; }").is_ok());
}

#[test]
fn parse_rejects_unknown_type() {
    assert!(parse("function main(a: u16) { }").is_err());
}

#[test]
fn parse_rejects_missing_suffix() {
    assert!(parse("function main() { let a = 1; }").is_err());
}

#[test]
fn parse_rejects_trailing_garbage() {
    assert!(parse("function main() { } extra").is_err());
}

#[test]
fn parse_rejects_single_equals_comparison() {
    assert!(parse("function main() { let a = 1u8 = 2u8; }").is_err());
}

#[test]
fn parse_reports_the_offending_position() {
    let err = parse("function main() { let a = ?; }").unwrap_err();
    assert_eq!(err.at, 26);
}

#[test]
fn render_round_trips_through_parse() {
    let source = "function main(a: u8) {\n    let b = a + 1u8;\n    if b > 2u8 {\n        let c = true;\n    } else {\n        let c = false;\n    }\n}";
    let p = parse(source).unwrap();
    let text = render(&p);
    assert_eq!(text, source);
    let p2 = parse(&text).unwrap();
    assert_eq!(p, p2);
}

#[test]
fn render_integers_with_suffix() {
    assert_eq!(render_u8(0), "0");
    assert_eq!(render_u8(7), "7");
    assert_eq!(render_u8(42), "42");
    assert_eq!(render_u8(255), "255");
    assert_eq!(render_u8(100), "100");
}

#[test]
fn render_shows_both_branches() {
    let p = parse("function main(a: u8) { if a > 1u8 { let b = 1u8; } else { } }").unwrap();
    let text = render(&p);
    assert_eq!(
        text,
        "function main(a: u8) {\n    if a > 1u8 {\n        let b = 1u8;\n    } else {\n    }\n}"
    );
}

#[test]
fn render_parenthesized_value() {
    let p = parse("function main() { let a = (b + 1u8) * 2u8; }").unwrap();
    assert_eq!(
        render(&p),
        "function main() {\n    let a = (b + 1u8) * 2u8;\n}"
    );
}

#[test]
fn operator_helpers_compute_checked_arithmetic() {
    assert_eq!(add_u8(Value::Integer(1), Value::Integer(2)), Ok(Value::Integer(3)));
    assert_eq!(
        add_u8(Value::Integer(255), Value::Integer(1)),
        Err(CompilerError::Overflow)
    );
    assert_eq!(sub_u8(Value::Integer(5), Value::Integer(2)), Ok(Value::Integer(3)));
    assert_eq!(
        sub_u8(Value::Integer(2), Value::Integer(5)),
        Err(CompilerError::Underflow)
    );
    assert_eq!(mul_u8(Value::Integer(8), Value::Integer(8)), Ok(Value::Integer(64)));
    assert_eq!(
        mul_u8(Value::Integer(64), Value::Integer(4)),
        Err(CompilerError::Overflow)
    );
    assert_eq!(div_u8(Value::Integer(9), Value::Integer(2)), Ok(Value::Integer(4)));
    assert_eq!(
        div_u8(Value::Integer(9), Value::Integer(0)),
        Err(CompilerError::DivByZero)
    );
}

#[test]
fn operator_helpers_compare_integers() {
    assert_eq!(gt_bool(Value::Integer(2), Value::Integer(1)), Ok(Value::Boolean(true)));
    assert_eq!(lt_bool(Value::Integer(2), Value::Integer(1)), Ok(Value::Boolean(false)));
    assert_eq!(eq_bool(Value::Integer(2), Value::Integer(2)), Ok(Value::Boolean(true)));
    assert_eq!(
        gt_bool(Value::Boolean(true), Value::Integer(1)),
        Err(CompilerError::MismatchType)
    );
}
