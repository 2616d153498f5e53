use coil::eval::{EvalOut, Row};
use coil::lexer::Lexer;
use coil::parser::{Expression, Parser};
use coil::store::Column;
use coil::values::{Decimal, FieldType, FieldValue};
use coil::CoilError;

fn condition_of(src: &str) -> Expression {
    let mut lexer = Lexer::new();
    let toks = Lexer::lex(&mut lexer, format!("GET * FROM t WHERE {}", src)).unwrap();
    let mut parser = Parser::new();
    let q = Parser::parse(&mut parser, toks).unwrap();
    *q.condition.expect("condition")
}

fn sample_row() -> Row {
    let mut a = Column::new("A".to_string(), FieldType::Number);
    let mut b = Column::new("B".to_string(), FieldType::Number);
    let mut c = Column::new("C".to_string(), FieldType::Number);
    a.push(FieldValue::Integer(1)).unwrap();
    b.push(FieldValue::Integer(5)).unwrap();
    c.push(FieldValue::Integer(3)).unwrap();
    Row::from_columns(&vec![a, b, c], 0)
}

fn eval_value(src: &str) -> Result<FieldValue, CoilError> {
    let row = sample_row();
    match row.evaluate(&condition_of(src))? {
        EvalOut::Value(v) => Ok(v),
        EvalOut::Truth(_) => panic!("expected a value"),
    }
}

fn eval_truth(src: &str) -> Result<bool, CoilError> {
    sample_row().check_condition(&condition_of(src))
}

#[test]
fn nested_boolean_trees_evaluate_recursively() {
    // A = 1, B = 5, C = 3 in the sample row.
    assert_eq!(eval_truth("(A = 1 OR B = 2) AND C != 3"), Ok(false));
    assert_eq!(eval_truth("(A = 1 OR B = 2) AND C = 3"), Ok(true));
    assert_eq!(eval_truth("(A = 2 OR B = 5) AND C = 3"), Ok(true));
    assert_eq!(eval_truth("(A = 2 OR B = 2) AND C = 3"), Ok(false));
}

#[test]
fn logical_operators_work_on_truth_values() {
    // `not` binds at the unary level, so the comparison is grouped.
    assert_eq!(eval_truth("not (A = 1)"), Ok(false));
    assert_eq!(eval_truth("not (A = 2)"), Ok(true));
    assert_eq!(eval_truth("A = 1 xor B = 5"), Ok(false));
    assert_eq!(eval_truth("A = 1 xor B = 2"), Ok(true));
}

#[test]
fn arithmetic_evaluates_with_exact_values() {
    assert_eq!(eval_value("1 + 2 * 3"), Ok(FieldValue::Integer(7)));
    assert_eq!(eval_value("2 ^ 10"), Ok(FieldValue::Integer(1024)));
    assert_eq!(eval_value("7 % 3"), Ok(FieldValue::Integer(1)));
    assert_eq!(eval_value("- 5"), Ok(FieldValue::Integer(-5)));
    assert_eq!(eval_value("A + B"), Ok(FieldValue::Integer(6)));
}

#[test]
fn division_promotes_to_a_decimal() {
    // 1 / 2 is exactly 0.5, held at nine fraction digits.
    assert_eq!(
        eval_value("1 / 2"),
        Ok(FieldValue::Float(Decimal { mantissa: 500000000, scale: 9 }))
    );
    // 1 / 3 truncates toward zero at nine fraction digits.
    assert_eq!(
        eval_value("1 / 3"),
        Ok(FieldValue::Float(Decimal { mantissa: 333333333, scale: 9 }))
    );
}

#[test]
fn decimal_arithmetic_is_exact() {
    // 1.5 + 2 = 3.5 at one fraction digit.
    assert_eq!(
        eval_value("1.5 + 2"),
        Ok(FieldValue::Float(Decimal { mantissa: 35, scale: 1 }))
    );
    // 0.1 + 0.2 = 0.3 exactly.
    assert_eq!(
        eval_value("0.1 + 0.2"),
        Ok(FieldValue::Float(Decimal { mantissa: 3, scale: 1 }))
    );
    // 1.5 * 1.5 = 2.25.
    assert_eq!(
        eval_value("1.5 * 1.5"),
        Ok(FieldValue::Float(Decimal { mantissa: 225, scale: 2 }))
    );
}

#[test]
fn decimal_comparisons_are_numeric() {
    assert_eq!(eval_truth("1.50 = 1.5"), Ok(true));
    assert_eq!(eval_truth("1 < 1.5"), Ok(true));
    assert_eq!(eval_truth("2.5 > 2"), Ok(true));
    assert_eq!(eval_truth("\"abc\" < \"abd\""), Ok(true));
    assert_eq!(eval_truth("\"ab\" <= \"ab\""), Ok(true));
}

#[test]
fn equality_is_structural_per_kind() {
    // An integer and a decimal are never equal, though they order numerically.
    assert_eq!(eval_truth("1 = 1.0"), Ok(false));
    assert_eq!(eval_truth("none = none"), Ok(true));
    assert_eq!(eval_truth("none = 1"), Ok(false));
    assert_eq!(eval_truth("\"1\" = 1"), Ok(false));
}

#[test]
fn incompatible_comparisons_are_errors_not_false() {
    assert_eq!(eval_truth("\"a\" < 1"), Err(CoilError::MismatchedTypes));
    assert_eq!(eval_truth("none < 1"), Err(CoilError::MismatchedTypes));
    assert_eq!(eval_truth("\"a\" + 1"), Err(CoilError::MismatchedTypes));
}

#[test]
fn numeric_faults_are_reported() {
    assert_eq!(eval_value("1 / 0"), Err(CoilError::DivisionByZero));
    assert_eq!(eval_value("1 % 0"), Err(CoilError::DivisionByZero));
    assert_eq!(
        eval_value("9223372036854775807 + 1"),
        Err(CoilError::NumericOverflow)
    );
    assert_eq!(eval_value("2 ^ 64"), Err(CoilError::NumericOverflow));
}

#[test]
fn unknown_fields_are_eval_errors() {
    assert_eq!(eval_truth("Missing = 1"), Err(CoilError::UnknownField));
}

#[test]
fn row_lookup_finds_fields_by_name() {
    let row = sample_row();
    assert_eq!(row.get("A"), Some(&FieldValue::Integer(1)));
    assert_eq!(row.get("B"), Some(&FieldValue::Integer(5)));
    assert_eq!(row.get("Nope"), None);
}

#[test]
fn values_render_as_text() {
    assert_eq!(FieldValue::Null.to_string(), "None".to_string());
    assert_eq!(FieldValue::Text("hi".to_string()).to_string(), "hi");
    assert_eq!(FieldValue::Integer(0).to_string(), "0");
    assert_eq!(FieldValue::Integer(-42).to_string(), "-42");
    assert_eq!(FieldValue::Integer(i64::MIN).to_string(), "-9223372036854775808");
    assert_eq!(
        FieldValue::Float(Decimal { mantissa: 1250, scale: 2 }).to_string(),
        "12.50"
    );
    assert_eq!(
        FieldValue::Float(Decimal { mantissa: -105, scale: 2 }).to_string(),
        "-1.05"
    );
    assert_eq!(
        FieldValue::Float(Decimal { mantissa: 7, scale: 0 }).to_string(),
        "7"
    );
    assert_eq!(
        FieldValue::Float(Decimal { mantissa: 3, scale: 3 }).to_string(),
        "0.003"
    );
}

#[test]
fn type_compatibility_follows_column_types() {
    assert!(FieldType::Number.check_field_value_type(&FieldValue::Integer(1)));
    assert!(FieldType::Number.check_field_value_type(&FieldValue::Float(Decimal {
        mantissa: 1,
        scale: 0
    })));
    assert!(FieldType::Number.check_field_value_type(&FieldValue::Null));
    assert!(!FieldType::Number.check_field_value_type(&FieldValue::Text("x".to_string())));
    assert!(FieldType::Text.check_field_value_type(&FieldValue::Text("x".to_string())));
    assert!(!FieldType::Text.check_field_value_type(&FieldValue::Integer(1)));
}
