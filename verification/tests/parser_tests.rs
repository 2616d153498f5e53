use coil::lexer::Lexer;
use coil::parser::{Expression, ExpressionType, Operation, Parser, Query};
use coil::values::{FieldType, FieldValue};
use coil::CoilError;

fn parse(src: &str) -> Result<Query, CoilError> {
    let mut lexer = Lexer::new();
    let toks = Lexer::lex(&mut lexer, src.to_string())?;
    let mut parser = Parser::new();
    Parser::parse(&mut parser, toks)
}

fn leaf_int(e: &Expression) -> i64 {
    match e.expression_type {
        ExpressionType::Integer(i) => i,
        _ => panic!("expected an integer leaf"),
    }
}

#[test]
fn multiplication_binds_tighter_than_addition() {
    // 1 + 2 * 3 must parse as Add(1, Multiply(2, 3)).
    let q = parse("GET * FROM t WHERE 1 + 2 * 3").unwrap();
    let cond = q.condition.expect("condition");
    assert_eq!(cond.expression_type, ExpressionType::Add);
    let l = cond.l_operand.expect("left");
    let r = cond.r_operand.expect("right");
    assert_eq!(leaf_int(&l), 1);
    assert_eq!(r.expression_type, ExpressionType::Multiply);
    assert_eq!(leaf_int(&r.l_operand.expect("rl")), 2);
    assert_eq!(leaf_int(&r.r_operand.expect("rr")), 3);
}

#[test]
fn addition_chains_are_left_associative() {
    // 1 - 2 + 3 must parse as Add(Subtract(1, 2), 3).
    let q = parse("GET * FROM t WHERE 1 - 2 + 3").unwrap();
    let cond = q.condition.expect("condition");
    assert_eq!(cond.expression_type, ExpressionType::Add);
    let l = cond.l_operand.expect("left");
    assert_eq!(l.expression_type, ExpressionType::Subtract);
    assert_eq!(leaf_int(&cond.r_operand.expect("right")), 3);
}

#[test]
fn parentheses_group_to_the_lowest_level() {
    // (1 + 2) * 3 must parse as Multiply(Add(1, 2), 3).
    let q = parse("GET * FROM t WHERE (1 + 2) * 3").unwrap();
    let cond = q.condition.expect("condition");
    assert_eq!(cond.expression_type, ExpressionType::Multiply);
    let l = cond.l_operand.expect("left");
    assert_eq!(l.expression_type, ExpressionType::Add);
    assert_eq!(leaf_int(&cond.r_operand.expect("right")), 3);
}

#[test]
fn parses_a_plain_get() {
    let q = parse("GET * FROM customers").unwrap();
    assert_eq!(q.operation, Operation::Get);
    assert_eq!(q.table, Some("customers".to_string()));
    assert!(q.condition.is_none());
}

#[test]
fn parses_a_put_with_every_literal_kind() {
    let q = parse("PUT [\"james\", 1, 2.5, none] IN customers").unwrap();
    assert_eq!(q.operation, Operation::Put);
    assert_eq!(q.table, Some("customers".to_string()));
    let vals = q.values.expect("values");
    assert_eq!(vals.len(), 4);
    assert_eq!(vals[0], FieldValue::Text("james".to_string()));
    assert_eq!(vals[1], FieldValue::Integer(1));
    match vals[2] {
        FieldValue::Float(d) => {
            assert_eq!(d.mantissa, 25);
            assert_eq!(d.scale, 1);
        },
        _ => panic!("expected a decimal"),
    }
    assert_eq!(vals[3], FieldValue::Null);
}

#[test]
fn parses_an_empty_put_list() {
    let q = parse("PUT [] IN t").unwrap();
    assert_eq!(q.values.expect("values").len(), 0);
}

#[test]
fn parses_create_table_with_columns() {
    let q = parse("CREATE TABLE customers [Name: TEXT, ID: NUMBER]").unwrap();
    assert_eq!(q.operation, Operation::Create);
    assert_eq!(q.table, Some("customers".to_string()));
    let cols = q.columns.expect("columns");
    assert_eq!(cols.len(), 2);
    assert_eq!(cols[0].name, "Name".to_string());
    assert_eq!(cols[0].field_type, FieldType::Text);
    assert_eq!(cols[1].name, "ID".to_string());
    assert_eq!(cols[1].field_type, FieldType::Number);
}

#[test]
fn parses_create_database() {
    let q = parse("CREATE DATABASE analytics").unwrap();
    assert_eq!(q.operation, Operation::Create);
    assert_eq!(q.database, Some("analytics".to_string()));
}

#[test]
fn parses_update_with_assignments_and_condition() {
    let q = parse("UPDATE customers [Name = \"jim\"] WHERE ID = 1").unwrap();
    assert_eq!(q.operation, Operation::Update);
    assert_eq!(q.table, Some("customers".to_string()));
    let asg = q.assignments.expect("assignments");
    assert_eq!(asg.len(), 1);
    assert_eq!(asg[0].0, "Name".to_string());
    assert_eq!(asg[0].1, FieldValue::Text("jim".to_string()));
    assert!(q.condition.is_some());
}

#[test]
fn parses_delete_table_and_database() {
    let q = parse("DELETE TABLE customers").unwrap();
    assert_eq!(q.operation, Operation::Delete);
    assert_eq!(q.table, Some("customers".to_string()));

    let q = parse("DELETE TABLE customers WHERE ID = 1").unwrap();
    assert!(q.condition.is_some());

    let q = parse("DELETE DATABASE business").unwrap();
    assert_eq!(q.database, Some("business".to_string()));
}

#[test]
fn grammar_violations_are_parse_errors() {
    assert_eq!(parse("FROM").err(), Some(CoilError::UnexpectedToken));
    assert_eq!(parse("GET FROM t").err(), Some(CoilError::UnexpectedToken));
    assert_eq!(parse("PUT [1, 2 IN t").err(), Some(CoilError::UnexpectedToken));
    assert_eq!(parse("PUT [1").err(), Some(CoilError::MissingDelimiter));
    assert_eq!(
        parse("CREATE TABLE t [Name TEXT]").err(),
        Some(CoilError::MalformedColumnDeclaration)
    );
    assert_eq!(parse("CREATE TABLE t").err(), Some(CoilError::MissingDelimiter));
    assert_eq!(
        parse("GET * FROM t WHERE (1 + 2").err(),
        Some(CoilError::MissingDelimiter)
    );
    // Trailing tokens after a complete statement are rejected.
    assert_eq!(parse("GET * FROM t t2").err(), Some(CoilError::UnexpectedToken));
}

#[test]
fn is_literal_recognizes_leaves_only() {
    assert!(ExpressionType::Integer(1).is_literal());
    assert!(ExpressionType::Null.is_literal());
    assert!(ExpressionType::Identifier("x".to_string()).is_literal());
    assert!(!ExpressionType::Add.is_literal());
    assert!(!ExpressionType::Not.is_literal());
}

#[test]
fn from_expression_type_maps_literals() {
    assert_eq!(
        FieldValue::from_expression_type(ExpressionType::Integer(3)),
        FieldValue::Integer(3)
    );
    assert_eq!(
        FieldValue::from_expression_type(ExpressionType::Text("a".to_string())),
        FieldValue::Text("a".to_string())
    );
    assert_eq!(
        FieldValue::from_expression_type(ExpressionType::Null),
        FieldValue::Null
    );
    // A non-literal tag has no value.
    assert_eq!(
        FieldValue::from_expression_type(ExpressionType::Add),
        FieldValue::Null
    );
}
