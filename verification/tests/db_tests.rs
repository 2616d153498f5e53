use coil::db::{Database, DatabaseConfig};
use coil::lexer::Lexer;
use coil::store::{Column, Table};
use coil::parser::{Operation, Parser};
use coil::values::{FieldType, FieldValue};
use coil::CoilError;

fn run(db: &mut Database, src: &str) -> Result<coil::db::QueryResult, CoilError> {
    let mut lexer = Lexer::new();
    let toks = Lexer::lex(&mut lexer, src.to_string())?;
    let mut parser = Parser::new();
    let q = Parser::parse(&mut parser, toks)?;
    db.run_query(q)
}

fn fresh_db() -> Database {
    Database::new("business".to_string(), DatabaseConfig::default())
}

#[test]
fn create_put_get_returns_the_inserted_row() {
    let mut db = fresh_db();
    run(&mut db, "CREATE TABLE customers [Name: TEXT, ID: NUMBER]").unwrap();
    run(&mut db, "PUT [\"james\", 1] IN customers").unwrap();
    let res = run(&mut db, "GET * FROM customers").unwrap();
    assert_eq!(res.operation, Operation::Get);
    let rows = res.rows.expect("rows");
    assert_eq!(rows.len(), 1);
    assert_eq!(rows[0].get("Name"), Some(&FieldValue::Text("james".to_string())));
    assert_eq!(rows[0].get("ID"), Some(&FieldValue::Integer(1)));
}

#[test]
fn where_filters_preserve_insertion_order() {
    let mut db = fresh_db();
    run(&mut db, "CREATE TABLE customers [Name: TEXT, ID: NUMBER]").unwrap();
    run(&mut db, "PUT [\"james\", 1] IN customers").unwrap();
    run(&mut db, "PUT [\"jim\", 2] IN customers").unwrap();
    run(&mut db, "PUT [\"jimmy\", 3] IN customers").unwrap();
    let res = run(&mut db, "GET * FROM customers WHERE ID > 1").unwrap();
    let rows = res.rows.expect("rows");
    assert_eq!(rows.len(), 2);
    assert_eq!(rows[0].get("ID"), Some(&FieldValue::Integer(2)));
    assert_eq!(rows[0].get("Name"), Some(&FieldValue::Text("jim".to_string())));
    assert_eq!(rows[1].get("ID"), Some(&FieldValue::Integer(3)));
    assert_eq!(rows[1].get("Name"), Some(&FieldValue::Text("jimmy".to_string())));
}

#[test]
fn duplicate_table_creation_conflicts_and_leaves_the_table_alone() {
    let mut db = fresh_db();
    run(&mut db, "CREATE TABLE customers [Name: TEXT, ID: NUMBER]").unwrap();
    run(&mut db, "PUT [\"james\", 1] IN customers").unwrap();
    let err = run(&mut db, "CREATE TABLE customers [Other: TEXT]");
    assert_eq!(err.err(), Some(CoilError::TableAlreadyExists));
    // The existing table is unmodified.
    let res = run(&mut db, "GET * FROM customers").unwrap();
    let rows = res.rows.expect("rows");
    assert_eq!(rows.len(), 1);
    assert_eq!(rows[0].get("Name"), Some(&FieldValue::Text("james".to_string())));
}

#[test]
fn insertion_is_arity_checked_and_atomic() {
    let mut db = fresh_db();
    run(&mut db, "CREATE TABLE customers [Name: TEXT, ID: NUMBER]").unwrap();
    assert_eq!(
        run(&mut db, "PUT [\"james\"] IN customers").err(),
        Some(CoilError::NotEnoughValues)
    );
    assert_eq!(
        run(&mut db, "PUT [\"james\", 1, 2] IN customers").err(),
        Some(CoilError::TooManyValues)
    );
    assert_eq!(
        run(&mut db, "PUT [\"james\", \"oops\"] IN customers").err(),
        Some(CoilError::MismatchedTypes)
    );
    // No partial state was left behind by any failure.
    let res = run(&mut db, "GET * FROM customers").unwrap();
    assert_eq!(res.rows.expect("rows").len(), 0);
}

#[test]
fn null_is_compatible_with_every_column() {
    let mut db = fresh_db();
    run(&mut db, "CREATE TABLE t [Name: TEXT, ID: NUMBER]").unwrap();
    run(&mut db, "PUT [none, none] IN t").unwrap();
    let res = run(&mut db, "GET * FROM t").unwrap();
    let rows = res.rows.expect("rows");
    assert_eq!(rows[0].get("Name"), Some(&FieldValue::Null));
}

#[test]
fn missing_tables_are_not_found() {
    let mut db = fresh_db();
    assert_eq!(
        run(&mut db, "GET * FROM nowhere").err(),
        Some(CoilError::TableDoesntExist)
    );
    assert_eq!(
        run(&mut db, "PUT [1] IN nowhere").err(),
        Some(CoilError::TableDoesntExist)
    );
}

#[test]
fn update_rewrites_matching_rows_only() {
    let mut db = fresh_db();
    run(&mut db, "CREATE TABLE customers [Name: TEXT, ID: NUMBER]").unwrap();
    run(&mut db, "PUT [\"james\", 1] IN customers").unwrap();
    run(&mut db, "PUT [\"jim\", 2] IN customers").unwrap();
    run(&mut db, "UPDATE customers [Name = \"lord\"] WHERE ID = 2").unwrap();
    let res = run(&mut db, "GET * FROM customers").unwrap();
    let rows = res.rows.expect("rows");
    assert_eq!(rows[0].get("Name"), Some(&FieldValue::Text("james".to_string())));
    assert_eq!(rows[1].get("Name"), Some(&FieldValue::Text("lord".to_string())));
}

#[test]
fn update_without_a_match_affects_zero_rows() {
    let mut db = fresh_db();
    run(&mut db, "CREATE TABLE customers [Name: TEXT, ID: NUMBER]").unwrap();
    run(&mut db, "PUT [\"james\", 1] IN customers").unwrap();
    // No match is not an error.
    run(&mut db, "UPDATE customers [Name = \"x\"] WHERE ID = 9").unwrap();
    let res = run(&mut db, "GET * FROM customers").unwrap();
    let rows = res.rows.expect("rows");
    assert_eq!(rows[0].get("Name"), Some(&FieldValue::Text("james".to_string())));
}

#[test]
fn update_validates_names_and_types_before_changing_anything() {
    let mut db = fresh_db();
    run(&mut db, "CREATE TABLE customers [Name: TEXT, ID: NUMBER]").unwrap();
    run(&mut db, "PUT [\"james\", 1] IN customers").unwrap();
    assert_eq!(
        run(&mut db, "UPDATE customers [Nope = 1] WHERE ID = 1").err(),
        Some(CoilError::UnknownField)
    );
    assert_eq!(
        run(&mut db, "UPDATE customers [Name = 7] WHERE ID = 1").err(),
        Some(CoilError::MismatchedTypes)
    );
    let res = run(&mut db, "GET * FROM customers").unwrap();
    assert_eq!(
        res.rows.expect("rows")[0].get("Name"),
        Some(&FieldValue::Text("james".to_string()))
    );
}

#[test]
fn delete_removes_matching_rows_or_the_whole_table() {
    let mut db = fresh_db();
    run(&mut db, "CREATE TABLE customers [Name: TEXT, ID: NUMBER]").unwrap();
    run(&mut db, "PUT [\"james\", 1] IN customers").unwrap();
    run(&mut db, "PUT [\"jim\", 2] IN customers").unwrap();
    run(&mut db, "PUT [\"jimmy\", 3] IN customers").unwrap();
    run(&mut db, "DELETE TABLE customers WHERE ID < 3").unwrap();
    let res = run(&mut db, "GET * FROM customers").unwrap();
    let rows = res.rows.expect("rows");
    assert_eq!(rows.len(), 1);
    assert_eq!(rows[0].get("ID"), Some(&FieldValue::Integer(3)));

    run(&mut db, "DELETE TABLE customers").unwrap();
    assert_eq!(
        run(&mut db, "GET * FROM customers").err(),
        Some(CoilError::TableDoesntExist)
    );
}

#[test]
fn database_contexts_are_registered_and_removed_by_name() {
    let mut db = fresh_db();
    run(&mut db, "CREATE DATABASE analytics").unwrap();
    assert_eq!(
        run(&mut db, "CREATE DATABASE analytics").err(),
        Some(CoilError::DatabaseAlreadyExists)
    );
    // The database's own name conflicts too.
    assert_eq!(
        run(&mut db, "CREATE DATABASE business").err(),
        Some(CoilError::DatabaseAlreadyExists)
    );
    run(&mut db, "DELETE DATABASE analytics").unwrap();
    assert_eq!(
        run(&mut db, "DELETE DATABASE analytics").err(),
        Some(CoilError::DatabaseDoesntExist)
    );
}

#[test]
fn deleting_the_own_database_empties_it() {
    let mut db = fresh_db();
    run(&mut db, "CREATE TABLE t [ID: NUMBER]").unwrap();
    run(&mut db, "DELETE DATABASE business").unwrap();
    assert_eq!(
        run(&mut db, "GET * FROM t").err(),
        Some(CoilError::TableDoesntExist)
    );
}

#[test]
fn direct_store_api_matches_the_query_surface() {
    let mut db = fresh_db();
    let cols = vec![
        Column::new("Name".to_string(), FieldType::Text),
        Column::new("ID".to_string(), FieldType::Number),
    ];
    db.new_table("customers".to_string(), cols).unwrap();
    assert!(db.get_table("customers".to_string()).is_some());
    assert!(db.get_table("nowhere".to_string()).is_none());

    let mut t = Table::new(
        "x".to_string(),
        vec![Column::new("N".to_string(), FieldType::Number)],
    );
    assert_eq!(t.new_row(vec![FieldValue::Integer(9)]), None);
    assert_eq!(
        t.new_row(vec![FieldValue::Text("no".to_string())]),
        Some(CoilError::MismatchedTypes)
    );
    assert_eq!(t.new_row(vec![]), Some(CoilError::NotEnoughValues));
    let rows = t.get_rows(None).unwrap();
    assert_eq!(rows.len(), 1);
    assert_eq!(rows[0].get("N"), Some(&FieldValue::Integer(9)));
}

#[test]
fn a_condition_that_is_not_boolean_is_a_type_error() {
    let mut db = fresh_db();
    run(&mut db, "CREATE TABLE t [ID: NUMBER]").unwrap();
    run(&mut db, "PUT [1] IN t").unwrap();
    assert_eq!(
        run(&mut db, "GET * FROM t WHERE 1 + 1").err(),
        Some(CoilError::MismatchedTypes)
    );
}
