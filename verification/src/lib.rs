//! An embedded query language over an in-process tabular store.
//!
//! Raw query text is lexed into tokens, parsed into a statement with an
//! optional condition tree, and executed against a named database of
//! columnar tables.

pub mod db;
pub mod eval;
pub mod lexer;
pub mod parser;
pub mod store;
pub mod values;

pub use crate::db::{Database, DatabaseConfig, QueryResult};
pub use crate::eval::{EvalOut, Row};
pub use crate::lexer::{Lexer, Token};
pub use crate::parser::{Expression, ExpressionType, Operation, Parser, Query};
pub use crate::store::{Column, Table};
pub use crate::values::{Decimal, FieldType, FieldValue};

use vstd::prelude::*;

verus! {

/// Every way an operation of this crate can fail.
///
/// Nothing in the library panics or aborts: each fallible stage reports
/// one of these kinds to its caller.
#[derive(Clone, Copy, Debug, PartialEq, Eq, Structural)]
pub enum CoilError {
    // Arity errors on insertion.
    NotEnoughValues,
    TooManyValues,
    // Name conflicts and missing names.
    TableAlreadyExists,
    TableDoesntExist,
    DatabaseAlreadyExists,
    DatabaseDoesntExist,
    // Value/column and operand kind mismatches.
    MismatchedTypes,
    // Lexical errors.
    UnterminatedString,
    InvalidNumber,
    UnrecognizedCharacter,
    // Parse errors.
    UnexpectedToken,
    MissingDelimiter,
    MalformedColumnDeclaration,
    // Evaluation errors.
    UnknownField,
    MalformedExpression,
    NumericOverflow,
    DivisionByZero,
}

} // verus!
