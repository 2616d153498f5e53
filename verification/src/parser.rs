//! Recursive-descent parsing: a token sequence to a query statement with
//! an optional condition tree.
//!
//! The grammar is stated by the `sp_parse_*` specification functions over
//! the token models; every `Parser` method is proved to return exactly
//! what they say, or the specified parse error. Expression operators
//! bind, loosest first: `or`/`xor`, `and`, `= !=`, `< <= > >=`, `+ -`,
//! `* / ^ %`, unary `not + -`, then literals, identifiers and
//! parenthesized groups.

use vstd::prelude::*;

use crate::CoilError;
use crate::lexer::{tok_vw, tok_wf, Token, TokenV};
use crate::store::{col_vw, ColV, Column};
use crate::values::{val_vw, val_wf, Decimal, FieldType, FieldValue, ValV, MAX_SCALE};

verus! {

/// The statement kind of a query.
#[derive(Clone, Copy, Debug, PartialEq, Eq, Structural)]
pub enum Operation {
    Get,
    Put,
    Update,
    Create,
    Delete,
}

/// The tag of one expression node: an operator or a literal.
#[derive(Clone, Debug, PartialEq)]
pub enum ExpressionType {
    // Unary
    Not,
    Negate,
    Positive,
    // Binary
    Equal,
    NotEqual,
    LessThan,
    LessThanOrEqual,
    GreaterThan,
    GreaterThanOrEqual,
    And,
    Or,
    Xor,
    // Arithmetic
    Add,
    Subtract,
    Multiply,
    Divide,
    Power,
    Modulus,
    // Literals
    Integer(i64),
    Float(Decimal),
    Text(String),
    Null,
    Identifier(String),
}

/// An owned expression tree node. Literal nodes use neither operand;
/// unary nodes use `l_operand` only; binary nodes use both.
#[derive(Debug)]
pub struct Expression {
    pub expression_type: ExpressionType,
    pub l_operand: Option<Box<Expression>>,
    pub r_operand: Option<Box<Expression>>,
}

/// A parsed statement.
#[derive(Debug)]
pub struct Query {
    pub operation: Operation,
    pub database: Option<String>,
    pub table: Option<String>,
    pub values: Option<Vec<FieldValue>>,
    pub columns: Option<Vec<Column>>,
    pub assignments: Option<Vec<(String, FieldValue)>>,
    pub condition: Option<Box<Expression>>,
}

// ---------------------------------------------------------------------
// Models.
pub enum LeafV {
    Null,
    Int(i64),
    Dec(Decimal),
    Text(Seq<char>),
    Ident(Seq<char>),
}

pub enum UnOpV {
    Not,
    Neg,
    Pos,
}

pub enum BinOpV {
    Eq,
    Ne,
    Lt,
    Le,
    Gt,
    Ge,
    And,
    Or,
    Xor,
    Add,
    Sub,
    Mul,
    Div,
    Pow,
    Mod,
}

/// The mathematical model of an [`Expression`]: a node whose operand
/// shape does not fit its tag is `Bad`.
pub enum ExprV {
    Leaf(LeafV),
    Unary(UnOpV, Box<ExprV>),
    Binary(BinOpV, Box<ExprV>, Box<ExprV>),
    Bad,
}

pub open spec fn leaf_of(t: ExpressionType) -> Option<LeafV> {
    match t {
        ExpressionType::Null => Some(LeafV::Null),
        ExpressionType::Integer(i) => Some(LeafV::Int(i)),
        ExpressionType::Float(d) => Some(LeafV::Dec(d)),
        ExpressionType::Text(s) => Some(LeafV::Text(s@)),
        ExpressionType::Identifier(s) => Some(LeafV::Ident(s@)),
        _ => None,
    }
}

pub open spec fn un_op_of(t: ExpressionType) -> Option<UnOpV> {
    match t {
        ExpressionType::Not => Some(UnOpV::Not),
        ExpressionType::Negate => Some(UnOpV::Neg),
        ExpressionType::Positive => Some(UnOpV::Pos),
        _ => None,
    }
}

pub open spec fn bin_op_of(t: ExpressionType) -> Option<BinOpV> {
    match t {
        ExpressionType::Equal => Some(BinOpV::Eq),
        ExpressionType::NotEqual => Some(BinOpV::Ne),
        ExpressionType::LessThan => Some(BinOpV::Lt),
        ExpressionType::LessThanOrEqual => Some(BinOpV::Le),
        ExpressionType::GreaterThan => Some(BinOpV::Gt),
        ExpressionType::GreaterThanOrEqual => Some(BinOpV::Ge),
        ExpressionType::And => Some(BinOpV::And),
        ExpressionType::Or => Some(BinOpV::Or),
        ExpressionType::Xor => Some(BinOpV::Xor),
        ExpressionType::Add => Some(BinOpV::Add),
        ExpressionType::Subtract => Some(BinOpV::Sub),
        ExpressionType::Multiply => Some(BinOpV::Mul),
        ExpressionType::Divide => Some(BinOpV::Div),
        ExpressionType::Power => Some(BinOpV::Pow),
        ExpressionType::Modulus => Some(BinOpV::Mod),
        _ => None,
    }
}

pub open spec fn expr_vw(e: Expression) -> ExprV
    decreases e,
{
    match leaf_of(e.expression_type) {
        Some(l) => ExprV::Leaf(l),
        None => match un_op_of(e.expression_type) {
            Some(op) => match e.l_operand {
                Some(b) => ExprV::Unary(op, Box::new(expr_vw(*b))),
                None => ExprV::Bad,
            },
            None => match bin_op_of(e.expression_type) {
                Some(op) => match (e.l_operand, e.r_operand) {
                    (Some(l), Some(r)) => ExprV::Binary(
                        op,
                        Box::new(expr_vw(*l)),
                        Box::new(expr_vw(*r)),
                    ),
                    _ => ExprV::Bad,
                },
                None => ExprV::Bad,
            },
        },
    }
}

/// Every decimal literal in the tree is within scale bounds.
pub open spec fn expr_wf(e: Expression) -> bool
    decreases e,
{
    &&& match e.expression_type {
        ExpressionType::Float(d) => d.scale <= MAX_SCALE,
        _ => true,
    }
    &&& match e.l_operand {
        Some(b) => expr_wf(*b),
        None => true,
    }
    &&& match e.r_operand {
        Some(b) => expr_wf(*b),
        None => true,
    }
}

/// The mathematical model of a [`Query`].
pub struct QueryV {
    pub operation: Operation,
    pub database: Option<Seq<char>>,
    pub table: Option<Seq<char>>,
    pub values: Option<Seq<ValV>>,
    pub columns: Option<Seq<ColV>>,
    pub assignments: Option<Seq<(Seq<char>, ValV)>>,
    pub condition: Option<ExprV>,
}

pub open spec fn query_vw(q: Query) -> QueryV {
    QueryV {
        operation: q.operation,
        database: match q.database {
            Some(s) => Some(s@),
            None => None,
        },
        table: match q.table {
            Some(s) => Some(s@),
            None => None,
        },
        values: match q.values {
            Some(v) => Some(v@.map_values(|x: FieldValue| val_vw(x))),
            None => None,
        },
        columns: match q.columns {
            Some(c) => Some(c@.map_values(|x: Column| col_vw(x))),
            None => None,
        },
        assignments: match q.assignments {
            Some(v) => Some(v@.map_values(|p: (String, FieldValue)| (p.0@, val_vw(p.1)))),
            None => None,
        },
        condition: match q.condition {
            Some(b) => Some(expr_vw(*b)),
            None => None,
        },
    }
}

pub open spec fn query_wf(q: Query) -> bool {
    &&& match q.values {
        Some(v) => forall|k: int| 0 <= k < v@.len() ==> val_wf(#[trigger] v@[k]),
        None => true,
    }
    &&& match q.columns {
        Some(c) => forall|k: int|
            0 <= k < c@.len() ==> crate::store::col_wf(#[trigger] c@[k]) && c@[k].rows@.len() == 0,
        None => true,
    }
    &&& match q.assignments {
        Some(v) => forall|k: int| 0 <= k < v@.len() ==> val_wf((#[trigger] v@[k]).1),
        None => true,
    }
    &&& match q.condition {
        Some(b) => expr_wf(*b),
        None => true,
    }
}

pub open spec fn sp_query_new(op: Operation) -> QueryV {
    QueryV {
        operation: op,
        database: None,
        table: None,
        values: None,
        columns: None,
        assignments: None,
        condition: None,
    }
}

/// The field value a literal token denotes, if it is a literal.
pub open spec fn lit_val(t: TokenV) -> Option<ValV> {
    match t {
        TokenV::Integer(i) => Some(ValV::Int(i as int)),
        TokenV::Float(d) => Some(ValV::Dec(d.mantissa as int, d.scale as nat)),
        TokenV::Text(s) => Some(ValV::Text(s)),
        TokenV::Null => Some(ValV::Null),
        _ => None,
    }
}

// ---------------------------------------------------------------------
// Expression grammar, by precedence level. Each function takes the
// token models and a position and returns the parsed node and the
// position after it.
pub open spec fn sp_parse_or(s: Seq<TokenV>, i: int) -> Result<(ExprV, int), CoilError>
    decreases s.len() - i, 13int,
{
    match sp_parse_and(s, i) {
        Err(e) => Err(e),
        Ok((l, j)) => if i < j <= s.len() {
            sp_or_rest(s, l, j)
        } else {
            Err(CoilError::UnexpectedToken)
        },
    }
}

pub open spec fn sp_or_rest(s: Seq<TokenV>, l: ExprV, i: int) -> Result<(ExprV, int), CoilError>
    decreases s.len() - i, 12int,
{
    if i >= s.len() || !(s[i] is Or || s[i] is Xor) {
        Ok((l, i))
    } else {
        let op = if s[i] is Or {
            BinOpV::Or
        } else {
            BinOpV::Xor
        };
        match sp_parse_and(s, i + 1) {
            Err(e) => Err(e),
            Ok((r, j)) => if i < j <= s.len() {
                sp_or_rest(s, ExprV::Binary(op, Box::new(l), Box::new(r)), j)
            } else {
                Err(CoilError::UnexpectedToken)
            },
        }
    }
}

pub open spec fn sp_parse_and(s: Seq<TokenV>, i: int) -> Result<(ExprV, int), CoilError>
    decreases s.len() - i, 11int,
{
    match sp_parse_eq(s, i) {
        Err(e) => Err(e),
        Ok((l, j)) => if i < j <= s.len() {
            sp_and_rest(s, l, j)
        } else {
            Err(CoilError::UnexpectedToken)
        },
    }
}

pub open spec fn sp_and_rest(s: Seq<TokenV>, l: ExprV, i: int) -> Result<(ExprV, int), CoilError>
    decreases s.len() - i, 10int,
{
    if i >= s.len() || !(s[i] is And) {
        Ok((l, i))
    } else {
        match sp_parse_eq(s, i + 1) {
            Err(e) => Err(e),
            Ok((r, j)) => if i < j <= s.len() {
                sp_and_rest(s, ExprV::Binary(BinOpV::And, Box::new(l), Box::new(r)), j)
            } else {
                Err(CoilError::UnexpectedToken)
            },
        }
    }
}

pub open spec fn sp_parse_eq(s: Seq<TokenV>, i: int) -> Result<(ExprV, int), CoilError>
    decreases s.len() - i, 9int,
{
    match sp_parse_cmp(s, i) {
        Err(e) => Err(e),
        Ok((l, j)) => if i < j <= s.len() {
            sp_eq_rest(s, l, j)
        } else {
            Err(CoilError::UnexpectedToken)
        },
    }
}

pub open spec fn sp_eq_rest(s: Seq<TokenV>, l: ExprV, i: int) -> Result<(ExprV, int), CoilError>
    decreases s.len() - i, 8int,
{
    if i >= s.len() || !(s[i] is Equal || s[i] is NotEqual) {
        Ok((l, i))
    } else {
        let op = if s[i] is Equal {
            BinOpV::Eq
        } else {
            BinOpV::Ne
        };
        match sp_parse_cmp(s, i + 1) {
            Err(e) => Err(e),
            Ok((r, j)) => if i < j <= s.len() {
                sp_eq_rest(s, ExprV::Binary(op, Box::new(l), Box::new(r)), j)
            } else {
                Err(CoilError::UnexpectedToken)
            },
        }
    }
}

pub open spec fn sp_parse_cmp(s: Seq<TokenV>, i: int) -> Result<(ExprV, int), CoilError>
    decreases s.len() - i, 7int,
{
    match sp_parse_term(s, i) {
        Err(e) => Err(e),
        Ok((l, j)) => if i < j <= s.len() {
            sp_cmp_rest(s, l, j)
        } else {
            Err(CoilError::UnexpectedToken)
        },
    }
}

pub open spec fn is_cmp_op(t: TokenV) -> bool {
    t is LessThan || t is LessThanOrEqual || t is GreaterThan || t is GreaterThanOrEqual
}

pub open spec fn sp_cmp_rest(s: Seq<TokenV>, l: ExprV, i: int) -> Result<(ExprV, int), CoilError>
    decreases s.len() - i, 6int,
{
    if i >= s.len() || !is_cmp_op(s[i]) {
        Ok((l, i))
    } else {
        let op = if s[i] is LessThan {
            BinOpV::Lt
        } else if s[i] is LessThanOrEqual {
            BinOpV::Le
        } else if s[i] is GreaterThan {
            BinOpV::Gt
        } else {
            BinOpV::Ge
        };
        match sp_parse_term(s, i + 1) {
            Err(e) => Err(e),
            Ok((r, j)) => if i < j <= s.len() {
                sp_cmp_rest(s, ExprV::Binary(op, Box::new(l), Box::new(r)), j)
            } else {
                Err(CoilError::UnexpectedToken)
            },
        }
    }
}

pub open spec fn sp_parse_term(s: Seq<TokenV>, i: int) -> Result<(ExprV, int), CoilError>
    decreases s.len() - i, 5int,
{
    match sp_parse_factor(s, i) {
        Err(e) => Err(e),
        Ok((l, j)) => if i < j <= s.len() {
            sp_term_rest(s, l, j)
        } else {
            Err(CoilError::UnexpectedToken)
        },
    }
}

pub open spec fn sp_term_rest(s: Seq<TokenV>, l: ExprV, i: int) -> Result<(ExprV, int), CoilError>
    decreases s.len() - i, 4int,
{
    if i >= s.len() || !(s[i] is Add || s[i] is Subtract) {
        Ok((l, i))
    } else {
        let op = if s[i] is Add {
            BinOpV::Add
        } else {
            BinOpV::Sub
        };
        match sp_parse_factor(s, i + 1) {
            Err(e) => Err(e),
            Ok((r, j)) => if i < j <= s.len() {
                sp_term_rest(s, ExprV::Binary(op, Box::new(l), Box::new(r)), j)
            } else {
                Err(CoilError::UnexpectedToken)
            },
        }
    }
}

pub open spec fn sp_parse_factor(s: Seq<TokenV>, i: int) -> Result<(ExprV, int), CoilError>
    decreases s.len() - i, 3int,
{
    match sp_parse_unary(s, i) {
        Err(e) => Err(e),
        Ok((l, j)) => if i < j <= s.len() {
            sp_factor_rest(s, l, j)
        } else {
            Err(CoilError::UnexpectedToken)
        },
    }
}

pub open spec fn is_factor_op(t: TokenV) -> bool {
    t is Star || t is Divide || t is Power || t is Modulus
}

pub open spec fn sp_factor_rest(s: Seq<TokenV>, l: ExprV, i: int) -> Result<
    (ExprV, int),
    CoilError,
>
    decreases s.len() - i, 2int,
{
    if i >= s.len() || !is_factor_op(s[i]) {
        Ok((l, i))
    } else {
        let op = if s[i] is Star {
            BinOpV::Mul
        } else if s[i] is Divide {
            BinOpV::Div
        } else if s[i] is Power {
            BinOpV::Pow
        } else {
            BinOpV::Mod
        };
        match sp_parse_unary(s, i + 1) {
            Err(e) => Err(e),
            Ok((r, j)) => if i < j <= s.len() {
                sp_factor_rest(s, ExprV::Binary(op, Box::new(l), Box::new(r)), j)
            } else {
                Err(CoilError::UnexpectedToken)
            },
        }
    }
}

pub open spec fn sp_parse_unary(s: Seq<TokenV>, i: int) -> Result<(ExprV, int), CoilError>
    decreases s.len() - i, 1int,
{
    if 0 <= i < s.len() && (s[i] is Not || s[i] is Add || s[i] is Subtract) {
        let op = if s[i] is Not {
            UnOpV::Not
        } else if s[i] is Add {
            UnOpV::Pos
        } else {
            UnOpV::Neg
        };
        match sp_parse_unary(s, i + 1) {
            Err(e) => Err(e),
            Ok((e, j)) => Ok((ExprV::Unary(op, Box::new(e)), j)),
        }
    } else {
        sp_parse_primary(s, i)
    }
}

pub open spec fn sp_parse_primary(s: Seq<TokenV>, i: int) -> Result<(ExprV, int), CoilError>
    decreases s.len() - i, 0int,
{
    if !(0 <= i < s.len()) {
        Err(CoilError::UnexpectedToken)
    } else {
        match s[i] {
            TokenV::Null => Ok((ExprV::Leaf(LeafV::Null), i + 1)),
            TokenV::Integer(v) => Ok((ExprV::Leaf(LeafV::Int(v)), i + 1)),
            TokenV::Float(d) => Ok((ExprV::Leaf(LeafV::Dec(d)), i + 1)),
            TokenV::Text(x) => Ok((ExprV::Leaf(LeafV::Text(x)), i + 1)),
            TokenV::Identifier(x) => Ok((ExprV::Leaf(LeafV::Ident(x)), i + 1)),
            TokenV::LeftParenthesis => match sp_parse_or(s, i + 1) {
                Err(e) => Err(e),
                Ok((e, j)) => if i < j <= s.len() {
                    if j < s.len() && s[j] is RightParenthesis {
                        Ok((e, j + 1))
                    } else {
                        Err(CoilError::MissingDelimiter)
                    }
                } else {
                    Err(CoilError::UnexpectedToken)
                },
            },
            _ => Err(CoilError::UnexpectedToken),
        }
    }
}

// ---------------------------------------------------------------------
// Statement grammar.
/// Literal list of a PUT statement, after the opening bracket.
pub open spec fn sp_put_values(s: Seq<TokenV>, i: int, acc: Seq<ValV>) -> Result<
    (Seq<ValV>, int),
    CoilError,
>
    decreases s.len() - i,
{
    if i < 0 || i >= s.len() {
        Err(CoilError::MissingDelimiter)
    } else if s[i] is RightBracket {
        Ok((acc, i + 1))
    } else if acc.len() == 0 {
        match lit_val(s[i]) {
            Some(v) => sp_put_values(s, i + 1, seq![v]),
            None => Err(CoilError::UnexpectedToken),
        }
    } else if s[i] is Comma {
        if i + 1 < s.len() {
            match lit_val(s[i + 1]) {
                Some(v) => sp_put_values(s, i + 2, acc.push(v)),
                None => Err(CoilError::UnexpectedToken),
            }
        } else {
            Err(CoilError::MissingDelimiter)
        }
    } else {
        Err(CoilError::UnexpectedToken)
    }
}

/// One `name: TYPE` column declaration.
pub open spec fn sp_col_decl(s: Seq<TokenV>, i: int) -> Result<(ColV, int), CoilError> {
    if 0 <= i && i + 2 < s.len() && s[i] is Identifier && s[i + 1] is Colon && (s[i
        + 2] is NumberType || s[i + 2] is TextType) {
        let typ = if s[i + 2] is NumberType {
            FieldType::Number
        } else {
            FieldType::Text
        };
        Ok((ColV { name: s[i]->Identifier_0, typ, vals: Seq::empty() }, i + 3))
    } else {
        Err(CoilError::MalformedColumnDeclaration)
    }
}

/// Column list of a CREATE TABLE statement, after the opening bracket.
pub open spec fn sp_cols(s: Seq<TokenV>, i: int, acc: Seq<ColV>) -> Result<
    (Seq<ColV>, int),
    CoilError,
>
    decreases s.len() - i,
{
    if i < 0 || i >= s.len() {
        Err(CoilError::MissingDelimiter)
    } else if s[i] is RightBracket {
        Ok((acc, i + 1))
    } else if acc.len() == 0 {
        match sp_col_decl(s, i) {
            Ok((c, _)) => sp_cols(s, i + 3, acc.push(c)),
            Err(e) => Err(e),
        }
    } else if s[i] is Comma {
        match sp_col_decl(s, i + 1) {
            Ok((c, _)) => sp_cols(s, i + 4, acc.push(c)),
            Err(e) => Err(e),
        }
    } else {
        Err(CoilError::UnexpectedToken)
    }
}

/// Assignment list of an UPDATE statement, after the opening bracket.
pub open spec fn sp_assigns(s: Seq<TokenV>, i: int, acc: Seq<(Seq<char>, ValV)>) -> Result<
    (Seq<(Seq<char>, ValV)>, int),
    CoilError,
>
    decreases s.len() - i,
{
    if i < 0 || i >= s.len() {
        Err(CoilError::MissingDelimiter)
    } else if s[i] is RightBracket {
        Ok((acc, i + 1))
    } else if acc.len() == 0 {
        match sp_assign_decl(s, i) {
            Ok((a, _)) => sp_assigns(s, i + 3, acc.push(a)),
            Err(e) => Err(e),
        }
    } else if s[i] is Comma {
        match sp_assign_decl(s, i + 1) {
            Ok((a, _)) => sp_assigns(s, i + 4, acc.push(a)),
            Err(e) => Err(e),
        }
    } else {
        Err(CoilError::UnexpectedToken)
    }
}

/// One `name = literal` assignment.
pub open spec fn sp_assign_decl(s: Seq<TokenV>, i: int) -> Result<((Seq<char>, ValV), int), CoilError> {
    if 0 <= i && i + 2 < s.len() && s[i] is Identifier && s[i + 1] is Equal && lit_val(
        s[i + 2],
    ) is Some {
        Ok(((s[i]->Identifier_0, lit_val(s[i + 2])->Some_0), i + 3))
    } else {
        Err(CoilError::UnexpectedToken)
    }
}

/// `GET '*' FROM <table> (WHERE <expr>)?`
pub open spec fn sp_parse_get(s: Seq<TokenV>, i: int) -> Result<(QueryV, int), CoilError> {
    if 0 <= i && i + 2 < s.len() && s[i] is Star && s[i + 1] is From && s[i + 2] is Identifier {
        let q = QueryV { table: Some(s[i + 2]->Identifier_0), ..sp_query_new(Operation::Get) };
        if i + 3 < s.len() && s[i + 3] is Where {
            match sp_parse_or(s, i + 4) {
                Ok((e, j)) => Ok((QueryV { condition: Some(e), ..q }, j)),
                Err(er) => Err(er),
            }
        } else {
            Ok((q, i + 3))
        }
    } else {
        Err(CoilError::UnexpectedToken)
    }
}

/// `PUT '[' literals ']' IN <table>`
pub open spec fn sp_parse_put(s: Seq<TokenV>, i: int) -> Result<(QueryV, int), CoilError> {
    if 0 <= i < s.len() && s[i] is LeftBracket {
        match sp_put_values(s, i + 1, Seq::empty()) {
            Err(e) => Err(e),
            Ok((vals, j)) => if j + 1 < s.len() && s[j] is In && s[j + 1] is Identifier {
                Ok(
                    (
                        QueryV {
                            table: Some(s[j + 1]->Identifier_0),
                            values: Some(vals),
                            ..sp_query_new(Operation::Put)
                        },
                        j + 2,
                    ),
                )
            } else {
                Err(CoilError::UnexpectedToken)
            },
        }
    } else {
        Err(CoilError::UnexpectedToken)
    }
}

/// `CREATE DATABASE <name> | CREATE TABLE <name> '[' columns ']'`
pub open spec fn sp_parse_create(s: Seq<TokenV>, i: int) -> Result<(QueryV, int), CoilError> {
    if 0 <= i && i + 1 < s.len() && s[i + 1] is Identifier {
        let name = s[i + 1]->Identifier_0;
        if s[i] is Database {
            Ok((QueryV { database: Some(name), ..sp_query_new(Operation::Create) }, i + 2))
        } else if s[i] is Table {
            if i + 2 < s.len() && s[i + 2] is LeftBracket {
                match sp_cols(s, i + 3, Seq::empty()) {
                    Ok((cols, j)) => Ok(
                        (
                            QueryV {
                                table: Some(name),
                                columns: Some(cols),
                                ..sp_query_new(Operation::Create)
                            },
                            j,
                        ),
                    ),
                    Err(e) => Err(e),
                }
            } else {
                Err(CoilError::MissingDelimiter)
            }
        } else {
            Err(CoilError::UnexpectedToken)
        }
    } else {
        Err(CoilError::UnexpectedToken)
    }
}

/// `UPDATE <table> '[' assignments ']' (WHERE <expr>)?`
pub open spec fn sp_parse_update(s: Seq<TokenV>, i: int) -> Result<(QueryV, int), CoilError> {
    if 0 <= i && i + 1 < s.len() && s[i] is Identifier && s[i + 1] is LeftBracket {
        let name = s[i]->Identifier_0;
        match sp_assigns(s, i + 2, Seq::empty()) {
            Err(e) => Err(e),
            Ok((asg, j)) => {
                let q = QueryV {
                    table: Some(name),
                    assignments: Some(asg),
                    ..sp_query_new(Operation::Update)
                };
                if j < s.len() && s[j] is Where {
                    match sp_parse_or(s, j + 1) {
                        Ok((e, j2)) => Ok((QueryV { condition: Some(e), ..q }, j2)),
                        Err(er) => Err(er),
                    }
                } else {
                    Ok((q, j))
                }
            },
        }
    } else {
        Err(CoilError::UnexpectedToken)
    }
}

/// `DELETE DATABASE <name> | DELETE TABLE <name> (WHERE <expr>)?`
pub open spec fn sp_parse_delete(s: Seq<TokenV>, i: int) -> Result<(QueryV, int), CoilError> {
    if 0 <= i && i + 1 < s.len() && s[i + 1] is Identifier {
        let name = s[i + 1]->Identifier_0;
        if s[i] is Database {
            Ok((QueryV { database: Some(name), ..sp_query_new(Operation::Delete) }, i + 2))
        } else if s[i] is Table {
            let q = QueryV { table: Some(name), ..sp_query_new(Operation::Delete) };
            if i + 2 < s.len() && s[i + 2] is Where {
                match sp_parse_or(s, i + 3) {
                    Ok((e, j)) => Ok((QueryV { condition: Some(e), ..q }, j)),
                    Err(er) => Err(er),
                }
            } else {
                Ok((q, i + 2))
            }
        } else {
            Err(CoilError::UnexpectedToken)
        }
    } else {
        Err(CoilError::UnexpectedToken)
    }
}

/// One statement, dispatched on its first token.
pub open spec fn sp_parse_query(s: Seq<TokenV>, i: int) -> Result<(QueryV, int), CoilError> {
    if !(0 <= i < s.len()) {
        Err(CoilError::UnexpectedToken)
    } else {
        match s[i] {
            TokenV::Get => sp_parse_get(s, i + 1),
            TokenV::Put => sp_parse_put(s, i + 1),
            TokenV::Update => sp_parse_update(s, i + 1),
            TokenV::Create => sp_parse_create(s, i + 1),
            TokenV::Delete => sp_parse_delete(s, i + 1),
            _ => Err(CoilError::UnexpectedToken),
        }
    }
}

/// A whole input: one statement and nothing after it.
pub open spec fn sp_parse(s: Seq<TokenV>) -> Result<QueryV, CoilError> {
    match sp_parse_query(s, 0) {
        Err(e) => Err(e),
        Ok((q, j)) => if j == s.len() {
            Ok(q)
        } else {
            Err(CoilError::UnexpectedToken)
        },
    }
}

// ---------------------------------------------------------------------
// Executable parser.
impl ExpressionType {
    /// Whether this tag is a literal or identifier leaf.
    pub fn is_literal(&self) -> (r: bool)
        ensures
            r == (leaf_of(*self) is Some),
    {
        matches!(
            self,
            ExpressionType::Integer(_) | ExpressionType::Float(_) | ExpressionType::Text(_)
                | ExpressionType::Null | ExpressionType::Identifier(_)
        )
    }
}

impl FieldValue {
    /// The field value a literal leaf denotes; any other tag gives `Null`.
    pub fn from_expression_type(expression_type: ExpressionType) -> (r: FieldValue)
        ensures
            val_vw(r) == (match leaf_of(expression_type) {
                Some(LeafV::Int(i)) => ValV::Int(i as int),
                Some(LeafV::Dec(d)) => ValV::Dec(d.mantissa as int, d.scale as nat),
                Some(LeafV::Text(s)) => ValV::Text(s),
                _ => ValV::Null,
            }),
    {
        match expression_type {
            ExpressionType::Null => FieldValue::Null,
            ExpressionType::Text(s) => FieldValue::Text(s),
            ExpressionType::Integer(n) => FieldValue::Integer(n),
            ExpressionType::Float(d) => FieldValue::Float(d),
            _ => FieldValue::Null,
        }
    }
}

/// The value a literal token carries, if it is a literal.
fn token_literal(t: &Token) -> (r: Option<FieldValue>)
    requires
        tok_wf(*t),
    ensures
        match r {
            Some(v) => lit_val(tok_vw(*t)) == Some(val_vw(v)) && val_wf(v),
            None => lit_val(tok_vw(*t)) is None,
        },
{
    match t {
        Token::Integer(i) => Some(FieldValue::Integer(*i)),
        Token::Float(d) => Some(FieldValue::Float(*d)),
        Token::Text(s) => Some(FieldValue::Text(s.clone())),
        Token::Null => Some(FieldValue::Null),
        _ => None,
    }
}

/// Token-sequence cursor of the parser.
pub struct Parser {
    tokens: Vec<Token>,
    pos: usize,
}

/// The token models the parser walks over.
spec fn tv(p: Parser) -> Seq<TokenV> {
    p.tokens@.map_values(|t: Token| tok_vw(t))
}

/// Tokens are well formed and the cursor is within bounds.
pub closed spec fn parser_wf(p: Parser) -> bool {
    &&& forall|k: int| 0 <= k < p.tokens@.len() ==> tok_wf(#[trigger] p.tokens@[k])
    &&& p.pos <= p.tokens@.len()
}

/// Whether an exec expression result matches its model.
spec fn expr_matches(
    r: Result<Expression, CoilError>,
    s: Result<(ExprV, int), CoilError>,
    endpos: int,
) -> bool {
    match r {
        Ok(e) => s == Result::<(ExprV, int), CoilError>::Ok((expr_vw(e), endpos)) && expr_wf(e),
        Err(er) => s == Result::<(ExprV, int), CoilError>::Err(er),
    }
}

/// Whether an exec statement result matches its model.
spec fn stmt_matches(
    r: Result<Query, CoilError>,
    s: Result<(QueryV, int), CoilError>,
    endpos: int,
) -> bool {
    match r {
        Ok(q) => s == Result::<(QueryV, int), CoilError>::Ok((query_vw(q), endpos)) && query_wf(q),
        Err(er) => s == Result::<(QueryV, int), CoilError>::Err(er),
    }
}

impl Query {
    /// An empty statement of the given kind.
    pub fn new(operation: Operation) -> (r: Query)
        ensures
            query_vw(r) == sp_query_new(operation),
            query_wf(r),
            r.operation == operation,
            r.database is None && r.table is None && r.values is None && r.columns is None
                && r.assignments is None && r.condition is None,
    {
        Query {
            operation,
            database: None,
            table: None,
            values: None,
            columns: None,
            assignments: None,
            condition: None,
        }
    }
}

impl Parser {
    /// A parser with no tokens yet.
    pub fn new() -> (r: Parser)
        ensures
            parser_wf(r),
    {
        Parser { tokens: Vec::new(), pos: 0 }
    }

    /// Parses one whole statement, exactly as [`sp_parse`] describes,
    /// or reports the specified parse error.
    pub fn parse(parser: &mut Parser, tokens: Vec<Token>) -> (r: Result<Query, CoilError>)
        requires
            forall|k: int| 0 <= k < tokens@.len() ==> tok_wf(#[trigger] tokens@[k]),
        ensures
            match r {
                Ok(q) => sp_parse(tokens@.map_values(|t: Token| tok_vw(t))) == Result::<
                    QueryV,
                    CoilError,
                >::Ok(query_vw(q)) && query_wf(q),
                Err(e) => sp_parse(tokens@.map_values(|t: Token| tok_vw(t))) == Result::<
                    QueryV,
                    CoilError,
                >::Err(e),
            },
    {
        parser.tokens = tokens;
        parser.pos = 0;
        let q = match parser.parse_query() {
            Ok(q) => q,
            Err(e) => {
                return Err(e);
            },
        };
        if parser.pos == parser.tokens.len() {
            Ok(q)
        } else {
            Err(CoilError::UnexpectedToken)
        }
    }

    /// Dispatches on the statement keyword.
    #[verifier::rlimit(100)]
    fn parse_query(&mut self) -> (r: Result<Query, CoilError>)
        requires
            parser_wf(*old(self)),
        ensures
            final(self).tokens == old(self).tokens,
            parser_wf(*final(self)),
            old(self).pos <= final(self).pos,
            stmt_matches(
                r,
                sp_parse_query(tv(*old(self)), old(self).pos as int),
                final(self).pos as int,
            ),
    {
        if self.pos >= self.tokens.len() {
            return Err(CoilError::UnexpectedToken);
        }
        if matches!(&self.tokens[self.pos], Token::Get) {
            self.pos = self.pos + 1;
            self.parse_get_query()
        } else if matches!(&self.tokens[self.pos], Token::Put) {
            self.pos = self.pos + 1;
            self.parse_put_query()
        } else if matches!(&self.tokens[self.pos], Token::Update) {
            self.pos = self.pos + 1;
            self.parse_update_query()
        } else if matches!(&self.tokens[self.pos], Token::Create) {
            self.pos = self.pos + 1;
            self.parse_create_query()
        } else if matches!(&self.tokens[self.pos], Token::Delete) {
            self.pos = self.pos + 1;
            self.parse_delete_query()
        } else {
            Err(CoilError::UnexpectedToken)
        }
    }

    /// `'*' FROM <table> (WHERE <expr>)?`, after the GET keyword.
    #[verifier::rlimit(100)]
    fn parse_get_query(&mut self) -> (r: Result<Query, CoilError>)
        requires
            parser_wf(*old(self)),
        ensures
            final(self).tokens == old(self).tokens,
            parser_wf(*final(self)),
            old(self).pos <= final(self).pos,
            stmt_matches(
                r,
                sp_parse_get(tv(*old(self)), old(self).pos as int),
                final(self).pos as int,
            ),
    {
        let s_len = self.tokens.len();
        if s_len - self.pos > 2 && matches!(&self.tokens[self.pos], Token::Star) && matches!(
            &self.tokens[self.pos + 1],
            Token::From,
        ) {
            let name: Option<String> = match &self.tokens[self.pos + 2] {
                Token::Identifier(nm) => Some(nm.clone()),
                _ => None,
            };
            match name {
                Some(nm) => {
                    let mut q = Query::new(Operation::Get);
                    q.table = Some(nm);
                    if s_len - self.pos > 3 && matches!(&self.tokens[self.pos + 3], Token::Where) {
                        self.pos = self.pos + 4;
                        match self.parse_or() {
                            Ok(e) => {
                                q.condition = Some(Box::new(e));
                                Ok(q)
                            },
                            Err(er) => Err(er),
                        }
                    } else {
                        self.pos = self.pos + 3;
                        Ok(q)
                    }
                },
                None => Err(CoilError::UnexpectedToken),
            }
        } else {
            Err(CoilError::UnexpectedToken)
        }
    }

    /// `'[' literals ']' IN <table>`, after the PUT keyword.
    #[verifier::rlimit(100)]
    fn parse_put_query(&mut self) -> (r: Result<Query, CoilError>)
        requires
            parser_wf(*old(self)),
        ensures
            final(self).tokens == old(self).tokens,
            parser_wf(*final(self)),
            old(self).pos <= final(self).pos,
            stmt_matches(
                r,
                sp_parse_put(tv(*old(self)), old(self).pos as int),
                final(self).pos as int,
            ),
    {
        let s_len = self.tokens.len();
        if self.pos < s_len && matches!(&self.tokens[self.pos], Token::LeftBracket) {
            self.pos = self.pos + 1;
            let empty_acc: Vec<FieldValue> = Vec::new();
            proof {
                assert(empty_acc@.map_values(|x: FieldValue| val_vw(x)) =~= Seq::<ValV>::empty());
            }
            let vals = match self.put_values(empty_acc) {
                Ok(v) => v,
                Err(er) => {
                    return Err(er);
                },
            };
            let s_len2 = self.tokens.len();
            if s_len2 - self.pos > 1 && matches!(&self.tokens[self.pos], Token::In) {
                let name: Option<String> = match &self.tokens[self.pos + 1] {
                    Token::Identifier(nm) => Some(nm.clone()),
                    _ => None,
                };
                match name {
                    Some(nm) => {
                        let mut q = Query::new(Operation::Put);
                        q.table = Some(nm);
                        q.values = Some(vals);
                        self.pos = self.pos + 2;
                        Ok(q)
                    },
                    None => Err(CoilError::UnexpectedToken),
                }
            } else {
                Err(CoilError::UnexpectedToken)
            }
        } else {
            Err(CoilError::UnexpectedToken)
        }
    }

    /// Literal list of a PUT statement, after the opening bracket.
    fn put_values(&mut self, acc: Vec<FieldValue>) -> (r: Result<Vec<FieldValue>, CoilError>)
        requires
            parser_wf(*old(self)),
            forall|k: int| 0 <= k < acc@.len() ==> val_wf(#[trigger] acc@[k]),
        ensures
            final(self).tokens == old(self).tokens,
            parser_wf(*final(self)),
            old(self).pos <= final(self).pos,
            match r {
                Ok(v) => sp_put_values(
                    tv(*old(self)),
                    old(self).pos as int,
                    acc@.map_values(|x: FieldValue| val_vw(x)),
                ) == Result::<(Seq<ValV>, int), CoilError>::Ok(
                    (v@.map_values(|x: FieldValue| val_vw(x)), final(self).pos as int),
                ) && (forall|k: int| 0 <= k < v@.len() ==> val_wf(#[trigger] v@[k])),
                Err(er) => sp_put_values(
                    tv(*old(self)),
                    old(self).pos as int,
                    acc@.map_values(|x: FieldValue| val_vw(x)),
                ) == Result::<(Seq<ValV>, int), CoilError>::Err(er),
            },
        decreases self.tokens@.len() - self.pos,
    {
        let s_len = self.tokens.len();
        if self.pos >= s_len {
            return Err(CoilError::MissingDelimiter);
        }
        if matches!(&self.tokens[self.pos], Token::RightBracket) {
            self.pos = self.pos + 1;
            return Ok(acc);
        }
        if acc.len() == 0 {
            match token_literal(&self.tokens[self.pos]) {
                Some(v) => {
                    let mut acc2 = acc;
                    acc2.push(v);
                    self.pos = self.pos + 1;
                    proof {
                        assert(acc2@.map_values(|x: FieldValue| val_vw(x)) =~= seq![
                            val_vw(acc2@[0]),
                        ]);
                    }
                    self.put_values(acc2)
                },
                None => Err(CoilError::UnexpectedToken),
            }
        } else if matches!(&self.tokens[self.pos], Token::Comma) {
            if s_len - self.pos > 1 {
                match token_literal(&self.tokens[self.pos + 1]) {
                    Some(v) => {
                        let ghost pre = acc@.map_values(|x: FieldValue| val_vw(x));
                        let ghost vv = val_vw(v);
                        let mut acc2 = acc;
                        acc2.push(v);
                        self.pos = self.pos + 2;
                        proof {
                            assert(acc2@.map_values(|x: FieldValue| val_vw(x)) =~= pre.push(vv));
                        }
                        self.put_values(acc2)
                    },
                    None => Err(CoilError::UnexpectedToken),
                }
            } else {
                Err(CoilError::MissingDelimiter)
            }
        } else {
            Err(CoilError::UnexpectedToken)
        }
    }

    /// `DATABASE <name> | TABLE <name> '[' columns ']'`, after CREATE.
    #[verifier::rlimit(100)]
    fn parse_create_query(&mut self) -> (r: Result<Query, CoilError>)
        requires
            parser_wf(*old(self)),
        ensures
            final(self).tokens == old(self).tokens,
            parser_wf(*final(self)),
            old(self).pos <= final(self).pos,
            stmt_matches(
                r,
                sp_parse_create(tv(*old(self)), old(self).pos as int),
                final(self).pos as int,
            ),
    {
        let s_len = self.tokens.len();
        if s_len - self.pos > 1 {
            let name: Option<String> = match &self.tokens[self.pos + 1] {
                Token::Identifier(nm) => Some(nm.clone()),
                _ => None,
            };
            match name {
                Some(nm) => {
                    if matches!(&self.tokens[self.pos], Token::Database) {
                        let mut q = Query::new(Operation::Create);
                        q.database = Some(nm);
                        self.pos = self.pos + 2;
                        Ok(q)
                    } else if matches!(&self.tokens[self.pos], Token::Table) {
                        if s_len - self.pos > 2 && matches!(
                            &self.tokens[self.pos + 2],
                            Token::LeftBracket,
                        ) {
                            self.pos = self.pos + 3;
                            let empty_acc: Vec<Column> = Vec::new();
                            proof {
                                assert(empty_acc@.map_values(|x: Column| col_vw(x)) =~= Seq::<
                                    ColV,
                                >::empty());
                            }
                            let cols = match self.parse_cols(empty_acc) {
                                Ok(c) => c,
                                Err(er) => {
                                    return Err(er);
                                },
                            };
                            let mut q = Query::new(Operation::Create);
                            q.table = Some(nm);
                            q.columns = Some(cols);
                            Ok(q)
                        } else {
                            Err(CoilError::MissingDelimiter)
                        }
                    } else {
                        Err(CoilError::UnexpectedToken)
                    }
                },
                None => Err(CoilError::UnexpectedToken),
            }
        } else {
            Err(CoilError::UnexpectedToken)
        }
    }

    /// One `name: TYPE` column declaration.
    fn col_decl(&mut self) -> (r: Result<Column, CoilError>)
        requires
            parser_wf(*old(self)),
        ensures
            final(self).tokens == old(self).tokens,
            parser_wf(*final(self)),
            old(self).pos <= final(self).pos,
            match r {
                Ok(c) => sp_col_decl(tv(*old(self)), old(self).pos as int) == Result::<
                    (ColV, int),
                    CoilError,
                >::Ok((col_vw(c), final(self).pos as int)) && crate::store::col_wf(c)
                    && c.rows@.len() == 0 && final(self).pos == old(self).pos + 3,
                Err(er) => sp_col_decl(tv(*old(self)), old(self).pos as int) == Result::<
                    (ColV, int),
                    CoilError,
                >::Err(er) && final(self).pos == old(self).pos,
            },
    {
        let s_len = self.tokens.len();
        if s_len - self.pos > 2 && matches!(&self.tokens[self.pos + 1], Token::Colon) {
            let name: Option<String> = match &self.tokens[self.pos] {
                Token::Identifier(nm) => Some(nm.clone()),
                _ => None,
            };
            match name {
                Some(nm) => {
                    if matches!(&self.tokens[self.pos + 2], Token::NumberType) {
                        self.pos = self.pos + 3;
                        Ok(Column::new(nm, FieldType::Number))
                    } else if matches!(&self.tokens[self.pos + 2], Token::TextType) {
                        self.pos = self.pos + 3;
                        Ok(Column::new(nm, FieldType::Text))
                    } else {
                        Err(CoilError::MalformedColumnDeclaration)
                    }
                },
                None => Err(CoilError::MalformedColumnDeclaration),
            }
        } else {
            Err(CoilError::MalformedColumnDeclaration)
        }
    }

    /// Column list of a CREATE TABLE statement, after the opening bracket.
    fn parse_cols(&mut self, acc: Vec<Column>) -> (r: Result<Vec<Column>, CoilError>)
        requires
            parser_wf(*old(self)),
            forall|k: int|
                0 <= k < acc@.len() ==> crate::store::col_wf(#[trigger] acc@[k])
                    && acc@[k].rows@.len() == 0,
        ensures
            final(self).tokens == old(self).tokens,
            parser_wf(*final(self)),
            old(self).pos <= final(self).pos,
            match r {
                Ok(v) => sp_cols(
                    tv(*old(self)),
                    old(self).pos as int,
                    acc@.map_values(|x: Column| col_vw(x)),
                ) == Result::<(Seq<ColV>, int), CoilError>::Ok(
                    (v@.map_values(|x: Column| col_vw(x)), final(self).pos as int),
                ) && (forall|k: int|
                    0 <= k < v@.len() ==> crate::store::col_wf(#[trigger] v@[k])
                        && v@[k].rows@.len() == 0),
                Err(er) => sp_cols(
                    tv(*old(self)),
                    old(self).pos as int,
                    acc@.map_values(|x: Column| col_vw(x)),
                ) == Result::<(Seq<ColV>, int), CoilError>::Err(er),
            },
        decreases self.tokens@.len() - self.pos,
    {
        let s_len = self.tokens.len();
        if self.pos >= s_len {
            return Err(CoilError::MissingDelimiter);
        }
        if matches!(&self.tokens[self.pos], Token::RightBracket) {
            self.pos = self.pos + 1;
            return Ok(acc);
        }
        if acc.len() == 0 {
            match self.col_decl() {
                Ok(c) => {
                    let ghost pre = acc@.map_values(|x: Column| col_vw(x));
                    let ghost cv = col_vw(c);
                    let mut acc2 = acc;
                    acc2.push(c);
                    proof {
                        assert(acc2@.map_values(|x: Column| col_vw(x)) =~= pre.push(cv));
                    }
                    self.parse_cols(acc2)
                },
                Err(er) => Err(er),
            }
        } else if matches!(&self.tokens[self.pos], Token::Comma) {
            self.pos = self.pos + 1;
            match self.col_decl() {
                Ok(c) => {
                    let ghost pre = acc@.map_values(|x: Column| col_vw(x));
                    let ghost cv = col_vw(c);
                    let mut acc2 = acc;
                    acc2.push(c);
                    proof {
                        assert(acc2@.map_values(|x: Column| col_vw(x)) =~= pre.push(cv));
                    }
                    self.parse_cols(acc2)
                },
                Err(er) => Err(er),
            }
        } else {
            Err(CoilError::UnexpectedToken)
        }
    }

    /// `<table> '[' assignments ']' (WHERE <expr>)?`, after UPDATE.
    #[verifier::rlimit(100)]
    fn parse_update_query(&mut self) -> (r: Result<Query, CoilError>)
        requires
            parser_wf(*old(self)),
        ensures
            final(self).tokens == old(self).tokens,
            parser_wf(*final(self)),
            old(self).pos <= final(self).pos,
            stmt_matches(
                r,
                sp_parse_update(tv(*old(self)), old(self).pos as int),
                final(self).pos as int,
            ),
    {
        let s_len = self.tokens.len();
        if s_len - self.pos > 1 && matches!(&self.tokens[self.pos + 1], Token::LeftBracket) {
            let name: Option<String> = match &self.tokens[self.pos] {
                Token::Identifier(nm) => Some(nm.clone()),
                _ => None,
            };
            match name {
                Some(nm) => {
                    self.pos = self.pos + 2;
                    let empty_acc: Vec<(String, FieldValue)> = Vec::new();
                    proof {
                        assert(empty_acc@.map_values(|p: (String, FieldValue)| (p.0@, val_vw(p.1)))
                            =~= Seq::<(Seq<char>, ValV)>::empty());
                    }
                    let asg = match self.parse_assigns(empty_acc) {
                        Ok(a) => a,
                        Err(er) => {
                            return Err(er);
                        },
                    };
                    let mut q = Query::new(Operation::Update);
                    q.table = Some(nm);
                    q.assignments = Some(asg);
                    let s_len2 = self.tokens.len();
                    if self.pos < s_len2 && matches!(&self.tokens[self.pos], Token::Where) {
                        self.pos = self.pos + 1;
                        match self.parse_or() {
                            Ok(e) => {
                                q.condition = Some(Box::new(e));
                                Ok(q)
                            },
                            Err(er) => Err(er),
                        }
                    } else {
                        Ok(q)
                    }
                },
                None => Err(CoilError::UnexpectedToken),
            }
        } else {
            Err(CoilError::UnexpectedToken)
        }
    }

    /// Assignment list of an UPDATE statement, after the opening bracket.
    fn parse_assigns(&mut self, acc: Vec<(String, FieldValue)>) -> (r: Result<
        Vec<(String, FieldValue)>,
        CoilError,
    >)
        requires
            parser_wf(*old(self)),
            forall|k: int| 0 <= k < acc@.len() ==> val_wf((#[trigger] acc@[k]).1),
        ensures
            final(self).tokens == old(self).tokens,
            parser_wf(*final(self)),
            old(self).pos <= final(self).pos,
            match r {
                Ok(v) => sp_assigns(
                    tv(*old(self)),
                    old(self).pos as int,
                    acc@.map_values(|p: (String, FieldValue)| (p.0@, val_vw(p.1))),
                ) == Result::<(Seq<(Seq<char>, ValV)>, int), CoilError>::Ok(
                    (
                        v@.map_values(|p: (String, FieldValue)| (p.0@, val_vw(p.1))),
                        final(self).pos as int,
                    ),
                ) && (forall|k: int| 0 <= k < v@.len() ==> val_wf((#[trigger] v@[k]).1)),
                Err(er) => sp_assigns(
                    tv(*old(self)),
                    old(self).pos as int,
                    acc@.map_values(|p: (String, FieldValue)| (p.0@, val_vw(p.1))),
                ) == Result::<(Seq<(Seq<char>, ValV)>, int), CoilError>::Err(er),
            },
        decreases self.tokens@.len() - self.pos,
    {
        let s_len = self.tokens.len();
        if self.pos >= s_len {
            return Err(CoilError::MissingDelimiter);
        }
        if matches!(&self.tokens[self.pos], Token::RightBracket) {
            self.pos = self.pos + 1;
            return Ok(acc);
        }
        if acc.len() == 0 {
            match self.assign_decl() {
                Ok(a) => {
                    let ghost pre = acc@.map_values(
                        |p: (String, FieldValue)| (p.0@, val_vw(p.1)),
                    );
                    let ghost av = (a.0@, val_vw(a.1));
                    let mut acc2 = acc;
                    acc2.push(a);
                    proof {
                        assert(acc2@.map_values(|p: (String, FieldValue)| (p.0@, val_vw(p.1)))
                            =~= pre.push(av));
                    }
                    self.parse_assigns(acc2)
                },
                Err(er) => Err(er),
            }
        } else if matches!(&self.tokens[self.pos], Token::Comma) {
            self.pos = self.pos + 1;
            match self.assign_decl() {
                Ok(a) => {
                    let ghost pre = acc@.map_values(
                        |p: (String, FieldValue)| (p.0@, val_vw(p.1)),
                    );
                    let ghost av = (a.0@, val_vw(a.1));
                    let mut acc2 = acc;
                    acc2.push(a);
                    proof {
                        assert(acc2@.map_values(|p: (String, FieldValue)| (p.0@, val_vw(p.1)))
                            =~= pre.push(av));
                    }
                    self.parse_assigns(acc2)
                },
                Err(er) => Err(er),
            }
        } else {
            Err(CoilError::UnexpectedToken)
        }
    }

    /// One `name = literal` assignment.
    fn assign_decl(&mut self) -> (r: Result<(String, FieldValue), CoilError>)
        requires
            parser_wf(*old(self)),
        ensures
            final(self).tokens == old(self).tokens,
            parser_wf(*final(self)),
            old(self).pos <= final(self).pos,
            match r {
                Ok(a) => sp_assign_decl(tv(*old(self)), old(self).pos as int) == Result::<
                    ((Seq<char>, ValV), int),
                    CoilError,
                >::Ok(((a.0@, val_vw(a.1)), final(self).pos as int)) && val_wf(a.1)
                    && final(self).pos == old(self).pos + 3,
                Err(er) => sp_assign_decl(tv(*old(self)), old(self).pos as int) == Result::<
                    ((Seq<char>, ValV), int),
                    CoilError,
                >::Err(er) && final(self).pos == old(self).pos,
            },
    {
        let s_len = self.tokens.len();
        if s_len - self.pos > 2 && matches!(&self.tokens[self.pos + 1], Token::Equal) {
            let name: Option<String> = match &self.tokens[self.pos] {
                Token::Identifier(nm) => Some(nm.clone()),
                _ => None,
            };
            match name {
                Some(nm) => {
                    match token_literal(&self.tokens[self.pos + 2]) {
                        Some(v) => {
                            self.pos = self.pos + 3;
                            Ok((nm, v))
                        },
                        None => Err(CoilError::UnexpectedToken),
                    }
                },
                None => Err(CoilError::UnexpectedToken),
            }
        } else {
            Err(CoilError::UnexpectedToken)
        }
    }

    /// `DATABASE <name> | TABLE <name> (WHERE <expr>)?`, after DELETE.
    #[verifier::rlimit(100)]
    fn parse_delete_query(&mut self) -> (r: Result<Query, CoilError>)
        requires
            parser_wf(*old(self)),
        ensures
            final(self).tokens == old(self).tokens,
            parser_wf(*final(self)),
            old(self).pos <= final(self).pos,
            stmt_matches(
                r,
                sp_parse_delete(tv(*old(self)), old(self).pos as int),
                final(self).pos as int,
            ),
    {
        let s_len = self.tokens.len();
        if s_len - self.pos > 1 {
            let name: Option<String> = match &self.tokens[self.pos + 1] {
                Token::Identifier(nm) => Some(nm.clone()),
                _ => None,
            };
            match name {
                Some(nm) => {
                    if matches!(&self.tokens[self.pos], Token::Database) {
                        let mut q = Query::new(Operation::Delete);
                        q.database = Some(nm);
                        self.pos = self.pos + 2;
                        Ok(q)
                    } else if matches!(&self.tokens[self.pos], Token::Table) {
                        let mut q = Query::new(Operation::Delete);
                        q.table = Some(nm);
                        if s_len - self.pos > 2 && matches!(
                            &self.tokens[self.pos + 2],
                            Token::Where,
                        ) {
                            self.pos = self.pos + 3;
                            match self.parse_or() {
                                Ok(e) => {
                                    q.condition = Some(Box::new(e));
                                    Ok(q)
                                },
                                Err(er) => Err(er),
                            }
                        } else {
                            self.pos = self.pos + 2;
                            Ok(q)
                        }
                    } else {
                        Err(CoilError::UnexpectedToken)
                    }
                },
                None => Err(CoilError::UnexpectedToken),
            }
        } else {
            Err(CoilError::UnexpectedToken)
        }
    }

    /// Lowest-precedence level: `and`-chains joined by `or`/`xor`.
    #[verifier::rlimit(100)]
    fn parse_or(&mut self) -> (r: Result<Expression, CoilError>)
        requires
            parser_wf(*old(self)),
        ensures
            final(self).tokens == old(self).tokens,
            parser_wf(*final(self)),
            old(self).pos <= final(self).pos,
            expr_matches(
                r,
                sp_parse_or(tv(*old(self)), old(self).pos as int),
                final(self).pos as int,
            ),
            r is Ok ==> old(self).pos < final(self).pos,
        decreases self.tokens@.len() - self.pos, 13int,
    {
        let l = match self.parse_and() {
            Ok(e) => e,
            Err(er) => {
                return Err(er);
            },
        };
        self.or_rest(l)
    }

    #[verifier::rlimit(100)]
    fn or_rest(&mut self, l: Expression) -> (r: Result<Expression, CoilError>)
        requires
            parser_wf(*old(self)),
            expr_wf(l),
        ensures
            final(self).tokens == old(self).tokens,
            parser_wf(*final(self)),
            old(self).pos <= final(self).pos,
            expr_matches(
                r,
                sp_or_rest(tv(*old(self)), expr_vw(l), old(self).pos as int),
                final(self).pos as int,
            ),
        decreases self.tokens@.len() - self.pos, 12int,
    {
        if self.pos < self.tokens.len() {
            let is_or = matches!(&self.tokens[self.pos], Token::Or);
            let is_xor = matches!(&self.tokens[self.pos], Token::Xor);
            if is_or || is_xor {
                let et = if is_or {
                    ExpressionType::Or
                } else {
                    ExpressionType::Xor
                };
                self.pos = self.pos + 1;
                let r2 = match self.parse_and() {
                    Ok(e) => e,
                    Err(er) => {
                        return Err(er);
                    },
                };
                let node = Expression {
                    expression_type: et,
                    l_operand: Some(Box::new(l)),
                    r_operand: Some(Box::new(r2)),
                };
                return self.or_rest(node);
            }
        }
        Ok(l)
    }

    /// `eq`-chains joined by `and`.
    #[verifier::rlimit(100)]
    fn parse_and(&mut self) -> (r: Result<Expression, CoilError>)
        requires
            parser_wf(*old(self)),
        ensures
            final(self).tokens == old(self).tokens,
            parser_wf(*final(self)),
            old(self).pos <= final(self).pos,
            expr_matches(
                r,
                sp_parse_and(tv(*old(self)), old(self).pos as int),
                final(self).pos as int,
            ),
            r is Ok ==> old(self).pos < final(self).pos,
        decreases self.tokens@.len() - self.pos, 11int,
    {
        let l = match self.parse_eq() {
            Ok(e) => e,
            Err(er) => {
                return Err(er);
            },
        };
        self.and_rest(l)
    }

    #[verifier::rlimit(100)]
    fn and_rest(&mut self, l: Expression) -> (r: Result<Expression, CoilError>)
        requires
            parser_wf(*old(self)),
            expr_wf(l),
        ensures
            final(self).tokens == old(self).tokens,
            parser_wf(*final(self)),
            old(self).pos <= final(self).pos,
            expr_matches(
                r,
                sp_and_rest(tv(*old(self)), expr_vw(l), old(self).pos as int),
                final(self).pos as int,
            ),
        decreases self.tokens@.len() - self.pos, 10int,
    {
        if self.pos < self.tokens.len() {
            if matches!(&self.tokens[self.pos], Token::And) {
                self.pos = self.pos + 1;
                let r2 = match self.parse_eq() {
                    Ok(e) => e,
                    Err(er) => {
                        return Err(er);
                    },
                };
                let node = Expression {
                    expression_type: ExpressionType::And,
                    l_operand: Some(Box::new(l)),
                    r_operand: Some(Box::new(r2)),
                };
                return self.and_rest(node);
            }
        }
        Ok(l)
    }

    /// `cmp`-chains joined by `=` and `!=`.
    #[verifier::rlimit(100)]
    fn parse_eq(&mut self) -> (r: Result<Expression, CoilError>)
        requires
            parser_wf(*old(self)),
        ensures
            final(self).tokens == old(self).tokens,
            parser_wf(*final(self)),
            old(self).pos <= final(self).pos,
            expr_matches(
                r,
                sp_parse_eq(tv(*old(self)), old(self).pos as int),
                final(self).pos as int,
            ),
            r is Ok ==> old(self).pos < final(self).pos,
        decreases self.tokens@.len() - self.pos, 9int,
    {
        let l = match self.parse_cmp() {
            Ok(e) => e,
            Err(er) => {
                return Err(er);
            },
        };
        self.eq_rest(l)
    }

    #[verifier::rlimit(100)]
    fn eq_rest(&mut self, l: Expression) -> (r: Result<Expression, CoilError>)
        requires
            parser_wf(*old(self)),
            expr_wf(l),
        ensures
            final(self).tokens == old(self).tokens,
            parser_wf(*final(self)),
            old(self).pos <= final(self).pos,
            expr_matches(
                r,
                sp_eq_rest(tv(*old(self)), expr_vw(l), old(self).pos as int),
                final(self).pos as int,
            ),
        decreases self.tokens@.len() - self.pos, 8int,
    {
        if self.pos < self.tokens.len() {
            let is_eq = matches!(&self.tokens[self.pos], Token::Equal);
            let is_ne = matches!(&self.tokens[self.pos], Token::NotEqual);
            if is_eq || is_ne {
                let et = if is_eq {
                    ExpressionType::Equal
                } else {
                    ExpressionType::NotEqual
                };
                self.pos = self.pos + 1;
                let r2 = match self.parse_cmp() {
                    Ok(e) => e,
                    Err(er) => {
                        return Err(er);
                    },
                };
                let node = Expression {
                    expression_type: et,
                    l_operand: Some(Box::new(l)),
                    r_operand: Some(Box::new(r2)),
                };
                return self.eq_rest(node);
            }
        }
        Ok(l)
    }

    /// `term`-chains joined by the four order comparisons.
    #[verifier::rlimit(100)]
    fn parse_cmp(&mut self) -> (r: Result<Expression, CoilError>)
        requires
            parser_wf(*old(self)),
        ensures
            final(self).tokens == old(self).tokens,
            parser_wf(*final(self)),
            old(self).pos <= final(self).pos,
            expr_matches(
                r,
                sp_parse_cmp(tv(*old(self)), old(self).pos as int),
                final(self).pos as int,
            ),
            r is Ok ==> old(self).pos < final(self).pos,
        decreases self.tokens@.len() - self.pos, 7int,
    {
        let l = match self.parse_term() {
            Ok(e) => e,
            Err(er) => {
                return Err(er);
            },
        };
        self.cmp_rest(l)
    }

    #[verifier::rlimit(100)]
    fn cmp_rest(&mut self, l: Expression) -> (r: Result<Expression, CoilError>)
        requires
            parser_wf(*old(self)),
            expr_wf(l),
        ensures
            final(self).tokens == old(self).tokens,
            parser_wf(*final(self)),
            old(self).pos <= final(self).pos,
            expr_matches(
                r,
                sp_cmp_rest(tv(*old(self)), expr_vw(l), old(self).pos as int),
                final(self).pos as int,
            ),
        decreases self.tokens@.len() - self.pos, 6int,
    {
        if self.pos < self.tokens.len() {
            let is_lt = matches!(&self.tokens[self.pos], Token::LessThan);
            let is_le = matches!(&self.tokens[self.pos], Token::LessThanOrEqual);
            let is_gt = matches!(&self.tokens[self.pos], Token::GreaterThan);
            let is_ge = matches!(&self.tokens[self.pos], Token::GreaterThanOrEqual);
            if is_lt || is_le || is_gt || is_ge {
                let et = if is_lt {
                    ExpressionType::LessThan
                } else if is_le {
                    ExpressionType::LessThanOrEqual
                } else if is_gt {
                    ExpressionType::GreaterThan
                } else {
                    ExpressionType::GreaterThanOrEqual
                };
                self.pos = self.pos + 1;
                let r2 = match self.parse_term() {
                    Ok(e) => e,
                    Err(er) => {
                        return Err(er);
                    },
                };
                let node = Expression {
                    expression_type: et,
                    l_operand: Some(Box::new(l)),
                    r_operand: Some(Box::new(r2)),
                };
                return self.cmp_rest(node);
            }
        }
        Ok(l)
    }

    /// `factor`-chains joined by `+` and `-`.
    #[verifier::rlimit(100)]
    fn parse_term(&mut self) -> (r: Result<Expression, CoilError>)
        requires
            parser_wf(*old(self)),
        ensures
            final(self).tokens == old(self).tokens,
            parser_wf(*final(self)),
            old(self).pos <= final(self).pos,
            expr_matches(
                r,
                sp_parse_term(tv(*old(self)), old(self).pos as int),
                final(self).pos as int,
            ),
            r is Ok ==> old(self).pos < final(self).pos,
        decreases self.tokens@.len() - self.pos, 5int,
    {
        let l = match self.parse_factor() {
            Ok(e) => e,
            Err(er) => {
                return Err(er);
            },
        };
        self.term_rest(l)
    }

    #[verifier::rlimit(100)]
    fn term_rest(&mut self, l: Expression) -> (r: Result<Expression, CoilError>)
        requires
            parser_wf(*old(self)),
            expr_wf(l),
        ensures
            final(self).tokens == old(self).tokens,
            parser_wf(*final(self)),
            old(self).pos <= final(self).pos,
            expr_matches(
                r,
                sp_term_rest(tv(*old(self)), expr_vw(l), old(self).pos as int),
                final(self).pos as int,
            ),
        decreases self.tokens@.len() - self.pos, 4int,
    {
        if self.pos < self.tokens.len() {
            let is_add = matches!(&self.tokens[self.pos], Token::Add);
            let is_sub = matches!(&self.tokens[self.pos], Token::Subtract);
            if is_add || is_sub {
                let et = if is_add {
                    ExpressionType::Add
                } else {
                    ExpressionType::Subtract
                };
                self.pos = self.pos + 1;
                let r2 = match self.parse_factor() {
                    Ok(e) => e,
                    Err(er) => {
                        return Err(er);
                    },
                };
                let node = Expression {
                    expression_type: et,
                    l_operand: Some(Box::new(l)),
                    r_operand: Some(Box::new(r2)),
                };
                return self.term_rest(node);
            }
        }
        Ok(l)
    }

    /// `unary`-chains joined by `*`, `/`, `^` and `%`.
    #[verifier::rlimit(100)]
    fn parse_factor(&mut self) -> (r: Result<Expression, CoilError>)
        requires
            parser_wf(*old(self)),
        ensures
            final(self).tokens == old(self).tokens,
            parser_wf(*final(self)),
            old(self).pos <= final(self).pos,
            expr_matches(
                r,
                sp_parse_factor(tv(*old(self)), old(self).pos as int),
                final(self).pos as int,
            ),
            r is Ok ==> old(self).pos < final(self).pos,
        decreases self.tokens@.len() - self.pos, 3int,
    {
        let l = match self.parse_unary() {
            Ok(e) => e,
            Err(er) => {
                return Err(er);
            },
        };
        self.factor_rest(l)
    }

    #[verifier::rlimit(100)]
    fn factor_rest(&mut self, l: Expression) -> (r: Result<Expression, CoilError>)
        requires
            parser_wf(*old(self)),
            expr_wf(l),
        ensures
            final(self).tokens == old(self).tokens,
            parser_wf(*final(self)),
            old(self).pos <= final(self).pos,
            expr_matches(
                r,
                sp_factor_rest(tv(*old(self)), expr_vw(l), old(self).pos as int),
                final(self).pos as int,
            ),
        decreases self.tokens@.len() - self.pos, 2int,
    {
        if self.pos < self.tokens.len() {
            let is_mul = matches!(&self.tokens[self.pos], Token::Star);
            let is_div = matches!(&self.tokens[self.pos], Token::Divide);
            let is_pow = matches!(&self.tokens[self.pos], Token::Power);
            let is_mod = matches!(&self.tokens[self.pos], Token::Modulus);
            if is_mul || is_div || is_pow || is_mod {
                let et = if is_mul {
                    ExpressionType::Multiply
                } else if is_div {
                    ExpressionType::Divide
                } else if is_pow {
                    ExpressionType::Power
                } else {
                    ExpressionType::Modulus
                };
                self.pos = self.pos + 1;
                let r2 = match self.parse_unary() {
                    Ok(e) => e,
                    Err(er) => {
                        return Err(er);
                    },
                };
                let node = Expression {
                    expression_type: et,
                    l_operand: Some(Box::new(l)),
                    r_operand: Some(Box::new(r2)),
                };
                return self.factor_rest(node);
            }
        }
        Ok(l)
    }

    /// Prefix `not`, `+` and `-`.
    #[verifier::rlimit(100)]
    fn parse_unary(&mut self) -> (r: Result<Expression, CoilError>)
        requires
            parser_wf(*old(self)),
        ensures
            final(self).tokens == old(self).tokens,
            parser_wf(*final(self)),
            old(self).pos <= final(self).pos,
            expr_matches(
                r,
                sp_parse_unary(tv(*old(self)), old(self).pos as int),
                final(self).pos as int,
            ),
            r is Ok ==> old(self).pos < final(self).pos,
        decreases self.tokens@.len() - self.pos, 1int,
    {
        if self.pos < self.tokens.len() {
            let is_not = matches!(&self.tokens[self.pos], Token::Not);
            let is_add = matches!(&self.tokens[self.pos], Token::Add);
            let is_sub = matches!(&self.tokens[self.pos], Token::Subtract);
            if is_not || is_add || is_sub {
                let et = if is_not {
                    ExpressionType::Not
                } else if is_add {
                    ExpressionType::Positive
                } else {
                    ExpressionType::Negate
                };
                self.pos = self.pos + 1;
                let e = match self.parse_unary() {
                    Ok(e) => e,
                    Err(er) => {
                        return Err(er);
                    },
                };
                let node = Expression {
                    expression_type: et,
                    l_operand: Some(Box::new(e)),
                    r_operand: None,
                };
                return Ok(node);
            }
        }
        self.parse_primary()
    }

    /// A literal, an identifier, or a parenthesized group.
    #[verifier::rlimit(100)]
    fn parse_primary(&mut self) -> (r: Result<Expression, CoilError>)
        requires
            parser_wf(*old(self)),
        ensures
            final(self).tokens == old(self).tokens,
            parser_wf(*final(self)),
            old(self).pos <= final(self).pos,
            expr_matches(
                r,
                sp_parse_primary(tv(*old(self)), old(self).pos as int),
                final(self).pos as int,
            ),
            r is Ok ==> old(self).pos < final(self).pos,
        decreases self.tokens@.len() - self.pos, 0int,
    {
        if self.pos >= self.tokens.len() {
            return Err(CoilError::UnexpectedToken);
        }
        let et_opt: Option<ExpressionType> = match &self.tokens[self.pos] {
            Token::Null => Some(ExpressionType::Null),
            Token::Integer(v) => Some(ExpressionType::Integer(*v)),
            Token::Float(d) => Some(ExpressionType::Float(*d)),
            Token::Text(s) => Some(ExpressionType::Text(s.clone())),
            Token::Identifier(s) => Some(ExpressionType::Identifier(s.clone())),
            _ => None,
        };
        match et_opt {
            Some(et) => {
                proof {
                    assert(tv(*old(self))[old(self).pos as int] == tok_vw(
                        old(self).tokens@[old(self).pos as int],
                    ));
                }
                self.pos = self.pos + 1;
                let node = Expression { expression_type: et, l_operand: None, r_operand: None };
                proof {
                    assert(match leaf_of(et) {
                        Some(l) => expr_vw(node) == ExprV::Leaf(l),
                        None => false,
                    });
                }
                Ok(node)
            },
            None => {
                if matches!(&self.tokens[self.pos], Token::LeftParenthesis) {
                    self.pos = self.pos + 1;
                    let e = match self.parse_or() {
                        Ok(e) => e,
                        Err(er) => {
                            return Err(er);
                        },
                    };
                    if self.pos < self.tokens.len() && matches!(
                        &self.tokens[self.pos],
                        Token::RightParenthesis,
                    ) {
                        self.pos = self.pos + 1;
                        Ok(e)
                    } else {
                        Err(CoilError::MissingDelimiter)
                    }
                } else {
                    Err(CoilError::UnexpectedToken)
                }
            },
        }
    }
}

} // verus!
