//! Condition evaluation: an expression tree against one materialized row.
//!
//! The semantics are stated by [`sp_eval`], a recursive specification
//! over the expression model and the row model; [`Row::evaluate`] and
//! [`Row::check_condition`] are proved to return exactly what it says.

use vstd::prelude::*;

use crate::CoilError;
use crate::parser::{bin_op_of, expr_vw, expr_wf, leaf_of, un_op_of, BinOpV, ExprV, Expression, ExpressionType, LeafV,
    UnOpV};
use crate::store::{col_wf, Column};
use crate::values::{clone_value, sp_comparable, sp_val_add, sp_val_div, sp_val_eq, sp_val_lt,
    sp_val_mul, sp_val_neg, sp_val_pos, sp_val_pow, sp_val_rem, sp_val_sub, str_eq, val_vw, val_wf,
    value_add, value_div, value_eq, value_lt, value_mul, value_neg, value_pos, value_pow,
    value_rem, value_sub, FieldValue, ValV};

verus! {

/// What evaluating one expression yields: a field value or a truth value.
#[derive(Clone, Debug, PartialEq)]
pub enum EvalOut {
    Value(FieldValue),
    Truth(bool),
}

/// The mathematical model of an [`EvalOut`].
pub enum EvalOutV {
    Val(ValV),
    Truth(bool),
}

pub open spec fn out_vw(o: EvalOut) -> EvalOutV {
    match o {
        EvalOut::Value(v) => EvalOutV::Val(val_vw(v)),
        EvalOut::Truth(b) => EvalOutV::Truth(b),
    }
}

pub open spec fn out_wf(o: EvalOut) -> bool {
    match o {
        EvalOut::Value(v) => val_wf(v),
        EvalOut::Truth(_) => true,
    }
}

/// Whether an exec evaluation result matches its model.
pub open spec fn eval_matches(r: Result<EvalOut, CoilError>, s: Result<EvalOutV, CoilError>) -> bool {
    match r {
        Ok(o) => s == Result::<EvalOutV, CoilError>::Ok(out_vw(o)) && out_wf(o),
        Err(e) => s == Result::<EvalOutV, CoilError>::Err(e),
    }
}

/// First value bound to `name` in a row model.
pub open spec fn sp_row_get(row: Seq<(Seq<char>, ValV)>, name: Seq<char>) -> Option<ValV>
    decreases row.len(),
{
    if row.len() == 0 {
        None
    } else if row[0].0 == name {
        Some(row[0].1)
    } else {
        sp_row_get(row.drop_first(), name)
    }
}

pub open spec fn sp_lift(r: Result<ValV, CoilError>) -> Result<EvalOutV, CoilError> {
    match r {
        Ok(v) => Ok(EvalOutV::Val(v)),
        Err(e) => Err(e),
    }
}

/// One binary operator applied to two evaluated operands.
pub open spec fn sp_apply_bin(op: BinOpV, a: EvalOutV, b: EvalOutV) -> Result<EvalOutV, CoilError> {
    match op {
        BinOpV::And => match (a, b) {
            (EvalOutV::Truth(x), EvalOutV::Truth(y)) => Ok(EvalOutV::Truth(x && y)),
            _ => Err(CoilError::MismatchedTypes),
        },
        BinOpV::Or => match (a, b) {
            (EvalOutV::Truth(x), EvalOutV::Truth(y)) => Ok(EvalOutV::Truth(x || y)),
            _ => Err(CoilError::MismatchedTypes),
        },
        BinOpV::Xor => match (a, b) {
            (EvalOutV::Truth(x), EvalOutV::Truth(y)) => Ok(EvalOutV::Truth(x != y)),
            _ => Err(CoilError::MismatchedTypes),
        },
        BinOpV::Eq => match (a, b) {
            (EvalOutV::Val(x), EvalOutV::Val(y)) => Ok(EvalOutV::Truth(sp_val_eq(x, y))),
            _ => Err(CoilError::MismatchedTypes),
        },
        BinOpV::Ne => match (a, b) {
            (EvalOutV::Val(x), EvalOutV::Val(y)) => Ok(EvalOutV::Truth(!sp_val_eq(x, y))),
            _ => Err(CoilError::MismatchedTypes),
        },
        BinOpV::Lt => match (a, b) {
            (EvalOutV::Val(x), EvalOutV::Val(y)) => if sp_comparable(x, y) {
                Ok(EvalOutV::Truth(sp_val_lt(x, y)))
            } else {
                Err(CoilError::MismatchedTypes)
            },
            _ => Err(CoilError::MismatchedTypes),
        },
        BinOpV::Gt => match (a, b) {
            (EvalOutV::Val(x), EvalOutV::Val(y)) => if sp_comparable(y, x) {
                Ok(EvalOutV::Truth(sp_val_lt(y, x)))
            } else {
                Err(CoilError::MismatchedTypes)
            },
            _ => Err(CoilError::MismatchedTypes),
        },
        BinOpV::Le => match (a, b) {
            (EvalOutV::Val(x), EvalOutV::Val(y)) => if sp_comparable(y, x) {
                Ok(EvalOutV::Truth(!sp_val_lt(y, x)))
            } else {
                Err(CoilError::MismatchedTypes)
            },
            _ => Err(CoilError::MismatchedTypes),
        },
        BinOpV::Ge => match (a, b) {
            (EvalOutV::Val(x), EvalOutV::Val(y)) => if sp_comparable(x, y) {
                Ok(EvalOutV::Truth(!sp_val_lt(x, y)))
            } else {
                Err(CoilError::MismatchedTypes)
            },
            _ => Err(CoilError::MismatchedTypes),
        },
        BinOpV::Add => match (a, b) {
            (EvalOutV::Val(x), EvalOutV::Val(y)) => sp_lift(sp_val_add(x, y)),
            _ => Err(CoilError::MismatchedTypes),
        },
        BinOpV::Sub => match (a, b) {
            (EvalOutV::Val(x), EvalOutV::Val(y)) => sp_lift(sp_val_sub(x, y)),
            _ => Err(CoilError::MismatchedTypes),
        },
        BinOpV::Mul => match (a, b) {
            (EvalOutV::Val(x), EvalOutV::Val(y)) => sp_lift(sp_val_mul(x, y)),
            _ => Err(CoilError::MismatchedTypes),
        },
        BinOpV::Div => match (a, b) {
            (EvalOutV::Val(x), EvalOutV::Val(y)) => sp_lift(sp_val_div(x, y)),
            _ => Err(CoilError::MismatchedTypes),
        },
        BinOpV::Pow => match (a, b) {
            (EvalOutV::Val(x), EvalOutV::Val(y)) => sp_lift(sp_val_pow(x, y)),
            _ => Err(CoilError::MismatchedTypes),
        },
        BinOpV::Mod => match (a, b) {
            (EvalOutV::Val(x), EvalOutV::Val(y)) => sp_lift(sp_val_rem(x, y)),
            _ => Err(CoilError::MismatchedTypes),
        },
    }
}

/// Full recursive evaluation of an expression model against a row model.
pub open spec fn sp_eval(e: ExprV, row: Seq<(Seq<char>, ValV)>) -> Result<EvalOutV, CoilError>
    decreases e,
{
    match e {
        ExprV::Leaf(l) => match l {
            LeafV::Null => Ok(EvalOutV::Val(ValV::Null)),
            LeafV::Int(i) => Ok(EvalOutV::Val(ValV::Int(i as int))),
            LeafV::Dec(d) => Ok(EvalOutV::Val(ValV::Dec(d.mantissa as int, d.scale as nat))),
            LeafV::Text(s) => Ok(EvalOutV::Val(ValV::Text(s))),
            LeafV::Ident(nm) => match sp_row_get(row, nm) {
                Some(v) => Ok(EvalOutV::Val(v)),
                None => Err(CoilError::UnknownField),
            },
        },
        ExprV::Unary(op, b) => match sp_eval(*b, row) {
            Err(er) => Err(er),
            Ok(sub) => match op {
                UnOpV::Not => match sub {
                    EvalOutV::Truth(t) => Ok(EvalOutV::Truth(!t)),
                    EvalOutV::Val(_) => Err(CoilError::MismatchedTypes),
                },
                UnOpV::Neg => match sub {
                    EvalOutV::Val(v) => sp_lift(sp_val_neg(v)),
                    EvalOutV::Truth(_) => Err(CoilError::MismatchedTypes),
                },
                UnOpV::Pos => match sub {
                    EvalOutV::Val(v) => sp_lift(sp_val_pos(v)),
                    EvalOutV::Truth(_) => Err(CoilError::MismatchedTypes),
                },
            },
        },
        ExprV::Binary(op, l, r) => match sp_eval(*l, row) {
            Err(er) => Err(er),
            Ok(lv) => match sp_eval(*r, row) {
                Err(er) => Err(er),
                Ok(rv) => sp_apply_bin(op, lv, rv),
            },
        },
        ExprV::Bad => Err(CoilError::MalformedExpression),
    }
}

/// The row materialized from `cols` at row index `i`.
pub open spec fn sp_mat_row(cols: Seq<Column>, i: int) -> Seq<(Seq<char>, ValV)> {
    cols.map_values(|c: Column| (c.name@, val_vw(c.rows@[i])))
}

/// An ephemeral row: field names and their values, in column order.
#[derive(Debug)]
pub struct Row {
    pub columns: Vec<(String, FieldValue)>,
}

/// The mathematical model of a [`Row`].
pub open spec fn row_vw(r: Row) -> Seq<(Seq<char>, ValV)> {
    r.columns@.map_values(|p: (String, FieldValue)| (p.0@, val_vw(p.1)))
}

pub open spec fn row_wf(r: Row) -> bool {
    forall|k: int| 0 <= k < r.columns@.len() ==> val_wf((#[trigger] r.columns@[k]).1)
}

/// One binary operator applied to two evaluated operands.
fn apply_binary(et: &ExpressionType, a: EvalOut, b: EvalOut) -> (r: Result<EvalOut, CoilError>)
    requires
        bin_op_of(*et) is Some,
        out_wf(a),
        out_wf(b),
    ensures
        match bin_op_of(*et) {
            Some(op) => eval_matches(r, sp_apply_bin(op, out_vw(a), out_vw(b))),
            None => true,
        },
{
    match et {
        ExpressionType::And => match (a, b) {
            (EvalOut::Truth(x), EvalOut::Truth(y)) => Ok(EvalOut::Truth(x && y)),
            _ => Err(CoilError::MismatchedTypes),
        },
        ExpressionType::Or => match (a, b) {
            (EvalOut::Truth(x), EvalOut::Truth(y)) => Ok(EvalOut::Truth(x || y)),
            _ => Err(CoilError::MismatchedTypes),
        },
        ExpressionType::Xor => match (a, b) {
            (EvalOut::Truth(x), EvalOut::Truth(y)) => Ok(EvalOut::Truth(x != y)),
            _ => Err(CoilError::MismatchedTypes),
        },
        ExpressionType::Equal => match (&a, &b) {
            (EvalOut::Value(x), EvalOut::Value(y)) => Ok(EvalOut::Truth(value_eq(x, y))),
            _ => Err(CoilError::MismatchedTypes),
        },
        ExpressionType::NotEqual => match (&a, &b) {
            (EvalOut::Value(x), EvalOut::Value(y)) => Ok(EvalOut::Truth(!value_eq(x, y))),
            _ => Err(CoilError::MismatchedTypes),
        },
        ExpressionType::LessThan => match (&a, &b) {
            (EvalOut::Value(x), EvalOut::Value(y)) => match value_lt(x, y) {
                Ok(t) => Ok(EvalOut::Truth(t)),
                Err(er) => Err(er),
            },
            _ => Err(CoilError::MismatchedTypes),
        },
        ExpressionType::GreaterThan => match (&a, &b) {
            (EvalOut::Value(x), EvalOut::Value(y)) => match value_lt(y, x) {
                Ok(t) => Ok(EvalOut::Truth(t)),
                Err(er) => Err(er),
            },
            _ => Err(CoilError::MismatchedTypes),
        },
        ExpressionType::LessThanOrEqual => match (&a, &b) {
            (EvalOut::Value(x), EvalOut::Value(y)) => match value_lt(y, x) {
                Ok(t) => Ok(EvalOut::Truth(!t)),
                Err(er) => Err(er),
            },
            _ => Err(CoilError::MismatchedTypes),
        },
        ExpressionType::GreaterThanOrEqual => match (&a, &b) {
            (EvalOut::Value(x), EvalOut::Value(y)) => match value_lt(x, y) {
                Ok(t) => Ok(EvalOut::Truth(!t)),
                Err(er) => Err(er),
            },
            _ => Err(CoilError::MismatchedTypes),
        },
        ExpressionType::Add => match (&a, &b) {
            (EvalOut::Value(x), EvalOut::Value(y)) => match value_add(x, y) {
                Ok(v) => Ok(EvalOut::Value(v)),
                Err(er) => Err(er),
            },
            _ => Err(CoilError::MismatchedTypes),
        },
        ExpressionType::Subtract => match (&a, &b) {
            (EvalOut::Value(x), EvalOut::Value(y)) => match value_sub(x, y) {
                Ok(v) => Ok(EvalOut::Value(v)),
                Err(er) => Err(er),
            },
            _ => Err(CoilError::MismatchedTypes),
        },
        ExpressionType::Multiply => match (&a, &b) {
            (EvalOut::Value(x), EvalOut::Value(y)) => match value_mul(x, y) {
                Ok(v) => Ok(EvalOut::Value(v)),
                Err(er) => Err(er),
            },
            _ => Err(CoilError::MismatchedTypes),
        },
        ExpressionType::Divide => match (&a, &b) {
            (EvalOut::Value(x), EvalOut::Value(y)) => match value_div(x, y) {
                Ok(v) => Ok(EvalOut::Value(v)),
                Err(er) => Err(er),
            },
            _ => Err(CoilError::MismatchedTypes),
        },
        ExpressionType::Power => match (&a, &b) {
            (EvalOut::Value(x), EvalOut::Value(y)) => match value_pow(x, y) {
                Ok(v) => Ok(EvalOut::Value(v)),
                Err(er) => Err(er),
            },
            _ => Err(CoilError::MismatchedTypes),
        },
        ExpressionType::Modulus => match (&a, &b) {
            (EvalOut::Value(x), EvalOut::Value(y)) => match value_rem(x, y) {
                Ok(v) => Ok(EvalOut::Value(v)),
                Err(er) => Err(er),
            },
            _ => Err(CoilError::MismatchedTypes),
        },
        _ => Err(CoilError::MismatchedTypes),
    }
}

impl Row {
    /// Materializes the row at `index` from the given columns, in order.
    #[verifier::loop_isolation(false)]
    pub fn from_columns(columns: &Vec<Column>, index: usize) -> (r: Row)
        requires
            forall|k: int|
                0 <= k < columns@.len() ==> index < (#[trigger] columns@[k]).rows@.len()
                    && col_wf(columns@[k]),
        ensures
            row_vw(r) == sp_mat_row(columns@, index as int),
            row_wf(r),
    {
        let mut fields: Vec<(String, FieldValue)> = Vec::new();
        let mut k: usize = 0;
        while k < columns.len()
            invariant
                k <= columns@.len(),
                fields@.len() == k,
                forall|m: int|
                    0 <= m < k ==> (#[trigger] fields@[m]).0@ == columns@[m].name@ && val_vw(
                        fields@[m].1,
                    ) == val_vw(columns@[m].rows@[index as int]) && val_wf(fields@[m].1),
            decreases columns@.len() - k,
        {
            let c = &columns[k];
            fields.push((c.name.clone(), clone_value(&c.rows[index])));
            k = k + 1;
        }
        let r = Row { columns: fields };
        proof {
            assert(row_vw(r) =~= sp_mat_row(columns@, index as int));
        }
        r
    }

    /// Looks a field up by name; the first binding wins.
    #[verifier::loop_isolation(false)]
    pub fn get(&self, field: &str) -> (r: Option<&FieldValue>)
        ensures
            match r {
                Some(v) => sp_row_get(row_vw(*self), field@) == Some(val_vw(*v)) && (row_wf(*self)
                    ==> val_wf(*v)),
                None => sp_row_get(row_vw(*self), field@) is None,
            },
    {
        let ghost rw = row_vw(*self);
        proof {
            assert(rw.skip(0) =~= rw);
        }
        let mut i: usize = 0;
        while i < self.columns.len()
            invariant
                i <= self.columns@.len(),
                sp_row_get(rw, field@) == sp_row_get(rw.skip(i as int), field@),
            decreases self.columns@.len() - i,
        {
            proof {
                assert(rw.skip(i as int)[0] == rw[i as int]);
                assert(rw.skip(i as int).drop_first() =~= rw.skip(i as int + 1));
            }
            if str_eq(self.columns[i].0.as_str(), field) {
                return Some(&self.columns[i].1);
            }
            i = i + 1;
        }
        proof {
            assert(rw.skip(i as int) =~= Seq::<(Seq<char>, ValV)>::empty());
        }
        None
    }

    /// Evaluates an expression tree against this row, exactly as
    /// [`sp_eval`] describes.
    #[verifier::rlimit(100)]
    pub fn evaluate(&self, e: &Expression) -> (r: Result<EvalOut, CoilError>)
        requires
            row_wf(*self),
            expr_wf(*e),
        ensures
            eval_matches(r, sp_eval(expr_vw(*e), row_vw(*self))),
        decreases *e,
    {
        match &e.expression_type {
            ExpressionType::Null => Ok(EvalOut::Value(FieldValue::Null)),
            ExpressionType::Integer(i) => Ok(EvalOut::Value(FieldValue::Integer(*i))),
            ExpressionType::Float(d) => {
                proof {
                    assert(expr_wf(*e));
                    assert(val_wf(FieldValue::Float(*d)));
                }
                Ok(EvalOut::Value(FieldValue::Float(*d)))
            },
            ExpressionType::Text(s) => Ok(EvalOut::Value(FieldValue::Text(s.clone()))),
            ExpressionType::Identifier(nm) => {
                match self.get(nm.as_str()) {
                    Some(v) => Ok(EvalOut::Value(clone_value(v))),
                    None => Err(CoilError::UnknownField),
                }
            },
            ExpressionType::Not | ExpressionType::Negate | ExpressionType::Positive => {
                match &e.l_operand {
                    Some(b) => {
                        proof {
                            assert(leaf_of(e.expression_type) is None);
                            assert(match un_op_of(e.expression_type) {
                                Some(op) => expr_vw(*e) == ExprV::Unary(
                                    op,
                                    Box::new(expr_vw(**b)),
                                ),
                                None => false,
                            });
                        }
                        let sub = match self.evaluate(&*b) {
                            Ok(s) => s,
                            Err(er) => {
                                return Err(er);
                            },
                        };
                        match &e.expression_type {
                            ExpressionType::Not => match sub {
                                EvalOut::Truth(t) => Ok(EvalOut::Truth(!t)),
                                EvalOut::Value(_) => Err(CoilError::MismatchedTypes),
                            },
                            ExpressionType::Negate => match sub {
                                EvalOut::Value(v) => match value_neg(&v) {
                                    Ok(x) => Ok(EvalOut::Value(x)),
                                    Err(er) => Err(er),
                                },
                                EvalOut::Truth(_) => Err(CoilError::MismatchedTypes),
                            },
                            _ => match sub {
                                EvalOut::Value(v) => match value_pos(&v) {
                                    Ok(x) => Ok(EvalOut::Value(x)),
                                    Err(er) => Err(er),
                                },
                                EvalOut::Truth(_) => Err(CoilError::MismatchedTypes),
                            },
                        }
                    },
                    None => Err(CoilError::MalformedExpression),
                }
            },
            _ => {
                match (&e.l_operand, &e.r_operand) {
                    (Some(lb), Some(rb)) => {
                        proof {
                            assert(leaf_of(e.expression_type) is None);
                            assert(un_op_of(e.expression_type) is None);
                            assert(match bin_op_of(e.expression_type) {
                                Some(op) => expr_vw(*e) == ExprV::Binary(
                                    op,
                                    Box::new(expr_vw(**lb)),
                                    Box::new(expr_vw(**rb)),
                                ),
                                None => false,
                            });
                        }
                        let lv = match self.evaluate(&*lb) {
                            Ok(v) => v,
                            Err(er) => {
                                return Err(er);
                            },
                        };
                        let rv = match self.evaluate(&*rb) {
                            Ok(v) => v,
                            Err(er) => {
                                return Err(er);
                            },
                        };
                        apply_binary(&e.expression_type, lv, rv)
                    },
                    _ => Err(CoilError::MalformedExpression),
                }
            },
        }
    }

    /// Evaluates a condition that must yield a truth value.
    pub fn check_condition(&self, condition: &Expression) -> (r: Result<bool, CoilError>)
        requires
            row_wf(*self),
            expr_wf(*condition),
        ensures
            match sp_eval(expr_vw(*condition), row_vw(*self)) {
                Ok(EvalOutV::Truth(b)) => r == Result::<bool, CoilError>::Ok(b),
                Ok(EvalOutV::Val(_)) => r == Result::<bool, CoilError>::Err(
                    CoilError::MismatchedTypes,
                ),
                Err(e) => r == Result::<bool, CoilError>::Err(e),
            },
    {
        match self.evaluate(condition) {
            Ok(EvalOut::Truth(b)) => Ok(b),
            Ok(EvalOut::Value(_)) => Err(CoilError::MismatchedTypes),
            Err(e) => Err(e),
        }
    }
}

} // verus!
