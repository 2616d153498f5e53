//! Columnar storage: typed columns, materialized rows, and tables.

use vstd::prelude::*;

use crate::CoilError;
use crate::eval::{row_vw, sp_eval, sp_mat_row, EvalOutV, Row};
use crate::parser::{expr_vw, expr_wf, Expression, ExprV};
use crate::values::{clone_value, str_eq, type_compatible, val_vw, val_wf, FieldType, FieldValue, ValV};

verus! {

/// A named, typed, append-only sequence of field values.
#[derive(Clone, Debug, PartialEq)]
pub struct Column {
    pub name: String,
    pub rows: Vec<FieldValue>,
    pub field_type: FieldType,
}

/// The mathematical model of a [`Column`].
pub struct ColV {
    pub name: Seq<char>,
    pub typ: FieldType,
    pub vals: Seq<ValV>,
}

pub open spec fn col_vw(c: Column) -> ColV {
    ColV { name: c.name@, typ: c.field_type, vals: c.rows@.map_values(|v: FieldValue| val_vw(v)) }
}

/// A column is well formed when each stored value is well formed and
/// fits the column's declared type.
pub open spec fn col_wf(c: Column) -> bool {
    forall|k: int|
        0 <= k < c.rows@.len() ==> val_wf(#[trigger] c.rows@[k]) && type_compatible(
            c.field_type,
            val_vw(c.rows@[k]),
        )
}

impl Column {
    /// An empty column of the given name and type.
    pub fn new(name: String, field_type: FieldType) -> (r: Column)
        ensures
            col_vw(r) == (ColV { name: name@, typ: field_type, vals: Seq::<ValV>::empty() }),
            col_wf(r),
            r.rows@.len() == 0,
    {
        let r = Column { name, rows: Vec::new(), field_type };
        proof {
            assert(r.rows@.map_values(|v: FieldValue| val_vw(v)) =~= Seq::<ValV>::empty());
        }
        r
    }

    /// Appends a value after checking it against the column type.
    pub fn push(&mut self, value: FieldValue) -> (r: Result<(), CoilError>)
        requires
            val_wf(value),
        ensures
            match r {
                Ok(()) => {
                    &&& type_compatible(old(self).field_type, val_vw(value))
                    &&& final(self).name == old(self).name
                    &&& final(self).field_type == old(self).field_type
                    &&& final(self).rows@ == old(self).rows@.push(value)
                },
                Err(e) => e == CoilError::MismatchedTypes && !type_compatible(
                    old(self).field_type,
                    val_vw(value),
                ) && *final(self) == *old(self),
            },
            col_wf(*old(self)) ==> col_wf(*final(self)),
    {
        if self.field_type.check_field_value_type(&value) {
            self.rows.push(value);
            return Ok(());
        }
        Err(CoilError::MismatchedTypes)
    }
}

// ---------------------------------------------------------------------
// Tables.
/// Number of rows a column set holds.
pub open spec fn sp_rows_len(cols: Seq<Column>) -> nat {
    if cols.len() == 0 {
        0
    } else {
        cols[0].rows@.len()
    }
}

/// Every column holds the same number of rows.
pub open spec fn cols_consistent(cols: Seq<Column>) -> bool {
    forall|k: int| 0 <= k < cols.len() ==> (#[trigger] cols[k]).rows@.len() == sp_rows_len(cols)
}

pub open spec fn cols_wf(cols: Seq<Column>) -> bool {
    forall|k: int| 0 <= k < cols.len() ==> col_wf(#[trigger] cols[k])
}

/// A named set of equally long columns sharing a row index.
#[derive(Debug)]
pub struct Table {
    pub name: String,
    pub columns: Vec<Column>,
}

pub open spec fn table_wf(t: Table) -> bool {
    cols_wf(t.columns@) && cols_consistent(t.columns@)
}

/// Whether one row of the columns passes the condition; errors surface.
pub open spec fn sp_row_keep(cols: Seq<Column>, cond: Option<ExprV>, i: int) -> Result<
    bool,
    CoilError,
> {
    match cond {
        None => Ok(true),
        Some(c) => match sp_eval(c, sp_mat_row(cols, i)) {
            Ok(EvalOutV::Truth(b)) => Ok(b),
            Ok(EvalOutV::Val(_)) => Err(CoilError::MismatchedTypes),
            Err(e) => Err(e),
        },
    }
}

/// The rows selected by a condition, in storage order.
pub open spec fn sp_select_from(cols: Seq<Column>, cond: Option<ExprV>, i: int) -> Result<
    Seq<Seq<(Seq<char>, ValV)>>,
    CoilError,
>
    decreases sp_rows_len(cols) - i,
{
    if i < 0 || i >= sp_rows_len(cols) {
        Ok(Seq::empty())
    } else {
        match sp_row_keep(cols, cond, i) {
            Err(e) => Err(e),
            Ok(b) => match sp_select_from(cols, cond, i + 1) {
                Err(e) => Err(e),
                Ok(rest) => if b {
                    Ok(seq![sp_mat_row(cols, i)] + rest)
                } else {
                    Ok(rest)
                },
            },
        }
    }
}

/// The pass/fail mask of a condition over all rows.
pub open spec fn sp_mask(cols: Seq<Column>, cond: Option<ExprV>, i: int) -> Result<
    Seq<bool>,
    CoilError,
>
    decreases sp_rows_len(cols) - i,
{
    if i < 0 || i >= sp_rows_len(cols) {
        Ok(Seq::empty())
    } else {
        match sp_row_keep(cols, cond, i) {
            Err(e) => Err(e),
            Ok(b) => match sp_mask(cols, cond, i + 1) {
                Err(e) => Err(e),
                Ok(rest) => Ok(seq![b] + rest),
            },
        }
    }
}

pub open spec fn sp_count_true(mask: Seq<bool>) -> int
    decreases mask.len(),
{
    if mask.len() == 0 {
        0
    } else {
        (if mask[0] {
            1int
        } else {
            0int
        }) + sp_count_true(mask.drop_first())
    }
}

/// The values that survive deletion: those whose mask entry is false.
pub open spec fn sp_filter_from(vals: Seq<FieldValue>, mask: Seq<bool>, i: int) -> Seq<FieldValue>
    decreases vals.len() - i,
{
    if i < 0 || i >= vals.len() {
        Seq::empty()
    } else if i < mask.len() && mask[i] {
        sp_filter_from(vals, mask, i + 1)
    } else {
        seq![vals[i]] + sp_filter_from(vals, mask, i + 1)
    }
}

/// The new table contents after a deletion under a mask.
pub open spec fn sp_deleted(oldc: Seq<Column>, newc: Seq<Column>, mask: Seq<bool>) -> bool {
    &&& newc.len() == oldc.len()
    &&& forall|k: int|
        0 <= k < oldc.len() ==> (#[trigger] newc[k]).name == oldc[k].name && newc[k].field_type
            == oldc[k].field_type && newc[k].rows@ == sp_filter_from(oldc[k].rows@, mask, 0)
}

/// Insertion succeeds exactly on a value list of matching arity whose
/// values all fit their columns.
pub open spec fn sp_insert_ok(cols: Seq<Column>, vals: Seq<FieldValue>) -> bool {
    &&& vals.len() == cols.len()
    &&& forall|k: int|
        0 <= k < cols.len() ==> type_compatible((#[trigger] cols[k]).field_type, val_vw(vals[k]))
}

/// The discriminated error of a failed insertion.
pub open spec fn sp_insert_err(cols: Seq<Column>, vals: Seq<FieldValue>) -> CoilError {
    if vals.len() > cols.len() {
        CoilError::TooManyValues
    } else if vals.len() < cols.len() {
        CoilError::NotEnoughValues
    } else {
        CoilError::MismatchedTypes
    }
}

/// The new table contents after one successful insertion.
pub open spec fn sp_inserted(oldc: Seq<Column>, newc: Seq<Column>, vals: Seq<FieldValue>) -> bool {
    &&& newc.len() == oldc.len()
    &&& forall|k: int|
        0 <= k < oldc.len() ==> (#[trigger] newc[k]).name == oldc[k].name && newc[k].field_type
            == oldc[k].field_type && newc[k].rows@ == oldc[k].rows@.push(vals[k])
}

impl Table {
    /// A table over the given columns.
    pub fn new(name: String, columns: Vec<Column>) -> (r: Table)
        ensures
            r.name == name,
            r.columns == columns,
    {
        Table { name, columns }
    }

    /// The shared length of this table's columns.
    pub fn row_count(&self) -> (r: usize)
        ensures
            r == sp_rows_len(self.columns@),
    {
        if self.columns.len() == 0 {
            0
        } else {
            self.columns[0].rows.len()
        }
    }

    /// Inserts one row atomically: on any arity or type error, nothing
    /// changes; on success every column grows by its one value.
    #[verifier::loop_isolation(false)]
    pub fn new_row(&mut self, values: Vec<FieldValue>) -> (r: Option<CoilError>)
        requires
            table_wf(*old(self)),
            forall|k: int| 0 <= k < values@.len() ==> val_wf(#[trigger] values@[k]),
        ensures
            match r {
                None => sp_insert_ok(old(self).columns@, values@) && final(self).name == old(
                    self,
                ).name && sp_inserted(old(self).columns@, final(self).columns@, values@),
                Some(e) => !sp_insert_ok(old(self).columns@, values@) && e == sp_insert_err(
                    old(self).columns@,
                    values@,
                ) && *final(self) == *old(self),
            },
            table_wf(*final(self)),
    {
        if values.len() > self.columns.len() {
            return Some(CoilError::TooManyValues);
        }
        if values.len() < self.columns.len() {
            return Some(CoilError::NotEnoughValues);
        }
        let mut k: usize = 0;
        while k < values.len()
            invariant
                k <= values@.len(),
                forall|m: int|
                    0 <= m < k ==> type_compatible(
                        (#[trigger] self.columns@[m]).field_type,
                        val_vw(values@[m]),
                    ),
            decreases values@.len() - k,
        {
            if !self.columns[k].field_type.check_field_value_type(&values[k]) {
                return Some(CoilError::MismatchedTypes);
            }
            k = k + 1;
        }
        let ghost oldcols = self.columns@;
        let mut k2: usize = 0;
        while k2 < values.len()
            invariant
                k2 <= values@.len(),
                self.name == old(self).name,
                self.columns@.len() == oldcols.len(),
                forall|m: int|
                    0 <= m < k2 ==> (#[trigger] self.columns@[m]).name == oldcols[m].name
                        && self.columns@[m].field_type == oldcols[m].field_type
                        && self.columns@[m].rows@ == oldcols[m].rows@.push(values@[m]),
                forall|m: int| k2 <= m < oldcols.len() ==> self.columns@[m] == oldcols[m],
            decreases values@.len() - k2,
        {
            let v = clone_value(&values[k2]);
            let col = &mut self.columns[k2];
            col.rows.push(v);
            k2 = k2 + 1;
        }
        proof {
            assert(cols_consistent(self.columns@)) by {
                assert(forall|k: int|
                    0 <= k < self.columns@.len() ==> (#[trigger] self.columns@[k]).rows@.len()
                        == oldcols[k].rows@.len() + 1);
            };
        }
        None
    }

    /// The mask of rows that pass the condition, or the first error.
    #[verifier::loop_isolation(false)]
    #[verifier::rlimit(100)]
    fn row_mask(&self, condition: Option<&Expression>) -> (r: Result<Vec<bool>, CoilError>)
        requires
            table_wf(*self),
            match condition {
                Some(c) => expr_wf(*c),
                None => true,
            },
        ensures
            match r {
                Ok(mask) => sp_mask(
                    self.columns@,
                    match condition {
                        Some(c) => Some(expr_vw(*c)),
                        None => None,
                    },
                    0,
                ) == Result::<Seq<bool>, CoilError>::Ok(mask@) && mask@.len() == sp_rows_len(
                    self.columns@,
                ),
                Err(e) => sp_mask(
                    self.columns@,
                    match condition {
                        Some(c) => Some(expr_vw(*c)),
                        None => None,
                    },
                    0,
                ) == Result::<Seq<bool>, CoilError>::Err(e),
            },
    {
        let ghost cv: Option<ExprV> = match condition {
            Some(c) => Some(expr_vw(*c)),
            None => None,
        };
        let n = self.row_count();
        let mut mask: Vec<bool> = Vec::new();
        let mut i: usize = 0;
        while i < n
            invariant
                i <= n,
                mask@.len() == i,
                (match sp_mask(self.columns@, cv, i as int) {
                    Ok(rest) => sp_mask(self.columns@, cv, 0) == Result::<
                        Seq<bool>,
                        CoilError,
                    >::Ok(mask@ + rest),
                    Err(e) => sp_mask(self.columns@, cv, 0) == Result::<Seq<bool>, CoilError>::Err(
                        e,
                    ),
                }),
            decreases n - i,
        {
            let row = Row::from_columns(&self.columns, i);
            proof {
                assert(row_vw(row) == sp_mat_row(self.columns@, i as int));
            }
            let keep: bool = match condition {
                Some(c) => {
                    match row.check_condition(c) {
                        Ok(b) => b,
                        Err(e) => {
                            return Err(e);
                        },
                    }
                },
                None => true,
            };
            proof {
                assert(sp_row_keep(self.columns@, cv, i as int) == Result::<bool, CoilError>::Ok(
                    keep,
                ));
            }
            let ghost pre = mask@;
            mask.push(keep);
            i = i + 1;
            proof {
                let i0: int = i as int - 1;
                let r1 = sp_mask(self.columns@, cv, i as int);
                match r1 {
                    Ok(rest) => {
                        assert(sp_mask(self.columns@, cv, i0) == Result::<Seq<bool>, CoilError>::Ok(
                            seq![keep] + rest,
                        ));
                        assert(pre + (seq![keep] + rest) =~= mask@ + rest);
                    },
                    Err(e) => {
                        assert(sp_mask(self.columns@, cv, i0) == Result::<
                            Seq<bool>,
                            CoilError,
                        >::Err(e));
                    },
                }
            }
        }
        proof {
            assert(mask@ + Seq::<bool>::empty() =~= mask@);
        }
        Ok(mask)
    }

    /// All rows that pass the condition, in storage order, exactly as
    /// [`sp_select_from`] describes; absent condition keeps every row.
    #[verifier::loop_isolation(false)]
    #[verifier::rlimit(100)]
    pub fn get_rows(&self, condition: Option<Expression>) -> (r: Result<Vec<Row>, CoilError>)
        requires
            table_wf(*self),
            match condition {
                Some(c) => expr_wf(c),
                None => true,
            },
        ensures
            match r {
                Ok(rows) => sp_select_from(
                    self.columns@,
                    match condition {
                        Some(c) => Some(expr_vw(c)),
                        None => None,
                    },
                    0,
                ) == Result::<Seq<Seq<(Seq<char>, ValV)>>, CoilError>::Ok(
                    rows@.map_values(|x: Row| row_vw(x)),
                ) && (forall|k: int| 0 <= k < rows@.len() ==> crate::eval::row_wf(#[trigger] rows@[k])),
                Err(e) => sp_select_from(
                    self.columns@,
                    match condition {
                        Some(c) => Some(expr_vw(c)),
                        None => None,
                    },
                    0,
                ) == Result::<Seq<Seq<(Seq<char>, ValV)>>, CoilError>::Err(e),
            },
    {
        let ghost cv: Option<ExprV> = match &condition {
            Some(c) => Some(expr_vw(*c)),
            None => None,
        };
        let n = self.row_count();
        let mut rows: Vec<Row> = Vec::new();
        let mut i: usize = 0;
        while i < n
            invariant
                i <= n,
                forall|k: int| 0 <= k < rows@.len() ==> crate::eval::row_wf(#[trigger] rows@[k]),
                (match sp_select_from(self.columns@, cv, i as int) {
                    Ok(rest) => sp_select_from(self.columns@, cv, 0) == Result::<
                        Seq<Seq<(Seq<char>, ValV)>>,
                        CoilError,
                    >::Ok(rows@.map_values(|x: Row| row_vw(x)) + rest),
                    Err(e) => sp_select_from(self.columns@, cv, 0) == Result::<
                        Seq<Seq<(Seq<char>, ValV)>>,
                        CoilError,
                    >::Err(e),
                }),
            decreases n - i,
        {
            let ghost pre = rows@.map_values(|x: Row| row_vw(x));
            let row = Row::from_columns(&self.columns, i);
            let keep: bool = match &condition {
                Some(c) => {
                    match row.check_condition(c) {
                        Ok(b) => b,
                        Err(e) => {
                            return Err(e);
                        },
                    }
                },
                None => true,
            };
            if keep {
                rows.push(row);
                proof {
                    assert(rows@.map_values(|x: Row| row_vw(x)) =~= pre.push(
                        sp_mat_row(self.columns@, i as int),
                    ));
                }
            }
            i = i + 1;
            proof {
                let r1 = sp_select_from(self.columns@, cv, i as int);
                match r1 {
                    Ok(rest) => {
                        if keep {
                            assert(pre + (seq![sp_mat_row(self.columns@, i as int - 1)] + rest)
                                =~= pre.push(sp_mat_row(self.columns@, i as int - 1)) + rest);
                        }
                    },
                    Err(_) => {},
                }
            }
        }
        proof {
            assert(rows@.map_values(|x: Row| row_vw(x)) + Seq::<Seq<(Seq<char>, ValV)>>::empty()
                =~= rows@.map_values(|x: Row| row_vw(x)));
        }
        Ok(rows)
    }

    /// Removes the rows a condition selects; reports how many went.
    #[verifier::loop_isolation(false)]
    #[verifier::rlimit(100)]
    pub fn delete_rows(&mut self, condition: &Expression) -> (r: Result<usize, CoilError>)
        requires
            table_wf(*old(self)),
            expr_wf(*condition),
        ensures
            table_wf(*final(self)),
            final(self).name == old(self).name,
            match r {
                Ok(n) => match sp_mask(old(self).columns@, Some(expr_vw(*condition)), 0) {
                    Ok(mask) => n == sp_count_true(mask) && sp_deleted(
                        old(self).columns@,
                        final(self).columns@,
                        mask,
                    ),
                    Err(_) => false,
                },
                Err(e) => sp_mask(old(self).columns@, Some(expr_vw(*condition)), 0) == Result::<
                    Seq<bool>,
                    CoilError,
                >::Err(e) && *final(self) == *old(self),
            },
    {
        let mask = match self.row_mask(Some(condition)) {
            Ok(m) => m,
            Err(e) => {
                return Err(e);
            },
        };
        let ghost mk = mask@;
        let ghost oldcols = self.columns@;
        // Count the rows that go.
        proof {
            assert(mk.skip(0) =~= mk);
            lemma_count_true_bound(mk);
        }
        let mut n: usize = 0;
        let mut i: usize = 0;
        while i < mask.len()
            invariant
                i <= mk.len(),
                n <= i,
                n + sp_count_true(mk.skip(i as int)) == sp_count_true(mk),
            decreases mk.len() - i,
        {
            proof {
                assert(mk.skip(i as int).drop_first() =~= mk.skip(i as int + 1));
                assert(mk.skip(i as int)[0] == mk[i as int]);
                lemma_count_true_bound(mk.skip(i as int + 1));
            }
            if mask[i] {
                n = n + 1;
            }
            i = i + 1;
        }
        proof {
            assert(mk.skip(mk.len() as int) =~= Seq::<bool>::empty());
        }
        // Rebuild every column without the masked rows.
        let mut k: usize = 0;
        while k < self.columns.len()
            invariant
                k <= self.columns@.len(),
                self.name == old(self).name,
                self.columns@.len() == oldcols.len(),
                forall|m: int|
                    0 <= m < k ==> (#[trigger] self.columns@[m]).name == oldcols[m].name
                        && self.columns@[m].field_type == oldcols[m].field_type
                        && self.columns@[m].rows@ == sp_filter_from(oldcols[m].rows@, mk, 0)
                        && col_wf(self.columns@[m]),
                forall|m: int| k <= m < oldcols.len() ==> self.columns@[m] == oldcols[m],
            decreases oldcols.len() - k,
        {
            let mut kept: Vec<FieldValue> = Vec::new();
            let mut i2: usize = 0;
            let col_len = self.columns[k].rows.len();
            while i2 < col_len
                invariant
                    i2 <= col_len,
                    k < self.columns@.len(),
                    self.columns@[k as int] == oldcols[k as int],
                    col_len == oldcols[k as int].rows@.len(),
                    col_len <= mk.len(),
                    sp_filter_from(oldcols[k as int].rows@, mk, 0) == kept@ + sp_filter_from(
                        oldcols[k as int].rows@,
                        mk,
                        i2 as int,
                    ),
                    forall|m: int|
                        0 <= m < kept@.len() ==> val_wf(#[trigger] kept@[m]) && type_compatible(
                            oldcols[k as int].field_type,
                            val_vw(kept@[m]),
                        ),
                decreases col_len - i2,
            {
                let ghost pre = kept@;
                if !mask[i2] {
                    kept.push(clone_value(&self.columns[k].rows[i2]));
                }
                i2 = i2 + 1;
                proof {
                    let rest = sp_filter_from(oldcols[k as int].rows@, mk, i2 as int);
                    if !mk[i2 - 1] {
                        assert(pre + (seq![oldcols[k as int].rows@[i2 - 1]] + rest) =~= kept@
                            + rest);
                    }
                }
            }
            proof {
                assert(kept@ + sp_filter_from(oldcols[k as int].rows@, mk, col_len as int)
                    =~= kept@);
            }
            let col = &mut self.columns[k];
            col.rows = kept;
            k = k + 1;
        }
        proof {
            assert(cols_consistent(self.columns@)) by {
                if self.columns@.len() > 0 {
                    lemma_filter_same_len(oldcols, mk);
                }
            };
        }
        Ok(n)
    }
}

/// First column of the given name, from index `i` on.
pub open spec fn sp_find_col_from(cols: Seq<Column>, name: Seq<char>, i: int) -> Option<int>
    decreases cols.len() - i,
{
    if i < 0 || i >= cols.len() {
        None
    } else if cols[i].name@ == name {
        Some(i)
    } else {
        sp_find_col_from(cols, name, i + 1)
    }
}

/// First error among the assignments: a name that no column bears, or a
/// value that does not fit its column's type.
pub open spec fn sp_validate_asg(
    cols: Seq<Column>,
    asg: Seq<(String, FieldValue)>,
    j: int,
) -> Option<CoilError>
    decreases asg.len() - j,
{
    if j < 0 || j >= asg.len() {
        None
    } else {
        match sp_find_col_from(cols, asg[j].0@, 0) {
            None => Some(CoilError::UnknownField),
            Some(k) => if !type_compatible(cols[k].field_type, val_vw(asg[j].1)) {
                Some(CoilError::MismatchedTypes)
            } else {
                sp_validate_asg(cols, asg, j + 1)
            },
        }
    }
}

/// The value the assignments leave in column `k`: the last assignment
/// that targets it, if any.
pub open spec fn sp_asg_value(
    cols: Seq<Column>,
    asg: Seq<(String, FieldValue)>,
    k: int,
) -> Option<FieldValue>
    decreases asg.len(),
{
    if asg.len() == 0 {
        None
    } else if sp_find_col_from(cols, asg.last().0@, 0) == Some(k) {
        Some(asg.last().1)
    } else {
        sp_asg_value(cols, asg.drop_last(), k)
    }
}

/// One cell of the updated table: rewritten where the mask holds and an
/// assignment targets the column, kept otherwise.
pub open spec fn sp_cell(
    oldc: Seq<Column>,
    asg: Seq<(String, FieldValue)>,
    mask: Seq<bool>,
    k: int,
    i: int,
) -> FieldValue {
    if 0 <= i < mask.len() && mask[i] {
        match sp_asg_value(oldc, asg, k) {
            Some(v) => v,
            None => oldc[k].rows@[i],
        }
    } else {
        oldc[k].rows@[i]
    }
}

/// One column after an update under a mask.
pub open spec fn col_updated(
    oldc: Seq<Column>,
    asg: Seq<(String, FieldValue)>,
    mask: Seq<bool>,
    c: Column,
    k: int,
) -> bool {
    &&& c.name == oldc[k].name
    &&& c.field_type == oldc[k].field_type
    &&& c.rows@.len() == oldc[k].rows@.len()
    &&& forall|i: int| 0 <= i < oldc[k].rows@.len() ==> c.rows@[i] == sp_cell(oldc, asg, mask, k, i)
}

/// The new table contents after an update under a mask.
pub open spec fn sp_updated(
    oldc: Seq<Column>,
    newc: Seq<Column>,
    asg: Seq<(String, FieldValue)>,
    mask: Seq<bool>,
) -> bool {
    &&& newc.len() == oldc.len()
    &&& forall|k: int| 0 <= k < oldc.len() ==> col_updated(oldc, asg, mask, #[trigger] newc[k], k)
}

impl Table {
    /// First column of the given name.
    #[verifier::loop_isolation(false)]
    pub fn find_col(&self, name: &str) -> (r: Option<usize>)
        ensures
            match r {
                Some(k) => sp_find_col_from(self.columns@, name@, 0) == Some(k as int) && k
                    < self.columns@.len() && self.columns@[k as int].name@ == name@,
                None => sp_find_col_from(self.columns@, name@, 0) is None,
            },
    {
        let mut k: usize = 0;
        while k < self.columns.len()
            invariant
                k <= self.columns@.len(),
                sp_find_col_from(self.columns@, name@, 0) == sp_find_col_from(
                    self.columns@,
                    name@,
                    k as int,
                ),
            decreases self.columns@.len() - k,
        {
            if str_eq(self.columns[k].name.as_str(), name) {
                return Some(k);
            }
            k = k + 1;
        }
        None
    }

    /// Rewrites the assigned fields of every row the condition selects;
    /// validation is condition-independent and the whole update is
    /// atomic: on any error nothing changes.
    #[verifier::loop_isolation(false)]
    #[verifier::rlimit(100)]
    pub fn update_rows(
        &mut self,
        assignments: &Vec<(String, FieldValue)>,
        condition: Option<&Expression>,
    ) -> (r: Result<usize, CoilError>)
        requires
            table_wf(*old(self)),
            forall|k: int| 0 <= k < assignments@.len() ==> val_wf((#[trigger] assignments@[k]).1),
            match condition {
                Some(c) => expr_wf(*c),
                None => true,
            },
        ensures
            table_wf(*final(self)),
            final(self).name == old(self).name,
            match sp_validate_asg(old(self).columns@, assignments@, 0) {
                Some(e) => r == Result::<usize, CoilError>::Err(e) && *final(self) == *old(self),
                None => match sp_mask(
                    old(self).columns@,
                    match condition {
                        Some(c) => Some(expr_vw(*c)),
                        None => None,
                    },
                    0,
                ) {
                    Err(e) => r == Result::<usize, CoilError>::Err(e) && *final(self) == *old(
                        self,
                    ),
                    Ok(mask) => match r {
                        Ok(n) => n as int == sp_count_true(mask) && sp_updated(
                            old(self).columns@,
                            final(self).columns@,
                            assignments@,
                            mask,
                        ),
                        Err(_) => false,
                    },
                },
            },
    {
        let ghost oldcols = self.columns@;
        // Validate every assignment before touching anything.
        let mut j: usize = 0;
        while j < assignments.len()
            invariant
                j <= assignments@.len(),
                sp_validate_asg(oldcols, assignments@, 0) == sp_validate_asg(
                    oldcols,
                    assignments@,
                    j as int,
                ),
            decreases assignments@.len() - j,
        {
            match self.find_col(assignments[j].0.as_str()) {
                None => {
                    return Err(CoilError::UnknownField);
                },
                Some(k) => {
                    if !self.columns[k].field_type.check_field_value_type(&assignments[j].1) {
                        return Err(CoilError::MismatchedTypes);
                    }
                },
            }
            j = j + 1;
        }
        // Decide which rows the condition selects.
        let mask = match self.row_mask(condition) {
            Ok(m) => m,
            Err(e) => {
                return Err(e);
            },
        };
        let ghost mk = mask@;
        proof {
            assert(mk.skip(0) =~= mk);
            lemma_count_true_bound(mk);
        }
        let mut n: usize = 0;
        let mut i: usize = 0;
        while i < mask.len()
            invariant
                i <= mk.len(),
                n <= i,
                n + sp_count_true(mk.skip(i as int)) == sp_count_true(mk),
            decreases mk.len() - i,
        {
            proof {
                assert(mk.skip(i as int).drop_first() =~= mk.skip(i as int + 1));
                assert(mk.skip(i as int)[0] == mk[i as int]);
                lemma_count_true_bound(mk.skip(i as int + 1));
            }
            if mask[i] {
                n = n + 1;
            }
            i = i + 1;
        }
        proof {
            assert(mk.skip(mk.len() as int) =~= Seq::<bool>::empty());
        }
        // Apply the assignments in order; the last one to a column wins.
        proof {
            assert(assignments@.subrange(0, 0) =~= Seq::<(String, FieldValue)>::empty());
            assert(forall|k: int|
                0 <= k < oldcols.len() ==> col_updated(
                    oldcols,
                    assignments@.subrange(0, 0),
                    mk,
                    #[trigger] oldcols[k],
                    k,
                ));
        }
        let mut j2: usize = 0;
        while j2 < assignments.len()
            invariant
                j2 <= assignments@.len(),
                self.name == old(self).name,
                self.columns@.len() == oldcols.len(),
                mk.len() == sp_rows_len(oldcols),
                sp_validate_asg(oldcols, assignments@, 0) is None,
                forall|k: int|
                    0 <= k < assignments@.len() ==> val_wf((#[trigger] assignments@[k]).1),
                forall|k: int|
                    0 <= k < oldcols.len() ==> col_updated(
                        oldcols,
                        assignments@.subrange(0, j2 as int),
                        mk,
                        #[trigger] self.columns@[k],
                        k,
                    ),
                cols_wf(self.columns@),
            decreases assignments@.len() - j2,
        {
            let ghost asgpre = assignments@.subrange(0, j2 as int);
            let ghost asgpost = assignments@.subrange(0, j2 as int + 1);
            proof {
                assert(asgpost.drop_last() =~= asgpre);
                assert(asgpost.last() == assignments@[j2 as int]);
                lemma_validate_all(oldcols, assignments@, 0);
                lemma_find_col_same_names(oldcols, self.columns@, assignments@[j2 as int].0@, 0);
            }
            let name_k: Option<usize> = self.find_col(assignments[j2].0.as_str());
            match name_k {
                None => {
                    proof {
                        assert(false);
                    }
                    return Err(CoilError::UnknownField);
                },
                Some(k) => {
                    let av = clone_value(&assignments[j2].1);
                    let ghost colsnap = self.columns@;
                    let rows_n = self.columns[k].rows.len();
                    proof {
                        assert(oldcols[k as int].rows@.len() == Seq::new(
                            oldcols[k as int].rows@.len(),
                            |i: int| sp_cell(oldcols, asgpre, mk, k as int, i),
                        ).len());
                    }
                    let mut i2: usize = 0;
                    while i2 < rows_n
                        invariant
                            i2 <= rows_n,
                            k < oldcols.len(),
                            self.columns@.len() == oldcols.len(),
                            colsnap.len() == oldcols.len(),
                            self.name == old(self).name,
                            rows_n == oldcols[k as int].rows@.len(),
                            av == assignments@[j2 as int].1,
                            val_wf(av),
                            type_compatible(oldcols[k as int].field_type, val_vw(av)),
                            forall|m: int|
                                0 <= m < oldcols.len() && m != k ==> self.columns@[m]
                                    == colsnap[m],
                            self.columns@[k as int].name == colsnap[k as int].name,
                            self.columns@[k as int].field_type == colsnap[k as int].field_type,
                            self.columns@[k as int].rows@.len() == rows_n,
                            colsnap[k as int].rows@.len() == rows_n,
                            forall|i: int|
                                0 <= i < i2 && mk[i] ==> (#[trigger] self.columns@[k as int].rows@[i])
                                    == av,
                            forall|i: int|
                                0 <= i < i2 && !(mk[i]) ==> (#[trigger] self.columns@[k as int].rows@[i])
                                    == colsnap[k as int].rows@[i],
                            forall|i: int|
                                i2 <= i < rows_n ==> (#[trigger] self.columns@[k as int].rows@[i])
                                    == colsnap[k as int].rows@[i],
                            col_wf(colsnap[k as int]),
                            cols_wf(self.columns@),
                        decreases rows_n - i2,
                    {
                        if mask[i2] {
                            let v2 = clone_value(&av);
                            let col = &mut self.columns[k];
                            let cell = &mut col.rows[i2];
                            *cell = v2;
                        }
                        i2 = i2 + 1;
                    }
                    j2 = j2 + 1;
                    proof {
                        assert(sp_asg_value(oldcols, asgpost, k as int) == Some(av));
                        assert forall|m: int, i: int|
                            0 <= m < oldcols.len() && m != k && 0 <= i
                                < oldcols[m].rows@.len() implies #[trigger] sp_cell(
                            oldcols,
                            asgpost,
                            mk,
                            m,
                            i,
                        ) == sp_cell(oldcols, asgpre, mk, m, i) by {
                            assert(sp_asg_value(oldcols, asgpost, m) == sp_asg_value(
                                oldcols,
                                asgpre,
                                m,
                            ));
                        };
                        assert forall|m: int|
                            0 <= m < oldcols.len() implies col_updated(
                            oldcols,
                            assignments@.subrange(0, j2 as int),
                            mk,
                            #[trigger] self.columns@[m],
                            m,
                        ) by {
                            assert(assignments@.subrange(0, j2 as int) == asgpost);
                            assert(col_updated(oldcols, asgpre, mk, colsnap[m], m));
                            if m == k {
                                assert forall|i: int|
                                    0 <= i < oldcols[m].rows@.len() implies self.columns@[m].rows@[i]
                                    == sp_cell(oldcols, asgpost, mk, m, i) by {
                                    assert(colsnap[m].rows@[i] == sp_cell(
                                        oldcols,
                                        asgpre,
                                        mk,
                                        m,
                                        i,
                                    ));
                                };
                            } else {
                                assert(self.columns@[m] == colsnap[m]);
                                assert forall|i: int|
                                    0 <= i < oldcols[m].rows@.len() implies self.columns@[m].rows@[i]
                                    == sp_cell(oldcols, asgpost, mk, m, i) by {
                                    assert(colsnap[m].rows@[i] == sp_cell(
                                        oldcols,
                                        asgpre,
                                        mk,
                                        m,
                                        i,
                                    ));
                                    assert(sp_asg_value(oldcols, asgpost, m) == sp_asg_value(
                                        oldcols,
                                        asgpre,
                                        m,
                                    ));
                                };
                            }
                        };
                    }
                },
            }
        }
        proof {
            assert(assignments@.subrange(0, assignments@.len() as int) =~= assignments@);
            assert(forall|k: int|
                0 <= k < oldcols.len() ==> col_updated(
                    oldcols,
                    assignments@,
                    mk,
                    #[trigger] self.columns@[k],
                    k,
                ));
            assert(cols_consistent(self.columns@));
        }
        Ok(n)
    }
}

/// A validated assignment list targets only existing, type-compatible
/// columns.
proof fn lemma_validate_all(cols: Seq<Column>, asg: Seq<(String, FieldValue)>, j: int)
    requires
        0 <= j,
        sp_validate_asg(cols, asg, j) is None,
    ensures
        forall|m: int|
            j <= m < asg.len() && 0 <= m ==> (match sp_find_col_from(
                cols,
                (#[trigger] asg[m]).0@,
                0,
            ) {
                Some(k) => 0 <= k < cols.len() && type_compatible(
                    cols[k].field_type,
                    val_vw(asg[m].1),
                ),
                None => false,
            }),
    decreases asg.len() - j,
{
    if 0 <= j < asg.len() {
        lemma_find_col_bounds(cols, asg[j].0@, 0);
        lemma_validate_all(cols, asg, j + 1);
    }
}

/// A found column index is in bounds and bears the name.
proof fn lemma_find_col_bounds(cols: Seq<Column>, name: Seq<char>, i: int)
    ensures
        match sp_find_col_from(cols, name, i) {
            Some(k) => i <= k < cols.len() && cols[k].name@ == name,
            None => true,
        },
    decreases cols.len() - i,
{
    if 0 <= i < cols.len() && cols[i].name@ != name {
        lemma_find_col_bounds(cols, name, i + 1);
    }
}

/// Column lookup goes by names alone.
proof fn lemma_find_col_same_names(a: Seq<Column>, b: Seq<Column>, name: Seq<char>, i: int)
    requires
        a.len() == b.len(),
        forall|k: int| 0 <= k < a.len() ==> (#[trigger] a[k]).name == b[k].name,
    ensures
        sp_find_col_from(a, name, i) == sp_find_col_from(b, name, i),
    decreases a.len() - i,
{
    if 0 <= i < a.len() && a[i].name@ != name {
        lemma_find_col_same_names(a, b, name, i + 1);
    }
}

/// Columns of equal length filter to equal lengths under one mask.
proof fn lemma_filter_same_len(cols: Seq<Column>, mask: Seq<bool>)
    requires
        cols_consistent(cols),
    ensures
        forall|a: int, b: int|
            0 <= a < cols.len() && 0 <= b < cols.len() ==> sp_filter_from(
                (#[trigger] cols[a]).rows@,
                mask,
                0,
            ).len() == sp_filter_from((#[trigger] cols[b]).rows@, mask, 0).len(),
{
    assert forall|a: int, b: int|
        0 <= a < cols.len() && 0 <= b < cols.len() implies sp_filter_from(
        (#[trigger] cols[a]).rows@,
        mask,
        0,
    ).len() == sp_filter_from((#[trigger] cols[b]).rows@, mask, 0).len() by {
        lemma_filter_len_eq(cols[a].rows@, cols[b].rows@, mask, 0);
    };
}

/// A mask's true-count lies between zero and its length.
proof fn lemma_count_true_bound(mask: Seq<bool>)
    ensures
        0 <= sp_count_true(mask) <= mask.len(),
    decreases mask.len(),
{
    if mask.len() > 0 {
        lemma_count_true_bound(mask.drop_first());
    }
}

/// Two value sequences of one length filter to one length.
proof fn lemma_filter_len_eq(x: Seq<FieldValue>, y: Seq<FieldValue>, mask: Seq<bool>, i: int)
    requires
        x.len() == y.len(),
    ensures
        sp_filter_from(x, mask, i).len() == sp_filter_from(y, mask, i).len(),
    decreases x.len() - i,
{
    if 0 <= i < x.len() {
        lemma_filter_len_eq(x, y, mask, i + 1);
    }
}

} // verus!
