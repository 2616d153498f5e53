//! The database dispatcher: named tables, a registry of sibling
//! database names, and query routing.
//!
//! Database-level CREATE and DELETE manage separate top-level database
//! contexts by name: the dispatcher records their names and the host
//! owns their storage. `DELETE DATABASE` of this database's own name
//! empties it.

use vstd::prelude::*;

use crate::CoilError;
use crate::eval::{row_vw, Row};
use crate::parser::{expr_vw, query_wf, ExprV, Expression, Operation, Query};
use crate::store::{cols_consistent, cols_wf, sp_deleted, sp_insert_err, sp_insert_ok, sp_inserted,
    sp_mask, sp_select_from, sp_updated, sp_validate_asg, table_wf, Column, Table};
use crate::values::{str_eq, ValV};

verus! {

/// Host-facing configuration: the root path under which this database
/// is persisted.
#[derive(Debug)]
pub struct DatabaseConfig {
    pub path: String,
}

impl DatabaseConfig {
    /// A configuration rooted at the given path.
    pub fn new(path: String) -> (r: DatabaseConfig)
        ensures
            r.path == path,
    {
        DatabaseConfig { path }
    }

    /// The default configuration: the current directory.
    pub fn default() -> (r: DatabaseConfig)
        ensures
            r.path@ == "./"@,
    {
        DatabaseConfig { path: "./".to_owned() }
    }
}

/// What one executed query hands back to the caller.
#[derive(Debug)]
pub struct QueryResult {
    pub operation: Operation,
    pub database: Option<String>,
    pub table: Option<String>,
    pub columns: Option<Vec<Column>>,
    pub rows: Option<Vec<Row>>,
}

impl QueryResult {
    /// An empty result of the given kind.
    pub fn new(operation: Operation) -> (r: QueryResult)
        ensures
            r.operation == operation,
            r.database is None && r.table is None && r.columns is None && r.rows is None,
    {
        QueryResult { operation, database: None, table: None, columns: None, rows: None }
    }
}

/// A named database: tables with unique names, and the registry of
/// sibling database names.
#[derive(Debug)]
pub struct Database {
    pub name: String,
    pub config: DatabaseConfig,
    pub tables: Vec<Table>,
    pub databases: Vec<String>,
}

/// Tables are well formed and uniquely named; registered sibling names
/// are unique and differ from this database's own name.
pub open spec fn db_wf(d: Database) -> bool {
    &&& forall|k: int| 0 <= k < d.tables@.len() ==> table_wf(#[trigger] d.tables@[k])
    &&& forall|i: int, j: int|
        0 <= i < j < d.tables@.len() ==> d.tables@[i].name@ != d.tables@[j].name@
    &&& forall|i: int, j: int|
        0 <= i < j < d.databases@.len() ==> d.databases@[i]@ != d.databases@[j]@
    &&& forall|i: int| 0 <= i < d.databases@.len() ==> (#[trigger] d.databases@[i])@ != d.name@
}

/// First table of the given name, from index `i` on.
pub open spec fn sp_find_table(tables: Seq<Table>, name: Seq<char>, i: int) -> Option<int>
    decreases tables.len() - i,
{
    if i < 0 || i >= tables.len() {
        None
    } else if tables[i].name@ == name {
        Some(i)
    } else {
        sp_find_table(tables, name, i + 1)
    }
}

pub proof fn lemma_find_table(tables: Seq<Table>, name: Seq<char>, i: int)
    requires
        0 <= i,
    ensures
        match sp_find_table(tables, name, i) {
            Some(k) => i <= k < tables.len() && tables[k].name@ == name,
            None => forall|k: int| i <= k < tables.len() ==> (#[trigger] tables[k]).name@ != name,
        },
    decreases tables.len() - i,
{
    if 0 <= i < tables.len() && tables[i].name@ != name {
        lemma_find_table(tables, name, i + 1);
    }
}

/// First registered name equal to `name`, from index `i` on.
pub open spec fn sp_find_str(names: Seq<String>, name: Seq<char>, i: int) -> Option<int>
    decreases names.len() - i,
{
    if i < 0 || i >= names.len() {
        None
    } else if names[i]@ == name {
        Some(i)
    } else {
        sp_find_str(names, name, i + 1)
    }
}

pub proof fn lemma_find_str(names: Seq<String>, name: Seq<char>, i: int)
    requires
        0 <= i,
    ensures
        match sp_find_str(names, name, i) {
            Some(k) => i <= k < names.len() && names[k]@ == name,
            None => forall|k: int| i <= k < names.len() ==> (#[trigger] names[k])@ != name,
        },
    decreases names.len() - i,
{
    if 0 <= i < names.len() && names[i]@ != name {
        lemma_find_str(names, name, i + 1);
    }
}

/// The model of an optional boxed condition.
pub open spec fn cond_vw(c: Option<Box<Expression>>) -> Option<ExprV> {
    match c {
        Some(b) => Some(expr_vw(*b)),
        None => None,
    }
}

/// What a GET returns for a resolved table, per [`sp_select_from`].
pub open spec fn get_result_ok(qr: QueryResult, nm: Seq<char>, t: Table, sel: Seq<Seq<(Seq<char>, ValV)>>) -> bool {
    &&& qr.operation == Operation::Get
    &&& match qr.table {
        Some(tn) => tn@ == nm,
        None => false,
    }
    &&& match qr.rows {
        Some(rs) => rs@.map_values(|x: Row| row_vw(x)) == sel,
        None => false,
    }
    &&& match qr.columns {
        Some(cm) => cm@.len() == t.columns@.len() && forall|k: int|
            0 <= k < t.columns@.len() ==> (#[trigger] cm@[k]).name@ == t.columns@[k].name@
                && cm@[k].field_type == t.columns@[k].field_type && cm@[k].rows@.len() == 0,
        None => false,
    }
}

/// Both databases hold the same tables and registry.
pub open spec fn same_state(a: Database, b: Database) -> bool {
    a.tables@ == b.tables@ && a.databases@ == b.databases@
}

/// The table list is unchanged but for the table at `ti`.
pub open spec fn tables_except(a: Seq<Table>, b: Seq<Table>, ti: int) -> bool {
    &&& b.len() == a.len()
    &&& forall|j: int| 0 <= j < a.len() && j != ti ==> a[j] == b[j]
}

impl Database {
    /// An empty database of the given name and configuration.
    pub fn new(name: String, config: DatabaseConfig) -> (r: Database)
        ensures
            r.name == name,
            r.config == config,
            r.tables@.len() == 0,
            r.databases@.len() == 0,
            db_wf(r),
    {
        Database { name, config, tables: Vec::new(), databases: Vec::new() }
    }

    /// Index of the table with the given name.
    #[verifier::loop_isolation(false)]
    fn find_table_index(&self, name: &str) -> (r: Option<usize>)
        ensures
            match r {
                Some(i) => sp_find_table(self.tables@, name@, 0) == Some(i as int) && i
                    < self.tables@.len() && self.tables@[i as int].name@ == name@,
                None => sp_find_table(self.tables@, name@, 0) is None,
            },
    {
        let mut i: usize = 0;
        while i < self.tables.len()
            invariant
                i <= self.tables@.len(),
                sp_find_table(self.tables@, name@, 0) == sp_find_table(
                    self.tables@,
                    name@,
                    i as int,
                ),
            decreases self.tables@.len() - i,
        {
            if str_eq(self.tables[i].name.as_str(), name) {
                return Some(i);
            }
            i = i + 1;
        }
        None
    }

    /// Index of the registered sibling database name.
    #[verifier::loop_isolation(false)]
    fn find_database_index(&self, name: &str) -> (r: Option<usize>)
        ensures
            match r {
                Some(i) => sp_find_str(self.databases@, name@, 0) == Some(i as int) && i
                    < self.databases@.len(),
                None => sp_find_str(self.databases@, name@, 0) is None,
            },
    {
        let mut i: usize = 0;
        while i < self.databases.len()
            invariant
                i <= self.databases@.len(),
                sp_find_str(self.databases@, name@, 0) == sp_find_str(
                    self.databases@,
                    name@,
                    i as int,
                ),
            decreases self.databases@.len() - i,
        {
            if str_eq(self.databases[i].as_str(), name) {
                return Some(i);
            }
            i = i + 1;
        }
        None
    }

    /// Registers a new table; a conflict leaves everything unmodified.
    pub fn new_table(&mut self, name: String, columns: Vec<Column>) -> (r: Result<(), CoilError>)
        requires
            db_wf(*old(self)),
            cols_wf(columns@),
            cols_consistent(columns@),
        ensures
            db_wf(*final(self)),
            final(self).name == old(self).name,
            final(self).config == old(self).config,
            final(self).databases@ == old(self).databases@,
            match r {
                Ok(()) => sp_find_table(old(self).tables@, name@, 0) is None
                    && final(self).tables@ == old(self).tables@.push(Table { name, columns }),
                Err(e) => e == CoilError::TableAlreadyExists && sp_find_table(
                    old(self).tables@,
                    name@,
                    0,
                ) is Some && *final(self) == *old(self),
            },
    {
        match self.find_table_index(name.as_str()) {
            Some(_) => Err(CoilError::TableAlreadyExists),
            None => {
                proof {
                    lemma_find_table(self.tables@, name@, 0);
                }
                self.tables.push(Table::new(name, columns));
                Ok(())
            },
        }
    }

    /// The table of the given name, if any.
    pub fn get_table(&self, name: String) -> (r: Option<&Table>)
        ensures
            match r {
                Some(t) => sp_find_table(self.tables@, name@, 0) matches Some(i) && *t
                    == self.tables@[i],
                None => sp_find_table(self.tables@, name@, 0) is None,
            },
    {
        match self.find_table_index(name.as_str()) {
            Some(i) => Some(&self.tables[i]),
            None => None,
        }
    }

    /// The table of the given name, borrowed for mutation: whatever the
    /// caller leaves behind the borrow becomes the table at that slot.
    pub fn get_table_mut(&mut self, name: String) -> (r: Option<&mut Table>)
        ensures
            match r {
                Some(t) => match sp_find_table(old(self).tables@, name@, 0) {
                    Some(i) => *t == old(self).tables@[i] && final(self).name == old(self).name
                        && final(self).config == old(self).config && final(self).databases@ == old(
                        self,
                    ).databases@ && final(self).tables@ == old(self).tables@.update(i, *final(t)),
                    None => false,
                },
                None => sp_find_table(old(self).tables@, name@, 0) is None && *final(self) == *old(
                    self,
                ),
            },
    {
        match self.find_table_index(name.as_str()) {
            Some(i) => Some(&mut self.tables[i]),
            None => None,
        }
    }

    /// Routes one parsed statement to the store, per the statement kind.
    #[verifier::loop_isolation(false)]
    #[verifier::rlimit(100)]
    pub fn run_query(&mut self, query: Query) -> (r: Result<QueryResult, CoilError>)
        requires
            db_wf(*old(self)),
            query_wf(query),
        ensures
            db_wf(*final(self)),
            final(self).name == old(self).name,
            final(self).config == old(self).config,
            match query.operation {
                Operation::Get => same_state(*old(self), *final(self)) && (match query.table {
                    Some(nm) => match sp_find_table(old(self).tables@, nm@, 0) {
                        Some(ti) => match sp_select_from(
                            old(self).tables@[ti].columns@,
                            cond_vw(query.condition),
                            0,
                        ) {
                            Ok(sel) => match r {
                                Ok(qr) => get_result_ok(qr, nm@, old(self).tables@[ti], sel),
                                Err(_) => false,
                            },
                            Err(e) => (r matches Err(e2) && e2 == e),
                        },
                        None => (r matches Err(e) && e == CoilError::TableDoesntExist),
                    },
                    None => (r matches Err(e) && e == CoilError::TableDoesntExist),
                }),
                Operation::Put => match (query.table, query.values) {
                    (Some(nm), Some(vals)) => match sp_find_table(old(self).tables@, nm@, 0) {
                        Some(ti) => if sp_insert_ok(old(self).tables@[ti].columns@, vals@) {
                            match r {
                                Ok(qr) => qr.operation == Operation::Put && tables_except(
                                    old(self).tables@,
                                    final(self).tables@,
                                    ti,
                                ) && final(self).tables@[ti].name == old(self).tables@[ti].name
                                    && sp_inserted(
                                    old(self).tables@[ti].columns@,
                                    final(self).tables@[ti].columns@,
                                    vals@,
                                ) && final(self).databases@ == old(self).databases@,
                                Err(_) => false,
                            }
                        } else {
                            (r matches Err(e) && e == sp_insert_err(
                                old(self).tables@[ti].columns@,
                                vals@,
                            ) && same_state(*old(self), *final(self)))
                        },
                        None => (r matches Err(e) && e == CoilError::TableDoesntExist
                            && same_state(*old(self), *final(self))),
                    },
                    (None, _) => (r matches Err(e) && e == CoilError::TableDoesntExist
                        && same_state(*old(self), *final(self))),
                    (Some(_), None) => (r matches Err(e) && e == CoilError::NotEnoughValues
                        && same_state(*old(self), *final(self))),
                },
                Operation::Update => match (query.table, query.assignments) {
                    (Some(nm), Some(asg)) => match sp_find_table(old(self).tables@, nm@, 0) {
                        Some(ti) => match sp_validate_asg(old(self).tables@[ti].columns@, asg@, 0) {
                            Some(e) => (r matches Err(e2) && e2 == e && same_state(
                                *old(self),
                                *final(self),
                            )),
                            None => match sp_mask(
                                old(self).tables@[ti].columns@,
                                cond_vw(query.condition),
                                0,
                            ) {
                                Err(e) => (r matches Err(e2) && e2 == e && same_state(
                                    *old(self),
                                    *final(self),
                                )),
                                Ok(mask) => match r {
                                    Ok(qr) => qr.operation == Operation::Update && tables_except(
                                        old(self).tables@,
                                        final(self).tables@,
                                        ti,
                                    ) && final(self).tables@[ti].name == old(
                                        self,
                                    ).tables@[ti].name && sp_updated(
                                        old(self).tables@[ti].columns@,
                                        final(self).tables@[ti].columns@,
                                        asg@,
                                        mask,
                                    ) && final(self).databases@ == old(self).databases@,
                                    Err(_) => false,
                                },
                            },
                        },
                        None => (r matches Err(e) && e == CoilError::TableDoesntExist
                            && same_state(*old(self), *final(self))),
                    },
                    (None, _) => (r matches Err(e) && e == CoilError::TableDoesntExist
                        && same_state(*old(self), *final(self))),
                    (Some(_), None) => (r matches Err(e) && e == CoilError::UnexpectedToken
                        && same_state(*old(self), *final(self))),
                },
                Operation::Create => match (query.database, query.table) {
                    (Some(db), _) => if db@ == old(self).name@ || sp_find_str(
                        old(self).databases@,
                        db@,
                        0,
                    ) is Some {
                        (r matches Err(e) && e == CoilError::DatabaseAlreadyExists && same_state(
                            *old(self),
                            *final(self),
                        ))
                    } else {
                        (match r {
                            Ok(qr) => qr.operation == Operation::Create && (qr.database
                                matches Some(dn) && dn@ == db@),
                            Err(_) => false,
                        }) && final(self).tables@ == old(self).tables@ && final(self).databases@
                            == old(self).databases@.push(db)
                    },
                    (None, Some(nm)) => match query.columns {
                        Some(cols) => if sp_find_table(old(self).tables@, nm@, 0) is Some {
                            (r matches Err(e) && e == CoilError::TableAlreadyExists && same_state(
                                *old(self),
                                *final(self),
                            ))
                        } else {
                            (match r {
                                Ok(qr) => qr.operation == Operation::Create && (qr.table
                                    matches Some(tn) && tn@ == nm@),
                                Err(_) => false,
                            }) && final(self).tables@ == old(self).tables@.push(
                                Table { name: nm, columns: cols },
                            ) && final(self).databases@ == old(self).databases@
                        },
                        None => (r matches Err(e) && e == CoilError::MalformedColumnDeclaration
                            && same_state(*old(self), *final(self))),
                    },
                    (None, None) => (r matches Err(e) && e == CoilError::UnexpectedToken
                        && same_state(*old(self), *final(self))),
                },
                Operation::Delete => match (query.database, query.table) {
                    (Some(db), _) => if db@ == old(self).name@ {
                        (match r {
                            Ok(qr) => qr.operation == Operation::Delete,
                            Err(_) => false,
                        }) && final(self).tables@.len() == 0 && final(self).databases@ == old(
                            self,
                        ).databases@
                    } else {
                        match sp_find_str(old(self).databases@, db@, 0) {
                            Some(di) => (match r {
                                Ok(qr) => qr.operation == Operation::Delete,
                                Err(_) => false,
                            }) && final(self).tables@ == old(self).tables@ && final(self).databases@ == old(self).databases@.remove(di),
                            None => (r matches Err(e) && e == CoilError::DatabaseDoesntExist
                                && same_state(*old(self), *final(self))),
                        }
                    },
                    (None, Some(nm)) => match sp_find_table(old(self).tables@, nm@, 0) {
                        Some(ti) => match query.condition {
                            None => (match r {
                                Ok(qr) => qr.operation == Operation::Delete,
                                Err(_) => false,
                            }) && final(self).tables@ == old(self).tables@.remove(ti) && final(self).databases@ == old(self).databases@,
                            Some(c) => match sp_mask(
                                old(self).tables@[ti].columns@,
                                Some(expr_vw(*c)),
                                0,
                            ) {
                                Err(e) => (r matches Err(e2) && e2 == e && same_state(
                                    *old(self),
                                    *final(self),
                                )),
                                Ok(mask) => match r {
                                    Ok(qr) => qr.operation == Operation::Delete && tables_except(
                                        old(self).tables@,
                                        final(self).tables@,
                                        ti,
                                    ) && final(self).tables@[ti].name == old(
                                        self,
                                    ).tables@[ti].name && sp_deleted(
                                        old(self).tables@[ti].columns@,
                                        final(self).tables@[ti].columns@,
                                        mask,
                                    ) && final(self).databases@ == old(self).databases@,
                                    Err(_) => false,
                                },
                            },
                        },
                        None => (r matches Err(e) && e == CoilError::TableDoesntExist
                            && same_state(*old(self), *final(self))),
                    },
                    (None, None) => (r matches Err(e) && e == CoilError::UnexpectedToken
                        && same_state(*old(self), *final(self))),
                },
            },
    {
        match query.operation {
            Operation::Get => {
                let nm = match query.table {
                    Some(nm) => nm,
                    None => {
                        return Err(CoilError::TableDoesntExist);
                    },
                };
                let ti = match self.find_table_index(nm.as_str()) {
                    Some(i) => i,
                    None => {
                        return Err(CoilError::TableDoesntExist);
                    },
                };
                let cond: Option<Expression> = match query.condition {
                    Some(b) => Some(*b),
                    None => None,
                };
                let t = &self.tables[ti];
                let rows = match t.get_rows(cond) {
                    Ok(rs) => rs,
                    Err(e) => {
                        return Err(e);
                    },
                };
                // Column metadata: names and types, no values.
                let mut meta: Vec<Column> = Vec::new();
                let mut k: usize = 0;
                while k < t.columns.len()
                    invariant
                        k <= t.columns@.len(),
                        meta@.len() == k,
                        forall|m: int|
                            0 <= m < k ==> (#[trigger] meta@[m]).name@ == t.columns@[m].name@
                                && meta@[m].field_type == t.columns@[m].field_type
                                && meta@[m].rows@.len() == 0,
                    decreases t.columns@.len() - k,
                {
                    meta.push(Column::new(t.columns[k].name.clone(), t.columns[k].field_type));
                    k = k + 1;
                }
                let mut qr = QueryResult::new(Operation::Get);
                qr.table = Some(nm);
                qr.columns = Some(meta);
                qr.rows = Some(rows);
                Ok(qr)
            },
            Operation::Put => {
                let nm = match query.table {
                    Some(nm) => nm,
                    None => {
                        return Err(CoilError::TableDoesntExist);
                    },
                };
                let vals = match query.values {
                    Some(v) => v,
                    None => {
                        return Err(CoilError::NotEnoughValues);
                    },
                };
                let ti = match self.find_table_index(nm.as_str()) {
                    Some(i) => i,
                    None => {
                        return Err(CoilError::TableDoesntExist);
                    },
                };
                let t = &mut self.tables[ti];
                match t.new_row(vals) {
                    None => Ok(QueryResult::new(Operation::Put)),
                    Some(e) => {
                        proof {
                            assert(self.tables@ =~= old(self).tables@);
                        }
                        Err(e)
                    },
                }
            },
            Operation::Update => {
                let nm = match query.table {
                    Some(nm) => nm,
                    None => {
                        return Err(CoilError::TableDoesntExist);
                    },
                };
                let asg = match query.assignments {
                    Some(a) => a,
                    None => {
                        return Err(CoilError::UnexpectedToken);
                    },
                };
                let ti = match self.find_table_index(nm.as_str()) {
                    Some(i) => i,
                    None => {
                        return Err(CoilError::TableDoesntExist);
                    },
                };
                let cond: Option<&Expression> = match &query.condition {
                    Some(b) => Some(&**b),
                    None => None,
                };
                let t = &mut self.tables[ti];
                match t.update_rows(&asg, cond) {
                    Ok(_) => Ok(QueryResult::new(Operation::Update)),
                    Err(e) => {
                        proof {
                            assert(self.tables@ =~= old(self).tables@);
                        }
                        Err(e)
                    },
                }
            },
            Operation::Create => {
                match (query.database, query.table) {
                    (Some(db), _) => {
                        if str_eq(db.as_str(), self.name.as_str()) {
                            return Err(CoilError::DatabaseAlreadyExists);
                        }
                        match self.find_database_index(db.as_str()) {
                            Some(_) => Err(CoilError::DatabaseAlreadyExists),
                            None => {
                                proof {
                                    lemma_find_str(self.databases@, db@, 0);
                                }
                                let mut qr = QueryResult::new(Operation::Create);
                                qr.database = Some(db.clone());
                                self.databases.push(db);
                                Ok(qr)
                            },
                        }
                    },
                    (None, Some(nm)) => {
                        let cols = match query.columns {
                            Some(c) => c,
                            None => {
                                return Err(CoilError::MalformedColumnDeclaration);
                            },
                        };
                        proof {
                            assert(cols_consistent(cols@));
                        }
                        match self.find_table_index(nm.as_str()) {
                            Some(_) => Err(CoilError::TableAlreadyExists),
                            None => {
                                proof {
                                    lemma_find_table(self.tables@, nm@, 0);
                                }
                                let mut qr = QueryResult::new(Operation::Create);
                                qr.table = Some(nm.clone());
                                self.tables.push(Table::new(nm, cols));
                                Ok(qr)
                            },
                        }
                    },
                    (None, None) => Err(CoilError::UnexpectedToken),
                }
            },
            Operation::Delete => {
                match (query.database, query.table) {
                    (Some(db), _) => {
                        if str_eq(db.as_str(), self.name.as_str()) {
                            self.tables = Vec::new();
                            return Ok(QueryResult::new(Operation::Delete));
                        }
                        match self.find_database_index(db.as_str()) {
                            Some(i) => {
                                proof {
                                    lemma_find_str(self.databases@, db@, 0);
                                }
                                let _ = self.databases.remove(i);
                                proof {
                                    assert(db_wf(*self)) by {
                                        assert(forall|a: int, b: int|
                                            0 <= a < b < self.databases@.len()
                                                ==> self.databases@[a]@ != self.databases@[b]@);
                                    };
                                }
                                Ok(QueryResult::new(Operation::Delete))
                            },
                            None => Err(CoilError::DatabaseDoesntExist),
                        }
                    },
                    (None, Some(nm)) => {
                        let ti = match self.find_table_index(nm.as_str()) {
                            Some(i) => i,
                            None => {
                                return Err(CoilError::TableDoesntExist);
                            },
                        };
                        match query.condition {
                            None => {
                                let _ = self.tables.remove(ti);
                                proof {
                                    assert(db_wf(*self)) by {
                                        assert(forall|a: int, b: int|
                                            0 <= a < b < self.tables@.len() ==> self.tables@[a].name@
                                                != self.tables@[b].name@);
                                    };
                                }
                                Ok(QueryResult::new(Operation::Delete))
                            },
                            Some(c) => {
                                let t = &mut self.tables[ti];
                                match t.delete_rows(&*c) {
                                    Ok(_) => Ok(QueryResult::new(Operation::Delete)),
                                    Err(e) => {
                                        proof {
                                            assert(self.tables@ =~= old(self).tables@);
                                        }
                                        Err(e)
                                    },
                                }
                            },
                        }
                    },
                    (None, None) => Err(CoilError::UnexpectedToken),
                }
            },
        }
    }
}

} // verus!
