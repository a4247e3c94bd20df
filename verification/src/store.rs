//! Schema Manager and persistence contract: the exact SQL statement texts,
//! the exact bind order of a row, and an in-memory model store against
//! which the whole pipeline is verified and tested in isolation.

use vstd::prelude::*;
use crate::model::{AnimeRow, RowV, row_views};

verus! {

/// The idempotent table-creation statement: creating the table when it
/// already exists is a no-op for the store.
pub open spec fn create_table_sql() -> Seq<char> {
    "CREATE TABLE IF NOT EXISTS anime ( id INTEGER PRIMARY KEY AUTOINCREMENT, title TEXT NOT NULL, kind TEXT NOT NULL, episodes INTEGER NOT NULL, status TEXT NOT NULL, season TEXT NOT NULL, year INTEGER NOT NULL, picture TEXT NOT NULL, thumbnail TEXT NOT NULL, created_at DATETIME DEFAULT CURRENT_TIMESTAMP )"@
}

/// The single-row insert statement, binding the eight row fields
/// positionally.
pub open spec fn insert_sql() -> Seq<char> {
    "INSERT INTO anime (title, kind, episodes, status, season, year, picture, thumbnail) VALUES (?1,?2,?3,?4,?5,?6,?7,?8)"@
}

/// Returns the table-creation statement text.
pub fn create_table_statement() -> (s: &'static str)
    ensures
        s@ == create_table_sql(),
{
    "CREATE TABLE IF NOT EXISTS anime ( id INTEGER PRIMARY KEY AUTOINCREMENT, title TEXT NOT NULL, kind TEXT NOT NULL, episodes INTEGER NOT NULL, status TEXT NOT NULL, season TEXT NOT NULL, year INTEGER NOT NULL, picture TEXT NOT NULL, thumbnail TEXT NOT NULL, created_at DATETIME DEFAULT CURRENT_TIMESTAMP )"
}

/// Returns the insert statement text.
pub fn insert_statement() -> (s: &'static str)
    ensures
        s@ == insert_sql(),
{
    "INSERT INTO anime (title, kind, episodes, status, season, year, picture, thumbnail) VALUES (?1,?2,?3,?4,?5,?6,?7,?8)"
}

/// One positional value bound to the insert statement.
#[derive(Debug, Clone, PartialEq, Eq)]
pub enum BindValue {
    Text(String),
    Int(i32),
}

/// Mathematical view of a bind value.
pub ghost enum BindV {
    Text(Seq<char>),
    Int(int),
}

impl View for BindValue {
    type V = BindV;

    open spec fn view(&self) -> BindV {
        match self {
            BindValue::Text(s) => BindV::Text(s@),
            BindValue::Int(n) => BindV::Int(*n as int),
        }
    }
}

/// The exact bind sequence of a row: title, kind, episodes, status,
/// season, year, picture, thumbnail, in that order.
pub open spec fn binds_of(r: RowV) -> Seq<BindV> {
    seq![
        BindV::Text(r.title),
        BindV::Text(r.kind),
        BindV::Int(r.episodes),
        BindV::Text(r.status),
        BindV::Text(r.season),
        BindV::Int(r.year),
        BindV::Text(r.picture),
        BindV::Text(r.thumbnail),
    ]
}

/// Produces the positional bind values of a row, in the exact order the
/// insert statement expects them.
pub fn row_binds(r: AnimeRow) -> (b: Vec<BindValue>)
    ensures
        b@.map_values(|v: BindValue| v@) == binds_of(r@),
{
    let mut b: Vec<BindValue> = Vec::new();
    b.push(BindValue::Text(r.title));
    b.push(BindValue::Text(r.kind));
    b.push(BindValue::Int(r.episodes));
    b.push(BindValue::Text(r.status));
    b.push(BindValue::Text(r.season));
    b.push(BindValue::Int(r.year));
    b.push(BindValue::Text(r.picture));
    b.push(BindValue::Text(r.thumbnail));
    proof {
        assert(b@.map_values(|v: BindValue| v@) =~= binds_of(r@));
    }
    b
}

/// Mathematical view of a store.
pub ghost struct StoreV {
    pub table_exists: bool,
    pub rows: Seq<RowV>,
}

/// What ensuring the schema does to a store: afterwards the table exists,
/// and the rows are untouched.
pub open spec fn ensured(s: StoreV) -> StoreV {
    StoreV { table_exists: true, rows: s.rows }
}

/// Law: schema creation is idempotent — ensuring the schema twice leaves
/// the store exactly as ensuring it once does, with one table and no
/// change to existing rows.
pub proof fn lemma_schema_idempotent(s: StoreV)
    ensures
        ensured(ensured(s)) == ensured(s),
        ensured(s).rows == s.rows,
{
}

/// In-memory model of the relational store: one `anime` table that either
/// exists or not, and its rows in insertion order. It realises exactly the
/// capabilities the pipeline needs from a store, so the loader can be
/// verified and tested without a live database.
#[derive(Debug, Clone, PartialEq, Eq)]
pub struct MemStore {
    pub table_exists: bool,
    pub rows: Vec<AnimeRow>,
}

impl View for MemStore {
    type V = StoreV;

    open spec fn view(&self) -> StoreV {
        StoreV { table_exists: self.table_exists, rows: row_views(self.rows@) }
    }
}

impl MemStore {
    /// An empty store: no table, no rows.
    pub fn new() -> (s: MemStore)
        ensures
            !s@.table_exists,
            s@.rows == Seq::<RowV>::empty(),
    {
        let s = MemStore { table_exists: false, rows: Vec::new() };
        proof {
            assert(s@.rows =~= Seq::<RowV>::empty());
        }
        s
    }

    /// Schema Manager against the model store: ensures the table exists.
    /// Idempotent — a second call is a no-op and cannot fail.
    pub fn ensure_table(&mut self)
        ensures
            final(self)@ == ensured(old(self)@),
    {
        self.table_exists = true;
    }

    /// Appends one row. The table must exist; the model store then never
    /// rejects an insert.
    pub fn insert_row(&mut self, r: AnimeRow)
        requires
            old(self)@.table_exists,
        ensures
            final(self)@.table_exists,
            final(self)@.rows == old(self)@.rows.push(r@),
    {
        self.rows.push(r);
        proof {
            assert(self@.rows =~= old(self)@.rows.push(r@));
        }
    }

    /// How many rows the store holds.
    pub fn row_count(&self) -> (n: usize)
        ensures
            n == self@.rows.len(),
    {
        self.rows.len()
    }
}

} // verus!
