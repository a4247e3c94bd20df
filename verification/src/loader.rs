//! Loader: the orchestrating state machine of an ingestion run, and the
//! end-to-end run against the in-memory model store.
//!
//! The machine moves `Parsed -> SchemaReady -> Inserting -> Done`, or to
//! `Failed` from any state. A thin runtime drives it: it performs the I/O
//! each action asks for (executing the schema statement, executing one
//! insert) and reports success or failure back.

use vstd::prelude::*;
use crate::model::{AnimeDatabase, AnimeRow, row_views};
use crate::mapper::{rows_of, map_entries};
use crate::store::MemStore;

verus! {

/// Stage of an ingestion run. A run begins in `Parsed`: decoding happens
/// before a loader exists, and a decode failure aborts the run before any
/// store interaction.
#[derive(Debug, Clone, Copy, PartialEq, Eq, Structural)]
pub enum Stage {
    Parsed,
    SchemaReady,
    Inserting,
    Done,
    Failed,
}

/// The run stage whose store operation failed.
#[derive(Debug, Clone, Copy, PartialEq, Eq, Structural)]
pub enum FailCause {
    Schema,
    Insert,
}

/// What the runtime must do next.
#[derive(Debug, Clone, Copy, PartialEq, Eq, Structural)]
pub enum Action {
    /// Execute the table-creation statement.
    EnsureSchema,
    /// Execute one insert, binding the current row.
    Insert,
    /// The run is complete; nothing is left to do.
    Finish,
    /// The run has failed; stop.
    Stop,
}

/// The loader state machine: the mapped rows, how many of them have been
/// inserted, and the current stage.
#[derive(Debug)]
pub struct Loader {
    pub rows: Vec<AnimeRow>,
    pub next: usize,
    pub stage: Stage,
    pub cause: Option<FailCause>,
}

impl Loader {
    /// Well-formedness: the insertion cursor never passes the end, every
    /// row is inserted exactly when the run is done, and a cause is
    /// recorded exactly on failure.
    pub open spec fn wf(self) -> bool {
        &&& self.next <= self.rows@.len()
        &&& (self.stage == Stage::Parsed ==> self.next == 0)
        &&& (self.stage == Stage::SchemaReady ==> self.next == 0)
        &&& (self.stage == Stage::Done ==> self.next == self.rows@.len())
        &&& (self.cause is Some <==> self.stage == Stage::Failed)
    }

    /// Builds the machine from a decoded document: maps every entry to its
    /// row, in document order, and starts in `Parsed`.
    pub fn from_document(doc: AnimeDatabase) -> (l: Loader)
        ensures
            l.wf(),
            l.stage == Stage::Parsed,
            l.next == 0,
            row_views(l.rows@) == rows_of(doc@.entries),
    {
        Loader { rows: map_entries(doc.data), next: 0, stage: Stage::Parsed, cause: None }
    }

    /// The action the runtime must perform in the current state: ensure
    /// the schema right after parsing, then insert row after row in
    /// document order, then finish.
    pub fn next_action(&self) -> (a: Action)
        requires
            self.wf(),
        ensures
            self.stage == Stage::Parsed ==> a == Action::EnsureSchema,
            (self.stage == Stage::SchemaReady || self.stage == Stage::Inserting)
                && self.next < self.rows@.len() ==> a == Action::Insert,
            (self.stage == Stage::SchemaReady || self.stage == Stage::Inserting)
                && self.next == self.rows@.len() ==> a == Action::Finish,
            self.stage == Stage::Done ==> a == Action::Finish,
            self.stage == Stage::Failed ==> a == Action::Stop,
    {
        match self.stage {
            Stage::Parsed => Action::EnsureSchema,
            Stage::SchemaReady | Stage::Inserting => {
                if self.next < self.rows.len() {
                    Action::Insert
                } else {
                    Action::Finish
                }
            },
            Stage::Done => Action::Finish,
            Stage::Failed => Action::Stop,
        }
    }

    /// The row the pending `Insert` action must bind.
    pub fn current_row(&self) -> (r: &AnimeRow)
        requires
            self.next < self.rows@.len(),
        ensures
            r@ == row_views(self.rows@)[self.next as int],
    {
        &self.rows[self.next]
    }

    /// Reports the outcome of the schema statement. On success the run
    /// moves to `SchemaReady`; on failure it aborts with a schema cause.
    pub fn schema_done(&mut self, ok: bool)
        requires
            old(self).wf(),
            old(self).stage == Stage::Parsed,
        ensures
            final(self).wf(),
            final(self).rows == old(self).rows,
            final(self).next == old(self).next,
            ok ==> final(self).stage == Stage::SchemaReady,
            !ok ==> final(self).stage == Stage::Failed
                && final(self).cause == Some(FailCause::Schema),
    {
        if ok {
            self.stage = Stage::SchemaReady;
        } else {
            self.stage = Stage::Failed;
            self.cause = Some(FailCause::Schema);
        }
    }

    /// Reports the outcome of one insert. On success the cursor advances;
    /// when the last row is in, the run is done. On failure the run aborts
    /// at the failing row: no retry, and rows already inserted stay.
    pub fn insert_done(&mut self, ok: bool)
        requires
            old(self).wf(),
            old(self).stage == Stage::SchemaReady || old(self).stage == Stage::Inserting,
            old(self).next < old(self).rows@.len(),
        ensures
            final(self).wf(),
            final(self).rows == old(self).rows,
            ok ==> final(self).next == old(self).next + 1,
            ok && final(self).next < final(self).rows@.len() ==> final(self).stage == Stage::Inserting,
            ok && final(self).next == final(self).rows@.len() ==> final(self).stage == Stage::Done,
            !ok ==> final(self).next == old(self).next
                && final(self).stage == Stage::Failed
                && final(self).cause == Some(FailCause::Insert),
    {
        if ok {
            let len = self.rows.len();
            self.next = self.next + 1;
            if self.next < len {
                self.stage = Stage::Inserting;
            } else {
                self.stage = Stage::Done;
            }
        } else {
            self.stage = Stage::Failed;
            self.cause = Some(FailCause::Insert);
        }
    }
}

/// Runs the whole pipeline after decoding against the in-memory model
/// store: ensures the schema, then inserts the row of every entry, in
/// document order. Against the model store no step fails, so the run
/// always completes, and the store gains exactly one row per entry.
pub fn ingest(doc: AnimeDatabase, store: &mut MemStore) -> (n: usize)
    ensures
        final(store)@.table_exists,
        final(store)@.rows == old(store)@.rows + rows_of(doc@.entries),
        n == doc@.entries.len(),
{
    let ghost entries = doc@.entries;
    store.ensure_table();
    let mut rows = map_entries(doc.data);
    let n = rows.len();
    proof {
        assert(row_views(rows@).len() == rows_of(entries).len());
    }
    let ghost mapped = row_views(rows@);
    let ghost base = old(store)@.rows;
    let ghost mut done: int = 0;
    proof {
        assert(base + mapped.take(0) =~= base);
        assert(mapped.subrange(0, mapped.len() as int) =~= mapped);
    }
    while rows.len() > 0
        invariant
            0 <= done <= mapped.len(),
            store@.table_exists,
            store@.rows == base + mapped.take(done),
            row_views(rows@) == mapped.subrange(done, mapped.len() as int),
        decreases rows@.len(),
    {
        let ghost pre = rows@;
        let r = rows.remove(0);
        proof {
            assert(row_views(pre).len() == pre.len());
            assert(mapped.subrange(done, mapped.len() as int).len() == mapped.len() - done);
            assert(done < mapped.len());
            pre.remove_ensures(0);
            assert(r == pre[0]);
            assert(r@ == row_views(pre)[0]);
            assert(mapped.subrange(done, mapped.len() as int)[0] == mapped[done]);
            assert(r@ == mapped[done]);
            assert forall|k: int|
                0 <= k < rows@.len() implies #[trigger] row_views(rows@)[k] == mapped.subrange(
                done + 1,
                mapped.len() as int,
            )[k] by {
                assert(rows@[k] == pre[k + 1]);
                assert(row_views(rows@)[k] == rows@[k]@);
                assert(row_views(pre)[k + 1] == pre[k + 1]@);
                assert(mapped.subrange(done, mapped.len() as int)[k + 1] == mapped[done + 1 + k]);
                assert(mapped.subrange(done + 1, mapped.len() as int)[k] == mapped[done + 1 + k]);
            }
            assert(row_views(rows@) =~= mapped.subrange(done + 1, mapped.len() as int));
        }
        store.insert_row(r);
        proof {
            done = done + 1;
            assert(base + mapped.take(done - 1) + seq![mapped[done - 1]] =~= base + mapped.take(
                done,
            ));
        }
    }
    proof {
        assert(mapped.take(done) =~= mapped);
        assert(store@.rows == base + rows_of(entries));
    }
    n
}

/// Law: a successful run adds exactly one row per document entry — the
/// store afterwards holds its previous rows followed by the mapped rows,
/// so its row count grows by exactly the entry count.
pub proof fn lemma_row_count(before: Seq<crate::model::RowV>, entries: Seq<crate::model::EntryV>)
    ensures
        (before + rows_of(entries)).len() == before.len() + entries.len(),
{
}

} // verus!

verus! {

/// Builds the loader straight from JSON text: the `Start -> Parsed` step
/// of a run. A decode fault aborts before any store interaction.
pub fn start(text: &str) -> (r: Result<Loader, crate::decode::DecodeError>)
    ensures
        (match (r, crate::decode::spec_decode(text@)) {
            (Ok(l), Ok(d)) => l.wf() && l.stage == Stage::Parsed && l.next == 0 && row_views(
                l.rows@,
            ) == rows_of(d.entries),
            (Ok(_), Err(_)) => false,
            (Err(e), _) => crate::decode::spec_decode(text@) == Err::<crate::model::DocV, crate::decode::Fault>(crate::decode::fault_of(e)),
        }),
{
    match crate::decode::decode_document(text) {
        Ok(doc) => Ok(Loader::from_document(doc)),
        Err(e) => Err(e),
    }
}

/// Runs the whole pipeline from JSON text against the in-memory model
/// store. On success the store gains exactly the mapped row of every
/// entry, in document order; on a decode fault the store is untouched —
/// no partial ingestion ever happens.
pub fn run(text: &str, store: &mut MemStore) -> (r: Result<usize, crate::decode::DecodeError>)
    ensures
        (match (r, crate::decode::spec_decode(text@)) {
            (Ok(n), Ok(d)) => final(store)@.table_exists && final(store)@.rows == old(store)@.rows
                + rows_of(d.entries) && n == d.entries.len(),
            (Ok(_), Err(_)) => false,
            (Err(e), _) => crate::decode::spec_decode(text@) == Err::<crate::model::DocV, crate::decode::Fault>(crate::decode::fault_of(e))
                && *final(store) == *old(store),
        }),
{
    let doc = match crate::decode::decode_document(text) {
        Ok(d) => d,
        Err(e) => {
            return Err(e);
        },
    };
    Ok(ingest(doc, store))
}

} // verus!
