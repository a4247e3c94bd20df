//! Row Mapper: pure transformation from one catalog entry to the flat
//! persistence row, applying the default-value policy for the optional year.

use vstd::prelude::*;
use crate::model::{AnimeEntry, AnimeRow, EntryV, RowV, entry_views, row_views};

verus! {

/// The row that a given entry maps to: every persisted field is copied
/// verbatim, and an absent year becomes the sentinel 0.
pub open spec fn row_of(e: EntryV) -> RowV {
    RowV {
        title: e.title,
        kind: e.kind,
        episodes: e.episodes,
        status: e.status,
        season: e.season.season,
        year: match e.season.year {
            Some(y) => y,
            None => 0,
        },
        picture: e.picture,
        thumbnail: e.thumbnail,
    }
}

/// The rows that a sequence of entries maps to, in order.
pub open spec fn rows_of(es: Seq<EntryV>) -> Seq<RowV> {
    es.map_values(|e: EntryV| row_of(e))
}

/// Maps one entry to its persistence row. Total: never fails on a
/// structurally valid entry, and performs no I/O.
pub fn map_entry(e: AnimeEntry) -> (r: AnimeRow)
    ensures
        r@ == row_of(e@),
{
    AnimeRow {
        title: e.title,
        kind: e.kind,
        episodes: e.episodes,
        status: e.status,
        season: e.season.season,
        year: match e.season.year {
            Some(y) => y,
            None => 0,
        },
        picture: e.picture,
        thumbnail: e.thumbnail,
    }
}

/// Maps every entry to its row, keeping the document order.
pub fn map_entries(data: Vec<AnimeEntry>) -> (rows: Vec<AnimeRow>)
    ensures
        row_views(rows@) == rows_of(entry_views(data@)),
{
    let mut rows: Vec<AnimeRow> = Vec::new();
    let mut rest = data;
    let ghost all: Seq<AnimeEntry> = rest@;
    let ghost mut done: int = 0;
    proof {
        assert(all.subrange(0, all.len() as int) =~= all);
    }
    while rest.len() > 0
        invariant
            0 <= done <= all.len(),
            rest@ == all.subrange(done, all.len() as int),
            rows@.len() == done,
            forall|k: int| 0 <= k < done ==> #[trigger] rows@[k]@ == row_of(all[k]@),
        decreases rest@.len(),
    {
        let ghost pre = rest@;
        let e = rest.remove(0);
        proof {
            assert(all.subrange(done, all.len() as int).len() == all.len() - done);
            assert(done < all.len());
            pre.remove_ensures(0);
            assert(all.subrange(done, all.len() as int)[0] == all[done]);
            assert(e == all[done]);
            assert forall|k: int|
                0 <= k < rest@.len() implies #[trigger] rest@[k] == all.subrange(
                done + 1,
                all.len() as int,
            )[k] by {
                assert(rest@[k] == pre[k + 1]);
                assert(all.subrange(done, all.len() as int)[k + 1] == all[done + 1 + k]);
                assert(all.subrange(done + 1, all.len() as int)[k] == all[done + 1 + k]);
            }
            assert(rest@ =~= all.subrange(done + 1, all.len() as int));
        }
        let r = map_entry(e);
        rows.push(r);
        proof {
            done = done + 1;
        }
    }
    proof {
        assert(row_views(rows@) =~= rows_of(entry_views(all)));
    }
    rows
}

/// Law: an entry whose season carries year Y maps to a row with year Y,
/// and an entry without a year maps to a row with year 0.
pub proof fn lemma_year_mapping(e: EntryV, y: int)
    ensures
        e.season.year == Some(y) ==> row_of(e).year == y,
        e.season.year is None ==> row_of(e).year == 0,
{
}

/// Law: title, kind, episodes, status, season label, picture and thumbnail
/// are copied into the row verbatim, with no transformation.
pub proof fn lemma_field_identity(e: EntryV)
    ensures
        row_of(e).title == e.title,
        row_of(e).kind == e.kind,
        row_of(e).episodes == e.episodes,
        row_of(e).status == e.status,
        row_of(e).season == e.season.season,
        row_of(e).picture == e.picture,
        row_of(e).thumbnail == e.thumbnail,
{
}

} // verus!
