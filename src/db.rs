//! The segment index: one row per finished segment, keyed by the wall-clock
//! instant the segment started, queried by closed time ranges.
//!
//! Rows keep the order they were appended in, which under a single writer is
//! wall-clock order, and queries return them in that order.

use vstd::prelude::*;

use crate::playlist::{file_view, PlaylistFile};

verus! {

/// The instant an unbounded range starts at: 0001-01-01T00:00:00Z, in
/// milliseconds since the Unix epoch.
pub const EARLIEST_MS: i64 = -62_135_596_800_000;

/// The instant an unbounded range ends at: the last millisecond of
/// 9999-12-31T23:59:59Z.
pub const LATEST_MS: i64 = 253_402_300_799_999;

/// One indexed segment: when it started, and the file it is.
#[derive(Clone, Debug)]
pub struct IndexRow {
    pub start_ms: i64,
    pub file: PlaylistFile,
}

/// What a row stands for: its start, its file id and its duration.
pub open spec fn row_view(r: IndexRow) -> (i64, Seq<char>, u64) {
    (r.start_ms, r.file.id@, r.file.duration_ms)
}

/// The lower end of a query range: `start`, or the earliest instant.
pub open spec fn lower_bound(start: Option<i64>) -> i64 {
    match start {
        Some(t) => t,
        None => EARLIEST_MS,
    }
}

/// The upper end of a query range: `end`, or the latest instant.
pub open spec fn upper_bound(end: Option<i64>) -> i64 {
    match end {
        Some(t) => t,
        None => LATEST_MS,
    }
}

/// The files of the rows that started within `[lo, hi]`, in row order.
pub open spec fn select_files(rows: Seq<(i64, Seq<char>, u64)>, lo: int, hi: int) -> Seq<(Seq<char>, u64)>
    decreases rows.len(),
{
    if rows.len() == 0 {
        Seq::empty()
    } else {
        let rest = select_files(rows.drop_last(), lo, hi);
        let r = rows.last();
        if lo <= r.0 <= hi {
            rest.push((r.1, r.2))
        } else {
            rest
        }
    }
}

/// The segment index.
pub struct Database {
    rows: Vec<IndexRow>,
}

impl Database {
    /// The rows, in the order they were appended.
    pub closed spec fn rows_view(&self) -> Seq<(i64, Seq<char>, u64)> {
        self.rows@.map_values(|r: IndexRow| row_view(r))
    }

    /// An empty index.
    pub fn memory() -> (r: Database)
        ensures
            r.rows_view() == Seq::<(i64, Seq<char>, u64)>::empty(),
    {
        let r = Database { rows: Vec::new() };
        assert(r.rows_view() =~= Seq::<(i64, Seq<char>, u64)>::empty());
        r
    }

    /// The number of rows.
    pub fn len(&self) -> (r: usize)
        ensures
            r == self.rows_view().len(),
    {
        self.rows.len()
    }

    /// Records that segment `file` started at `ts` (milliseconds since the
    /// Unix epoch).
    pub fn append_file(&mut self, ts: i64, file: PlaylistFile)
        ensures
            final(self).rows_view() == old(self).rows_view().push((ts, file.id@, file.duration_ms)),
    {
        let ghost before = self.rows_view();
        let row = IndexRow { start_ms: ts, file };
        self.rows.push(row);
        assert(self.rows_view() =~= before.push((ts, row.file.id@, row.file.duration_ms)));
    }

    /// The files of the rows whose start lies in `[start, end]`, both ends
    /// included, in the order the rows were appended. A missing end stands
    /// for the earliest or the latest instant.
    pub fn query_files(&self, start: Option<i64>, end: Option<i64>) -> (r: Vec<PlaylistFile>)
        ensures
            r@.map_values(|f: PlaylistFile| file_view(f)) == select_files(
                self.rows_view(),
                lower_bound(start) as int,
                upper_bound(end) as int,
            ),
    {
        let lo = match start {
            Some(t) => t,
            None => EARLIEST_MS,
        };
        let hi = match end {
            Some(t) => t,
            None => LATEST_MS,
        };
        let ghost rows = self.rows_view();
        let mut out: Vec<PlaylistFile> = Vec::new();
        let mut i: usize = 0;
        while i < self.rows.len()
            invariant
                i <= self.rows@.len(),
                rows == self.rows_view(),
                lo == lower_bound(start),
                hi == upper_bound(end),
                out@.map_values(|f: PlaylistFile| file_view(f)) == select_files(
                    rows.subrange(0, i as int),
                    lo as int,
                    hi as int,
                ),
            decreases self.rows@.len() - i,
        {
            let row = &self.rows[i];
            let ghost before = out@.map_values(|f: PlaylistFile| file_view(f));
            proof {
                let prefix = rows.subrange(0, i + 1);
                assert(prefix.drop_last() =~= rows.subrange(0, i as int));
                assert(prefix.last() == row_view(*row));
            }
            if lo <= row.start_ms && row.start_ms <= hi {
                let file = PlaylistFile { duration_ms: row.file.duration_ms, id: row.file.id.clone() };
                out.push(file);
                assert(out@.map_values(|f: PlaylistFile| file_view(f)) =~= before.push(
                    (row.file.id@, row.file.duration_ms),
                ));
            }
            i = i + 1;
        }
        assert(rows.subrange(0, self.rows@.len() as int) =~= rows);
        out
    }
}

/// A query without bounds lists every row whose start lies between the
/// earliest and the latest instant, in the order the rows were appended.
pub proof fn lemma_unbounded_query_lists_all(rows: Seq<(i64, Seq<char>, u64)>)
    requires
        forall|i: int| 0 <= i < rows.len() ==> EARLIEST_MS <= #[trigger] rows[i].0 <= LATEST_MS,
    ensures
        select_files(rows, lower_bound(None) as int, upper_bound(None) as int) == rows.map_values(
            |r: (i64, Seq<char>, u64)| (r.1, r.2),
        ),
    decreases rows.len(),
{
    let all = rows.map_values(|r: (i64, Seq<char>, u64)| (r.1, r.2));
    if rows.len() > 0 {
        let rest = rows.drop_last();
        assert forall|i: int| 0 <= i < rest.len() implies EARLIEST_MS <= #[trigger] rest[i].0
            <= LATEST_MS by {
            assert(rest[i] == rows[i]);
        }
        lemma_unbounded_query_lists_all(rest);
        assert(rows[rows.len() - 1] == rows.last());
        assert(all =~= rest.map_values(|r: (i64, Seq<char>, u64)| (r.1, r.2)).push(
            (rows.last().1, rows.last().2),
        ));
    } else {
        assert(all =~= Seq::<(Seq<char>, u64)>::empty());
    }
}

} // verus!
