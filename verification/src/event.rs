//! Raw per-version, per-day download counters.

use vstd::prelude::*;
use crate::timespec::Timespec;

verus! {

/// One raw counter row: how often a version was downloaded on one day, and
/// how much of that has been folded into the aggregates already.
#[derive(Clone, Copy, Debug, PartialEq, Eq, Structural)]
pub struct DownloadEvent {
    pub id: i32,
    pub version_id: i32,
    pub date: Timespec,
    /// Downloads so far; only ever raised by the writer of the counter.
    pub downloads: i32,
    /// The part of `downloads` that the aggregates already hold.
    pub counted: i32,
    /// Frozen: the row will never change again.
    pub processed: bool,
}

impl DownloadEvent {
    /// The part of the counter that no aggregate holds yet.
    pub open spec fn delta(self) -> int {
        self.downloads - self.counted
    }

    /// Whether the row has activity to fold in.
    pub open spec fn due(self) -> bool {
        self.counted != self.downloads
    }

    /// Whether the row claims to have counted more than was downloaded.
    pub open spec fn regressed(self) -> bool {
        self.downloads < self.counted
    }

    /// Whether the cursor at `max` still has to visit the row.
    pub open spec fn pending(self, max: int) -> bool {
        !self.processed && self.id > max
    }

    /// The row once its counter has been folded in at the given cutoff.
    pub open spec fn settled(self, cutoff: Timespec) -> DownloadEvent {
        DownloadEvent { counted: self.downloads, processed: self.date.before(cutoff), ..self }
    }

    /// A counter row of the given fields.
    pub fn new(
        id: i32,
        version_id: i32,
        date: Timespec,
        downloads: i32,
        counted: i32,
        processed: bool,
    ) -> (e: DownloadEvent)
        ensures
            e == (DownloadEvent { id, version_id, date, downloads, counted, processed }),
    {
        DownloadEvent { id, version_id, date, downloads, counted, processed }
    }

    /// The unrecorded part of the counter, or `None` for a row whose
    /// `counted` exceeds its `downloads`.
    pub fn unrecorded(&self) -> (d: Option<i64>)
        ensures
            self.regressed() <==> d is None,
            d matches Some(n) ==> n == self.delta(),
    {
        if self.downloads < self.counted {
            None
        } else {
            Some(self.downloads as i64 - self.counted as i64)
        }
    }
}

/// The greatest id among `rows`, and zero where none is positive.
pub open spec fn greatest_id(rows: Seq<DownloadEvent>) -> int
    decreases rows.len(),
{
    if rows.len() == 0 {
        0
    } else {
        let rest = greatest_id(rows.drop_last());
        if rows.last().id > rest {
            rows.last().id as int
        } else {
            rest
        }
    }
}

/// The sum of the deltas of the due rows among `rows`.
pub open spec fn total_delta(rows: Seq<DownloadEvent>) -> int
    decreases rows.len(),
{
    if rows.len() == 0 {
        0
    } else if rows.last().due() {
        total_delta(rows.drop_last()) + rows.last().delta()
    } else {
        total_delta(rows.drop_last())
    }
}

/// The index of the first due row at or after `from`, or the length of
/// `rows` where there is none.
pub open spec fn first_due(rows: Seq<DownloadEvent>, from: int) -> int
    decreases rows.len() - from,
{
    if from < 0 || from >= rows.len() {
        rows.len() as int
    } else if rows[from].due() {
        from
    } else {
        first_due(rows, from + 1)
    }
}

} // verus!
