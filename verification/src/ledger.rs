//! The relational store as a mathematical value, what each statement of the
//! driver does to it, and what a page and a whole run amount to.

use vstd::prelude::*;
use crate::event::{total_delta, DownloadEvent};
use crate::protocol::{Action, Answer, Fault};
use crate::timespec::{day_of, Timespec};

verus! {

/// A version: the crate it belongs to and its download total.
#[derive(Clone, Copy, Debug, PartialEq, Eq, Structural)]
pub struct VersionRow {
    pub crate_id: i32,
    pub downloads: i32,
}

/// The downloads of one crate on one day.
#[derive(Clone, Copy, Debug, PartialEq, Eq, Structural)]
pub struct CrateDownload {
    pub crate_id: i32,
    /// The day, counted from the epoch.
    pub day: i64,
    pub downloads: i32,
}

impl CrateDownload {
    /// Whether the row belongs to the given crate and day.
    pub open spec fn is_for(self, crate_id: i32, day: i64) -> bool {
        self.crate_id == crate_id && self.day == day
    }

    /// The row with `amount` more downloads where it belongs to the given
    /// crate and day, and unchanged otherwise.
    pub open spec fn credited(self, crate_id: i32, day: i64, amount: i64) -> CrateDownload {
        if self.is_for(crate_id, day) {
            CrateDownload { downloads: (self.downloads + amount) as i32, ..self }
        } else {
            self
        }
    }
}

/// Whether a total fits the 32-bit column that holds it.
pub open spec fn fits(total: int) -> bool {
    i32::MIN <= total <= i32::MAX
}

/// The number of rows of `daily` for the given crate and day.
pub open spec fn daily_count(daily: Seq<CrateDownload>, crate_id: i32, day: i64) -> nat
    decreases daily.len(),
{
    if daily.len() == 0 {
        0
    } else if daily.last().is_for(crate_id, day) {
        daily_count(daily.drop_last(), crate_id, day) + 1
    } else {
        daily_count(daily.drop_last(), crate_id, day)
    }
}

/// The rows of `events` that a cursor at `max` still has to visit, in the
/// order of `events`.
pub open spec fn pending_rows(events: Seq<DownloadEvent>, max: int) -> Seq<DownloadEvent>
    decreases events.len(),
{
    if events.len() == 0 {
        Seq::empty()
    } else if events.last().pending(max) {
        pending_rows(events.drop_last(), max).push(events.last())
    } else {
        pending_rows(events.drop_last(), max)
    }
}

/// Whether every row of `daily` for the given crate and day can take
/// `amount` more downloads.
pub open spec fn daily_fits(
    daily: Seq<CrateDownload>,
    crate_id: i32,
    day: i64,
    amount: i64,
) -> bool {
    forall|i: int|
        0 <= i < daily.len() && (#[trigger] daily[i]).is_for(crate_id, day) ==> fits(
            daily[i].downloads + amount,
        )
}

/// `daily` with `amount` more downloads in every row for the given crate
/// and day.
pub open spec fn daily_credited(
    daily: Seq<CrateDownload>,
    crate_id: i32,
    day: i64,
    amount: i64,
) -> Seq<CrateDownload> {
    Seq::new(daily.len(), |i: int| daily[i].credited(crate_id, day, amount))
}

/// The sum of the deltas of the due rows of one version among `rows`.
pub open spec fn version_delta(rows: Seq<DownloadEvent>, version_id: i32) -> int
    decreases rows.len(),
{
    if rows.len() == 0 {
        0
    } else if rows.last().due() && rows.last().version_id == version_id {
        version_delta(rows.drop_last(), version_id) + rows.last().delta()
    } else {
        version_delta(rows.drop_last(), version_id)
    }
}

/// The sum of the deltas of the due rows among `rows` whose version
/// belongs to one crate, by the given table of versions.
pub open spec fn crate_delta(
    versions: Map<i32, VersionRow>,
    rows: Seq<DownloadEvent>,
    crate_id: i32,
) -> int
    decreases rows.len(),
{
    if rows.len() == 0 {
        0
    } else if rows.last().due() && versions.contains_key(rows.last().version_id)
        && versions[rows.last().version_id].crate_id == crate_id {
        crate_delta(versions, rows.drop_last(), crate_id) + rows.last().delta()
    } else {
        crate_delta(versions, rows.drop_last(), crate_id)
    }
}

/// The contents of the store.
pub struct Ledger {
    /// The raw counters; the row with id `n` stands at index `n - 1`.
    pub events: Seq<DownloadEvent>,
    /// The versions by id.
    pub versions: Map<i32, VersionRow>,
    /// The download total of each crate by id.
    pub crates: Map<i32, i32>,
    /// The downloads per crate and day.
    pub daily: Seq<CrateDownload>,
    /// The registry-wide download counter.
    pub total: i64,
}

impl Ledger {
    /// The store without any row, its counter at zero.
    pub open spec fn empty() -> Ledger {
        Ledger {
            events: Seq::empty(),
            versions: Map::empty(),
            crates: Map::empty(),
            daily: Seq::empty(),
            total: 0,
        }
    }

    /// Ids are handed out in sequence, starting at one.
    pub open spec fn wf(self) -> bool {
        &&& self.daily.len() <= u64::MAX
        &&& self.events.len() < i32::MAX
        &&& forall|i: int| 0 <= i < self.events.len() ==> (#[trigger] self.events[i]).id == i + 1
    }

    /// The unprocessed rows above `max`, ascending by id.
    pub open spec fn backlog(self, max: int) -> Seq<DownloadEvent> {
        pending_rows(self.events, max)
    }

    /// The first `limit` rows of the backlog above `max`.
    pub open spec fn page(self, max: int, limit: int) -> Seq<DownloadEvent> {
        let backlog = self.backlog(max);
        if 0 <= limit < backlog.len() {
            backlog.take(limit)
        } else {
            backlog
        }
    }

    /// The crate that owns a version.
    pub open spec fn crate_of(self, version_id: i32) -> Option<i32> {
        if self.versions.contains_key(version_id) {
            Some(self.versions[version_id].crate_id)
        } else {
            None
        }
    }

    /// The download total of a version; zero for a version that is not held.
    pub open spec fn version_downloads(self, version_id: i32) -> int {
        if self.versions.contains_key(version_id) {
            self.versions[version_id].downloads as int
        } else {
            0
        }
    }

    /// The download total of a crate; zero for a crate that is not held.
    pub open spec fn crate_downloads(self, crate_id: i32) -> int {
        if self.crates.contains_key(crate_id) {
            self.crates[crate_id] as int
        } else {
            0
        }
    }

    /// The ledger with `amount` more downloads for a version it holds.
    pub open spec fn with_version_credit(self, version_id: i32, amount: i64) -> Ledger {
        let row = self.versions[version_id];
        Ledger {
            versions: self.versions.insert(
                version_id,
                VersionRow { downloads: (row.downloads + amount) as i32, ..row },
            ),
            ..self
        }
    }

    /// The ledger with `amount` more downloads for a crate it holds.
    pub open spec fn with_crate_credit(self, crate_id: i32, amount: i64) -> Ledger {
        Ledger {
            crates: self.crates.insert(crate_id, (self.crates[crate_id] + amount) as i32),
            ..self
        }
    }

    /// The ledger with `amount` more downloads in every row of a crate and
    /// day.
    pub open spec fn with_daily_credit(self, crate_id: i32, day: i64, amount: i64) -> Ledger {
        Ledger { daily: daily_credited(self.daily, crate_id, day, amount), ..self }
    }

    /// The ledger with one more row for a crate and day, of `amount`
    /// downloads.
    pub open spec fn with_daily_row(self, crate_id: i32, day: i64, amount: i64) -> Ledger {
        Ledger {
            daily: self.daily.push(CrateDownload { crate_id, day, downloads: amount as i32 }),
            ..self
        }
    }

    /// Whether the store holds a counter row with this id.
    pub open spec fn has_event(self, id: i32) -> bool {
        1 <= id <= self.events.len()
    }

    /// The ledger in which the counter row `id` has caught up with its
    /// current `downloads` and carries the given `processed` flag.
    pub open spec fn with_mark(self, id: i32, processed: bool) -> Ledger {
        let e = self.events[id - 1];
        Ledger {
            events: self.events.update(
                id - 1,
                DownloadEvent { counted: e.downloads, processed, ..e },
            ),
            ..self
        }
    }

    /// What one statement does to the store, and what the store answers.
    /// Opening, committing and dropping a sub-transaction leave the
    /// contents as they are.
    pub open spec fn respond(self, action: Action) -> (Ledger, Answer) {
        match action {
            Action::FetchPage { max, limit } => if limit < 0 {
                (self, Answer::Failed)
            } else {
                (self, Answer::Page(self.page(max as int, limit as int)))
            },
            Action::FindCrate { version_id } => (self, Answer::Crate(self.crate_of(version_id))),
            Action::AddVersionDownloads { version_id, amount } => {
                if !self.versions.contains_key(version_id) {
                    (self, Answer::Count(0))
                } else if !fits(self.versions[version_id].downloads + amount) {
                    (self, Answer::Failed)
                } else {
                    (self.with_version_credit(version_id, amount), Answer::Count(1))
                }
            },
            Action::AddCrateDownloads { crate_id, amount } => {
                if !self.crates.contains_key(crate_id) {
                    (self, Answer::Count(0))
                } else if !fits(self.crates[crate_id] + amount) {
                    (self, Answer::Failed)
                } else {
                    (self.with_crate_credit(crate_id, amount), Answer::Count(1))
                }
            },
            Action::AddCrateDaily { crate_id, date, amount } => {
                let day = day_of(date.sec as int) as i64;
                if !daily_fits(self.daily, crate_id, day, amount) {
                    (self, Answer::Failed)
                } else {
                    (
                        self.with_daily_credit(crate_id, day, amount),
                        Answer::Count(daily_count(self.daily, crate_id, day) as u64),
                    )
                }
            },
            Action::InsertCrateDaily { crate_id, date, amount } => {
                let day = day_of(date.sec as int) as i64;
                if !fits(amount as int) {
                    (self, Answer::Failed)
                } else {
                    (self.with_daily_row(crate_id, day, amount), Answer::Count(1))
                }
            },
            Action::MarkCounted { id, processed } => {
                if !self.has_event(id) {
                    (self, Answer::Count(0))
                } else {
                    (self.with_mark(id, processed), Answer::Count(1))
                }
            },
            Action::AddTotal { amount } => {
                if !(i64::MIN <= self.total + amount <= i64::MAX) {
                    (self, Answer::Failed)
                } else {
                    (Ledger { total: (self.total + amount) as i64, ..self }, Answer::Count(1))
                }
            },
            Action::Commit => (self, Answer::Done),
            Action::Finish => (self, Answer::Done),
            Action::Abort(_) => (self, Answer::Done),
        }
    }

    /// The ledger after the counter of `row` has been folded in: the delta
    /// goes to the row's version, to the crate of that version and to the
    /// crate's day, and the row catches up. A row without a delta leaves the
    /// ledger as it is.
    pub open spec fn apply_row(self, row: DownloadEvent, cutoff: Timespec) -> Result<
        Ledger,
        Fault,
    > {
        let amount = row.delta() as i64;
        let day = day_of(row.date.sec as int) as i64;
        if !row.due() {
            Ok(self)
        } else if row.regressed() {
            Err(Fault::CounterRegressed)
        } else if !self.versions.contains_key(row.version_id) {
            Err(Fault::MissingVersion)
        } else if !fits(self.versions[row.version_id].downloads + amount) {
            Err(Fault::Store)
        } else {
            let crate_id = self.versions[row.version_id].crate_id;
            if !self.crates.contains_key(crate_id) {
                Err(Fault::MissingCrate)
            } else if !fits(self.crates[crate_id] + amount) {
                Err(Fault::Store)
            } else if !daily_fits(self.daily, crate_id, day, amount) {
                Err(Fault::Store)
            } else if daily_count(self.daily, crate_id, day) == 0 && !fits(amount as int) {
                Err(Fault::Store)
            } else {
                let credited = self.with_version_credit(row.version_id, amount).with_crate_credit(
                    crate_id,
                    amount,
                );
                let dated = if daily_count(self.daily, crate_id, day) == 0 {
                    credited.with_daily_row(crate_id, day, amount)
                } else {
                    credited.with_daily_credit(crate_id, day, amount)
                };
                if dated.has_event(row.id) {
                    Ok(dated.with_mark(row.id, row.date.before(cutoff)))
                } else {
                    Ok(dated)
                }
            }
        }
    }

    /// The ledger after the rows have been folded in, first to last.
    pub open spec fn apply_rows(self, rows: Seq<DownloadEvent>, cutoff: Timespec) -> Result<
        Ledger,
        Fault,
    >
        decreases rows.len(),
    {
        if rows.len() == 0 {
            Ok(self)
        } else {
            match self.apply_rows(rows.drop_last(), cutoff) {
                Ok(ledger) => ledger.apply_row(rows.last(), cutoff),
                Err(fault) => Err(fault),
            }
        }
    }

    /// The ledger after one page: its rows folded in, then the sum of their
    /// deltas added to the global counter.
    pub open spec fn apply_page(self, rows: Seq<DownloadEvent>, cutoff: Timespec) -> Result<
        Ledger,
        Fault,
    > {
        match self.apply_rows(rows, cutoff) {
            Err(fault) => Err(fault),
            Ok(ledger) => {
                let sum = total_delta(rows);
                if sum > i64::MAX {
                    Err(Fault::Overflow)
                } else if ledger.total + sum > i64::MAX {
                    Err(Fault::Store)
                } else {
                    Ok(Ledger { total: (ledger.total + sum) as i64, ..ledger })
                }
            },
        }
    }

    /// The ledger after `rows` have been worked off in pages of `limit`
    /// rows, with the number of pages that were committed, up to the first
    /// page that fails. A failing page leaves no trace.
    pub open spec fn drain(self, rows: Seq<DownloadEvent>, limit: int, cutoff: Timespec) -> (
        Ledger,
        Result<nat, Fault>,
    )
        decreases rows.len(),
    {
        if rows.len() == 0 || limit <= 0 {
            (self, Ok(0nat))
        } else {
            let size = if limit < rows.len() { limit } else { rows.len() as int };
            match self.apply_page(rows.take(size), cutoff) {
                Err(fault) => (self, Err(fault)),
                Ok(ledger) => {
                    let (end, outcome) = ledger.drain(rows.skip(size), limit, cutoff);
                    match outcome {
                        Ok(pages) => (end, Ok(pages + 1)),
                        Err(fault) => (end, Err(fault)),
                    }
                },
            }
        }
    }
}

} // verus!
