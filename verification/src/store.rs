//! A relational store held in memory: the tables that the aggregation
//! reads and writes, with one level of sub-transaction.

use vstd::prelude::*;
use std::collections::HashMap;
use crate::event::DownloadEvent;
use crate::ledger::{
    daily_count, daily_credited, daily_fits, fits, CrateDownload, Ledger, VersionRow,
};
use crate::protocol::{Action, Reply};
use crate::timespec::Timespec;

verus! {

broadcast use vstd::std_specs::hash::group_hash_axioms;

/// The tables of the store.
pub struct Tables {
    events: Vec<DownloadEvent>,
    versions: HashMap<i32, VersionRow>,
    crates: HashMap<i32, i32>,
    daily: Vec<CrateDownload>,
    total: i64,
}

impl View for Tables {
    type V = Ledger;

    closed spec fn view(&self) -> Ledger {
        Ledger {
            events: self.events@,
            versions: self.versions@,
            crates: self.crates@,
            daily: self.daily@,
            total: self.total,
        }
    }
}

fn copy_events(rows: &Vec<DownloadEvent>) -> (copy: Vec<DownloadEvent>)
    ensures
        copy@ == rows@,
{
    let mut copy: Vec<DownloadEvent> = Vec::new();
    let mut i: usize = 0;
    while i < rows.len()
        invariant
            i <= rows.len(),
            copy@ == rows@.take(i as int),
        decreases rows.len() - i,
    {
        copy.push(rows[i]);
        assert(rows@.take(i + 1) =~= rows@.take(i as int).push(rows@[i as int]));
        i += 1;
    }
    assert(rows@.take(i as int) =~= rows@);
    copy
}

fn copy_daily(rows: &Vec<CrateDownload>) -> (copy: Vec<CrateDownload>)
    ensures
        copy@ == rows@,
{
    let mut copy: Vec<CrateDownload> = Vec::new();
    let mut i: usize = 0;
    while i < rows.len()
        invariant
            i <= rows.len(),
            copy@ == rows@.take(i as int),
        decreases rows.len() - i,
    {
        copy.push(rows[i]);
        assert(rows@.take(i + 1) =~= rows@.take(i as int).push(rows@[i as int]));
        i += 1;
    }
    assert(rows@.take(i as int) =~= rows@);
    copy
}

impl Tables {
    fn empty() -> (t: Tables)
        ensures
            t@ == Ledger::empty(),
    {
        Tables {
            events: Vec::new(),
            versions: HashMap::new(),
            crates: HashMap::new(),
            daily: Vec::new(),
            total: 0,
        }
    }

    fn snapshot(&self) -> (copy: Tables)
        ensures
            copy@ == self@,
    {
        Tables {
            events: copy_events(&self.events),
            versions: self.versions.clone(),
            crates: self.crates.clone(),
            daily: copy_daily(&self.daily),
            total: self.total,
        }
    }

    fn page(&self, max: i32, limit: i64) -> (rows: Vec<DownloadEvent>)
        requires
            limit >= 0,
        ensures
            rows@ == self@.page(max as int, limit as int),
    {
        let mut rows: Vec<DownloadEvent> = Vec::new();
        let mut i: usize = 0;
        while i < self.events.len()
            invariant
                i <= self.events.len(),
                limit >= 0,
                rows@ == (Ledger { events: self.events@.take(i as int), ..self@ }).page(
                    max as int,
                    limit as int,
                ),
            decreases self.events.len() - i,
        {
            let e = self.events[i];
            proof {
                assert(self.events@.take(i + 1).drop_last() =~= self.events@.take(i as int));
            }
            if !e.processed && e.id > max && (rows.len() as u64) < (limit as u64) {
                rows.push(e);
            }
            i += 1;
        }
        assert(self.events@.take(i as int) =~= self.events@);
        rows
    }

    /// Adds `amount` to every row of the crate for the day, or changes
    /// nothing where one of them cannot take it. Returns the number of rows
    /// that were raised.
    fn credit_daily(&mut self, crate_id: i32, day: i64, amount: i64) -> (count: Option<u64>)
        ensures
            count is Some <==> daily_fits(old(self)@.daily, crate_id, day, amount),
            count matches Some(n) ==> n == daily_count(old(self)@.daily, crate_id, day)
                && final(self)@ == old(self)@.with_daily_credit(crate_id, day, amount),
            count is None ==> final(self)@ == old(self)@,
    {
        let mut raised: Vec<CrateDownload> = Vec::new();
        let mut count: u64 = 0;
        let mut i: usize = 0;
        while i < self.daily.len()
            invariant
                i <= self.daily.len(),
                *self == *old(self),
                count == daily_count(self.daily@.take(i as int), crate_id, day),
                count <= i,
                daily_fits(self.daily@.take(i as int), crate_id, day, amount),
                raised@ == daily_credited(self.daily@.take(i as int), crate_id, day, amount),
            decreases self.daily.len() - i,
        {
            let row = self.daily[i];
            proof {
                assert(self.daily@.take(i + 1).drop_last() =~= self.daily@.take(i as int));
                assert(self.daily@.take(i + 1).last() == row);
            }
            if row.crate_id == crate_id && row.day == day {
                let sum: i128 = row.downloads as i128 + amount as i128;
                if sum < i32::MIN as i128 || sum > i32::MAX as i128 {
                    assert(!daily_fits(self.daily@, crate_id, day, amount)) by {
                        assert(self.daily@[i as int].is_for(crate_id, day));
                    }
                    return None;
                }
                raised.push(CrateDownload { downloads: sum as i32, ..row });
                count += 1;
            } else {
                raised.push(row);
            }
            proof {
                let before = self.daily@.take(i as int);
                let after = self.daily@.take(i + 1);
                assert forall|j: int|
                    0 <= j < after.len() && (#[trigger] after[j]).is_for(
                        crate_id,
                        day,
                    ) implies fits(after[j].downloads + amount) by {
                    if j < i {
                        assert(before[j] == after[j]);
                    }
                }
                assert(raised@ =~= daily_credited(after, crate_id, day, amount));
            }
            i += 1;
        }
        assert(self.daily@.take(i as int) =~= self.daily@);
        self.daily = raised;
        Some(count)
    }
}

/// The store: its tables, and the tables as they were when the open
/// sub-transaction began.
pub struct MemStore {
    tables: Tables,
    saved: Option<Tables>,
}

impl View for MemStore {
    type V = Ledger;

    closed spec fn view(&self) -> Ledger {
        self.tables@
    }
}

/// The contents that the end of a sub-transaction of `saved` leaves behind.
pub open spec fn restored(saved: Option<Ledger>, ledger: Ledger) -> Ledger {
    match saved {
        Some(before) => before,
        None => ledger,
    }
}

/// The contents of a store after `action`, for a store that held `ledger`
/// and whose open sub-transaction, if any, began at `saved`.
pub open spec fn contents_after(saved: Option<Ledger>, ledger: Ledger, action: Action) -> Ledger {
    match action {
        Action::Finish => restored(saved, ledger),
        Action::Abort(_) => restored(saved, ledger),
        _ => ledger.respond(action).0,
    }
}

/// Where the open sub-transaction began, after `action`.
pub open spec fn saved_after(saved: Option<Ledger>, ledger: Ledger, action: Action) -> Option<
    Ledger,
> {
    match action {
        Action::FetchPage { .. } => Some(ledger),
        Action::Commit => None,
        Action::Finish => None,
        Action::Abort(_) => None,
        _ => saved,
    }
}

impl MemStore {
    /// The contents at the start of the open sub-transaction, if one is open.
    pub closed spec fn saved(&self) -> Option<Ledger> {
        match self.saved {
            Some(t) => Some(t@),
            None => None,
        }
    }

    /// The ids of the counter rows are handed out in sequence, now and at
    /// the start of the open sub-transaction.
    pub open spec fn wf(&self) -> bool {
        &&& self@.wf()
        &&& self.saved() matches Some(before) ==> before.wf()
    }

    /// An empty store.
    pub fn new() -> (store: MemStore)
        ensures
            store@ == Ledger::empty(),
            store.saved() is None,
            store.wf(),
    {
        MemStore { tables: Tables::empty(), saved: None }
    }

    /// Opens a sub-transaction at the present contents, in place of the one
    /// that is open, if any.
    pub fn begin(&mut self)
        requires
            old(self).wf(),
        ensures
            final(self).wf(),
            final(self)@ == old(self)@,
            final(self).saved() == Some(old(self)@),
    {
        self.saved = Some(self.tables.snapshot());
    }

    /// Whether a sub-transaction is open.
    pub fn in_transaction(&self) -> (b: bool)
        ensures
            b == (self.saved() is Some),
    {
        self.saved.is_some()
    }

    /// Creates or replaces a crate with the given download total.
    pub fn put_crate(&mut self, id: i32, downloads: i32)
        requires
            old(self).wf(),
        ensures
            final(self).wf(),
            final(self)@ == (Ledger {
                crates: old(self)@.crates.insert(id, downloads),
                ..old(self)@
            }),
            final(self).saved() == old(self).saved(),
    {
        self.tables.crates.insert(id, downloads);
    }

    /// Creates or replaces a version of a crate with the given download total.
    pub fn put_version(&mut self, id: i32, crate_id: i32, downloads: i32)
        requires
            old(self).wf(),
        ensures
            final(self).wf(),
            final(self)@ == (Ledger {
                versions: old(self)@.versions.insert(id, VersionRow { crate_id, downloads }),
                ..old(self)@
            }),
            final(self).saved() == old(self).saved(),
    {
        self.tables.versions.insert(id, VersionRow { crate_id, downloads });
    }

    /// Appends a counter row for a version and returns the id it was given:
    /// one more than the number of rows before. Returns `None`, and changes
    /// nothing, once the ids are used up.
    pub fn put_download(
        &mut self,
        version_id: i32,
        date: Timespec,
        downloads: i32,
        counted: i32,
        processed: bool,
    ) -> (id: Option<i32>)
        requires
            old(self).wf(),
        ensures
            final(self).wf(),
            final(self).saved() == old(self).saved(),
            id is Some <==> old(self)@.events.len() + 1 < i32::MAX,
            id matches Some(n) ==> n == old(self)@.events.len() + 1 && final(self)@ == (Ledger {
                events: old(self)@.events.push(
                    DownloadEvent { id: n, version_id, date, downloads, counted, processed },
                ),
                ..old(self)@
            }),
            id is None ==> final(self)@ == old(self)@,
    {
        let len = self.tables.events.len();
        if len >= (i32::MAX - 1) as usize {
            return None;
        }
        let id: i32 = (len + 1) as i32;
        self.tables.events.push(
            DownloadEvent { id, version_id, date, downloads, counted, processed },
        );
        Some(id)
    }

    /// Raises the `downloads` counter of a row, as the writer of the raw
    /// counters does. Returns whether the row exists and can take the raise.
    pub fn raise_downloads(&mut self, id: i32, amount: u32) -> (done: bool)
        requires
            old(self).wf(),
        ensures
            final(self).wf(),
            final(self).saved() == old(self).saved(),
            done <==> old(self)@.has_event(id) && old(self)@.events[id - 1].downloads + amount
                <= i32::MAX,
            done ==> final(self)@ == (Ledger {
                events: old(self)@.events.update(
                    id - 1,
                    DownloadEvent {
                        downloads: (old(self)@.events[id - 1].downloads + amount) as i32,
                        ..old(self)@.events[id - 1]
                    },
                ),
                ..old(self)@
            }),
            !done ==> final(self)@ == old(self)@,
    {
        if id < 1 || id as usize > self.tables.events.len() {
            return false;
        }
        let at: usize = (id - 1) as usize;
        let row = self.tables.events[at];
        let raised: i64 = row.downloads as i64 + amount as i64;
        if raised > i32::MAX as i64 {
            return false;
        }
        self.tables.events.set(at, DownloadEvent { downloads: raised as i32, ..row });
        true
    }

    /// Carries out one statement of the driver and answers it.
    ///
    /// Reading a page opens a sub-transaction; `Commit` keeps what was
    /// written since, and the two terminal actions undo it.
    pub fn perform(&mut self, action: Action) -> (reply: Reply)
        requires
            old(self).wf(),
        ensures
            final(self).wf(),
            reply@ == old(self)@.respond(action).1,
            final(self)@ == contents_after(old(self).saved(), old(self)@, action),
            final(self).saved() == saved_after(old(self).saved(), old(self)@, action),
    {
        match action {
            Action::FetchPage { max, limit } => {
                self.saved = Some(self.tables.snapshot());
                if limit < 0 {
                    Reply::Failed
                } else {
                    Reply::Page(self.tables.page(max, limit))
                }
            },
            Action::FindCrate { version_id } => {
                match self.tables.versions.get(&version_id) {
                    Some(row) => Reply::Crate(Some(row.crate_id)),
                    None => Reply::Crate(None),
                }
            },
            Action::AddVersionDownloads { version_id, amount } => {
                let found = match self.tables.versions.get(&version_id) {
                    Some(row) => Some(*row),
                    None => None,
                };
                match found {
                    None => Reply::Count(0),
                    Some(row) => {
                        let sum: i128 = row.downloads as i128 + amount as i128;
                        if sum < i32::MIN as i128 || sum > i32::MAX as i128 {
                            Reply::Failed
                        } else {
                            self.tables.versions.insert(
                                version_id,
                                VersionRow { downloads: sum as i32, ..row },
                            );
                            Reply::Count(1)
                        }
                    },
                }
            },
            Action::AddCrateDownloads { crate_id, amount } => {
                let found = match self.tables.crates.get(&crate_id) {
                    Some(total) => Some(*total),
                    None => None,
                };
                match found {
                    None => Reply::Count(0),
                    Some(total) => {
                        let sum: i128 = total as i128 + amount as i128;
                        if sum < i32::MIN as i128 || sum > i32::MAX as i128 {
                            Reply::Failed
                        } else {
                            self.tables.crates.insert(crate_id, sum as i32);
                            Reply::Count(1)
                        }
                    },
                }
            },
            Action::AddCrateDaily { crate_id, date, amount } => {
                match self.tables.credit_daily(crate_id, date.day(), amount) {
                    Some(count) => Reply::Count(count),
                    None => Reply::Failed,
                }
            },
            Action::InsertCrateDaily { crate_id, date, amount } => {
                if amount < i32::MIN as i64 || amount > i32::MAX as i64 {
                    Reply::Failed
                } else {
                    self.tables.daily.push(
                        CrateDownload { crate_id, day: date.day(), downloads: amount as i32 },
                    );
                    let rows = self.tables.daily.len();
                    assert(self@.daily.len() == rows);
                    Reply::Count(1)
                }
            },
            Action::MarkCounted { id, processed } => {
                if id < 1 || id as usize > self.tables.events.len() {
                    Reply::Count(0)
                } else {
                    let at: usize = (id - 1) as usize;
                    let row = self.tables.events[at];
                    self.tables.events.set(
                        at,
                        DownloadEvent { counted: row.downloads, processed, ..row },
                    );
                    Reply::Count(1)
                }
            },
            Action::AddTotal { amount } => {
                match self.tables.total.checked_add(amount) {
                    Some(sum) => {
                        self.tables.total = sum;
                        Reply::Count(1)
                    },
                    None => Reply::Failed,
                }
            },
            Action::Commit => {
                self.saved = None;
                Reply::Done
            },
            Action::Finish => {
                self.rollback();
                Reply::Done
            },
            Action::Abort(_) => {
                self.rollback();
                Reply::Done
            },
        }
    }

    /// Undoes what was written since the open sub-transaction began, and
    /// closes it. Without one, nothing changes.
    pub fn rollback(&mut self)
        requires
            old(self).wf(),
        ensures
            final(self).wf(),
            final(self)@ == restored(old(self).saved(), old(self)@),
            final(self).saved() is None,
    {
        match self.saved.take() {
            Some(tables) => {
                self.tables = tables;
            },
            None => {},
        }
    }

    /// The version with the given id.
    pub fn version(&self, id: i32) -> (row: Option<VersionRow>)
        ensures
            row == (if self@.versions.contains_key(id) {
                Some(self@.versions[id])
            } else {
                None
            }),
    {
        match self.tables.versions.get(&id) {
            Some(row) => Some(*row),
            None => None,
        }
    }

    /// The download total of the crate with the given id.
    pub fn crate_total(&self, id: i32) -> (total: Option<i32>)
        ensures
            total == (if self@.crates.contains_key(id) {
                Some(self@.crates[id])
            } else {
                None
            }),
    {
        match self.tables.crates.get(&id) {
            Some(total) => Some(*total),
            None => None,
        }
    }

    /// The counter row with the given id.
    pub fn download(&self, id: i32) -> (row: Option<DownloadEvent>)
        ensures
            row == (if self@.has_event(id) {
                Some(self@.events[id - 1])
            } else {
                None
            }),
    {
        if id < 1 || id as usize > self.tables.events.len() {
            None
        } else {
            Some(self.tables.events[(id - 1) as usize])
        }
    }

    /// The per-day rows, oldest entry first.
    pub fn daily(&self) -> (rows: Vec<CrateDownload>)
        ensures
            rows@ == self@.daily,
    {
        copy_daily(&self.tables.daily)
    }

    /// The registry-wide download counter.
    pub fn total_downloads(&self) -> (total: i64)
        ensures
            total == self@.total,
    {
        self.tables.total
    }
}

} // verus!
