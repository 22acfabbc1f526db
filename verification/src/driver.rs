//! The aggregation driver: a state machine that turns the answers of a
//! store into the next statement to run, page by page and row by row.

use vstd::prelude::*;
use crate::event::{first_due, greatest_id, DownloadEvent};
use crate::protocol::{Action, Answer, Fault, Reply};
use crate::timespec::{cutoff_of, freeze_cutoff, Timespec};

verus! {

/// Which answer the driver is waiting for.
#[derive(Clone, Copy, Debug, PartialEq, Eq, Structural)]
pub enum Phase {
    /// A page has been asked for.
    Fetching,
    /// The crate of the current row's version has been asked for.
    Resolving,
    /// The version total is being raised.
    AddingVersion,
    /// The crate total is being raised.
    AddingCrate,
    /// The crate's rows for the day are being raised.
    UpdatingDaily,
    /// The crate's row for the day is being created.
    InsertingDaily,
    /// The current row is being marked as counted.
    Marking,
    /// The page's deltas are being added to the global counter.
    Totalling,
    /// The page's sub-transaction is being committed.
    Committing,
    /// An empty page was read; the run is over.
    Done,
    /// The run was abandoned.
    Failed(Fault),
}

/// The state of a run as a mathematical value.
pub struct Progress {
    pub phase: Phase,
    /// Rows dated before this instant are frozen once counted.
    pub cutoff: Timespec,
    /// The page size.
    pub limit: i64,
    /// The cursor: the greatest id of the last committed page.
    pub max: i32,
    /// The page in work.
    pub rows: Seq<DownloadEvent>,
    /// The index in `rows` of the row in work.
    pub next: int,
    /// The crate that owns the version of the row in work.
    pub crate_id: i32,
    /// The deltas of the rows before `next`.
    pub total: int,
}

impl Progress {
    /// The row in work.
    pub open spec fn row(self) -> DownloadEvent {
        self.rows[self.next]
    }

    /// Whether `next` names a row of the page whose counter can be folded in.
    pub open spec fn on_row(self) -> bool {
        0 <= self.next < self.rows.len() && !self.row().regressed()
    }

    /// The state after giving up with `fault`.
    pub open spec fn fail(self, fault: Fault) -> (Progress, Action) {
        (Progress { phase: Phase::Failed(fault), ..self }, Action::Abort(fault))
    }

    /// Moves to the first due row at or after `next`. Past the last row the
    /// page's total goes to the global counter.
    pub open spec fn seek(self) -> (Progress, Action) {
        let k = first_due(self.rows, self.next);
        let at = Progress { next: k, ..self };
        if k >= self.rows.len() {
            if self.total < 0 || self.total > i64::MAX {
                at.fail(Fault::Overflow)
            } else {
                (
                    Progress { phase: Phase::Totalling, ..at },
                    Action::AddTotal { amount: self.total as i64 },
                )
            }
        } else if self.rows[k].regressed() {
            at.fail(Fault::CounterRegressed)
        } else {
            (
                Progress { phase: Phase::Resolving, ..at },
                Action::FindCrate { version_id: self.rows[k].version_id },
            )
        }
    }

    /// The statement that marks the row in work as counted.
    pub open spec fn mark(self) -> (Progress, Action) {
        (
            Progress { phase: Phase::Marking, ..self },
            Action::MarkCounted {
                id: self.row().id,
                processed: self.row().date.before(self.cutoff),
            },
        )
    }

    /// The transition function: the state and the statement that follow
    /// from a state and the store's answer.
    pub open spec fn step(self, reply: Answer) -> (Progress, Action) {
        match self.phase {
            Phase::Done => (self, Action::Finish),
            Phase::Failed(fault) => (self, Action::Abort(fault)),
            _ => if reply is Failed {
                self.fail(Fault::Store)
            } else {
                match self.phase {
                    Phase::Fetching => match reply {
                        Answer::Page(rows) => if rows.len() == 0 {
                            (Progress { phase: Phase::Done, ..self }, Action::Finish)
                        } else {
                            (Progress { rows, next: 0, total: 0, ..self }).seek()
                        },
                        _ => self.fail(Fault::Protocol),
                    },
                    Phase::Committing => match reply {
                        Answer::Done => {
                            let max = greatest_id(self.rows) as i32;
                            (
                                Progress { phase: Phase::Fetching, max, ..self },
                                Action::FetchPage { max, limit: self.limit },
                            )
                        },
                        _ => self.fail(Fault::Protocol),
                    },
                    Phase::Totalling => match reply {
                        Answer::Count(_) => (
                            Progress { phase: Phase::Committing, ..self },
                            Action::Commit,
                        ),
                        _ => self.fail(Fault::Protocol),
                    },
                    _ => if !self.on_row() {
                        self.fail(Fault::Protocol)
                    } else {
                        self.step_row(reply)
                    },
                }
            },
        }
    }

    /// The transitions within one row, for a state that is on a row.
    pub open spec fn step_row(self, reply: Answer) -> (Progress, Action) {
        let row = self.row();
        let amount = row.delta() as i64;
        match (self.phase, reply) {
            (Phase::Resolving, Answer::Crate(Some(crate_id))) => (
                Progress { phase: Phase::AddingVersion, crate_id, ..self },
                Action::AddVersionDownloads { version_id: row.version_id, amount },
            ),
            (Phase::Resolving, Answer::Crate(None)) => self.fail(Fault::MissingVersion),
            (Phase::AddingVersion, Answer::Count(n)) => if n == 0 {
                self.fail(Fault::MissingVersion)
            } else {
                (
                    Progress { phase: Phase::AddingCrate, ..self },
                    Action::AddCrateDownloads { crate_id: self.crate_id, amount },
                )
            },
            (Phase::AddingCrate, Answer::Count(n)) => if n == 0 {
                self.fail(Fault::MissingCrate)
            } else {
                (
                    Progress { phase: Phase::UpdatingDaily, ..self },
                    Action::AddCrateDaily { crate_id: self.crate_id, date: row.date, amount },
                )
            },
            (Phase::UpdatingDaily, Answer::Count(n)) => if n == 0 {
                (
                    Progress { phase: Phase::InsertingDaily, ..self },
                    Action::InsertCrateDaily { crate_id: self.crate_id, date: row.date, amount },
                )
            } else {
                self.mark()
            },
            (Phase::InsertingDaily, Answer::Count(_)) => self.mark(),
            (Phase::Marking, Answer::Count(_)) => if self.total + row.delta() > i128::MAX {
                self.fail(Fault::Overflow)
            } else {
                (Progress { next: self.next + 1, total: self.total + row.delta(), ..self }).seek()
            },
            _ => self.fail(Fault::Protocol),
        }
    }
}

/// The driver of one aggregation run.
///
/// The caller carries out each [`Action`] against its store and hands the
/// store's [`Reply`] to [`Driver::step`], until the action is terminal.
#[derive(Debug)]
pub struct Driver {
    pub phase: Phase,
    pub cutoff: Timespec,
    pub limit: i64,
    pub max: i32,
    pub rows: Vec<DownloadEvent>,
    pub next: usize,
    pub crate_id: i32,
    pub total: i128,
}

impl View for Driver {
    type V = Progress;

    open spec fn view(&self) -> Progress {
        Progress {
            phase: self.phase,
            cutoff: self.cutoff,
            limit: self.limit,
            max: self.max,
            rows: self.rows@,
            next: self.next as int,
            crate_id: self.crate_id,
            total: self.total as int,
        }
    }
}

/// The state in which a run with the given cutoff and page size starts.
pub open spec fn initial(cutoff: Timespec, limit: i64) -> Progress {
    Progress {
        phase: Phase::Fetching,
        cutoff,
        limit,
        max: 0,
        rows: Seq::empty(),
        next: 0,
        crate_id: 0,
        total: 0,
    }
}

/// The greatest id among `rows`, and zero where none is positive.
pub fn page_max(rows: &Vec<DownloadEvent>) -> (max: i32)
    ensures
        max == greatest_id(rows@),
{
    let mut max: i32 = 0;
    let mut i: usize = 0;
    while i < rows.len()
        invariant
            i <= rows.len(),
            max == greatest_id(rows@.take(i as int)),
        decreases rows.len() - i,
    {
        assert(rows@.take(i + 1).drop_last() =~= rows@.take(i as int));
        if rows[i].id > max {
            max = rows[i].id;
        }
        i += 1;
    }
    assert(rows@.take(i as int) =~= rows@);
    max
}

impl Driver {
    /// Starts a run whose rows freeze at `cutoff`, reading pages of at most
    /// `limit` rows. The first statement reads the page above id zero.
    pub fn with_cutoff(cutoff: Timespec, limit: i64) -> (r: (Driver, Action))
        ensures
            r.0@ == initial(cutoff, limit),
            r.1 == (Action::FetchPage { max: 0, limit }),
    {
        let driver = Driver {
            phase: Phase::Fetching,
            cutoff,
            limit,
            max: 0,
            rows: Vec::new(),
            next: 0,
            crate_id: 0,
            total: 0,
        };
        (driver, Action::FetchPage { max: 0, limit })
    }

    /// Starts a run at wall-clock time `now`: rows dated more than
    /// twenty-four hours before `now` freeze once counted.
    pub fn new(now: Timespec, limit: i64) -> (r: (Driver, Action))
        requires
            now.sec >= i64::MIN + 86_400,
        ensures
            r.0@ == initial(cutoff_of(now), limit),
            r.1 == (Action::FetchPage { max: 0, limit }),
    {
        Driver::with_cutoff(freeze_cutoff(now), limit)
    }

    /// Whether the run has ended, with or without success.
    pub fn is_over(&self) -> (b: bool)
        ensures
            b == (self@.phase is Done || self@.phase is Failed),
    {
        match self.phase {
            Phase::Done => true,
            Phase::Failed(_) => true,
            _ => false,
        }
    }

    fn fail(&mut self, fault: Fault) -> (action: Action)
        ensures
            (final(self)@, action) == old(self)@.fail(fault),
    {
        self.phase = Phase::Failed(fault);
        Action::Abort(fault)
    }

    fn seek(&mut self) -> (action: Action)
        ensures
            final(self)@ == old(self)@.seek().0,
            action == old(self)@.seek().1,
    {
        let len = self.rows.len();
        let mut k: usize = if self.next < len { self.next } else { len };
        while k < len && self.rows[k].counted == self.rows[k].downloads
            invariant
                k <= len,
                len == self.rows@.len(),
                first_due(self.rows@, k as int) == first_due(
                    old(self).rows@,
                    old(self).next as int,
                ),
                self.rows@ == old(self).rows@,
                self.phase == old(self).phase,
                self.cutoff == old(self).cutoff,
                self.limit == old(self).limit,
                self.max == old(self).max,
                self.crate_id == old(self).crate_id,
                self.total == old(self).total,
            decreases len - k,
        {
            k += 1;
        }
        self.next = k;
        if k >= len {
            if self.total < 0 || self.total > i64::MAX as i128 {
                self.fail(Fault::Overflow)
            } else {
                self.phase = Phase::Totalling;
                Action::AddTotal { amount: self.total as i64 }
            }
        } else if self.rows[k].downloads < self.rows[k].counted {
            self.fail(Fault::CounterRegressed)
        } else {
            self.phase = Phase::Resolving;
            Action::FindCrate { version_id: self.rows[k].version_id }
        }
    }

    fn mark(&mut self) -> (action: Action)
        requires
            old(self)@.on_row(),
        ensures
            (final(self)@, action) == old(self)@.mark(),
    {
        let row = self.rows[self.next];
        self.phase = Phase::Marking;
        Action::MarkCounted { id: row.id, processed: row.date.is_before(&self.cutoff) }
    }

    fn step_row(&mut self, reply: Reply) -> (action: Action)
        requires
            old(self)@.on_row(),
        ensures
            final(self)@ == old(self)@.step_row(reply@).0,
            action == old(self)@.step_row(reply@).1,
    {
        let row = self.rows[self.next];
        let amount: i64 = row.downloads as i64 - row.counted as i64;
        match (self.phase, reply) {
            (Phase::Resolving, Reply::Crate(Some(crate_id))) => {
                self.phase = Phase::AddingVersion;
                self.crate_id = crate_id;
                Action::AddVersionDownloads { version_id: row.version_id, amount }
            },
            (Phase::Resolving, Reply::Crate(None)) => self.fail(Fault::MissingVersion),
            (Phase::AddingVersion, Reply::Count(n)) => {
                if n == 0 {
                    self.fail(Fault::MissingVersion)
                } else {
                    self.phase = Phase::AddingCrate;
                    Action::AddCrateDownloads { crate_id: self.crate_id, amount }
                }
            },
            (Phase::AddingCrate, Reply::Count(n)) => {
                if n == 0 {
                    self.fail(Fault::MissingCrate)
                } else {
                    self.phase = Phase::UpdatingDaily;
                    Action::AddCrateDaily { crate_id: self.crate_id, date: row.date, amount }
                }
            },
            (Phase::UpdatingDaily, Reply::Count(n)) => {
                if n == 0 {
                    self.phase = Phase::InsertingDaily;
                    Action::InsertCrateDaily { crate_id: self.crate_id, date: row.date, amount }
                } else {
                    self.mark()
                }
            },
            (Phase::InsertingDaily, Reply::Count(_)) => self.mark(),
            (Phase::Marking, Reply::Count(_)) => {
                if self.total > i128::MAX - amount as i128 {
                    self.fail(Fault::Overflow)
                } else {
                    let len = self.rows.len();
                    assert(self.next < len);
                    self.total = self.total + amount as i128;
                    self.next = self.next + 1;
                    self.seek()
                }
            },
            _ => self.fail(Fault::Protocol),
        }
    }

    /// Takes the store's answer to the last action and returns the next
    /// action. Once the run is over the same terminal action comes back
    /// whatever the answer.
    pub fn step(&mut self, reply: Reply) -> (action: Action)
        ensures
            final(self)@ == old(self)@.step(reply@).0,
            action == old(self)@.step(reply@).1,
    {
        match self.phase {
            Phase::Done => {
                return Action::Finish;
            },
            Phase::Failed(fault) => {
                return Action::Abort(fault);
            },
            _ => {},
        }
        if let Reply::Failed = reply {
            return self.fail(Fault::Store);
        }
        match self.phase {
            Phase::Fetching => match reply {
                Reply::Page(rows) => {
                    if rows.len() == 0 {
                        self.phase = Phase::Done;
                        Action::Finish
                    } else {
                        self.rows = rows;
                        self.next = 0;
                        self.total = 0;
                        self.seek()
                    }
                },
                _ => self.fail(Fault::Protocol),
            },
            Phase::Committing => match reply {
                Reply::Done => {
                    let max = page_max(&self.rows);
                    self.phase = Phase::Fetching;
                    self.max = max;
                    Action::FetchPage { max, limit: self.limit }
                },
                _ => self.fail(Fault::Protocol),
            },
            Phase::Totalling => match reply {
                Reply::Count(_) => {
                    self.phase = Phase::Committing;
                    Action::Commit
                },
                _ => self.fail(Fault::Protocol),
            },
            _ => {
                if self.next >= self.rows.len()
                    || self.rows[self.next].downloads < self.rows[self.next].counted {
                    self.fail(Fault::Protocol)
                } else {
                    self.step_row(reply)
                }
            },
        }
    }
}

} // verus!
