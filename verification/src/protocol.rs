//! The conversation between the aggregation driver and a relational store:
//! the statements the driver asks for, and what the store answers.

use vstd::prelude::*;
use crate::event::DownloadEvent;
use crate::timespec::Timespec;

verus! {

/// Why a run was abandoned.
#[derive(Clone, Copy, Debug, PartialEq, Eq, Structural)]
pub enum Fault {
    /// The store could not carry out a statement.
    Store,
    /// A counter row names a version that the store does not hold.
    MissingVersion,
    /// A version names a crate that the store does not hold.
    MissingCrate,
    /// A counter row has counted more downloads than it records.
    CounterRegressed,
    /// The deltas of one page do not fit the global counter's increment.
    Overflow,
    /// The store answered with something the statement cannot produce.
    Protocol,
}

/// One statement for the store, or the end of the run.
#[derive(Clone, Copy, Debug, PartialEq, Eq, Structural)]
pub enum Action {
    /// Open a sub-transaction and read, ascending by id, at most `limit`
    /// unprocessed counter rows whose id exceeds `max`.
    FetchPage { max: i32, limit: i64 },
    /// Look up the crate that owns a version.
    FindCrate { version_id: i32 },
    /// Add to the download total of a version.
    AddVersionDownloads { version_id: i32, amount: i64 },
    /// Add to the download total of a crate.
    AddCrateDownloads { crate_id: i32, amount: i64 },
    /// Add to the rows of a crate for the day of `date`.
    AddCrateDaily { crate_id: i32, date: Timespec, amount: i64 },
    /// Create the row of a crate for the day of `date`.
    InsertCrateDaily { crate_id: i32, date: Timespec, amount: i64 },
    /// Set `counted` of a counter row to its current `downloads`, and its
    /// `processed` flag.
    MarkCounted { id: i32, processed: bool },
    /// Add to the registry-wide download counter.
    AddTotal { amount: i64 },
    /// Commit the open sub-transaction.
    Commit,
    /// The backlog is drained: drop the open sub-transaction and end the run.
    Finish,
    /// The run failed: roll the open sub-transaction back and report.
    Abort(Fault),
}

/// What the store answered to a statement.
#[derive(Debug)]
pub enum Reply {
    /// The rows of a page.
    Page(Vec<DownloadEvent>),
    /// The crate of a version, if the version exists.
    Crate(Option<i32>),
    /// The number of rows that a write touched.
    Count(u64),
    /// A statement without a result has been carried out.
    Done,
    /// The statement failed.
    Failed,
}

/// A store's answer as a mathematical value.
pub enum Answer {
    Page(Seq<DownloadEvent>),
    Crate(Option<i32>),
    Count(u64),
    Done,
    Failed,
}

impl View for Reply {
    type V = Answer;

    open spec fn view(&self) -> Answer {
        match self {
            Reply::Page(rows) => Answer::Page(rows@),
            Reply::Crate(found) => Answer::Crate(*found),
            Reply::Count(n) => Answer::Count(*n),
            Reply::Done => Answer::Done,
            Reply::Failed => Answer::Failed,
        }
    }
}

impl Action {
    /// Whether the action ends the run.
    pub open spec fn terminal(self) -> bool {
        self is Finish || self is Abort
    }

    /// Whether the action ends the run.
    pub fn is_terminal(&self) -> (b: bool)
        ensures
            b == self.terminal(),
    {
        match self {
            Action::Finish => true,
            Action::Abort(_) => true,
            _ => false,
        }
    }
}

} // verus!
