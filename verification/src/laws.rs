//! What holds of every aggregation run.

use vstd::prelude::*;
use crate::aggregate::run_of;
use crate::backlog::{
    ascending, lemma_pending_ascending, lemma_pending_complete, lemma_pending_within, within,
};
use crate::driver::Progress;
use crate::event::{total_delta, DownloadEvent};
use crate::fold::{
    committed, counted_within, idle, lemma_fold_credits, lemma_fold_keeps_frozen,
    lemma_fold_keeps_shape, lemma_fold_settles, lemma_idle_run, lemma_pending_idle,
    lemma_pending_live, lemma_run_is_fold, live_in, one_row_a_day, pages_for, settled_to,
};
use crate::ledger::{crate_delta, version_delta, Ledger};
use crate::protocol::{Action, Answer};
use crate::timespec::Timespec;

verus! {

/// A run that succeeds, with pages of at least one row, has visited the
/// whole backlog: every pending counter row with a delta has caught up,
/// and is frozen where it is dated before the cutoff; no other counter row
/// has changed.
pub proof fn law_run_settles(ledger: Ledger, limit: i64, cutoff: Timespec)
    requires
        ledger.wf(),
        limit > 0,
        run_of(ledger, limit, cutoff).1 is Ok,
    ensures
        run_of(ledger, limit, cutoff).0.events == settled_to(
            ledger.events,
            ledger.events.len() as int,
            cutoff,
        ),
{
    let rows = ledger.backlog(0);
    lemma_run_is_fold(ledger, rows, limit as int, cutoff);
    assert(rows.take(rows.len() as int) =~= rows);
    assert(ledger.events.take(ledger.events.len() as int) =~= ledger.events);
    lemma_fold_settles(ledger, ledger.events.len() as int, cutoff);
}

/// Idempotence: after a run that succeeded, a second run on the same
/// store succeeds too and leaves every counter row, every aggregate and
/// the global counter as the first run left them, whenever it runs.
pub proof fn law_idempotence(ledger: Ledger, limit: i64, first: Timespec, second: Timespec)
    requires
        ledger.wf(),
        run_of(ledger, limit, first).1 is Ok,
    ensures
        run_of(run_of(ledger, limit, first).0, limit, second).0 == run_of(ledger, limit, first).0,
        run_of(run_of(ledger, limit, first).0, limit, second).1 is Ok,
{
    let once = run_of(ledger, limit, first).0;
    if limit > 0 {
        law_run_settles(ledger, limit, first);
        lemma_pending_idle(once.events, 0);
        lemma_idle_run(once, once.backlog(0), limit as int, second);
    }
}

/// Conservation: a run that succeeds, with pages of at least one row,
/// raises the total of each version by the deltas of that version's rows
/// in the backlog, the total of each crate by the deltas of the rows of
/// its versions, and the global counter by the deltas of all the rows.
pub proof fn law_conservation(ledger: Ledger, limit: i64, cutoff: Timespec)
    requires
        ledger.wf(),
        limit > 0,
        run_of(ledger, limit, cutoff).1 is Ok,
    ensures
        ({
            let after = run_of(ledger, limit, cutoff).0;
            let rows = ledger.backlog(0);
            &&& after.versions.dom() == ledger.versions.dom()
            &&& after.crates.dom() == ledger.crates.dom()
            &&& forall|v: i32| #[trigger]
                ledger.versions.contains_key(v) ==> after.version_downloads(v)
                    == ledger.version_downloads(v) + version_delta(rows, v)
            &&& forall|c: i32| #[trigger]
                ledger.crates.contains_key(c) ==> after.crate_downloads(c)
                    == ledger.crate_downloads(c) + crate_delta(ledger.versions, rows, c)
            &&& after.total == ledger.total + total_delta(rows)
        }),
{
    let rows = ledger.backlog(0);
    lemma_run_is_fold(ledger, rows, limit as int, cutoff);
    assert(rows.take(rows.len() as int) =~= rows);
    lemma_fold_credits(ledger, rows, cutoff);
}

/// Freeze monotonicity: whatever a run does and however it ends, it
/// neither adds nor removes a counter row, and a row that was processed
/// before the run is the same after it.
pub proof fn law_freeze(ledger: Ledger, limit: i64, cutoff: Timespec)
    requires
        ledger.wf(),
    ensures
        run_of(ledger, limit, cutoff).0.events.len() == ledger.events.len(),
        forall|i: int|
            0 <= i < ledger.events.len() && (#[trigger] ledger.events[i]).processed ==> run_of(
                ledger,
                limit,
                cutoff,
            ).0.events[i] == ledger.events[i],
{
    if limit >= 0 {
        let rows = ledger.backlog(0);
        lemma_run_is_fold(ledger, rows, limit as int, cutoff);
        let k = committed(ledger, rows, limit as int, cutoff);
        assert(ledger.events.take(ledger.events.len() as int) =~= ledger.events);
        lemma_pending_live(ledger.events, 0, ledger.events.len() as int);
        assert(live_in(rows.take(k), ledger.events)) by {
            assert forall|j: int| 0 <= j < rows.take(k).len() implies 1 <= (#[trigger] rows.take(
                k,
            )[j]).id <= ledger.events.len() && ledger.events[rows.take(k)[j].id - 1]
                == rows.take(k)[j] && !rows.take(k)[j].processed by {
                assert(rows.take(k)[j] == rows[j]);
            }
        }
        lemma_fold_keeps_frozen(ledger, rows.take(k), cutoff);
    }
}

/// Batch exhaustion: a run that succeeds, with pages of `limit` rows,
/// commits as many pages as the backlog fills, the last one possibly
/// short, and leaves no pending row with a delta.
pub proof fn law_exhaustion(ledger: Ledger, limit: i64, cutoff: Timespec)
    requires
        ledger.wf(),
        limit > 0,
        run_of(ledger, limit, cutoff).1 is Ok,
    ensures
        run_of(ledger, limit, cutoff).1->Ok_0 == pages_for(
            ledger.backlog(0).len() as int,
            limit as int,
        ),
        idle(run_of(ledger, limit, cutoff).0.backlog(0)),
{
    lemma_run_is_fold(ledger, ledger.backlog(0), limit as int, cutoff);
    law_run_settles(ledger, limit, cutoff);
    lemma_pending_idle(run_of(ledger, limit, cutoff).0.events, 0);
}

/// The shape of the data outlasts every run, however it ends: a store
/// with at most one row for each crate and day keeps to that, and where no
/// counter row has counted more than it records, none has afterwards.
pub proof fn law_shape_kept(ledger: Ledger, limit: i64, cutoff: Timespec)
    requires
        ledger.wf(),
    ensures
        one_row_a_day(ledger.daily) ==> one_row_a_day(run_of(ledger, limit, cutoff).0.daily),
        counted_within(ledger.events) ==> counted_within(run_of(ledger, limit, cutoff).0.events),
{
    if limit >= 0 {
        let rows = ledger.backlog(0);
        lemma_run_is_fold(ledger, rows, limit as int, cutoff);
        let k = committed(ledger, rows, limit as int, cutoff);
        lemma_fold_keeps_shape(ledger, rows.take(k), cutoff);
    }
}

/// The cursor: a page holds at most `limit` rows, in ascending order of
/// their ids; each is an unprocessed counter row of the store above `max`;
/// and a pending row that the page leaves out comes after a full page.
pub proof fn law_page(ledger: Ledger, max: i32, limit: i64)
    requires
        ledger.wf(),
        0 <= limit,
    ensures
        ({
            let page = ledger.page(max as int, limit as int);
            &&& page.len() <= limit
            &&& ascending(page)
            &&& forall|j: int|
                0 <= j < page.len() ==> (#[trigger] page[j]).pending(max as int)
                    && ledger.has_event(page[j].id) && ledger.events[page[j].id - 1] == page[j]
            &&& forall|i: int|
                0 <= i < ledger.events.len() && (#[trigger] ledger.events[i]).pending(max as int)
                    && !page.contains(ledger.events[i]) ==> page.len() == limit && (limit > 0
                    ==> page.last().id < ledger.events[i].id)
        }),
{
    let events = ledger.events;
    let backlog = ledger.backlog(max as int);
    let page = ledger.page(max as int, limit as int);
    assert(ascending(events));
    lemma_pending_ascending(events, max as int);
    assert(events.take(events.len() as int) =~= events);
    lemma_pending_live(events, max as int, events.len() as int);
    assert(within(events, 0, events.len() as int));
    lemma_pending_within(events, max as int, 0, events.len() as int);
    assert forall|j: int| 0 <= j < page.len() implies (#[trigger] page[j]).pending(max as int)
        && ledger.has_event(page[j].id) && ledger.events[page[j].id - 1] == page[j] by {
        assert(page[j] == backlog[j]);
    }
    assert forall|i: int|
        0 <= i < events.len() && (#[trigger] events[i]).pending(max as int) && !page.contains(
            events[i],
        ) implies page.len() == limit && (limit > 0 ==> page.last().id < events[i].id) by {
        lemma_pending_complete(events, max as int, i);
        let k = choose|k: int| 0 <= k < backlog.len() && backlog[k] == events[i];
        if k < page.len() {
            assert(page[k] == events[i]);
        }
        if limit > 0 {
            assert(page.last() == backlog[limit - 1]);
        }
    }
}

/// The driver ends the run at the first empty page, and from then on
/// answers with the end of the run and asks for no page again.
pub proof fn law_no_page_after_empty(progress: Progress, reply: Answer)
    ensures
        progress.phase is Fetching && reply == Answer::Page(Seq::<DownloadEvent>::empty())
            ==> progress.step(reply).1 == Action::Finish && progress.step(reply).0.phase
            is Done,
        progress.phase is Done ==> progress.step(reply) == (progress, Action::Finish),
{
}

} // verus!
