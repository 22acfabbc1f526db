//! Aggregation runs against the in-memory store: the driver's statements
//! are carried out one by one, and what they add up to is proved.

use vstd::prelude::*;
use crate::backlog::{
    lemma_backlog_advances, lemma_pending_ascending, lemma_pending_within, lemma_rows_frame,
    within,
};
use crate::driver::{page_max, Driver, Phase, Progress};
use crate::event::{first_due, greatest_id, total_delta, DownloadEvent};
use crate::fold::{
    lemma_apply_rows_fault, lemma_apply_rows_next, lemma_daily_absent, lemma_daily_count_bound,
    lemma_skip_idle, lemma_total_bound,
};
use crate::ledger::{daily_count, Ledger};
use crate::protocol::{Action, Fault, Reply};
use crate::store::MemStore;
use crate::timespec::{cutoff_of, day_of, Timespec};

verus! {

/// The number of rows that a run reads per page.
pub const LIMIT: i64 = 10_000;

/// Carries the statements of one due row out against the store, as the
/// driver asks for them, and returns the driver's next action.
fn settle_row(store: &mut MemStore, driver: &mut Driver, action: Action) -> (next: Action)
    requires
        old(store).wf(),
        old(driver)@.phase is Resolving,
        old(driver)@.on_row(),
        old(driver)@.row().due(),
        action == (Action::FindCrate { version_id: old(driver)@.row().version_id }),
        old(driver)@.total + old(driver)@.row().delta() <= i128::MAX,
    ensures
        final(store).wf(),
        final(store).saved() == old(store).saved(),
        match old(store)@.apply_row(old(driver)@.row(), old(driver)@.cutoff) {
            Ok(ledger) => {
                let at = Progress {
                    next: old(driver)@.next + 1,
                    total: old(driver)@.total + old(driver)@.row().delta(),
                    ..final(driver)@
                };
                &&& final(store)@ == ledger
                &&& (final(driver)@, next) == at.seek()
            },
            Err(fault) => {
                &&& next == Action::Abort(fault)
                &&& final(driver)@.phase == Phase::Failed(fault)
            },
        },
        final(driver)@.rows == old(driver)@.rows,
        final(driver)@.cutoff == old(driver)@.cutoff,
        final(driver)@.limit == old(driver)@.limit,
        final(driver)@.max == old(driver)@.max,
{
    let ghost row = driver@.row();
    let ghost before = store@;
    let reply = store.perform(action);
    let action = driver.step(reply);
    if action.is_terminal() {
        return action;
    }
    let reply = store.perform(action);
    let action = driver.step(reply);
    if action.is_terminal() {
        return action;
    }
    let reply = store.perform(action);
    let action = driver.step(reply);
    if action.is_terminal() {
        return action;
    }
    let ghost amount = row.delta() as i64;
    let ghost crate_id = before.versions[row.version_id].crate_id;
    let ghost day = day_of(row.date.sec as int) as i64;
    let reply = store.perform(action);
    let mut action = driver.step(reply);
    if action.is_terminal() {
        return action;
    }
    proof {
        lemma_daily_count_bound(before.daily, crate_id, day);
        if daily_count(before.daily, crate_id, day) == 0 {
            lemma_daily_absent(before.daily, crate_id, day, amount);
        }
    }
    if let Action::InsertCrateDaily { .. } = action {
        let reply = store.perform(action);
        action = driver.step(reply);
        if action.is_terminal() {
            return action;
        }
    }
    let reply = store.perform(action);
    let action = driver.step(reply);
    action
}

/// Carries out what the driver asks for from the first row of a page to
/// the statement that ends the page: `Commit` once every row and the
/// page's total are written, `Abort` at the first fault.
fn reconcile(store: &mut MemStore, driver: &mut Driver, action: Action) -> (next: Action)
    requires
        old(store).wf(),
        (old(driver)@, action) == (Progress { next: 0, total: 0, ..old(driver)@ }).seek(),
    ensures
        final(store).wf(),
        final(store).saved() == old(store).saved(),
        final(driver)@.rows == old(driver)@.rows,
        final(driver)@.cutoff == old(driver)@.cutoff,
        final(driver)@.limit == old(driver)@.limit,
        final(driver)@.max == old(driver)@.max,
        match old(store)@.apply_page(old(driver)@.rows, old(driver)@.cutoff) {
            Ok(ledger) => {
                &&& final(store)@ == ledger
                &&& next == Action::Commit
                &&& final(driver)@.phase == Phase::Committing
            },
            Err(fault) => {
                &&& next == Action::Abort(fault)
                &&& final(driver)@.phase == Phase::Failed(fault)
            },
        },
{
    let ghost base = store@;
    let ghost rows = driver@.rows;
    let ghost cutoff = driver@.cutoff;
    let ghost mut n: int = 0;
    let ghost mut failed = false;
    let mut action = action;
    let len = driver.rows.len();
    proof {
        assert(rows.take(0) =~= Seq::<DownloadEvent>::empty());
    }
    loop
        invariant
            store.wf(),
            store.saved() == old(store).saved(),
            driver@.rows == rows,
            driver@.cutoff == cutoff,
            driver@.limit == old(driver)@.limit,
            driver@.max == old(driver)@.max,
            len == rows.len(),
            0 <= n <= rows.len(),
            failed ==> base.apply_rows(rows, cutoff) is Err && action == Action::Abort(
                base.apply_rows(rows, cutoff)->Err_0,
            ) && driver@.phase == Phase::Failed(base.apply_rows(rows, cutoff)->Err_0),
            !failed ==> (driver@, action) == (Progress { next: n, ..driver@ }).seek(),
            !failed ==> driver@.total == total_delta(rows.take(n)),
            !failed ==> base.apply_rows(rows.take(n), cutoff) == Ok::<Ledger, Fault>(store@),
        ensures
            store.wf(),
            store.saved() == old(store).saved(),
            driver@.rows == rows,
            driver@.cutoff == cutoff,
            driver@.limit == old(driver)@.limit,
            driver@.max == old(driver)@.max,
            match base.apply_rows(rows, cutoff) {
                Ok(ledger) => {
                    &&& store@ == ledger
                    &&& if total_delta(rows) > i64::MAX {
                        &&& action == Action::Abort(Fault::Overflow)
                        &&& driver@.phase == Phase::Failed(Fault::Overflow)
                    } else {
                        &&& action == (Action::AddTotal { amount: total_delta(rows) as i64 })
                        &&& driver@.phase == Phase::Totalling
                    }
                },
                Err(fault) => {
                    &&& action == Action::Abort(fault)
                    &&& driver@.phase == Phase::Failed(fault)
                },
            },
        decreases rows.len() - n + (if action is FindCrate { 1int } else { 0int }),
    {
        let ghost k = first_due(rows, n);
        proof {
            if !failed {
                lemma_skip_idle(base, rows, n, cutoff);
                lemma_total_bound(base, rows.take(n), cutoff);
            }
        }
        match action {
            Action::FindCrate { .. } => {},
            _ => {
                proof {
                    if failed {
                    } else if k < rows.len() {
                        lemma_apply_rows_next(base, rows, k, cutoff);
                        lemma_apply_rows_fault(base, rows, k + 1, cutoff);
                    } else {
                        assert(rows.take(k) =~= rows);
                    }
                }
                break ;
            },
        }
        proof {
            lemma_apply_rows_next(base, rows, k, cutoff);
            assert(total_delta(rows.take(n)) + rows[k].delta() <= i128::MAX) by {
                assert(rows.take(n).len() * 0x1_0000_0000 <= usize::MAX * 0x1_0000_0000)
                    by (nonlinear_arith)
                    requires
                        rows.take(n).len() <= usize::MAX,
                ;
            }
        }
        action = settle_row(store, driver, action);
        proof {
            if base.apply_rows(rows.take(k + 1), cutoff) is Ok {
                n = k + 1;
            } else {
                lemma_apply_rows_fault(base, rows, k + 1, cutoff);
                failed = true;
            }
        }
    }
    proof {
        if base.apply_rows(rows, cutoff) is Ok {
            lemma_total_bound(base, rows, cutoff);
        }
    }
    if action.is_terminal() {
        return action;
    }
    let reply = store.perform(action);
    driver.step(reply)
}

/// Reconciles one page against the store: folds the delta of each row
/// into the totals of its version, of its crate and of the crate's day,
/// lets the row catch up, and adds the page's deltas to the global
/// counter.
///
/// Returns `None` for an empty page, which leaves the store untouched,
/// and else the greatest id of the page. The page is written within a
/// sub-transaction of its own, which is left open for the caller to
/// commit. A fault undoes the whole page.
pub fn collect(store: &mut MemStore, rows: Vec<DownloadEvent>, cutoff: Timespec) -> (r: Result<
    Option<i32>,
    Fault,
>)
    requires
        old(store).wf(),
    ensures
        final(store).wf(),
        rows@.len() == 0 ==> r == Ok::<Option<i32>, Fault>(None) && final(store)@ == old(store)@
            && final(store).saved() == old(store).saved(),
        rows@.len() > 0 ==> match old(store)@.apply_page(rows@, cutoff) {
            Ok(ledger) => {
                &&& r == Ok::<Option<i32>, Fault>(Some(greatest_id(rows@) as i32))
                &&& final(store)@ == ledger
                &&& final(store).saved() == Some(old(store)@)
            },
            Err(fault) => {
                &&& r == Err::<Option<i32>, Fault>(fault)
                &&& final(store)@ == old(store)@
                &&& final(store).saved() is None
            },
        },
{
    if rows.len() == 0 {
        return Ok(None);
    }
    store.begin();
    let (mut driver, _) = Driver::with_cutoff(cutoff, LIMIT);
    let action = driver.step(Reply::Page(rows));
    let action = reconcile(store, &mut driver, action);
    match action {
        Action::Abort(fault) => {
            store.perform(action);
            Err(fault)
        },
        _ => Ok(Some(page_max(&driver.rows))),
    }
}

/// The outcome of a run that had committed `pages` pages before.
pub open spec fn after_pages(outcome: (Ledger, Result<nat, Fault>), pages: nat) -> (
    Ledger,
    Result<nat, Fault>,
) {
    match outcome.1 {
        Ok(more) => (outcome.0, Ok(pages + more)),
        Err(fault) => (outcome.0, Err(fault)),
    }
}

/// What a run with the given page size leaves in a store that held
/// `ledger`, and what it returns: the number of pages committed, or the
/// fault of the first page that failed. A negative page size fails at the
/// first read.
pub open spec fn run_of(ledger: Ledger, limit: i64, cutoff: Timespec) -> (
    Ledger,
    Result<nat, Fault>,
) {
    if limit < 0 {
        (ledger, Err(Fault::Store))
    } else {
        ledger.drain(ledger.backlog(0), limit as int, cutoff)
    }
}

/// Runs the aggregation against the store until the backlog is drained:
/// reads page after page of at most `limit` unprocessed rows, ascending by
/// id, reconciles each within a sub-transaction of its own, and stops at
/// the first empty page. Rows dated more than twenty-four hours before
/// `now` are frozen as they are counted.
///
/// Returns the number of pages that were committed. A fault ends the run:
/// the pages before it stay, its own page is undone.
pub fn update_paged(store: &mut MemStore, now: Timespec, limit: i64) -> (r: Result<usize, Fault>)
    requires
        old(store).wf(),
        now.sec >= i64::MIN + 86_400,
    ensures
        final(store).wf(),
        final(store).saved() is None,
        final(store)@ == run_of(old(store)@, limit, cutoff_of(now)).0,
        match run_of(old(store)@, limit, cutoff_of(now)).1 {
            Ok(pages) => r == Ok::<usize, Fault>(pages as usize) && pages <= usize::MAX,
            Err(fault) => r == Err::<usize, Fault>(fault),
        },
{
    let ghost start = store@;
    let ghost cutoff = cutoff_of(now);
    let ghost mut rest = start.backlog(0);
    let (mut driver, mut action) = Driver::new(now, limit);
    let mut pages: usize = 0;
    proof {
        lemma_pending_within(start.events, 0, 0, start.events.len() as int);
    }
    loop
        invariant
            store.wf(),
            start.wf(),
            start == old(store)@,
            cutoff == cutoff_of(now),
            driver@.phase is Fetching,
            driver@.limit == limit,
            driver@.cutoff == cutoff,
            0 <= driver@.max,
            action == (Action::FetchPage { max: driver@.max, limit }),
            rest == store@.backlog(driver@.max as int),
            pages + rest.len() <= start.events.len(),
            limit >= 0 ==> start.drain(start.backlog(0), limit as int, cutoff) == after_pages(
                store@.drain(rest, limit as int, cutoff),
                pages as nat,
            ),
            limit < 0 ==> store@ == start,
        decreases rest.len(),
    {
        let ghost before = store@;
        let ghost max = driver@.max as int;
        let reply = store.perform(action);
        let paged = match &reply {
            Reply::Page(rows) => rows.len() > 0,
            _ => false,
        };
        action = driver.step(reply);
        if !paged {
            store.perform(action);
            return match action {
                Action::Abort(fault) => Err(fault),
                _ => Ok(pages),
            };
        }
        let ghost size = driver@.rows.len() as int;
        assert(driver@.rows == rest.take(size));
        action = reconcile(store, &mut driver, action);
        if let Action::Abort(fault) = action {
            store.perform(action);
            return Err(fault);
        }
        proof {
            let page = rest.take(size);
            let top = rest[size - 1].id as int;
            lemma_pending_within(
                before.events,
                max,
                0,
                before.events.len() as int,
            );
            assert(within(page, i32::MIN - 1, top)) by {
                lemma_pending_ascending(before.events, max);
                assert forall|i: int| 0 <= i < page.len() implies i32::MIN - 1 < (
                #[trigger] page[i]).id <= top by {
                    assert(page[i] == rest[i]);
                }
            }
            lemma_rows_frame(before, page, cutoff, top);
            lemma_backlog_advances(before, store@, max, size);
            rest = rest.skip(size);
        }
        let reply = store.perform(action);
        action = driver.step(reply);
        pages = pages + 1;
    }
}

/// Runs the aggregation with pages of [`LIMIT`] rows.
pub fn update(store: &mut MemStore, now: Timespec) -> (r: Result<usize, Fault>)
    requires
        old(store).wf(),
        now.sec >= i64::MIN + 86_400,
    ensures
        final(store).wf(),
        final(store).saved() is None,
        final(store)@ == run_of(old(store)@, LIMIT, cutoff_of(now)).0,
        match run_of(old(store)@, LIMIT, cutoff_of(now)).1 {
            Ok(pages) => r == Ok::<usize, Fault>(pages as usize) && pages <= usize::MAX,
            Err(fault) => r == Err::<usize, Fault>(fault),
        },
{
    update_paged(store, now, LIMIT)
}

} // verus!
