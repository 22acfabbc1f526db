//! How the fold of rows into a ledger composes, and what the pages of a
//! run add up to.

use vstd::prelude::*;
use crate::event::{first_due, total_delta, DownloadEvent};
use crate::ledger::{
    crate_delta, daily_count, daily_credited, pending_rows, version_delta, CrateDownload, Ledger,
};
use crate::protocol::Fault;
use crate::timespec::Timespec;

verus! {

/// The number of pages that `rows` fill at `limit` rows a page.
pub open spec fn pages_for(rows: int, limit: int) -> int {
    (rows + limit - 1) / limit
}

/// The number of rows in the pages that a run over `rows` commits.
pub open spec fn committed(
    ledger: Ledger,
    rows: Seq<DownloadEvent>,
    limit: int,
    cutoff: Timespec,
) -> int
    decreases rows.len(),
{
    if rows.len() == 0 || limit <= 0 {
        0
    } else {
        let size = if limit < rows.len() { limit } else { rows.len() as int };
        match ledger.apply_page(rows.take(size), cutoff) {
            Err(_) => 0,
            Ok(next) => size + committed(next, rows.skip(size), limit, cutoff),
        }
    }
}

/// The number of rows for a crate and day never exceeds the number of rows.
pub proof fn lemma_daily_count_bound(daily: Seq<CrateDownload>, crate_id: i32, day: i64)
    ensures
        daily_count(daily, crate_id, day) <= daily.len(),
    decreases daily.len(),
{
    if daily.len() > 0 {
        lemma_daily_count_bound(daily.drop_last(), crate_id, day);
    }
}

/// Where no row stands for a crate and day, raising that day changes nothing.
pub proof fn lemma_daily_absent(
    daily: Seq<CrateDownload>,
    crate_id: i32,
    day: i64,
    amount: i64,
)
    requires
        daily_count(daily, crate_id, day) == 0,
    ensures
        forall|i: int| 0 <= i < daily.len() ==> !(#[trigger] daily[i]).is_for(crate_id, day),
        daily_credited(daily, crate_id, day, amount) == daily,
    decreases daily.len(),
{
    if daily.len() > 0 {
        lemma_daily_absent(daily.drop_last(), crate_id, day, amount);
        assert forall|i: int| 0 <= i < daily.len() implies !(#[trigger] daily[i]).is_for(
            crate_id,
            day,
        ) by {
            if i < daily.len() - 1 {
                assert(daily.drop_last()[i] == daily[i]);
            }
        }
    }
    assert(daily_credited(daily, crate_id, day, amount) =~= daily);
}

/// Folding in one row more: the fold over a longer prefix continues the
/// fold over the shorter one.
pub proof fn lemma_apply_rows_next(
    ledger: Ledger,
    rows: Seq<DownloadEvent>,
    k: int,
    cutoff: Timespec,
)
    requires
        0 <= k < rows.len(),
    ensures
        ledger.apply_rows(rows.take(k + 1), cutoff) == match ledger.apply_rows(
            rows.take(k),
            cutoff,
        ) {
            Ok(so_far) => so_far.apply_row(rows[k], cutoff),
            Err(fault) => Err(fault),
        },
        total_delta(rows.take(k + 1)) == total_delta(rows.take(k)) + if rows[k].due() {
            rows[k].delta()
        } else {
            0
        },
{
    assert(rows.take(k + 1).drop_last() =~= rows.take(k));
}

/// A fault in a prefix of the rows is the fault of all the rows.
pub proof fn lemma_apply_rows_fault(
    ledger: Ledger,
    rows: Seq<DownloadEvent>,
    k: int,
    cutoff: Timespec,
)
    requires
        0 <= k <= rows.len(),
        ledger.apply_rows(rows.take(k), cutoff) is Err,
    ensures
        ledger.apply_rows(rows, cutoff) == ledger.apply_rows(rows.take(k), cutoff),
    decreases rows.len() - k,
{
    if k < rows.len() {
        lemma_apply_rows_next(ledger, rows, k, cutoff);
        lemma_apply_rows_fault(ledger, rows, k + 1, cutoff);
    } else {
        assert(rows.take(k) =~= rows);
    }
}

/// Rows without a delta between `n` and the next due row change neither
/// the fold nor the sum of the deltas.
pub proof fn lemma_skip_idle(ledger: Ledger, rows: Seq<DownloadEvent>, n: int, cutoff: Timespec)
    requires
        0 <= n <= rows.len(),
    ensures
        n <= first_due(rows, n) <= rows.len(),
        first_due(rows, n) < rows.len() ==> rows[first_due(rows, n)].due(),
        ledger.apply_rows(rows.take(n), cutoff) is Ok ==> ledger.apply_rows(
            rows.take(first_due(rows, n)),
            cutoff,
        ) == ledger.apply_rows(rows.take(n), cutoff),
        total_delta(rows.take(first_due(rows, n))) == total_delta(rows.take(n)),
    decreases rows.len() - n,
{
    if n < rows.len() && !rows[n].due() {
        lemma_apply_rows_next(ledger, rows, n, cutoff);
        lemma_skip_idle(ledger, rows, n + 1, cutoff);
    }
}

/// Rows that fold in without a fault have deltas of less than 2^32 each.
pub proof fn lemma_total_bound(ledger: Ledger, rows: Seq<DownloadEvent>, cutoff: Timespec)
    requires
        ledger.apply_rows(rows, cutoff) is Ok,
    ensures
        0 <= total_delta(rows) <= rows.len() * 0x1_0000_0000,
    decreases rows.len(),
{
    if rows.len() > 0 {
        lemma_total_bound(ledger, rows.drop_last(), cutoff);
    }
}

/// The fold does not read or write the global counter.
pub proof fn lemma_fold_keeps_total(
    ledger: Ledger,
    rows: Seq<DownloadEvent>,
    cutoff: Timespec,
    total: i64,
)
    ensures
        ledger.apply_rows(rows, cutoff) matches Ok(after) ==> after.total == ledger.total,
        (Ledger { total, ..ledger }).apply_rows(rows, cutoff) == match ledger.apply_rows(
            rows,
            cutoff,
        ) {
            Ok(after) => Ok::<Ledger, Fault>(Ledger { total, ..after }),
            Err(fault) => Err::<Ledger, Fault>(fault),
        },
    decreases rows.len(),
{
    if rows.len() > 0 {
        lemma_fold_keeps_total(ledger, rows.drop_last(), cutoff, total);
    }
}

/// Folding in two stretches of rows one after the other is folding in
/// their concatenation, and their deltas add up.
pub proof fn lemma_fold_concat(
    ledger: Ledger,
    a: Seq<DownloadEvent>,
    b: Seq<DownloadEvent>,
    cutoff: Timespec,
)
    ensures
        ledger.apply_rows(a + b, cutoff) == match ledger.apply_rows(a, cutoff) {
            Ok(middle) => middle.apply_rows(b, cutoff),
            Err(fault) => Err::<Ledger, Fault>(fault),
        },
        total_delta(a + b) == total_delta(a) + total_delta(b),
    decreases b.len(),
{
    if b.len() == 0 {
        assert(a + b =~= a);
    } else {
        lemma_fold_concat(ledger, a, b.drop_last(), cutoff);
        assert((a + b).drop_last() =~= a + b.drop_last());
        assert((a + b).last() == b.last());
    }
}

/// A run in pages leaves what one fold over the rows of its committed
/// pages leaves, with the deltas of those rows on the global counter. A
/// run that succeeds has committed every row, in as many pages as the
/// rows fill.
pub proof fn lemma_run_is_fold(
    ledger: Ledger,
    rows: Seq<DownloadEvent>,
    limit: int,
    cutoff: Timespec,
)
    ensures
        ({
            let k = committed(ledger, rows, limit, cutoff);
            let (end, outcome) = ledger.drain(rows, limit, cutoff);
            &&& 0 <= k <= rows.len()
            &&& ledger.apply_rows(rows.take(k), cutoff) is Ok
            &&& 0 <= total_delta(rows.take(k))
            &&& ledger.total + total_delta(rows.take(k)) <= i64::MAX
            &&& end == Ledger {
                total: (ledger.total + total_delta(rows.take(k))) as i64,
                ..ledger.apply_rows(rows.take(k), cutoff)->Ok_0
            }
            &&& outcome is Ok && limit > 0 ==> k == rows.len() && outcome->Ok_0 == pages_for(
                rows.len() as int,
                limit,
            )
        }),
    decreases rows.len(),
{
    if rows.len() == 0 || limit <= 0 {
        assert(rows.take(0) =~= Seq::<DownloadEvent>::empty());
        if limit > 0 {
            vstd::arithmetic::div_mod::lemma_basic_div(limit - 1, limit);
        }
    } else {
        let size = if limit < rows.len() { limit } else { rows.len() as int };
        let page = rows.take(size);
        let rest = rows.skip(size);
        match ledger.apply_page(page, cutoff) {
            Err(_) => {
                assert(rows.take(0) =~= Seq::<DownloadEvent>::empty());
            },
            Ok(next) => {
                let folded = ledger.apply_rows(page, cutoff)->Ok_0;
                lemma_total_bound(ledger, page, cutoff);
                lemma_fold_keeps_total(ledger, page, cutoff, next.total);
                lemma_run_is_fold(next, rest, limit, cutoff);
                let k = committed(next, rest, limit, cutoff);
                let more = rest.take(k);
                assert(rows.take(size + k) =~= page + more);
                lemma_fold_concat(ledger, page, more, cutoff);
                lemma_fold_keeps_total(folded, more, cutoff, next.total);
                assert(next == Ledger { total: next.total, ..folded });
                let (end, outcome) = next.drain(rest, limit, cutoff);
                if outcome is Ok {
                    assert(pages_for(rows.len() as int, limit) == 1 + pages_for(
                        rest.len() as int,
                        limit,
                    )) by {
                        if limit < rows.len() {
                            vstd::arithmetic::div_mod::lemma_div_plus_one(
                                rows.len() - limit + limit - 1,
                                limit,
                            );
                        } else {
                            vstd::arithmetic::div_mod::lemma_basic_div(limit - 1, limit);
                            vstd::arithmetic::div_mod::lemma_div_plus_one(
                                rows.len() - 1,
                                limit,
                            );
                            vstd::arithmetic::div_mod::lemma_basic_div(rows.len() - 1, limit);
                        }
                    }
                }
            },
        }
    }
}

/// Folding rows in creates and removes no version and no crate, moves no
/// version to another crate, and raises each version and each crate by
/// the deltas of its rows.
pub proof fn lemma_fold_credits(ledger: Ledger, rows: Seq<DownloadEvent>, cutoff: Timespec)
    requires
        ledger.apply_rows(rows, cutoff) is Ok,
    ensures
        ({
            let after = ledger.apply_rows(rows, cutoff)->Ok_0;
            &&& after.versions.dom() == ledger.versions.dom()
            &&& after.crates.dom() == ledger.crates.dom()
            &&& forall|v: i32| #[trigger]
                ledger.versions.contains_key(v) ==> after.versions[v].crate_id
                    == ledger.versions[v].crate_id && after.versions[v].downloads
                    == ledger.versions[v].downloads + version_delta(rows, v)
            &&& forall|c: i32| #[trigger]
                ledger.crates.contains_key(c) ==> after.crates[c] == ledger.crates[c]
                    + crate_delta(ledger.versions, rows, c)
        }),
    decreases rows.len(),
{
    if rows.len() > 0 {
        let front = rows.drop_last();
        let row = rows.last();
        lemma_fold_credits(ledger, front, cutoff);
        let middle = ledger.apply_rows(front, cutoff)->Ok_0;
        let after = ledger.apply_rows(rows, cutoff)->Ok_0;
        assert(after.versions.dom() =~= ledger.versions.dom());
        assert(after.crates.dom() =~= ledger.crates.dom());
        assert forall|v: i32| #[trigger]
            ledger.versions.contains_key(v) implies after.versions[v].crate_id
            == ledger.versions[v].crate_id && after.versions[v].downloads
            == ledger.versions[v].downloads + version_delta(rows, v) by {
            assert(middle.versions.contains_key(v));
        }
        assert forall|c: i32| #[trigger] ledger.crates.contains_key(c) implies after.crates[c]
            == ledger.crates[c] + crate_delta(ledger.versions, rows, c) by {
            assert(middle.crates.contains_key(c));
            if row.due() {
                assert(ledger.versions.contains_key(row.version_id));
            }
        }
    }
}

/// The counter rows after the first `n` of them have been visited: the
/// pending rows with a delta have caught up, frozen where they are dated
/// before the cutoff; every other row is as it was.
pub open spec fn settled_to(events: Seq<DownloadEvent>, n: int, cutoff: Timespec) -> Seq<
    DownloadEvent,
> {
    Seq::new(
        events.len(),
        |i: int|
            if i < n && events[i].pending(0) && events[i].due() {
                events[i].settled(cutoff)
            } else {
                events[i]
            },
    )
}

/// Folding in the backlog of the first `n` counter rows settles those
/// rows and leaves the others alone.
pub proof fn lemma_fold_settles(ledger: Ledger, n: int, cutoff: Timespec)
    requires
        ledger.wf(),
        0 <= n <= ledger.events.len(),
        ledger.apply_rows(pending_rows(ledger.events.take(n), 0), cutoff) is Ok,
    ensures
        ledger.apply_rows(pending_rows(ledger.events.take(n), 0), cutoff)->Ok_0.events
            == settled_to(ledger.events, n, cutoff),
    decreases n,
{
    let events = ledger.events;
    if n == 0 {
        assert(events.take(0) =~= Seq::<DownloadEvent>::empty());
        assert(settled_to(events, 0, cutoff) =~= events);
    } else {
        assert(events.take(n).drop_last() =~= events.take(n - 1));
        assert(events.take(n).last() == events[n - 1]);
        let front = pending_rows(events.take(n - 1), 0);
        let row = events[n - 1];
        if row.pending(0) {
            assert(front.push(row).drop_last() =~= front);
            assert(front.push(row).last() == row);
        }
        lemma_fold_settles(ledger, n - 1, cutoff);
        let middle = ledger.apply_rows(front, cutoff)->Ok_0;
        assert(middle.events[n - 1] == row);
        let after = ledger.apply_rows(pending_rows(events.take(n), 0), cutoff)->Ok_0;
        assert(after.events =~= settled_to(events, n, cutoff));
    }
}

/// Whether `daily` holds at most one row for each crate and day.
pub open spec fn one_row_a_day(daily: Seq<CrateDownload>) -> bool {
    forall|i: int, j: int|
        0 <= i < j < daily.len() ==> !(#[trigger] daily[i]).is_for(
            (#[trigger] daily[j]).crate_id,
            daily[j].day,
        )
}

/// Whether no row of `events` has counted more than it records.
pub open spec fn counted_within(events: Seq<DownloadEvent>) -> bool {
    forall|i: int| 0 <= i < events.len() ==> (#[trigger] events[i]).counted <= events[i].downloads
}

/// Folding rows in keeps one row for each crate and day, and keeps every
/// count within its counter.
pub proof fn lemma_fold_keeps_shape(ledger: Ledger, rows: Seq<DownloadEvent>, cutoff: Timespec)
    requires
        ledger.apply_rows(rows, cutoff) is Ok,
    ensures
        one_row_a_day(ledger.daily) ==> one_row_a_day(
            ledger.apply_rows(rows, cutoff)->Ok_0.daily,
        ),
        counted_within(ledger.events) ==> counted_within(
            ledger.apply_rows(rows, cutoff)->Ok_0.events,
        ),
    decreases rows.len(),
{
    if rows.len() > 0 {
        lemma_fold_keeps_shape(ledger, rows.drop_last(), cutoff);
        let middle = ledger.apply_rows(rows.drop_last(), cutoff)->Ok_0;
        let after = ledger.apply_rows(rows, cutoff)->Ok_0;
        let row = rows.last();
        if row.due() {
            let crate_id = middle.versions[row.version_id].crate_id;
            let day = crate::timespec::day_of(row.date.sec as int) as i64;
            let amount = row.delta() as i64;
            if daily_count(middle.daily, crate_id, day) == 0 {
                lemma_daily_absent(middle.daily, crate_id, day, amount);
            }
            if one_row_a_day(middle.daily) {
                assert forall|i: int, j: int| 0 <= i < j < after.daily.len() implies !(
                #[trigger] after.daily[i]).is_for(
                    (#[trigger] after.daily[j]).crate_id,
                    after.daily[j].day,
                ) by {
                    if j < middle.daily.len() {
                        assert(!middle.daily[i].is_for(
                            middle.daily[j].crate_id,
                            middle.daily[j].day,
                        ));
                    }
                }
            }
        }
    }
}

/// Whether no row of `rows` has a delta.
pub open spec fn idle(rows: Seq<DownloadEvent>) -> bool {
    forall|i: int| 0 <= i < rows.len() ==> !(#[trigger] rows[i]).due()
}

/// Rows without a delta fold into nothing.
pub proof fn lemma_idle_fold(ledger: Ledger, rows: Seq<DownloadEvent>, cutoff: Timespec)
    requires
        idle(rows),
    ensures
        ledger.apply_rows(rows, cutoff) == Ok::<Ledger, Fault>(ledger),
        total_delta(rows) == 0,
    decreases rows.len(),
{
    if rows.len() > 0 {
        let front = rows.drop_last();
        assert(idle(front)) by {
            assert forall|i: int| 0 <= i < front.len() implies !(#[trigger] front[i]).due() by {
                assert(front[i] == rows[i]);
            }
        }
        lemma_idle_fold(ledger, front, cutoff);
        assert(rows.last() == rows[rows.len() - 1]);
    }
}

/// A run over rows without a delta succeeds and changes nothing.
pub proof fn lemma_idle_run(ledger: Ledger, rows: Seq<DownloadEvent>, limit: int, cutoff: Timespec)
    requires
        idle(rows),
    ensures
        ledger.drain(rows, limit, cutoff).0 == ledger,
        ledger.drain(rows, limit, cutoff).1 is Ok,
    decreases rows.len(),
{
    if rows.len() > 0 && limit > 0 {
        let size = if limit < rows.len() { limit } else { rows.len() as int };
        let page = rows.take(size);
        let rest = rows.skip(size);
        assert(idle(page));
        assert(idle(rest));
        lemma_idle_fold(ledger, page, cutoff);
        lemma_idle_run(ledger, rest, limit, cutoff);
    }
}

/// Where every pending counter row is without a delta, so is the backlog.
pub proof fn lemma_pending_idle(events: Seq<DownloadEvent>, max: int)
    requires
        forall|i: int|
            0 <= i < events.len() && (#[trigger] events[i]).pending(max) ==> !events[i].due(),
    ensures
        idle(pending_rows(events, max)),
    decreases events.len(),
{
    if events.len() > 0 {
        let front = events.drop_last();
        assert forall|i: int| 0 <= i < front.len() && (#[trigger] front[i]).pending(
            max,
        ) implies !front[i].due() by {
            assert(front[i] == events[i]);
        }
        lemma_pending_idle(front, max);
        assert(events.last() == events[events.len() - 1]);
    }
}

/// Whether each row of `rows` is the unprocessed counter row of its id in
/// `events`.
pub open spec fn live_in(rows: Seq<DownloadEvent>, events: Seq<DownloadEvent>) -> bool {
    forall|j: int|
        0 <= j < rows.len() ==> 1 <= (#[trigger] rows[j]).id <= events.len() && events[rows[j].id
            - 1] == rows[j] && !rows[j].processed
}

/// The rows of the backlog are the unprocessed counter rows of their ids.
pub proof fn lemma_pending_live(events: Seq<DownloadEvent>, max: int, n: int)
    requires
        0 <= n <= events.len(),
        forall|i: int| 0 <= i < events.len() ==> (#[trigger] events[i]).id == i + 1,
    ensures
        live_in(pending_rows(events.take(n), max), events),
    decreases n,
{
    if n > 0 {
        assert(events.take(n).drop_last() =~= events.take(n - 1));
        assert(events.take(n).last() == events[n - 1]);
        lemma_pending_live(events, max, n - 1);
    } else {
        assert(events.take(0) =~= Seq::<DownloadEvent>::empty());
    }
}

/// Folding in unprocessed rows keeps the number of counter rows, and
/// leaves every processed row as it is.
pub proof fn lemma_fold_keeps_frozen(ledger: Ledger, rows: Seq<DownloadEvent>, cutoff: Timespec)
    requires
        live_in(rows, ledger.events),
        ledger.apply_rows(rows, cutoff) is Ok,
    ensures
        ({
            let after = ledger.apply_rows(rows, cutoff)->Ok_0;
            &&& after.events.len() == ledger.events.len()
            &&& forall|i: int|
                0 <= i < ledger.events.len() && (#[trigger] ledger.events[i]).processed
                    ==> after.events[i] == ledger.events[i]
        }),
    decreases rows.len(),
{
    if rows.len() > 0 {
        let front = rows.drop_last();
        assert(live_in(front, ledger.events)) by {
            assert forall|j: int| 0 <= j < front.len() implies 1 <= (#[trigger] front[j]).id
                <= ledger.events.len() && ledger.events[front[j].id - 1] == front[j]
                && !front[j].processed by {
                assert(front[j] == rows[j]);
            }
        }
        lemma_fold_keeps_frozen(ledger, front, cutoff);
        assert(rows.last() == rows[rows.len() - 1]);
    }
}

} // verus!
