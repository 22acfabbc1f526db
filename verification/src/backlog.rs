//! Facts about the backlog: the unprocessed rows that a cursor still has
//! to visit, and how a page moves the cursor through them.

use vstd::prelude::*;
use crate::event::{greatest_id, DownloadEvent};
use crate::ledger::{pending_rows, Ledger};
use crate::timespec::Timespec;

verus! {

/// Whether the ids of `rows` rise from each row to the next.
pub open spec fn ascending(rows: Seq<DownloadEvent>) -> bool {
    forall|i: int, j: int| 0 <= i < j < rows.len() ==> rows[i].id < rows[j].id
}

/// Whether every id of `rows` lies above `low` and not above `high`.
pub open spec fn within(rows: Seq<DownloadEvent>, low: int, high: int) -> bool {
    forall|i: int| 0 <= i < rows.len() ==> low < (#[trigger] rows[i]).id <= high
}

/// The backlog of rows whose ids lie in a range lies in that range, and
/// holds pending rows only.
pub proof fn lemma_pending_within(rows: Seq<DownloadEvent>, max: int, low: int, high: int)
    requires
        within(rows, low, high),
    ensures
        within(pending_rows(rows, max), low, high),
        forall|i: int|
            0 <= i < pending_rows(rows, max).len() ==> (#[trigger] pending_rows(
                rows,
                max,
            )[i]).pending(max),
        pending_rows(rows, max).len() <= rows.len(),
    decreases rows.len(),
{
    if rows.len() > 0 {
        lemma_pending_within(rows.drop_last(), max, low, high);
    }
}

/// The backlog of ascending rows is ascending.
pub proof fn lemma_pending_ascending(rows: Seq<DownloadEvent>, max: int)
    requires
        ascending(rows),
    ensures
        ascending(pending_rows(rows, max)),
    decreases rows.len(),
{
    if rows.len() > 0 {
        let front = rows.drop_last();
        lemma_pending_ascending(front, max);
        assert(within(front, i32::MIN - 1, rows.last().id - 1)) by {
            assert forall|i: int| 0 <= i < front.len() implies i32::MIN - 1 < (
            #[trigger] front[i]).id <= rows.last().id - 1 by {
                assert(front[i] == rows[i]);
            }
        }
        lemma_pending_within(front, max, i32::MIN - 1, rows.last().id - 1);
    }
}

/// The backlog of two stretches of rows is the backlog of the first
/// followed by that of the second.
pub proof fn lemma_pending_concat(a: Seq<DownloadEvent>, b: Seq<DownloadEvent>, max: int)
    ensures
        pending_rows(a + b, max) == pending_rows(a, max) + pending_rows(b, max),
    decreases b.len(),
{
    if b.len() == 0 {
        assert(a + b =~= a);
        assert(pending_rows(a, max) + pending_rows(b, max) =~= pending_rows(a, max));
    } else {
        lemma_pending_concat(a, b.drop_last(), max);
        assert((a + b).drop_last() =~= a + b.drop_last());
        assert((a + b).last() == b.last());
        if b.last().pending(max) {
            assert(pending_rows(a, max) + pending_rows(b, max) =~= (pending_rows(a, max)
                + pending_rows(b.drop_last(), max)).push(b.last()));
        }
    }
}

/// Rows at or below the cursor are not in the backlog.
pub proof fn lemma_pending_passed(rows: Seq<DownloadEvent>, max: int)
    requires
        within(rows, i32::MIN - 1, max),
    ensures
        pending_rows(rows, max) == Seq::<DownloadEvent>::empty(),
    decreases rows.len(),
{
    if rows.len() > 0 {
        lemma_pending_passed(rows.drop_last(), max);
    }
}

/// For rows above both cursors, the backlog is the same at either.
pub proof fn lemma_pending_ahead(rows: Seq<DownloadEvent>, max: int, further: int)
    requires
        max <= further,
        within(rows, further, i32::MAX as int),
    ensures
        pending_rows(rows, max) == pending_rows(rows, further),
    decreases rows.len(),
{
    if rows.len() > 0 {
        lemma_pending_ahead(rows.drop_last(), max, further);
    }
}

/// The greatest id of ascending rows with positive ids is the last one.
pub proof fn lemma_greatest_is_last(rows: Seq<DownloadEvent>)
    requires
        rows.len() > 0,
        ascending(rows),
        within(rows, 0, i32::MAX as int),
    ensures
        greatest_id(rows) == rows.last().id,
    decreases rows.len(),
{
    let front = rows.drop_last();
    if front.len() > 0 {
        assert(ascending(front)) by {
            assert forall|i: int, j: int| 0 <= i < j < front.len() implies front[i].id
                < front[j].id by {
                assert(front[i] == rows[i] && front[j] == rows[j]);
            }
        }
        assert(within(front, 0, i32::MAX as int)) by {
            assert forall|i: int| 0 <= i < front.len() implies 0 < (#[trigger] front[i]).id
                <= i32::MAX by {
                assert(front[i] == rows[i]);
            }
        }
        lemma_greatest_is_last(front);
        assert(front.last() == rows[rows.len() - 2]);
        assert(rows[rows.len() - 2].id < rows[rows.len() - 1].id);
    } else {
        assert(greatest_id(front) == 0);
    }
    assert(0 < rows[rows.len() - 1].id);
    assert(rows.last() == rows[rows.len() - 1]);
}

/// Folding rows in touches no counter row beyond their ids, and neither
/// adds nor renumbers one.
pub proof fn lemma_rows_frame(ledger: Ledger, rows: Seq<DownloadEvent>, cutoff: Timespec, top: int)
    requires
        within(rows, i32::MIN - 1, top),
        ledger.apply_rows(rows, cutoff) is Ok,
    ensures
        ({
            let after = ledger.apply_rows(rows, cutoff)->Ok_0;
            &&& after.events.len() == ledger.events.len()
            &&& forall|i: int|
                0 <= i < ledger.events.len() ==> (#[trigger] after.events[i]).id
                    == ledger.events[i].id
            &&& forall|i: int|
                top <= i < ledger.events.len() ==> #[trigger] after.events[i] == ledger.events[i]
        }),
    decreases rows.len(),
{
    if rows.len() > 0 {
        let front = rows.drop_last();
        assert(within(front, i32::MIN - 1, top)) by {
            assert forall|i: int| 0 <= i < front.len() implies i32::MIN - 1 < (
            #[trigger] front[i]).id <= top by {
                assert(front[i] == rows[i]);
            }
        }
        lemma_rows_frame(ledger, front, cutoff, top);
        assert(rows.last() == rows[rows.len() - 1]);
    }
}

/// Every pending counter row stands in the backlog.
pub proof fn lemma_pending_complete(events: Seq<DownloadEvent>, max: int, i: int)
    requires
        0 <= i < events.len(),
        events[i].pending(max),
    ensures
        pending_rows(events, max).contains(events[i]),
    decreases events.len(),
{
    let front = events.drop_last();
    if i < events.len() - 1 {
        lemma_pending_complete(front, max, i);
        let j = choose|j: int|
            0 <= j < pending_rows(front, max).len() && pending_rows(front, max)[j] == events[i];
        assert(pending_rows(events, max)[j] == events[i]);
    } else {
        assert(pending_rows(events, max).last() == events[i]);
    }
}

/// Once the first `size` rows of the backlog have been visited, and the
/// cursor stands at the last of them, the backlog is what came after
/// them: provided that the rows beyond the cursor are as they were.
pub proof fn lemma_backlog_advances(
    before: Ledger,
    after: Ledger,
    max: int,
    size: int,
)
    requires
        before.wf(),
        after.wf(),
        0 <= max,
        0 < size <= before.backlog(max).len(),
        after.events.len() == before.events.len(),
        forall|i: int|
            before.backlog(max)[size - 1].id <= i < before.events.len() ==> after.events[i]
                == before.events[i],
    ensures
        after.backlog(before.backlog(max)[size - 1].id as int) == before.backlog(max).skip(size),
        max < before.backlog(max)[size - 1].id <= before.events.len(),
        greatest_id(before.backlog(max).take(size)) == before.backlog(max)[size - 1].id,
{
    let events = before.events;
    let backlog = before.backlog(max);
    let top = backlog[size - 1].id as int;
    assert(within(events, 0, events.len() as int));
    assert(ascending(events));
    lemma_pending_within(events, max, 0, events.len() as int);
    lemma_pending_ascending(events, max);
    assert(max < top <= events.len()) by {
        assert(backlog[size - 1].pending(max));
    }

    let head = events.take(top);
    let tail = events.skip(top);
    assert(events =~= head + tail);
    lemma_pending_concat(head, tail, max);
    let visited = pending_rows(head, max);
    let ahead = pending_rows(tail, max);
    assert(within(head, 0, top));
    assert(within(tail, top, i32::MAX as int));
    lemma_pending_within(head, max, 0, top);
    lemma_pending_within(tail, max, top, i32::MAX as int);
    assert(visited.len() == size) by {
        if size - 1 >= visited.len() {
            assert(backlog[size - 1] == ahead[size - 1 - visited.len()]);
        }
        if size < visited.len() {
            assert(backlog[size] == visited[size]);
        }
    }
    assert(backlog.skip(size) =~= ahead);

    let head_after = after.events.take(top);
    let tail_after = after.events.skip(top);
    assert(after.events =~= head_after + tail_after);
    assert(tail_after =~= tail);
    lemma_pending_concat(head_after, tail_after, top);
    assert(within(head_after, i32::MIN - 1, top));
    lemma_pending_passed(head_after, top);
    lemma_pending_ahead(tail, max, top);
    assert(after.backlog(top) =~= ahead);

    let page = backlog.take(size);
    assert(ascending(page));
    assert(within(page, 0, i32::MAX as int));
    lemma_greatest_is_last(page);
}

} // verus!
