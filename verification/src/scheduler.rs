//! The scheduler pass over the lookahead queue, as a function on sequences,
//! and what holds of it.
use crate::advice::{AdviceKind, Hint};
use crate::prefetch::{Opened, Prefetch, MAX_OPEN, PREFETCH_BLOCK};
use vstd::prelude::*;

verus! {

/// One place in the lookahead queue: an open file, or the error that opening
/// it gave.
pub type Slot<F> = Result<Prefetch<F>, std::io::Error>;

/// What the path source yields for one path once the driver has tried to open
/// it.
pub type Source<F> = Result<Opened<F>, std::io::Error>;

/// The outcome of a scheduler pass, or of a part of one.
#[verifier::ext_equal]
pub struct Pass<F> {
    /// The queue after the pass.
    pub queue: Seq<Slot<F>>,
    /// The readahead hints of the pass, in the order in which they were given.
    pub hints: Seq<Hint>,
    /// The budget that the pass has left.
    pub remaining: nat,
    /// The pass has come to the end of the queue with budget to spare: it
    /// goes on once another file has been opened.
    pub starved: bool,
}

/// What the driver handed in for the slot.
pub open spec fn slot_source<F>(slot: Slot<F>) -> Source<F> {
    match slot {
        Ok(entry) => Ok(entry.source()),
        Err(e) => Err(e),
    }
}

/// Bytes of the slot's file that were asked for and are not yet read.
pub open spec fn slot_outstanding<F>(slot: Slot<F>) -> int {
    match slot {
        Ok(entry) => entry.outstanding(),
        Err(_) => 0,
    }
}

/// Bytes asked for and not yet read, over the whole queue.
pub open spec fn outstanding<F>(queue: Seq<Slot<F>>) -> int
    decreases queue.len(),
{
    if queue.len() == 0 {
        0
    } else {
        outstanding(queue.drop_last()) + slot_outstanding(queue.last())
    }
}

/// Every open file of the queue is well formed.
pub open spec fn entries_wf<F>(queue: Seq<Slot<F>>) -> bool {
    forall|i: int| 0 <= i < queue.len() && queue[i] is Ok ==> (#[trigger] queue[i])->Ok_0.wf()
}

/// In no file of the queue has the consumer run ahead of the readahead.
pub open spec fn entries_in_window<F>(queue: Seq<Slot<F>>) -> bool {
    forall|i: int|
        0 <= i < queue.len() && queue[i] is Ok ==> (#[trigger] queue[i])->Ok_0.in_window()
}

/// Every hint names a slot of the queue that holds an open file.
pub open spec fn hints_valid<F>(queue: Seq<Slot<F>>, hints: Seq<Hint>) -> bool {
    forall|j: int|
        0 <= j < hints.len() ==> (#[trigger] hints[j]).index < queue.len()
            && queue[hints[j].index as int] is Ok
}

/// `after` is `before` with readahead moved forward in some of its files and
/// nothing else changed.
pub open spec fn advanced<F>(before: Seq<Slot<F>>, after: Seq<Slot<F>>) -> bool {
    &&& after.len() == before.len()
    &&& forall|i: int|
        0 <= i < before.len() ==> match #[trigger] before[i] {
            Ok(entry) => {
                &&& after[i] is Ok
                &&& after[i]->Ok_0.prefetch_pos >= entry.prefetch_pos
                &&& after[i]->Ok_0 == (Prefetch {
                    prefetch_pos: after[i]->Ok_0.prefetch_pos,
                    ..entry
                })
            },
            Err(_) => after[i] == before[i],
        }
}

/// The budget after `extent` bytes of it have been spent; it does not go
/// below zero.
pub open spec fn spend(remaining: nat, extent: int) -> nat {
    if extent >= remaining {
        0
    } else {
        (remaining - extent) as nat
    }
}

/// The budget left for readahead when `pending` bytes are outstanding.
pub open spec fn headroom(budget: u64, pending: int) -> nat {
    spend(budget as nat, pending)
}

/// The hysteresis gate: the scheduler does nothing while less budget is left
/// than is outstanding.
pub open spec fn gate_closed(budget: u64, pending: int) -> bool {
    headroom(budget, pending) < pending
}

/// The scheduler pass from `index` on, with `remaining` bytes of budget.
///
/// The pass ends where less than a block of budget is left or `index` is past
/// `MAX_OPEN`. At the end of the queue it stops starved. A slot that holds an
/// error, or a file with nothing left to ask for, is passed over. Any other
/// file gets one scheduler step, whose extent is taken from the budget.
pub open spec fn scan<F>(queue: Seq<Slot<F>>, index: nat, remaining: nat) -> Pass<F>
    decreases queue.len() - index,
{
    if remaining < PREFETCH_BLOCK || index > MAX_OPEN {
        Pass { queue, hints: Seq::empty(), remaining, starved: false }
    } else if index >= queue.len() {
        Pass { queue, hints: Seq::empty(), remaining, starved: true }
    } else if queue[index as int] is Ok && !queue[index as int]->Ok_0.windowed() {
        let entry = queue[index as int]->Ok_0;
        let rest = scan(
            queue.update(index as int, Ok(entry.extended(remaining as int))),
            index + 1,
            spend(remaining, entry.extent(remaining as int)),
        );
        Pass {
            hints: seq![
                Hint { index: index as usize, advice: entry.readahead(remaining as int)->Some_0 },
            ] + rest.hints,
            ..rest
        }
    } else {
        scan(queue, index + 1, remaining)
    }
}

/// One scheduler step moves readahead forward by its extent, never past the
/// end of the file, and by less than a block more than the budget it was
/// given.
pub proof fn lemma_step<F>(entry: Prefetch<F>, remaining: nat)
    requires
        entry.wf(),
        !entry.windowed(),
    ensures
        entry.extended(remaining as int).wf(),
        entry.watermark() <= entry.target(remaining as int) <= entry.length,
        entry.extent(remaining as int) < remaining + PREFETCH_BLOCK,
        remaining >= PREFETCH_BLOCK ==> entry.extent(remaining as int) > 0,
        entry.extended(remaining as int).outstanding() == entry.outstanding() + entry.extent(
            remaining as int,
        ),
        entry.extended(remaining as int).prefetch_pos >= entry.prefetch_pos,
        entry.in_window() ==> entry.extended(remaining as int).in_window(),
{
}

/// Outstanding bytes are never negative.
pub proof fn lemma_outstanding_nonnegative<F>(queue: Seq<Slot<F>>)
    ensures
        outstanding(queue) >= 0,
    decreases queue.len(),
{
    if queue.len() > 0 {
        lemma_outstanding_nonnegative(queue.drop_last());
    }
}

/// A slot appended to the queue adds its own outstanding bytes.
pub proof fn lemma_outstanding_push<F>(queue: Seq<Slot<F>>, slot: Slot<F>)
    ensures
        outstanding(queue.push(slot)) == outstanding(queue) + slot_outstanding(slot),
{
    assert(queue.push(slot).drop_last() =~= queue);
}

/// The first `n + 1` slots hold what the first `n` hold and the slot `n`.
pub proof fn lemma_outstanding_take<F>(queue: Seq<Slot<F>>, n: int)
    requires
        0 <= n < queue.len(),
    ensures
        outstanding(queue.take(n + 1)) == outstanding(queue.take(n)) + slot_outstanding(queue[n]),
{
    assert(queue.take(n + 1).drop_last() =~= queue.take(n));
}

/// A slot that changes changes the sum by the difference.
pub proof fn lemma_outstanding_update<F>(queue: Seq<Slot<F>>, index: int, slot: Slot<F>)
    requires
        0 <= index < queue.len(),
    ensures
        outstanding(queue.update(index, slot)) == outstanding(queue) - slot_outstanding(
            queue[index],
        ) + slot_outstanding(slot),
    decreases queue.len(),
{
    let updated = queue.update(index, slot);
    if index == queue.len() - 1 {
        assert(updated.drop_last() =~= queue.drop_last());
    } else {
        lemma_outstanding_update(queue.drop_last(), index, slot);
        assert(updated.drop_last() =~= queue.drop_last().update(index, slot));
    }
}

/// The front slot taken away takes its outstanding bytes with it.
pub proof fn lemma_outstanding_drop_first<F>(queue: Seq<Slot<F>>)
    requires
        queue.len() > 0,
    ensures
        outstanding(queue.drop_first()) == outstanding(queue) - slot_outstanding(queue[0]),
    decreases queue.len(),
{
    if queue.len() == 1 {
        assert(queue.drop_last() =~= Seq::<Slot<F>>::empty());
        assert(queue.drop_first() =~= Seq::<Slot<F>>::empty());
    } else {
        lemma_outstanding_drop_first(queue.drop_last());
        assert(queue.drop_first().drop_last() =~= queue.drop_last().drop_first());
    }
}

/// A pass changes nothing but readahead positions, which only move forward;
/// it leaves the slots before `index` alone, and each of its hints is a
/// readahead hint for an open file at or after `index`.
pub proof fn lemma_scan_shape<F>(queue: Seq<Slot<F>>, index: nat, remaining: nat)
    requires
        entries_wf(queue),
    ensures
        advanced(queue, scan(queue, index, remaining).queue),
        entries_wf(scan(queue, index, remaining).queue),
        entries_in_window(queue) ==> entries_in_window(scan(queue, index, remaining).queue),
        hints_valid(queue, scan(queue, index, remaining).hints),
        forall|i: int|
            0 <= i < index && i < queue.len() ==> scan(queue, index, remaining).queue[i]
                == #[trigger] queue[i],
        forall|j: int|
            0 <= j < scan(queue, index, remaining).hints.len() ==> {
                &&& (#[trigger] scan(queue, index, remaining).hints[j]).index >= index
                &&& scan(queue, index, remaining).hints[j].advice.kind == AdviceKind::WillNeed
            },
        scan(queue, index, remaining).remaining <= remaining,
        scan(queue, index, remaining).starved ==> {
            &&& scan(queue, index, remaining).remaining >= PREFETCH_BLOCK
            &&& queue.len() <= MAX_OPEN
        },
    decreases queue.len() - index,
{
    let pass = scan(queue, index, remaining);
    if remaining < PREFETCH_BLOCK || index > MAX_OPEN {
    } else if index >= queue.len() {
    } else if queue[index as int] is Ok && !queue[index as int]->Ok_0.windowed() {
        let entry = queue[index as int]->Ok_0;
        let next = queue.update(index as int, Ok(entry.extended(remaining as int)));
        let left = spend(remaining, entry.extent(remaining as int));
        let rest = scan(next, index + 1, left);
        lemma_step(entry, remaining);
        assert(entries_wf(next)) by {
            assert forall|i: int| 0 <= i < next.len() && next[i] is Ok implies (#[trigger] next[
                i
            ])->Ok_0.wf() by {
                if i != index {
                    assert(next[i] == queue[i]);
                }
            }
        }
        lemma_scan_shape(next, index + 1, left);
        assert(rest.queue[index as int] == next[index as int]);
        assert forall|i: int| 0 <= i < queue.len() implies match #[trigger] queue[i] {
            Ok(e) => {
                &&& pass.queue[i] is Ok
                &&& pass.queue[i]->Ok_0.prefetch_pos >= e.prefetch_pos
                &&& pass.queue[i]->Ok_0 == (Prefetch {
                    prefetch_pos: pass.queue[i]->Ok_0.prefetch_pos,
                    ..e
                })
            },
            Err(_) => pass.queue[i] == queue[i],
        } by {
            assert(next[i] == if i == index {
                Ok(entry.extended(remaining as int))
            } else {
                queue[i]
            });
        }
        if entries_in_window(queue) {
            assert forall|i: int| 0 <= i < next.len() && next[i] is Ok implies (#[trigger] next[
                i
            ])->Ok_0.in_window() by {
                if i != index {
                    assert(next[i] == queue[i]);
                }
            }
        }
        assert forall|j: int| 0 <= j < pass.hints.len() implies {
            &&& (#[trigger] pass.hints[j]).index >= index
            &&& pass.hints[j].index < queue.len()
            &&& queue[pass.hints[j].index as int] is Ok
            &&& pass.hints[j].advice.kind == AdviceKind::WillNeed
        } by {
            if j > 0 {
                assert(pass.hints[j] == rest.hints[j - 1]);
                let k = rest.hints[j - 1].index as int;
                assert(next[k] is Ok);
                assert(next[k] == queue[k]);
            }
        }
        assert forall|i: int| 0 <= i < index && i < queue.len() implies pass.queue[i]
            == #[trigger] queue[i] by {
            assert(rest.queue[i] == next[i]);
        }
    } else {
        lemma_scan_shape(queue, index + 1, remaining);
    }
}

/// A pass that starts within the budget ends with less than a block more
/// outstanding than the budget; where it stops starved, it is still within
/// the budget.
pub proof fn lemma_scan_budget<F>(queue: Seq<Slot<F>>, index: nat, remaining: nat, budget: int)
    requires
        entries_wf(queue),
        outstanding(queue) + remaining <= budget,
    ensures
        outstanding(scan(queue, index, remaining).queue) < budget + PREFETCH_BLOCK,
        scan(queue, index, remaining).remaining > 0 ==> outstanding(
            scan(queue, index, remaining).queue,
        ) + scan(queue, index, remaining).remaining <= budget,
    decreases queue.len() - index,
{
    lemma_outstanding_nonnegative(queue);
    if remaining < PREFETCH_BLOCK || index > MAX_OPEN {
    } else if index >= queue.len() {
    } else if queue[index as int] is Ok && !queue[index as int]->Ok_0.windowed() {
        let entry = queue[index as int]->Ok_0;
        let next = queue.update(index as int, Ok(entry.extended(remaining as int)));
        let left = spend(remaining, entry.extent(remaining as int));
        lemma_step(entry, remaining);
        lemma_outstanding_update(queue, index as int, Ok(entry.extended(remaining as int)));
        assert(entries_wf(next)) by {
            assert forall|i: int| 0 <= i < next.len() && next[i] is Ok implies (#[trigger] next[
                i
            ])->Ok_0.wf() by {
                if i != index {
                    assert(next[i] == queue[i]);
                }
            }
        }
        if left > 0 {
            lemma_scan_budget(next, index + 1, left, budget);
        } else {
            reveal_with_fuel(scan, 2);
        }
    } else {
        lemma_scan_budget(queue, index + 1, remaining, budget);
    }
}

} // verus!
