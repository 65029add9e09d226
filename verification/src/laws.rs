//! What the pipeline promises, stated over its state machine.
use crate::advice::{Advice, AdviceKind, Hint};
use crate::pipeline::{Pipeline, Status, Step};
use crate::prefetch::{
    block_floor, Prefetch, Retired, DROPBEHIND_BLOCK, MAX_OPEN, PREFETCH_BLOCK,
};
use crate::scheduler::{gate_closed, outstanding, scan, spend, Slot, Source};
use vstd::prelude::*;

verus! {

/// Readahead never passes the end of a file, in any state that the
/// operations reach; and no read position comes to lie ahead of its
/// readahead position, unless a read itself runs ahead of the readahead of
/// its file.
pub proof fn law_positions_stay_ordered<F>(
    state: Pipeline<F>,
    item: Option<Source<F>>,
    bytes: usize,
    failure: std::io::Error,
)
    requires
        state.wf(),
        state.in_window(),
        item is Some ==> state.queue.len() < usize::MAX,
    ensures
        state.next().state.wf() && state.next().state.in_window(),
        state.supply(item).state.wf() && state.supply(item).state.in_window(),
        state.streaming ==> state.read(Err(failure)).state.wf() && state.read(
            Err(failure),
        ).state.in_window(),
        state.streaming && state.front().read_pos + bytes <= state.front().prefetch_pos
            ==> state.read(Ok(bytes)).state.wf() && state.read(Ok(bytes)).state.in_window(),
{
    state.lemma_next();
    state.lemma_supply(item);
    if state.streaming {
        state.lemma_read(Err(failure));
        if state.front().read_pos + bytes <= state.front().prefetch_pos {
            state.lemma_read(Ok(bytes));
        }
    }
}

/// What is outstanding exceeds the budget by less than one prefetch block,
/// whatever operation has run.
pub proof fn law_overshoot_is_bounded<F>(
    state: Pipeline<F>,
    item: Option<Source<F>>,
    result: Result<usize, std::io::Error>,
)
    requires
        state.wf(),
        item is Some ==> state.queue.len() < usize::MAX,
        result matches Ok(bytes) ==> state.streaming && state.front().read_pos + bytes
            <= u64::MAX,
    ensures
        outstanding(state.queue) < state.budget + PREFETCH_BLOCK,
        outstanding(state.next().state.queue) < state.budget + PREFETCH_BLOCK,
        outstanding(state.supply(item).state.queue) < state.budget + PREFETCH_BLOCK,
        state.streaming ==> outstanding(state.read(result).state.queue) < state.budget
            + PREFETCH_BLOCK,
{
    state.lemma_next();
    state.lemma_supply(item);
    if state.streaming {
        state.lemma_read(result);
    }
}

/// The scheduler holds still exactly while more than half of the budget is
/// outstanding.
pub proof fn law_gate_is_half_budget(budget: u64, pending: int)
    requires
        pending >= 0,
    ensures
        gate_closed(budget, pending) <==> 2 * pending > budget,
{
}

/// With the whole budget outstanding, or more, a scheduler run gives no hint,
/// moves no readahead position and asks for no file.
pub proof fn law_saturated_scheduler_is_idle<F>(state: Pipeline<F>)
    requires
        state.wf(),
        outstanding(state.queue) >= state.budget,
    ensures
        state.pass().hints.len() == 0,
        state.pass().queue == state.queue,
        !state.pass().starved,
{
}

/// Once more than half of the budget is outstanding, no scheduler run gives
/// a hint, moves a readahead position or asks for a file: readahead starts
/// again only when reads have brought what is outstanding down to half of
/// the budget. A read then gives at most its own eviction hint.
pub proof fn law_hysteresis<F>(state: Pipeline<F>, retired: Option<Retired<F>>, hints: Seq<Hint>)
    requires
        state.wf(),
        state.pending is Nothing,
        2 * outstanding(state.queue) > state.budget,
    ensures
        state.pass().hints.len() == 0,
        state.pass().queue == state.queue,
        !state.pass().starved,
        state.advance(retired, hints, false) == (Step {
            state,
            retired,
            hints,
            status: Status::Idle,
        }),
{
    assert(hints + Seq::<Hint>::empty() =~= hints);
    assert(state.advance(retired, hints, false).state =~= state);
}

/// With drop-behind on, a read that brings the bytes read since the last
/// eviction hint to a full drop-behind block gives exactly one eviction hint.
/// The hint covers those bytes, up to the new read position, and nothing is
/// pending afterwards. A read that stays below the block gives no hint and
/// adds its bytes to what is pending; what is still pending when the file is
/// retired is flushed by one hint for the whole file. With drop-behind off
/// no read gives a hint.
pub proof fn law_drop_behind<F>(entry: Prefetch<F>, bytes: int)
    requires
        entry.wf(),
        0 <= bytes,
        entry.read_pos + bytes <= u64::MAX,
    ensures
        entry.to_drop + bytes >= DROPBEHIND_BLOCK ==> {
            &&& entry.eviction(bytes, true) == Some(
                Advice {
                    kind: AdviceKind::DontNeed,
                    offset: (entry.read_pos - entry.to_drop) as u64,
                    len: (entry.to_drop + bytes) as u64,
                },
            )
            &&& (entry.read_pos - entry.to_drop) + (entry.to_drop + bytes) == entry.consumed(
                bytes,
                true,
            ).read_pos
            &&& entry.consumed(bytes, true).to_drop == 0
        },
        entry.to_drop + bytes < DROPBEHIND_BLOCK ==> {
            &&& entry.eviction(bytes, true) is None
            &&& entry.consumed(bytes, true).to_drop == entry.to_drop + bytes
        },
        entry.eviction(bytes, false) is None,
        entry.consumed(bytes, false).to_drop == entry.to_drop,
        entry.retired().advice == if entry.to_drop > 0 {
            Some(Advice { kind: AdviceKind::DontNeed, offset: 0, len: 0 })
        } else {
            None
        },
        entry.consumed(bytes, true).wf() && entry.consumed(bytes, false).wf(),
{
}

/// A file whose unasked rest fits into the budget, rounded down to a block,
/// is asked for to its end in one scheduler step.
pub proof fn law_fitting_file_is_completed<F>(entry: Prefetch<F>, remaining: nat)
    requires
        entry.wf(),
        !entry.windowed(),
        entry.length - entry.watermark() <= block_floor(remaining as int),
    ensures
        entry.extended(remaining as int).prefetch_pos == entry.length,
        entry.extended(remaining as int).windowed(),
        entry.extent(remaining as int) == entry.length - entry.watermark(),
{
}

/// A fresh file whose length is a multiple of the prefetch block and equals
/// the budget that is left is asked for to its end by a single pass, with
/// one hint for the whole file, and the pass ends there with the budget
/// spent.
pub proof fn law_exact_fit_is_completed<F>(queue: Seq<Slot<F>>, index: nat, remaining: nat)
    requires
        index < queue.len(),
        index <= MAX_OPEN,
        queue[index as int] is Ok,
        queue[index as int]->Ok_0.wf(),
        queue[index as int]->Ok_0.read_pos == 0,
        queue[index as int]->Ok_0.prefetch_pos == 0,
        queue[index as int]->Ok_0.length == remaining,
        remaining % (PREFETCH_BLOCK as nat) == 0,
        remaining > 0,
    ensures
        scan(queue, index, remaining).queue == queue.update(
            index as int,
            Ok(Prefetch { prefetch_pos: remaining as u64, ..queue[index as int]->Ok_0 }),
        ),
        scan(queue, index, remaining).hints == seq![
            Hint {
                index: index as usize,
                advice: Advice {
                    kind: AdviceKind::WillNeed,
                    offset: 0,
                    len: remaining as u64,
                },
            },
        ],
        scan(queue, index, remaining).remaining == 0,
        !scan(queue, index, remaining).starved,
{
    reveal_with_fuel(scan, 2);
    let entry = queue[index as int]->Ok_0;
    assert(spend(remaining, entry.extent(remaining as int)) == 0);
    assert(scan(queue, index, remaining).hints =~= seq![
        Hint {
            index: index as usize,
            advice: Advice { kind: AdviceKind::WillNeed, offset: 0, len: remaining as u64 },
        },
    ]);
}

/// The consumer gets the items of the path source in the order in which the
/// source yielded them, errors at their place among the files, each item
/// once and none left out: whichever operation hands out a file or an error
/// hands out the first item that was not handed out before, and an operation
/// that hands out nothing leaves the count of what was handed out as it was.
pub proof fn law_items_surface_in_source_order<F>(
    state: Pipeline<F>,
    item: Option<Source<F>>,
    result: Result<usize, std::io::Error>,
)
    requires
        state.wf(),
        item is Some ==> state.queue.len() < usize::MAX,
        result matches Ok(bytes) ==> state.streaming && state.front().read_pos + bytes
            <= u64::MAX,
    ensures
        state.next().in_order(state, state.pulled),
        state.supply(item).in_order(
            state,
            match item {
                Some(source) => state.pulled.push(source),
                None => state.pulled,
            },
        ),
        state.streaming ==> state.read(result).in_order(state, state.pulled),
        state.streaming ==> !(state.read(result).status is File) && !(state.read(
            result,
        ).status is Failed),
{
    state.lemma_next();
    state.lemma_add(item);
    state.lemma_supply(item);
    if state.streaming {
        state.lemma_read(result);
    }
}

/// The queue never grows past the slots that a scheduler pass looks at: a
/// turn asks for a file only while the queue holds at most `MAX_OPEN` slots,
/// and the item supplied in answer leaves it with at most one more. `next`
/// and reads never make it longer than it was and one more.
pub proof fn law_lookahead_is_bounded<F>(
    state: Pipeline<F>,
    item: Option<Source<F>>,
    result: Result<usize, std::io::Error>,
)
    requires
        state.wf(),
        item is Some ==> state.queue.len() < usize::MAX,
        result matches Ok(bytes) ==> state.streaming && state.front().read_pos + bytes
            <= u64::MAX,
    ensures
        state.next().status is Pull ==> state.next().state.queue.len() <= MAX_OPEN,
        state.supply(item).status is Pull ==> state.supply(item).state.queue.len() <= MAX_OPEN,
        state.streaming && state.read(result).status is Pull ==> state.read(
            result,
        ).state.queue.len() <= MAX_OPEN,
        !(state.pending is Nothing) ==> state.supply(item).state.bounded(),
        state.bounded() ==> state.next().state.bounded(),
        state.streaming && state.bounded() ==> state.read(result).state.bounded(),
{
    state.lemma_next();
    state.lemma_supply(item);
    if state.streaming {
        state.lemma_read(result);
    }
}

/// The readahead hints for one file follow one another without gap or
/// overlap as long as the consumer stays within the readahead: a hint starts
/// at the larger of the read position and the end of the hint before it, and
/// the readahead position afterwards is the end of the hint.
pub proof fn law_readahead_extents_are_contiguous<F>(entry: Prefetch<F>, remaining: nat)
    requires
        entry.wf(),
        !entry.windowed(),
    ensures
        entry.readahead(remaining as int) matches Some(advice) && {
            &&& advice.kind == AdviceKind::WillNeed
            &&& advice.offset == entry.watermark()
            &&& advice.offset >= entry.prefetch_pos
            &&& entry.in_window() ==> advice.offset == entry.prefetch_pos
            &&& advice.offset + advice.len == entry.extended(remaining as int).prefetch_pos
            &&& advice.len < remaining + PREFETCH_BLOCK
        },
        entry.extended(remaining as int).watermark() == entry.extended(
            remaining as int,
        ).prefetch_pos,
{
    crate::scheduler::lemma_step(entry, remaining);
}

} // verus!
