//! What every operation of the state machine keeps.
use crate::advice::Hint;
use crate::pipeline::{front_hint, Pending, Pipeline};
use crate::prefetch::{Prefetch, Retired, MAX_OPEN, PREFETCH_BLOCK};
use crate::scheduler::{
    advanced, entries_in_window, entries_wf, gate_closed, headroom, hints_valid,
    lemma_outstanding_drop_first, lemma_outstanding_nonnegative, lemma_outstanding_push,
    lemma_outstanding_update, lemma_scan_budget, lemma_scan_shape, outstanding, scan,
    slot_outstanding, slot_source, Pass, Slot, Source,
};
use vstd::prelude::*;

verus! {

/// A queue is what it was, as far as readahead that has moved forward goes.
pub proof fn lemma_advanced_same<F>(queue: Seq<Slot<F>>)
    ensures
        advanced(queue, queue),
{
    assert forall|i: int| 0 <= i < queue.len() implies match #[trigger] queue[i] {
        Ok(entry) => queue[i]->Ok_0 == (Prefetch { prefetch_pos: entry.prefetch_pos, ..entry }),
        Err(_) => true,
    } by {}
}

/// Readahead that has moved forward leaves every slot what the path source
/// made it, and every hint in place.
pub proof fn lemma_advanced_keeps<F>(before: Seq<Slot<F>>, after: Seq<Slot<F>>, hints: Seq<Hint>)
    requires
        advanced(before, after),
        hints_valid(before, hints),
    ensures
        hints_valid(after, hints),
        forall|i: int|
            0 <= i < before.len() ==> slot_source(#[trigger] after[i]) == slot_source(before[i]),
        forall|i: int| 0 <= i < before.len() ==> (#[trigger] after[i] is Ok <==> before[i] is Ok),
{
    assert forall|i: int| 0 <= i < before.len() implies slot_source(#[trigger] after[i])
        == slot_source(before[i]) && (after[i] is Ok <==> before[i] is Ok) by {
        let slot = before[i];
    }
    assert forall|j: int| 0 <= j < hints.len() implies (#[trigger] hints[j]).index < after.len()
        && after[hints[j].index as int] is Ok by {
        let slot = before[hints[j].index as int];
    }
}

/// Hints that are in place stay so when more hints in place follow them.
pub proof fn lemma_hints_join<F>(queue: Seq<Slot<F>>, first: Seq<Hint>, second: Seq<Hint>)
    requires
        hints_valid(queue, first),
        hints_valid(queue, second),
    ensures
        hints_valid(queue, first + second),
{
    let all = first + second;
    assert forall|j: int| 0 <= j < all.len() implies (#[trigger] all[j]).index < queue.len()
        && queue[all[j].index as int] is Ok by {
        if j < first.len() {
            assert(all[j] == first[j]);
        } else {
            assert(all[j] == second[j - first.len()]);
        }
    }
}

/// The first `n` slots have no more outstanding than the whole queue.
pub proof fn lemma_outstanding_prefix<F>(queue: Seq<Slot<F>>, n: int)
    requires
        0 <= n <= queue.len(),
    ensures
        0 <= outstanding(queue.take(n)) <= outstanding(queue),
    decreases queue.len() - n,
{
    lemma_outstanding_nonnegative(queue.take(n));
    if n == queue.len() {
        assert(queue.take(n) =~= queue);
    } else {
        crate::scheduler::lemma_outstanding_take(queue, n);
        lemma_outstanding_prefix(queue, n + 1);
        let slot = queue[n];
        assert(slot_outstanding(slot) >= 0);
    }
}

impl<F> Pipeline<F> {
    /// Bringing the front to the consumer keeps the state sound, and hands
    /// out the first item not handed out before.
    pub proof fn lemma_surface(self, retired: Option<Retired<F>>, hints: Seq<Hint>)
        requires
            self.settled(),
            !self.streaming,
            self.queue.len() > 0,
            hints_valid(self.queue, hints),
        ensures
            self.surface(retired, hints).sound(self),
            self.surface(retired, hints).in_order(self, self.pulled),
            self.surface(retired, hints).retired == retired,
    {
        let step = self.surface(retired, hints);
        assert(slot_source(self.queue[0]) == self.pulled[self.popped as int]);
        if self.queue[0] is Err {
            let rest = self.queue.drop_first();
            lemma_outstanding_drop_first(self.queue);
            assert forall|i: int| 0 <= i < rest.len() implies slot_source(#[trigger] rest[i])
                == self.pulled[self.popped + 1 + i] by {
                assert(rest[i] == self.queue[i + 1]);
            }
            assert forall|j: int| 0 <= j < step.hints.len() implies (#[trigger] step.hints[
                j
            ]).index < rest.len() && rest[step.hints[j].index as int] is Ok by {
                let hint = hints[j];
                assert(self.queue[hint.index as int] is Ok);
                assert(rest[hint.index - 1] == self.queue[hint.index as int]);
            }
            assert(entries_wf(rest)) by {
                assert forall|i: int| 0 <= i < rest.len() && rest[i] is Ok implies (
                #[trigger] rest[i])->Ok_0.wf() by {
                    assert(rest[i] == self.queue[i + 1]);
                }
            }
            if self.in_window() {
                assert forall|i: int| 0 <= i < rest.len() && rest[i] is Ok implies (
                #[trigger] rest[i])->Ok_0.in_window() by {
                    assert(rest[i] == self.queue[i + 1]);
                }
            }
        }
    }

    /// What follows a pass keeps the state sound, and hands out items in
    /// order.
    pub proof fn lemma_conclude(
        self,
        pass: Pass<F>,
        retired: Option<Retired<F>>,
        hints: Seq<Hint>,
        fronting: bool,
    )
        requires
            self.settled(),
            fronting ==> !self.streaming,
            hints_valid(self.queue, hints),
            hints_valid(self.queue, pass.hints),
            advanced(self.queue, pass.queue),
            entries_wf(pass.queue),
            self.in_window() ==> entries_in_window(pass.queue),
            outstanding(pass.queue) < self.budget + PREFETCH_BLOCK,
            pass.starved ==> outstanding(pass.queue) + pass.remaining <= self.budget
                && pass.queue.len() <= MAX_OPEN,
        ensures
            self.conclude(pass, retired, hints, fronting).sound(self),
            self.conclude(pass, retired, hints, fronting).in_order(self, self.pulled),
            self.conclude(pass, retired, hints, fronting).retired == retired,
    {
        let state = Pipeline { queue: pass.queue, pending: Pending::Nothing, ..self };
        let all = hints + pass.hints;
        lemma_hints_join(self.queue, hints, pass.hints);
        lemma_advanced_keeps(self.queue, pass.queue, all);
        lemma_outstanding_nonnegative(pass.queue);
        assert(state.settled()) by {
            assert forall|i: int| 0 <= i < state.queue.len() implies slot_source(
                #[trigger] state.queue[i],
            ) == state.pulled[state.popped + i] by {
                assert(slot_source(self.queue[i]) == self.pulled[self.popped + i]);
            }
        }
        if !pass.starved && fronting && state.queue.len() > 0 {
            state.lemma_surface(retired, all);
        }
    }

    /// The scheduler pass stays within what the state allows.
    pub proof fn lemma_pass(self)
        requires
            self.wf(),
        ensures
            advanced(self.queue, self.pass().queue),
            entries_wf(self.pass().queue),
            self.in_window() ==> entries_in_window(self.pass().queue),
            hints_valid(self.queue, self.pass().hints),
            outstanding(self.pass().queue) < self.budget + PREFETCH_BLOCK,
            self.pass().starved ==> outstanding(self.pass().queue) + self.pass().remaining
                <= self.budget && self.queue.len() <= MAX_OPEN,
            self.pass().remaining <= self.budget,
    {
        let pending = outstanding(self.queue);
        lemma_outstanding_nonnegative(self.queue);
        if gate_closed(self.budget, pending) {
            lemma_advanced_same(self.queue);
        } else {
            lemma_scan_shape(self.queue, 0, headroom(self.budget, pending));
            lemma_scan_budget(self.queue, 0, headroom(self.budget, pending), self.budget as int);
        }
    }

    /// The scheduler run keeps the state sound, and hands out items in order.
    pub proof fn lemma_advance(self, retired: Option<Retired<F>>, hints: Seq<Hint>, fronting: bool)
        requires
            self.settled(),
            fronting ==> !self.streaming,
            hints_valid(self.queue, hints),
        ensures
            self.advance(retired, hints, fronting).sound(self),
            self.advance(retired, hints, fronting).in_order(self, self.pulled),
            self.advance(retired, hints, fronting).retired == retired,
            !fronting ==> self.advance(retired, hints, fronting).state.streaming
                == self.streaming,
    {
        self.lemma_pass();
        self.lemma_conclude(self.pass(), retired, hints, fronting);
    }

    /// Without its front slot the state is still well formed, and is sound
    /// where it was.
    pub proof fn lemma_popped_front(self)
        requires
            self.wf(),
            self.queue.len() > 0,
        ensures
            (Pipeline { pending: Pending::Nothing, ..self.popped_front() }).settled(),
            self.in_window() ==> self.popped_front().in_window(),
    {
        let rest = self.queue.drop_first();
        lemma_outstanding_drop_first(self.queue);
        assert(slot_outstanding(self.queue[0]) >= 0);
        assert forall|i: int| 0 <= i < rest.len() implies slot_source(#[trigger] rest[i])
            == self.pulled[self.popped + 1 + i] by {
            assert(rest[i] == self.queue[i + 1]);
        }
        assert(entries_wf(rest)) by {
            assert forall|i: int| 0 <= i < rest.len() && rest[i] is Ok implies (#[trigger] rest[
                i
            ])->Ok_0.wf() by {
                assert(rest[i] == self.queue[i + 1]);
            }
        }
        if self.in_window() {
            assert forall|i: int| 0 <= i < rest.len() && rest[i] is Ok implies (#[trigger] rest[
                i
            ])->Ok_0.in_window() by {
                assert(rest[i] == self.queue[i + 1]);
            }
        }
    }

    /// `next` keeps the state sound, and hands out items in order.
    pub proof fn lemma_next(self)
        requires
            self.wf(),
        ensures
            self.next().sound(self),
            self.next().in_order(self, self.pulled),
    {
        let none = Seq::<Hint>::empty();
        if self.streaming {
            self.lemma_popped_front();
            let state = Pipeline { pending: Pending::Nothing, ..self.popped_front() };
            state.lemma_advance(Some(self.front().retired()), none, true);
        } else {
            let state = Pipeline { pending: Pending::Nothing, ..self };
            state.lemma_advance(None, none, true);
        }
    }

    /// The state after a successful read of the front file is well formed,
    /// and no more is outstanding than before.
    pub proof fn lemma_consumed(self, bytes: usize)
        requires
            self.wf(),
            self.streaming,
            self.front().read_pos + bytes <= u64::MAX,
        ensures
            (Pipeline {
                queue: self.queue.update(
                    0,
                    Ok(self.front().consumed(bytes as int, self.dropbehind)),
                ),
                pending: Pending::Nothing,
                ..self
            }).settled(),
            hints_valid(
                self.queue.update(0, Ok(self.front().consumed(bytes as int, self.dropbehind))),
                front_hint(self.front().eviction(bytes as int, self.dropbehind)),
            ),
            self.in_window() && self.front().read_pos + bytes <= self.front().prefetch_pos
                ==> entries_in_window(
                self.queue.update(0, Ok(self.front().consumed(bytes as int, self.dropbehind))),
            ),
    {
        let after = self.front().consumed(bytes as int, self.dropbehind);
        let queue = self.queue.update(0, Ok(after));
        lemma_outstanding_update(self.queue, 0, Ok(after));
        assert(entries_wf(queue)) by {
            assert forall|i: int| 0 <= i < queue.len() && queue[i] is Ok implies (#[trigger] queue[
                i
            ])->Ok_0.wf() by {
                if i != 0 {
                    assert(queue[i] == self.queue[i]);
                }
            }
        }
        assert forall|i: int| 0 <= i < queue.len() implies slot_source(#[trigger] queue[i])
            == self.pulled[self.popped + i] by {
            assert(slot_source(self.queue[i]) == self.pulled[self.popped + i]);
        }
        if self.in_window() && self.front().read_pos + bytes <= self.front().prefetch_pos {
            assert forall|i: int| 0 <= i < queue.len() && queue[i] is Ok implies (
            #[trigger] queue[i])->Ok_0.in_window() by {
                if i != 0 {
                    assert(queue[i] == self.queue[i]);
                }
            }
        }
    }

    /// A read keeps the state well formed, the hints in place and the queue
    /// in bounds, leaves the front with the consumer, and hands out nothing.
    /// A read that stays within the readahead keeps every read position
    /// within its readahead.
    pub proof fn lemma_read(self, result: Result<usize, std::io::Error>)
        requires
            self.wf(),
            self.streaming,
            result matches Ok(bytes) ==> self.front().read_pos + bytes <= u64::MAX,
        ensures
            self.read(result).state.wf(),
            hints_valid(self.read(result).state.queue, self.read(result).hints),
            self.bounded() ==> self.read(result).state.bounded(),
            self.in_window() && (result matches Ok(bytes) ==> self.front().read_pos + bytes
                <= self.front().prefetch_pos) ==> self.read(result).state.in_window(),
            self.read(result).in_order(self, self.pulled),
            self.read(result).state.streaming,
            self.read(result).retired is None,
    {
        let state = Pipeline { pending: Pending::Nothing, ..self };
        match result {
            Ok(bytes) => {
                self.lemma_consumed(bytes);
                let after = self.front().consumed(bytes as int, self.dropbehind);
                let read = Pipeline { queue: self.queue.update(0, Ok(after)), ..state };
                read.lemma_advance(
                    None,
                    front_hint(self.front().eviction(bytes as int, self.dropbehind)),
                    false,
                );
            },
            Err(_) => {
                state.lemma_advance(None, Seq::empty(), false);
            },
        }
    }

    /// An item taken in leaves the state well formed once nothing is
    /// suspended any more, adds nothing to what is outstanding, and is the
    /// last of what the path source has yielded.
    pub proof fn lemma_add(self, item: Option<Source<F>>)
        requires
            self.wf(),
            item is Some ==> self.queue.len() < usize::MAX,
        ensures
            (Pipeline { pending: Pending::Nothing, ..self.add(item).state }).settled(),
            hints_valid(self.add(item).state.queue, self.add(item).hints),
            self.in_window() ==> self.add(item).state.in_window(),
            outstanding(self.add(item).state.queue) == outstanding(self.queue),
            self.add(item).state.pulled == match item {
                Some(source) => self.pulled.push(source),
                None => self.pulled,
            },
            self.add(item).state.queue.len() == self.queue.len() + if item is Some {
                1int
            } else {
                0int
            },
            self.add(item).added <==> item matches Some(Ok(_)),
    {
        if let Some(source) = item {
            let slot: Slot<F> = match source {
                Ok(opened) => Ok(Prefetch::fresh(opened)),
                Err(e) => Err(e),
            };
            let state = self.add(item).state;
            assert(state.queue == self.queue.push(slot));
            lemma_outstanding_push(self.queue, slot);
            assert(entries_wf(state.queue)) by {
                assert forall|i: int| 0 <= i < state.queue.len() && state.queue[i] is Ok implies (
                #[trigger] state.queue[i])->Ok_0.wf() by {
                    if i < self.queue.len() {
                        assert(state.queue[i] == self.queue[i]);
                    }
                }
            }
            if self.in_window() {
                assert forall|i: int| 0 <= i < state.queue.len() && state.queue[i] is Ok implies (
                #[trigger] state.queue[i])->Ok_0.in_window() by {
                    if i < self.queue.len() {
                        assert(state.queue[i] == self.queue[i]);
                    }
                }
            }
            assert forall|i: int| 0 <= i < state.queue.len() implies slot_source(
                #[trigger] state.queue[i],
            ) == state.pulled[state.popped + i] by {
                if i < self.queue.len() {
                    assert(state.queue[i] == self.queue[i]);
                    assert(slot_source(self.queue[i]) == self.pulled[self.popped + i]);
                }
            }
        }
    }

    /// `supply` keeps the state well formed, the hints in place and every
    /// read position within its readahead, and hands out items in order. An
    /// item that was asked for leaves the queue in bounds.
    pub proof fn lemma_supply(self, item: Option<Source<F>>)
        requires
            self.wf(),
            item is Some ==> self.queue.len() < usize::MAX,
        ensures
            self.supply(item).state.wf(),
            hints_valid(self.supply(item).state.queue, self.supply(item).hints),
            self.in_window() ==> self.supply(item).state.in_window(),
            !(self.pending is Nothing) ==> self.supply(item).state.bounded(),
            self.supply(item).in_order(self, self.add(item).state.pulled),
            self.supply(item).retired is None,
    {
        self.lemma_add(item);
        let added = self.add(item);
        let state = Pipeline { pending: Pending::Nothing, ..added.state };
        match self.pending {
            Pending::Nothing => {},
            Pending::Scan { remaining, fronting } => {
                if added.added {
                    let from = (state.queue.len() - 1) as nat;
                    lemma_scan_shape(state.queue, from, remaining as nat);
                    lemma_scan_budget(state.queue, from, remaining as nat, self.budget as int);
                    state.lemma_conclude(
                        scan(state.queue, from, remaining as nat),
                        None,
                        added.hints,
                        fronting,
                    );
                } else {
                    let pass = Pass {
                        queue: state.queue,
                        hints: Seq::empty(),
                        remaining: remaining as nat,
                        starved: false,
                    };
                    lemma_advanced_same(state.queue);
                    state.lemma_conclude(pass, None, added.hints, fronting);
                }
            },
            Pending::Front => {
                if state.queue.len() > 0 {
                    state.lemma_surface(None, added.hints);
                }
            },
        }
    }
}

} // verus!
