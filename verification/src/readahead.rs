//! The pipeline itself: the lookahead queue and the operations on it.
use crate::advice::{Advice, AdviceKind, Hint};
use crate::invariants::{lemma_advanced_keeps, lemma_hints_join, lemma_outstanding_prefix};
use crate::pipeline::{front_hint, shifted, Pending, Pipeline, Status, Step};
use crate::prefetch::{Opened, Prefetch, Retired, DEFAULT_BUDGET, MAX_OPEN, PREFETCH_BLOCK};
use crate::scheduler::{
    entries_wf, hints_valid, lemma_outstanding_take, lemma_scan_shape, lemma_step, outstanding,
    scan, spend, Pass, Slot, Source,
};
use std::collections::VecDeque;
use std::path::PathBuf;
use vstd::prelude::*;

verus! {

/// What one operation of the pipeline hands to the driver.
///
/// The driver gives `retired.advice` on the retired file and lets go of the
/// file, gives each of `hints` on the file that `MultiFileReadahead::file`
/// returns for its index, and then does what `status` says.
pub struct Turn<F> {
    pub retired: Option<Retired<F>>,
    pub hints: Vec<Hint>,
    pub status: Status,
}

impl<F> Turn<F> {
    /// The turn, together with the state it left, as a step of the state
    /// machine.
    pub open spec fn step(self, state: Pipeline<F>) -> Step<F> {
        Step { state, retired: self.retired, hints: self.hints@, status: self.status }
    }
}

/// Readahead over a stream of files that are read one after another.
pub struct MultiFileReadahead<F> {
    open: VecDeque<Slot<F>>,
    dropbehind: bool,
    budget: u64,
    streaming: bool,
    pending: Pending,
    pulled: Ghost<Seq<Source<F>>>,
    popped: Ghost<nat>,
}

/// The file at the front of the queue, while the consumer reads it. It holds
/// the pipeline for itself: only when the reader is gone can
/// `MultiFileReadahead::next` be called again.
pub struct Reader<'a, F> {
    owner: &'a mut MultiFileReadahead<F>,
}

impl<F> View for MultiFileReadahead<F> {
    type V = Pipeline<F>;

    closed spec fn view(&self) -> Pipeline<F> {
        Pipeline {
            queue: self.open@,
            dropbehind: self.dropbehind,
            budget: self.budget,
            streaming: self.streaming,
            pending: self.pending,
            pulled: self.pulled@,
            popped: self.popped@,
        }
    }
}

/// `VecDeque::index_mut`: the element at `index`, to be changed in place. The
/// queue afterwards is the queue before with that one element replaced by
/// what the reference is left holding. Out of bounds the call panics, so the
/// index must be in bounds.
#[verifier::external_body]
fn slot_mut<T>(queue: &mut VecDeque<T>, index: usize) -> (slot: &mut T)
    requires
        index < old(queue)@.len(),
    ensures
        *slot == old(queue)@[index as int],
        final(queue)@ == old(queue)@.update(index as int, *final(slot)),
{
    &mut queue[index]
}

impl<F> MultiFileReadahead<F> {
    /// A pipeline with an empty queue, the default budget, and drop-behind
    /// off.
    pub fn new() -> (pipeline: Self)
        ensures
            pipeline@ == Pipeline::<F>::start(DEFAULT_BUDGET),
            pipeline@.wf(),
            pipeline@.in_window(),
            pipeline@.bounded(),
    {
        MultiFileReadahead {
            open: VecDeque::new(),
            dropbehind: false,
            budget: DEFAULT_BUDGET,
            streaming: false,
            pending: Pending::Nothing,
            pulled: Ghost(Seq::empty()),
            popped: Ghost(0),
        }
    }

    /// Turns eviction hints behind the consumer on or off.
    pub fn dropbehind(&mut self, v: bool)
        ensures
            final(self)@ == (Pipeline { dropbehind: v, ..old(self)@ }),
            old(self)@.wf() ==> final(self)@.wf(),
    {
        self.dropbehind = v;
    }

    /// The file in the queue slot `index`; `None` where the queue has no such
    /// slot or the slot holds an error.
    pub fn file(&self, index: usize) -> (file: Option<&F>)
        ensures
            file == if index < self@.queue.len() && self@.queue[index as int] is Ok {
                Some(&self@.queue[index as int]->Ok_0.file)
            } else {
                None
            },
    {
        if index < self.open.len() {
            match &self.open[index] {
                Ok(entry) => Some(&entry.file),
                Err(_) => None,
            }
        } else {
            None
        }
    }

    /// The path of the file in the queue slot `index`; `None` where the queue
    /// has no such slot or the slot holds an error.
    pub fn path(&self, index: usize) -> (path: Option<&PathBuf>)
        ensures
            path == if index < self@.queue.len() && self@.queue[index as int] is Ok {
                Some(&self@.queue[index as int]->Ok_0.path)
            } else {
                None
            },
    {
        if index < self.open.len() {
            match &self.open[index] {
                Ok(entry) => Some(&entry.path),
                Err(_) => None,
            }
        } else {
            None
        }
    }

    /// The front of the queue, if the last `next` has handed it to the
    /// consumer.
    pub fn reader(&mut self) -> (reader: Option<Reader<'_, F>>)
        requires
            old(self)@.wf(),
        ensures
            reader is Some <==> old(self)@.streaming,
            reader matches Some(r) ==> r.pipeline() == old(self)@ && r.wf(),
            reader is None ==> final(self)@ == old(self)@,
    {
        if self.streaming {
            Some(Reader { owner: self })
        } else {
            None
        }
    }

    /// Bytes asked for and not yet read, over the whole queue.
    fn outstanding(&self) -> (sum: u64)
        requires
            self@.wf(),
        ensures
            sum == outstanding(self@.queue),
    {
        let mut sum: u64 = 0;
        let mut index: usize = 0;
        while index < self.open.len()
            invariant
                self@.wf(),
                index <= self.open@.len(),
                sum == outstanding(self.open@.take(index as int)),
            decreases self.open@.len() - index,
        {
            proof {
                lemma_outstanding_take(self.open@, index as int);
                lemma_outstanding_prefix(self.open@, index + 1);
            }
            match &self.open[index] {
                Ok(entry) => {
                    if entry.prefetch_pos > entry.read_pos {
                        sum = sum + (entry.prefetch_pos - entry.read_pos);
                    }
                },
                Err(_) => {},
            }
            index = index + 1;
        }
        proof {
            assert(self.open@.take(index as int) =~= self.open@);
        }
        sum
    }

    /// The scheduler pass from the slot `from` on, with `budget_left` bytes
    /// of budget. The hints of the pass are appended to `hints`. Returns the
    /// budget that is left, and whether the pass stopped starved.
    fn scan(&mut self, from: usize, budget_left: u64, hints: &mut Vec<Hint>) -> (left: (u64, bool))
        requires
            entries_wf(old(self)@.queue),
            from <= old(self)@.queue.len(),
        ensures
            ({
                let pass = scan(old(self)@.queue, from as nat, budget_left as nat);
                &&& final(self)@ == (Pipeline { queue: pass.queue, ..old(self)@ })
                &&& final(hints)@ == old(hints)@ + pass.hints
                &&& left.0 == pass.remaining
                &&& left.1 == pass.starved
            }),
    {
        let ghost start = self@;
        let ghost prior = hints@;
        let ghost goal = scan(start.queue, from as nat, budget_left as nat);
        let mut index = from;
        let mut remaining = budget_left;
        loop
            invariant
                start == old(self)@,
                prior == old(hints)@,
                goal == scan(start.queue, from as nat, budget_left as nat),
                self@ == (Pipeline { queue: self.open@, ..start }),
                entries_wf(self.open@),
                self.open@.len() == start.queue.len(),
                from <= index <= self.open@.len(),
                scan(self.open@, index as nat, remaining as nat).queue == goal.queue,
                scan(self.open@, index as nat, remaining as nat).remaining == goal.remaining,
                scan(self.open@, index as nat, remaining as nat).starved == goal.starved,
                hints@ + scan(self.open@, index as nat, remaining as nat).hints =~= prior
                    + goal.hints,
            decreases self.open@.len() - index,
        {
            let ghost before = self.open@;
            let ghost here = scan(before, index as nat, remaining as nat);
            if remaining < PREFETCH_BLOCK || index > MAX_OPEN {
                proof {
                    assert(hints@ + here.hints =~= hints@);
                }
                return (remaining, false);
            }
            if index >= self.open.len() {
                proof {
                    assert(hints@ + here.hints =~= hints@);
                }
                return (remaining, true);
            }
            let mut spent: u64 = 0;
            match slot_mut(&mut self.open, index) {
                Ok(entry) => {
                    if let Some(advice) = entry.extend(remaining) {
                        hints.push(Hint { index, advice });
                        spent = advice.len;
                    }
                },
                Err(_) => {},
            }
            proof {
                let slot = before[index as int];
                if slot is Ok && !slot->Ok_0.windowed() {
                    let entry = slot->Ok_0;
                    let next = before.update(index as int, Ok(entry.extended(remaining as int)));
                    let rest = scan(
                        next,
                        (index + 1) as nat,
                        spend(remaining as nat, entry.extent(remaining as int)),
                    );
                    let hint = Hint { index, advice: entry.readahead(remaining as int)->Some_0 };
                    lemma_step(entry, remaining as nat);
                    assert(self.open@ == next);
                    assert(here.hints == seq![hint] + rest.hints);
                    assert(hints@ + rest.hints =~= hints@.drop_last() + here.hints);
                    assert(entries_wf(next)) by {
                        assert forall|i: int| 0 <= i < next.len() && next[i] is Ok implies (
                        #[trigger] next[i])->Ok_0.wf() by {
                            if i != index {
                                assert(next[i] == before[i]);
                            }
                        }
                    }
                } else {
                    assert(self.open@ =~= before);
                }
            }
            remaining = remaining.saturating_sub(spent);
            index = index + 1;
        }
    }

    /// Brings the front of a queue that is not empty to the consumer.
    fn surface(&mut self, retired: Option<Retired<F>>, hints: Vec<Hint>) -> (turn: Turn<F>)
        requires
            old(self)@.queue.len() > 0,
            hints_valid(old(self)@.queue, hints@),
        ensures
            turn.step(final(self)@) == old(self)@.surface(retired, hints@),
    {
        let failed = match &self.open[0] {
            Ok(_) => false,
            Err(_) => true,
        };
        self.pending = Pending::Nothing;
        if !failed {
            self.streaming = true;
            return Turn { retired, hints, status: Status::File };
        }
        let mut hints = hints;
        let ghost given = hints@;
        let mut at: usize = 0;
        while at < hints.len()
            invariant
                at <= hints@.len(),
                hints@.len() == given.len(),
                hints_valid(self.open@, given),
                self.open@.len() > 0,
                self.open@[0] is Err,
                forall|j: int| 0 <= j < at ==> hints@[j] == shifted(given)[j],
                forall|j: int| at <= j < given.len() ==> hints@[j] == given[j],
            decreases hints@.len() - at,
        {
            let hint = hints[at];
            proof {
                assert(given[at as int] == hint);
                assert(self.open@[hint.index as int] is Ok);
            }
            hints.set(at, Hint { index: hint.index - 1, advice: hint.advice });
            at = at + 1;
        }
        proof {
            assert(hints@ =~= shifted(given));
        }
        self.streaming = false;
        match self.open.pop_front() {
            Some(Err(e)) => {
                proof {
                    self.popped@ = self.popped@ + 1;
                }
                Turn { retired, hints, status: Status::Failed(e) }
            },
            _ => vstd::pervasive::unreached(),
        }
    }

    /// The end of `next`, once its pass is over.
    fn settle(&mut self, retired: Option<Retired<F>>, hints: Vec<Hint>) -> (turn: Turn<F>)
        requires
            hints_valid(old(self)@.queue, hints@),
        ensures
            turn.step(final(self)@) == old(self)@.settle(retired, hints@),
    {
        if self.open.len() == 0 {
            self.pending = Pending::Front;
            Turn { retired, hints, status: Status::Pull }
        } else {
            self.surface(retired, hints)
        }
    }

    /// What follows a pass that has left `remaining` bytes of budget and has
    /// stopped starved or not.
    fn conclude(
        &mut self,
        remaining: u64,
        starved: bool,
        retired: Option<Retired<F>>,
        hints: Vec<Hint>,
        fronting: bool,
    ) -> (turn: Turn<F>)
        requires
            hints_valid(old(self)@.queue, hints@),
        ensures
            turn.step(final(self)@) == old(self)@.conclude(
                Pass {
                    queue: old(self)@.queue,
                    hints: Seq::empty(),
                    remaining: remaining as nat,
                    starved,
                },
                retired,
                hints@,
                fronting,
            ),
    {
        proof {
            assert(hints@ + Seq::<Hint>::empty() =~= hints@);
        }
        self.pending = Pending::Nothing;
        if starved {
            self.pending = Pending::Scan { remaining, fronting };
            Turn { retired, hints, status: Status::Pull }
        } else if fronting {
            self.settle(retired, hints)
        } else {
            Turn { retired, hints, status: Status::Idle }
        }
    }

    /// The scheduler run: the scan of the queue, unless less budget is left
    /// than is outstanding, and what follows it.
    fn advance(&mut self, retired: Option<Retired<F>>, hints: Vec<Hint>, fronting: bool) -> (turn:
        Turn<F>)
        requires
            old(self)@.wf(),
            hints_valid(old(self)@.queue, hints@),
        ensures
            turn.step(final(self)@) == old(self)@.advance(retired, hints@, fronting),
    {
        let ghost start = self@;
        let ghost given = hints@;
        let mut hints = hints;
        let consumed = self.outstanding();
        let budget = self.budget.saturating_sub(consumed);
        let (remaining, starved) = if budget < consumed {
            (budget, false)
        } else {
            self.scan(0, budget, &mut hints)
        };
        proof {
            let pass = start.pass();
            start.lemma_pass();
            lemma_hints_join(start.queue, given, pass.hints);
            lemma_advanced_keeps(start.queue, pass.queue, given + pass.hints);
            assert(hints@ =~= given + pass.hints);
            assert(hints@ + Seq::<Hint>::empty() =~= given + pass.hints);
        }
        self.conclude(remaining, starved, retired, hints, fronting)
    }

    /// Takes in one item of the path source: nothing where the source is
    /// exhausted, the error where the path could not be opened, else the
    /// file, with fresh bookkeeping. The hint for a new file is appended to
    /// `hints`. Returns whether a file was appended.
    fn add_file(&mut self, item: Option<Source<F>>, hints: &mut Vec<Hint>) -> (added: bool)
        ensures
            final(self)@ == old(self)@.add(item).state,
            final(hints)@ == old(hints)@ + old(self)@.add(item).hints,
            added == old(self)@.add(item).added,
            final(self)@.queue.len() <= usize::MAX,
    {
        let added = match item {
            None => {
                proof {
                    assert(hints@ + Seq::<Hint>::empty() =~= hints@);
                }
                false
            },
            Some(Err(e)) => {
                self.open.push_back(Err(e));
                proof {
                    self.pulled@ = self.pulled@.push(Err(e));
                    assert(hints@ + Seq::<Hint>::empty() =~= hints@);
                }
                false
            },
            Some(Ok(opened)) => {
                let ghost source = opened;
                let index = self.open.len();
                let Opened { file, path, length } = opened;
                self.open.push_back(Ok(Prefetch::new(file, length, path)));
                hints.push(
                    Hint {
                        index,
                        advice: Advice { kind: AdviceKind::Sequential, offset: 0, len: 0 },
                    },
                );
                proof {
                    self.pulled@ = self.pulled@.push(Ok(source));
                    assert(hints@ =~= old(hints)@ + old(self)@.add(item).hints);
                }
                true
            },
        };
        proof {
            assert(self.open@.len() == self.open.len());
        }
        added
    }

    /// Retires the file that the consumer holds, runs the scheduler, and
    /// brings the next slot of the queue to the consumer.
    ///
    /// The turn ends with `Status::File` where the new front is a file to
    /// read, with `Status::Failed` where it was a path that could not be
    /// opened, and with `Status::Pull` where the path source has to be asked
    /// first. What is outstanding stays below the budget plus one block, and
    /// the consumer gets the items of the path source in their order.
    pub fn next(&mut self) -> (turn: Turn<F>)
        requires
            old(self)@.wf(),
        ensures
            turn.step(final(self)@) == old(self)@.next(),
            turn.step(final(self)@).sound(old(self)@),
            turn.step(final(self)@).in_order(old(self)@, old(self)@.pulled),
    {
        proof {
            old(self)@.lemma_next();
        }
        self.pending = Pending::Nothing;
        let retired = if self.streaming {
            proof {
                old(self)@.lemma_popped_front();
            }
            self.streaming = false;
            match self.open.pop_front() {
                Some(Ok(entry)) => {
                    proof {
                        self.popped@ = self.popped@ + 1;
                    }
                    Some(entry.retire())
                },
                _ => vstd::pervasive::unreached(),
            }
        } else {
            None
        };
        self.advance(retired, Vec::new(), true)
    }

    /// Takes in the item that the last turn asked for with `Status::Pull`,
    /// and goes on with the operation that was suspended. The item is `None`
    /// where the path source is exhausted, the error where the path could not
    /// be opened or sized, else the open file.
    pub fn supply(&mut self, item: Option<Source<F>>) -> (turn: Turn<F>)
        requires
            old(self)@.wf(),
        ensures
            turn.step(final(self)@) == old(self)@.supply(item),
            final(self)@.wf(),
            hints_valid(final(self)@.queue, turn.hints@),
            old(self)@.in_window() ==> final(self)@.in_window(),
            !(old(self)@.pending is Nothing) ==> final(self)@.bounded(),
            turn.step(final(self)@).in_order(old(self)@, old(self)@.add(item).state.pulled),
    {
        let pending = self.pending;
        let mut hints = Vec::new();
        let added = self.add_file(item, &mut hints);
        self.pending = Pending::Nothing;
        proof {
            old(self)@.lemma_add(item);
            old(self)@.lemma_supply(item);
            assert(hints@ =~= old(self)@.add(item).hints);
        }
        match pending {
            Pending::Nothing => Turn { retired: None, hints, status: Status::Idle },
            Pending::Scan { remaining, fronting } => {
                let ghost state = self@;
                let ghost given = hints@;
                let (left, starved) = if added {
                    let from = self.open.len() - 1;
                    proof {
                        lemma_scan_shape(state.queue, from as nat, remaining as nat);
                        lemma_hints_join(
                            state.queue,
                            given,
                            scan(state.queue, from as nat, remaining as nat).hints,
                        );
                        lemma_advanced_keeps(
                            state.queue,
                            scan(state.queue, from as nat, remaining as nat).queue,
                            given + scan(state.queue, from as nat, remaining as nat).hints,
                        );
                    }
                    self.scan(from, remaining, &mut hints)
                } else {
                    proof {
                        assert(hints@ + Seq::<Hint>::empty() =~= hints@);
                    }
                    (remaining, false)
                };
                proof {
                    assert(hints@ + Seq::<Hint>::empty() =~= hints@);
                }
                self.conclude(left, starved, None, hints, fronting)
            },
            Pending::Front => {
                if self.open.len() == 0 {
                    Turn { retired: None, hints, status: Status::End }
                } else {
                    self.surface(None, hints)
                }
            },
        }
    }
}

impl<'a, F> Reader<'a, F> {
    /// The state of the pipeline that the reader holds.
    pub closed spec fn pipeline(self) -> Pipeline<F> {
        self.owner@
    }

    /// The pipeline is well formed and its front is in the consumer's hands.
    pub open spec fn wf(self) -> bool {
        self.pipeline().wf() && self.pipeline().streaming
    }

    /// The path of the file.
    pub fn path(&self) -> (path: &PathBuf)
        requires
            self.wf(),
        ensures
            *path == self.pipeline().front().path,
    {
        match &self.owner.open[0] {
            Ok(entry) => &entry.path,
            Err(_) => vstd::pervasive::unreached(),
        }
    }

    /// The handle of the file, for the driver to read from.
    pub fn file(&self) -> (file: &F)
        requires
            self.wf(),
        ensures
            *file == self.pipeline().front().file,
    {
        match &self.owner.open[0] {
            Ok(entry) => &entry.file,
            Err(_) => vstd::pervasive::unreached(),
        }
    }

    /// Bytes of the file that the consumer has read.
    pub fn read_pos(&self) -> (pos: u64)
        requires
            self.wf(),
        ensures
            pos == self.pipeline().front().read_pos,
    {
        match &self.owner.open[0] {
            Ok(entry) => entry.read_pos,
            Err(_) => vstd::pervasive::unreached(),
        }
    }

    /// Accounts for a read on the file that has returned `result`, and runs
    /// the scheduler.
    ///
    /// A successful read moves the read position forward by the bytes read;
    /// with drop-behind on, an eviction hint for everything read since the
    /// last one comes due once that is a full block. A failed read changes
    /// nothing in the file's bookkeeping. The scheduler runs in either case.
    /// The turn ends with `Status::Idle` or, where the pass needs another
    /// file, with `Status::Pull`.
    pub fn read(&mut self, result: &Result<usize, std::io::Error>) -> (turn: Turn<F>)
        requires
            old(self).wf(),
            *result matches Ok(bytes) ==> old(self).pipeline().front().read_pos + bytes
                <= u64::MAX,
        ensures
            turn.step(final(self).pipeline()) == old(self).pipeline().read(*result),
            final(self).wf(),
            hints_valid(final(self).pipeline().queue, turn.hints@),
            old(self).pipeline().bounded() ==> final(self).pipeline().bounded(),
            old(self).pipeline().in_window() && (*result matches Ok(bytes) ==> old(
                self,
            ).pipeline().front().read_pos + bytes <= old(self).pipeline().front().prefetch_pos)
                ==> final(self).pipeline().in_window(),
            turn.step(final(self).pipeline()).in_order(
                old(self).pipeline(),
                old(self).pipeline().pulled,
            ),
    {
        proof {
            old(self).pipeline().lemma_read(*result);
        }
        let ghost start = self.owner@;
        self.owner.pending = Pending::Nothing;
        let mut hints = Vec::new();
        if let Ok(bytes) = result {
            proof {
                start.lemma_consumed(*bytes);
            }
            let dropbehind = self.owner.dropbehind;
            match slot_mut(&mut self.owner.open, 0) {
                Ok(entry) => {
                    if let Some(advice) = entry.consume(*bytes as u64, dropbehind) {
                        hints.push(Hint { index: 0, advice });
                    }
                },
                Err(_) => {},
            }
            proof {
                assert(hints@ =~= front_hint(
                    start.front().eviction(*bytes as int, start.dropbehind),
                ));
            }
        }
        self.owner.advance(None, hints, false)
    }
}

} // verus!
