//! The pipeline as a state machine: what each operation makes of a state,
//! stated on sequences and integers.
use crate::advice::{Advice, Hint};
use crate::prefetch::{Prefetch, Retired, MAX_OPEN, PREFETCH_BLOCK};
use crate::scheduler::{
    entries_in_window, entries_wf, gate_closed, headroom, hints_valid, outstanding, scan,
    slot_source, Pass, Slot, Source,
};
use vstd::prelude::*;

verus! {

/// Where an operation stands that could not finish without the path source.
#[derive(Clone, Copy, Debug, PartialEq, Eq, Structural)]
pub enum Pending {
    /// No operation is suspended.
    Nothing,
    /// A scheduler pass has reached the end of the queue with `remaining`
    /// bytes of budget. `fronting` says that the pass belongs to `next`, which
    /// has still to bring a slot to the front.
    Scan { remaining: u64, fronting: bool },
    /// `next` has found the queue empty after its pass and waits for the slot
    /// that will be the front.
    Front,
}

/// How a turn of the pipeline ended.
#[derive(Debug)]
pub enum Status {
    /// The operation is suspended: the driver fetches the next item of the
    /// path source and hands it to `supply`.
    Pull,
    /// A read has been accounted for, or an item was supplied that nobody had
    /// asked for.
    Idle,
    /// `next` has finished: the front of the queue is the file to read now.
    File,
    /// `next` has finished: the next path could not be opened. The slot is
    /// gone from the queue.
    Failed(std::io::Error),
    /// `next` has finished: the path source is exhausted.
    End,
}

/// The state of a pipeline.
#[verifier::ext_equal]
pub struct Pipeline<F> {
    /// The lookahead queue; the consumer reads the file at the front.
    pub queue: Seq<Slot<F>>,
    /// Eviction hints are given behind the consumer.
    pub dropbehind: bool,
    /// Bytes of readahead that may be outstanding at once.
    pub budget: u64,
    /// The front of the queue has been handed to the consumer.
    pub streaming: bool,
    /// The operation that waits for the path source.
    pub pending: Pending,
    /// Every item that the path source has yielded so far, in its order.
    pub pulled: Seq<Source<F>>,
    /// How many slots have left the queue.
    pub popped: nat,
}

/// What one turn of the pipeline comes to: the state after it and what is
/// handed to the driver.
#[verifier::ext_equal]
pub struct Step<F> {
    pub state: Pipeline<F>,
    /// The file that has left the queue in this turn.
    pub retired: Option<Retired<F>>,
    /// The hints to give, in order; each index counts from the front of
    /// `state.queue`.
    pub hints: Seq<Hint>,
    pub status: Status,
}

/// What `add` makes of a state and an item of the path source.
#[verifier::ext_equal]
pub struct Added<F> {
    pub state: Pipeline<F>,
    /// The hints to give for the new slot.
    pub hints: Seq<Hint>,
    /// A file was appended.
    pub added: bool,
}

/// The hints after the front slot has left the queue: each index is one less.
pub open spec fn shifted(hints: Seq<Hint>) -> Seq<Hint> {
    Seq::new(hints.len(), |j: int| Hint { index: (hints[j].index - 1) as usize, ..hints[j] })
}

/// The hint for the front of the queue, if there is an advice to give.
pub open spec fn front_hint(advice: Option<Advice>) -> Seq<Hint> {
    match advice {
        Some(advice) => seq![Hint { index: 0, advice }],
        None => Seq::empty(),
    }
}

impl<F> Pipeline<F> {
    /// A pipeline that has seen nothing yet.
    pub open spec fn start(budget: u64) -> Self {
        Pipeline {
            queue: Seq::empty(),
            dropbehind: false,
            budget,
            streaming: false,
            pending: Pending::Nothing,
            pulled: Seq::empty(),
            popped: 0,
        }
    }

    /// What holds of every state that the operations reach.
    ///
    /// Every open file is well formed. Less than a block more than the budget
    /// is outstanding. While the consumer holds the front, the front is an
    /// open file. A suspended pass is within the budget and waits at the
    /// end of a queue of at most `MAX_OPEN` slots; a suspended `next` that
    /// waits for its front has an empty queue. The queue holds, in order,
    /// the items of the path source that have not left it.
    pub open spec fn wf(self) -> bool {
        &&& entries_wf(self.queue)
        &&& self.budget + PREFETCH_BLOCK <= u64::MAX
        &&& outstanding(self.queue) < self.budget + PREFETCH_BLOCK
        &&& self.streaming ==> self.queue.len() > 0 && self.queue[0] is Ok
        &&& match self.pending {
            Pending::Nothing => true,
            Pending::Scan { remaining, fronting } => {
                &&& outstanding(self.queue) + remaining <= self.budget
                &&& fronting ==> !self.streaming
                &&& self.queue.len() <= MAX_OPEN
            },
            Pending::Front => !self.streaming && self.queue.len() == 0,
        }
        &&& self.pulled.len() == self.popped + self.queue.len()
        &&& forall|i: int|
            0 <= i < self.queue.len() ==> slot_source(#[trigger] self.queue[i])
                == self.pulled[self.popped + i]
    }

    /// In no file has the consumer run ahead of the readahead.
    pub open spec fn in_window(self) -> bool {
        entries_in_window(self.queue)
    }

    /// The queue holds no more slots than a scheduler pass looks at.
    pub open spec fn bounded(self) -> bool {
        self.queue.len() <= MAX_OPEN + 1
    }

    /// The state is well formed and no operation is suspended.
    pub open spec fn settled(self) -> bool {
        &&& self.pending is Nothing
        &&& self.wf()
    }

    /// How many items of the path source have been handed to the consumer, as
    /// a file to read or as an error.
    pub open spec fn surfaced(self) -> nat {
        if self.streaming {
            self.popped + 1
        } else {
            self.popped
        }
    }

    /// The file at the front of the queue.
    pub open spec fn front(self) -> Prefetch<F> {
        self.queue[0]->Ok_0
    }

    /// The state without its front slot, and with nothing handed out.
    pub open spec fn popped_front(self) -> Self {
        Pipeline {
            queue: self.queue.drop_first(),
            popped: self.popped + 1,
            streaming: false,
            ..self
        }
    }

    /// What the scheduler does on this state: nothing while less budget is
    /// left than is outstanding, else it scans the whole queue with the
    /// budget that is left.
    pub open spec fn pass(self) -> Pass<F> {
        let pending = outstanding(self.queue);
        if gate_closed(self.budget, pending) {
            Pass {
                queue: self.queue,
                hints: Seq::empty(),
                remaining: headroom(self.budget, pending),
                starved: false,
            }
        } else {
            scan(self.queue, 0, headroom(self.budget, pending))
        }
    }

    /// Brings the front of a queue that is not empty to the consumer: an
    /// error leaves the queue and is handed out, a file stays and is to be
    /// read.
    pub open spec fn surface(self, retired: Option<Retired<F>>, hints: Seq<Hint>) -> Step<F> {
        match self.queue[0] {
            Err(e) => Step {
                state: Pipeline { pending: Pending::Nothing, ..self.popped_front() },
                retired,
                hints: shifted(hints),
                status: Status::Failed(e),
            },
            Ok(_) => Step {
                state: Pipeline { streaming: true, pending: Pending::Nothing, ..self },
                retired,
                hints,
                status: Status::File,
            },
        }
    }

    /// The end of `next`, once its pass is over: with an empty queue it asks
    /// for one more item, else it brings the front to the consumer.
    pub open spec fn settle(self, retired: Option<Retired<F>>, hints: Seq<Hint>) -> Step<F> {
        if self.queue.len() == 0 {
            Step {
                state: Pipeline { pending: Pending::Front, ..self },
                retired,
                hints,
                status: Status::Pull,
            }
        } else {
            self.surface(retired, hints)
        }
    }

    /// What follows a pass, or a part of one. A starved pass is suspended
    /// until the next item is supplied. Else the pass is over: `next` goes on
    /// to settle, a read is done.
    pub open spec fn conclude(
        self,
        pass: Pass<F>,
        retired: Option<Retired<F>>,
        hints: Seq<Hint>,
        fronting: bool,
    ) -> Step<F> {
        let state = Pipeline { queue: pass.queue, pending: Pending::Nothing, ..self };
        if pass.starved {
            Step {
                state: Pipeline {
                    pending: Pending::Scan { remaining: pass.remaining as u64, fronting },
                    ..state
                },
                retired,
                hints: hints + pass.hints,
                status: Status::Pull,
            }
        } else if fronting {
            state.settle(retired, hints + pass.hints)
        } else {
            Step { state, retired, hints: hints + pass.hints, status: Status::Idle }
        }
    }

    /// The scheduler run that `next` and every read start.
    pub open spec fn advance(
        self,
        retired: Option<Retired<F>>,
        hints: Seq<Hint>,
        fronting: bool,
    ) -> Step<F> {
        self.conclude(self.pass(), retired, hints, fronting)
    }

    /// `next`: the file that the consumer holds leaves the queue, the
    /// scheduler runs, and the new front is brought to the consumer.
    pub open spec fn next(self) -> Step<F> {
        if self.streaming {
            Pipeline { pending: Pending::Nothing, ..self.popped_front() }.advance(
                Some(self.front().retired()),
                Seq::empty(),
                true,
            )
        } else {
            Pipeline { pending: Pending::Nothing, ..self }.advance(None, Seq::empty(), true)
        }
    }

    /// A read on the front file has returned `result`: a successful read is
    /// accounted for, and in either case the scheduler runs.
    pub open spec fn read(self, result: Result<usize, std::io::Error>) -> Step<F> {
        let state = Pipeline { pending: Pending::Nothing, ..self };
        match result {
            Ok(bytes) => Pipeline {
                queue: self.queue.update(
                    0,
                    Ok(self.front().consumed(bytes as int, self.dropbehind)),
                ),
                ..state
            }.advance(
                None,
                front_hint(self.front().eviction(bytes as int, self.dropbehind)),
                false,
            ),
            Err(_) => state.advance(None, Seq::empty(), false),
        }
    }

    /// One item of the path source is taken in. Exhaustion changes nothing.
    /// An error is appended as it is. A file is appended with fresh
    /// bookkeeping and gets the hint that it will be read front to back.
    pub open spec fn add(self, item: Option<Source<F>>) -> Added<F> {
        match item {
            None => Added { state: self, hints: Seq::empty(), added: false },
            Some(Err(e)) => Added {
                state: Pipeline {
                    queue: self.queue.push(Err(e)),
                    pulled: self.pulled.push(Err(e)),
                    ..self
                },
                hints: Seq::empty(),
                added: false,
            },
            Some(Ok(opened)) => Added {
                state: Pipeline {
                    queue: self.queue.push(Ok(Prefetch::fresh(opened))),
                    pulled: self.pulled.push(Ok(opened)),
                    ..self
                },
                hints: seq![Hint { index: self.queue.len() as usize, advice: Advice::sequential() }],
                added: true,
            },
        }
    }

    /// The driver supplies the item that a turn asked for, and the suspended
    /// operation goes on. A pass goes on at the new file, or is over if no
    /// file came. An item that nobody asked for is only taken in.
    pub open spec fn supply(self, item: Option<Source<F>>) -> Step<F> {
        let added = self.add(item);
        let state = Pipeline { pending: Pending::Nothing, ..added.state };
        match self.pending {
            Pending::Nothing => Step {
                state,
                retired: None,
                hints: added.hints,
                status: Status::Idle,
            },
            Pending::Scan { remaining, fronting } => {
                let pass = if added.added {
                    scan(state.queue, (state.queue.len() - 1) as nat, remaining as nat)
                } else {
                    Pass {
                        queue: state.queue,
                        hints: Seq::empty(),
                        remaining: remaining as nat,
                        starved: false,
                    }
                };
                state.conclude(pass, None, added.hints, fronting)
            },
            Pending::Front => {
                if state.queue.len() == 0 {
                    Step { state, retired: None, hints: added.hints, status: Status::End }
                } else {
                    state.surface(None, added.hints)
                }
            },
        }
    }
}

impl<F> Step<F> {
    /// The consumer gets the items of the path source in the order in which
    /// the source yielded them, each once: a turn that hands out a file or an
    /// error hands out the first item not handed out before, and no other
    /// turn hands out anything. `items` is what the path source has yielded
    /// when the turn is over.
    pub open spec fn in_order(self, before: Pipeline<F>, items: Seq<Source<F>>) -> bool {
        &&& self.state.pulled == items
        &&& match self.status {
            Status::File => {
                &&& self.state.streaming
                &&& self.state.surfaced() == before.surfaced() + 1
                &&& before.surfaced() < items.len()
                &&& Ok::<_, std::io::Error>(self.state.front().source()) == items[before.surfaced() as int]
            },
            Status::Failed(e) => {
                &&& !self.state.streaming
                &&& self.state.surfaced() == before.surfaced() + 1
                &&& before.surfaced() < items.len()
                &&& Err::<crate::prefetch::Opened<F>, _>(e) == items[before.surfaced() as int]
            },
            _ => self.state.surfaced() == before.surfaced(),
        }
    }

    /// The step has kept what the state `before` had: it is well formed,
    /// every hint names an open file of the queue, no read position has come
    /// to lie ahead of its readahead, and the queue has stayed in bounds.
    pub open spec fn sound(self, before: Pipeline<F>) -> bool {
        &&& self.state.wf()
        &&& hints_valid(self.state.queue, self.hints)
        &&& before.in_window() ==> self.state.in_window()
        &&& before.bounded() ==> self.state.bounded()
    }
}

} // verus!
