//! Sequential readahead over a stream of files, without the I/O.
//!
//! The crate holds the bookkeeping of a pipeline that reads many files one
//! after another: a FIFO of files opened ahead of the consumer, a byte budget
//! of readahead that may be outstanding at once, and the scheduler that
//! spreads the budget over the queue. It makes no system call itself. A
//! driver owns the path source and the files, and performs what the pipeline
//! decides.
//!
//! Each operation of [`MultiFileReadahead`] returns a [`Turn`]. It names the
//! advisory hints to give, hands over the file that has left the queue, and
//! ends with a [`Status`]. On [`Status::Pull`] the driver takes the next path
//! from its source, opens it, and calls [`MultiFileReadahead::supply`] with
//! the outcome; the suspended operation then goes on. Any other status ends
//! the operation. While the consumer reads the front file, the driver reports
//! the outcome of each read through [`Reader::read`].
//!
//! What the operations do is stated on the state machine [`Pipeline`]; the
//! module [`laws`] lists what holds of it.
pub mod advice;
pub mod invariants;
pub mod laws;
pub mod pipeline;
pub mod prefetch;
pub mod readahead;
pub mod scheduler;

pub use advice::{Advice, AdviceKind, Hint};
pub use pipeline::{Pending, Pipeline, Status, Step};
pub use prefetch::{
    Opened, Prefetch, Retired, DEFAULT_BUDGET, DROPBEHIND_BLOCK, MAX_OPEN, PREFETCH_BLOCK,
};
pub use readahead::{MultiFileReadahead, Reader, Turn};
pub use scheduler::{Pass, Slot, Source};
