//! One file of the pipeline: how far it has been read, how far readahead has
//! been asked for, and how much of what was read still sits in the cache.
use crate::advice::{Advice, AdviceKind};
use std::path::PathBuf;
use vstd::prelude::*;

verus! {

/// `std::path::PathBuf`, carried through the pipeline without being looked into.
#[verifier::external_type_specification]
#[verifier::external_body]
pub struct ExPathBuf(std::path::PathBuf);

/// `std::io::Error`, carried through the pipeline without being looked into.
#[verifier::external_type_specification]
#[verifier::external_body]
pub struct ExIoError(std::io::Error);

/// Granularity of eviction hints.
pub const DROPBEHIND_BLOCK: u64 = 512 * 1024;

/// Alignment of readahead extents.
pub const PREFETCH_BLOCK: u64 = 65536;

/// Last queue index that a scheduler pass looks at.
pub const MAX_OPEN: usize = 512;

/// Readahead that may be outstanding at once, in bytes.
pub const DEFAULT_BUDGET: u64 = 8 * 1024 * 1024;

/// `x` rounded down to a multiple of the prefetch block.
pub open spec fn block_floor(x: int) -> int {
    x - x % (PREFETCH_BLOCK as int)
}

/// `x` rounded up to a multiple of the prefetch block.
pub open spec fn block_ceil(x: int) -> int {
    if x % (PREFETCH_BLOCK as int) == 0 {
        x
    } else {
        x - x % (PREFETCH_BLOCK as int) + PREFETCH_BLOCK
    }
}

/// The smaller of two integers.
pub open spec fn least(a: int, b: int) -> int {
    if a <= b {
        a
    } else {
        b
    }
}

/// A file that the driver has opened: its handle, its path, and its size at
/// the time it was opened.
pub struct Opened<F> {
    pub file: F,
    pub path: PathBuf,
    pub length: u64,
}

/// A file that has left the queue. The driver gives `advice`, if any, on
/// `file` and then lets go of it.
pub struct Retired<F> {
    pub file: F,
    pub path: PathBuf,
    pub advice: Option<Advice>,
}

/// The bookkeeping of one open file.
pub struct Prefetch<F> {
    pub path: PathBuf,
    pub file: F,
    /// Bytes the consumer has read.
    pub read_pos: u64,
    /// Bytes for which readahead has been asked.
    pub prefetch_pos: u64,
    /// Bytes read since the last eviction hint.
    pub to_drop: u64,
    /// Size of the file when it was opened.
    pub length: u64,
}

impl<F> Prefetch<F> {
    /// Readahead never passes the end of the file, and no more is pending
    /// eviction than has been read.
    pub open spec fn wf(self) -> bool {
        &&& self.prefetch_pos <= self.length
        &&& self.to_drop <= self.read_pos
    }

    /// The consumer has not run ahead of the readahead.
    pub open spec fn in_window(self) -> bool {
        self.read_pos <= self.prefetch_pos
    }

    /// What the driver handed in when this file was opened.
    pub open spec fn source(self) -> Opened<F> {
        Opened { file: self.file, path: self.path, length: self.length }
    }

    /// The entry as it is when its file has just been opened.
    pub open spec fn fresh(opened: Opened<F>) -> Self {
        Prefetch {
            path: opened.path,
            file: opened.file,
            read_pos: 0,
            prefetch_pos: 0,
            to_drop: 0,
            length: opened.length,
        }
    }

    /// Bytes asked for and not yet read.
    pub open spec fn outstanding(self) -> int {
        if self.prefetch_pos > self.read_pos {
            self.prefetch_pos - self.read_pos
        } else {
            0
        }
    }

    /// Where the next readahead starts: the larger of the two positions.
    pub open spec fn watermark(self) -> int {
        if self.read_pos > self.prefetch_pos {
            self.read_pos as int
        } else {
            self.prefetch_pos as int
        }
    }

    /// Nothing is left to ask for.
    pub open spec fn windowed(self) -> bool {
        self.watermark() >= self.length
    }

    /// Where readahead ends after one scheduler step with `remaining` bytes of
    /// budget: the watermark plus what of the file the budget, rounded down to
    /// a block, covers; then rounded up to a block and cut at the end of the
    /// file.
    pub open spec fn target(self, remaining: int) -> int {
        let extent = least(self.length - self.watermark(), block_floor(remaining));
        least(self.length as int, block_ceil(self.watermark() + extent))
    }

    /// The readahead hint of one scheduler step, if the step gives one.
    pub open spec fn readahead(self, remaining: int) -> Option<Advice> {
        if self.windowed() {
            None
        } else {
            Some(Advice::will_need(self.watermark(), self.target(remaining) - self.watermark()))
        }
    }

    /// Bytes that one scheduler step takes from the budget.
    pub open spec fn extent(self, remaining: int) -> int {
        if self.windowed() {
            0
        } else {
            self.target(remaining) - self.watermark()
        }
    }

    /// The entry after one scheduler step.
    pub open spec fn extended(self, remaining: int) -> Self {
        if self.windowed() {
            self
        } else {
            Prefetch { prefetch_pos: self.target(remaining) as u64, ..self }
        }
    }

    /// A read of `bytes` bytes makes an eviction hint come due.
    pub open spec fn flushes(self, bytes: int, dropbehind: bool) -> bool {
        dropbehind && self.to_drop + bytes >= DROPBEHIND_BLOCK
    }

    /// The eviction hint after a read of `bytes` bytes, if one is due: it
    /// covers everything read since the last one.
    pub open spec fn eviction(self, bytes: int, dropbehind: bool) -> Option<Advice> {
        if self.flushes(bytes, dropbehind) {
            Some(Advice::dont_need(self.read_pos - self.to_drop, self.to_drop + bytes))
        } else {
            None
        }
    }

    /// The entry after a read of `bytes` bytes.
    pub open spec fn consumed(self, bytes: int, dropbehind: bool) -> Self {
        Prefetch {
            read_pos: (self.read_pos + bytes) as u64,
            to_drop: if !dropbehind {
                self.to_drop
            } else if self.flushes(bytes, dropbehind) {
                0
            } else {
                (self.to_drop + bytes) as u64
            },
            ..self
        }
    }

    /// What is handed to the driver when the file leaves the queue: a
    /// whole-file eviction hint exactly if read bytes are still pending.
    pub open spec fn retired(self) -> Retired<F> {
        Retired {
            file: self.file,
            path: self.path,
            advice: if self.to_drop > 0 {
                Some(Advice::drop_all())
            } else {
                None
            },
        }
    }

    /// The bookkeeping of a file that has just been opened.
    pub fn new(file: F, len: u64, path: PathBuf) -> (entry: Self)
        ensures
            entry == Self::fresh(Opened { file, path, length: len }),
            entry.wf(),
            entry.in_window(),
    {
        Prefetch { path, file, read_pos: 0, prefetch_pos: 0, to_drop: 0, length: len }
    }

    /// One scheduler step on this file, with `remaining` bytes of budget.
    /// Returns the readahead hint to give; `None` where nothing is left to
    /// ask for.
    pub fn extend(&mut self, remaining: u64) -> (advice: Option<Advice>)
        requires
            old(self).wf(),
        ensures
            *final(self) == old(self).extended(remaining as int),
            advice == old(self).readahead(remaining as int),
            final(self).wf(),
    {
        let watermark = if self.read_pos > self.prefetch_pos {
            self.read_pos
        } else {
            self.prefetch_pos
        };
        if watermark >= self.length {
            return None;
        }
        let internal_budget = remaining - remaining % PREFETCH_BLOCK;
        let left = self.length - watermark;
        let wanted = if left <= internal_budget {
            left
        } else {
            internal_budget
        };
        let reach = watermark + wanted;
        let over = reach % PREFETCH_BLOCK;
        let target = if over == 0 {
            reach
        } else if self.length - reach < PREFETCH_BLOCK - over {
            self.length
        } else {
            reach + (PREFETCH_BLOCK - over)
        };
        self.prefetch_pos = target;
        Some(Advice { kind: AdviceKind::WillNeed, offset: watermark, len: target - watermark })
    }

    /// Accounts for a read of `bytes` bytes. With drop-behind on, returns the
    /// eviction hint once a full block has been read since the last one.
    pub fn consume(&mut self, bytes: u64, dropbehind: bool) -> (advice: Option<Advice>)
        requires
            old(self).wf(),
            old(self).read_pos + bytes <= u64::MAX,
        ensures
            *final(self) == old(self).consumed(bytes as int, dropbehind),
            advice == old(self).eviction(bytes as int, dropbehind),
            final(self).wf(),
    {
        self.read_pos = self.read_pos + bytes;
        if dropbehind {
            self.to_drop = self.to_drop + bytes;
            if self.to_drop >= DROPBEHIND_BLOCK {
                let advice = Advice {
                    kind: AdviceKind::DontNeed,
                    offset: self.read_pos - self.to_drop,
                    len: self.to_drop,
                };
                self.to_drop = 0;
                return Some(advice);
            }
        }
        None
    }

    /// Takes the file out of the bookkeeping.
    pub fn retire(self) -> (retired: Retired<F>)
        ensures
            retired == self.retired(),
    {
        let advice = if self.to_drop > 0 {
            Some(Advice { kind: AdviceKind::DontNeed, offset: 0, len: 0 })
        } else {
            None
        };
        Retired { file: self.file, path: self.path, advice }
    }
}

} // verus!
