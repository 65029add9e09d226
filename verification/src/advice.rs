//! Advisory hints: what the pipeline asks the operating system to do.
use vstd::prelude::*;

verus! {

/// The three kinds of advice the pipeline gives about a file.
#[derive(Clone, Copy, Debug, PartialEq, Eq, Structural)]
pub enum AdviceKind {
    /// The file will be read front to back.
    Sequential,
    /// The range will be read soon: load it into the page cache.
    WillNeed,
    /// The range has been consumed: its pages may be evicted.
    DontNeed,
}

/// One advisory call on one file. `offset == 0 && len == 0` stands for the
/// whole file.
#[derive(Clone, Copy, Debug, PartialEq, Eq, Structural)]
pub struct Advice {
    pub kind: AdviceKind,
    pub offset: u64,
    pub len: u64,
}

/// An advice for the file in the queue slot `index`, counted from the front
/// of the queue as it stands when the hint is handed out.
#[derive(Clone, Copy, Debug, PartialEq, Eq, Structural)]
pub struct Hint {
    pub index: usize,
    pub advice: Advice,
}

impl Advice {
    /// Readahead of `len` bytes from `offset`.
    pub open spec fn will_need(offset: int, len: int) -> Advice {
        Advice { kind: AdviceKind::WillNeed, offset: offset as u64, len: len as u64 }
    }

    /// Eviction of `len` bytes from `offset`.
    pub open spec fn dont_need(offset: int, len: int) -> Advice {
        Advice { kind: AdviceKind::DontNeed, offset: offset as u64, len: len as u64 }
    }

    /// Eviction of the whole file.
    pub open spec fn drop_all() -> Advice {
        Advice { kind: AdviceKind::DontNeed, offset: 0, len: 0 }
    }

    /// Sequential access over the whole file.
    pub open spec fn sequential() -> Advice {
        Advice { kind: AdviceKind::Sequential, offset: 0, len: 0 }
    }
}

} // verus!
