//! The initial tape capacity of the generated program.
use vstd::prelude::*;
use crate::command::Command;

verus! {

/// How many `>` characters the text holds.
pub open spec fn right_moves(s: Seq<char>) -> nat
    decreases s.len(),
{
    if s.len() == 0 {
        0
    } else {
        right_moves(s.drop_last()) + if s.last() == '>' { 1nat } else { 0nat }
    }
}

/// `n`, clamped to the largest index.
pub open spec fn clamp_index(n: nat) -> nat {
    if n <= usize::MAX { n } else { usize::MAX as nat }
}

/// The capacity hint for a source: the explicit value when one is given,
/// else the number of `>` characters, saturating at the largest index.
pub open spec fn capacity_hint(s: Seq<char>, explicit: Option<usize>) -> nat {
    match explicit {
        Some(n) => n as nat,
        None => clamp_index(right_moves(s)),
    }
}

/// Counts pointer advances, unless an explicit initial cell count was given.
pub struct CellEstimator {
    explicit: Option<usize>,
    counted: usize,
}

impl CellEstimator {
    /// The explicit cell count this estimator was made with.
    pub closed spec fn explicit(&self) -> Option<usize> {
        self.explicit
    }

    /// The `>` commands observed so far, saturating at the largest index.
    pub closed spec fn counted(&self) -> nat {
        self.counted as nat
    }

    /// The hint as it stands.
    pub open spec fn hint_spec(&self) -> nat {
        match self.explicit() {
            Some(n) => n as nat,
            None => self.counted(),
        }
    }

    /// An estimator that has seen nothing yet.
    pub fn new(explicit: Option<usize>) -> (r: CellEstimator)
        ensures
            r.explicit() == explicit,
            r.counted() == 0,
    {
        CellEstimator { explicit, counted: 0 }
    }

    /// Notes one command of the source.
    pub fn observe(&mut self, k: Command)
        ensures
            final(self).explicit() == old(self).explicit(),
            final(self).counted() == if old(self).explicit() is None && k == Command::MoveRight {
                clamp_index(old(self).counted() + 1)
            } else {
                old(self).counted()
            },
    {
        if self.explicit.is_none() && k == Command::MoveRight && self.counted < usize::MAX {
            self.counted = self.counted + 1;
        }
    }

    /// The capacity hint.
    pub fn hint(&self) -> (r: usize)
        ensures
            r == self.hint_spec(),
    {
        match self.explicit {
            Some(n) => n,
            None => self.counted,
        }
    }
}

} // verus!
