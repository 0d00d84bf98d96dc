//! Run-length encoding of the repeatable commands.
use vstd::prelude::*;
use crate::command::{Command, repeatable};

verus! {

/// A command together with how many times it is applied in a row.
///
/// Repeatable commands come in runs of one or more; every other command is
/// emitted as a run of exactly one.
#[derive(Clone, Copy, Debug, PartialEq, Eq, Structural)]
pub struct Run {
    pub kind: Command,
    pub count: u64,
}

/// The run that a single command starts.
pub open spec fn single(k: Command) -> Run {
    Run { kind: k, count: 1 }
}

/// Feeding one repeatable command to an encoder whose pending run is
/// `pending`: the run flushed to the output, if any, and the new pending run.
///
/// The command extends the pending run when it has the same kind and the count
/// has room left; otherwise the pending run is flushed and a new one begins.
/// A run therefore never overflows: a saturated run is closed and the
/// repetition goes on in the next one.
pub open spec fn feed_step(pending: Option<Run>, k: Command) -> (Option<Run>, Option<Run>) {
    match pending {
        Some(p) => if p.kind == k && p.count < u64::MAX {
            (None, Some(Run { kind: k, count: (p.count + 1) as u64 }))
        } else {
            (Some(p), Some(single(k)))
        },
        None => (None, Some(single(k))),
    }
}

/// A pending run is of a repeatable kind and counts at least one command.
pub open spec fn pending_ok(pending: Option<Run>) -> bool {
    match pending {
        Some(p) => repeatable(p.kind) && p.count >= 1,
        None => true,
    }
}

/// Coalesces consecutive identical repeatable commands.
pub struct Encoder {
    pending: Option<Run>,
}

impl Encoder {
    /// The run being accumulated, not yet flushed.
    pub closed spec fn pending(&self) -> Option<Run> {
        self.pending
    }

    /// An encoder with nothing pending.
    pub fn new() -> (r: Encoder)
        ensures
            r.pending() is None,
    {
        Encoder { pending: None }
    }

    /// Feeds one repeatable command; returns the run that it flushed, if any.
    pub fn feed(&mut self, k: Command) -> (flushed: Option<Run>)
        requires
            repeatable(k),
        ensures
            (flushed, final(self).pending()) == feed_step(old(self).pending(), k),
    {
        match self.pending {
            Some(p) => {
                if p.kind == k && p.count < u64::MAX {
                    self.pending = Some(Run { kind: k, count: p.count + 1 });
                    None
                } else {
                    self.pending = Some(Run { kind: k, count: 1 });
                    Some(p)
                }
            },
            None => {
                self.pending = Some(Run { kind: k, count: 1 });
                None
            },
        }
    }

    /// Takes the pending run out of the encoder.
    pub fn flush(&mut self) -> (flushed: Option<Run>)
        ensures
            flushed == old(self).pending(),
            final(self).pending() is None,
    {
        let r = self.pending;
        self.pending = None;
        r
    }
}

} // verus!
