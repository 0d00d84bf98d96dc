//! Loop-bracket balance checking.
use vstd::prelude::*;

verus! {

/// Why a source cannot be translated.
#[derive(Clone, Copy, Debug, PartialEq, Eq, Structural)]
pub enum SyntaxError {
    /// A `]` with no open `[` before it.  Translation stops at once.
    UnmatchedCloseBracket,
    /// A `[` that is never closed.  Found only once the whole body is out.
    UnmatchedOpenBracket,
}

impl SyntaxError {
    /// A one-line description for the user.
    pub fn message(&self) -> (r: &'static str)
        ensures
            *self is UnmatchedCloseBracket ==> r@ == "Syntax error: Unmatched ']'."@,
            *self is UnmatchedOpenBracket ==> r@ == "Syntax error: Unmatched '['."@,
    {
        match self {
            SyntaxError::UnmatchedCloseBracket => "Syntax error: Unmatched ']'.",
            SyntaxError::UnmatchedOpenBracket => "Syntax error: Unmatched '['.",
        }
    }
}

/// Tracks the loop nesting depth, which is never negative.
pub struct BalanceValidator {
    depth: usize,
}

impl BalanceValidator {
    /// The current nesting depth.
    pub closed spec fn depth(&self) -> nat {
        self.depth as nat
    }

    /// A validator at depth zero.
    pub fn new() -> (r: BalanceValidator)
        ensures
            r.depth() == 0,
    {
        BalanceValidator { depth: 0 }
    }

    /// Enters a loop.
    pub fn open(&mut self)
        requires
            old(self).depth() < usize::MAX,
        ensures
            final(self).depth() == old(self).depth() + 1,
    {
        self.depth = self.depth + 1;
    }

    /// Leaves a loop; fails, with the depth unchanged, when none is open.
    pub fn close(&mut self) -> (r: Result<(), SyntaxError>)
        ensures
            old(self).depth() == 0 ==> r == Err::<(), SyntaxError>(SyntaxError::UnmatchedCloseBracket)
                && final(self).depth() == 0,
            old(self).depth() > 0 ==> r == Ok::<(), SyntaxError>(()) && final(self).depth() == old(self).depth() - 1,
    {
        if self.depth == 0 {
            Err(SyntaxError::UnmatchedCloseBracket)
        } else {
            self.depth = self.depth - 1;
            Ok(())
        }
    }

    /// The verdict at end of input: every loop must have been closed.
    pub fn finish(&self) -> (r: Result<(), SyntaxError>)
        ensures
            self.depth() == 0 ==> r == Ok::<(), SyntaxError>(()),
            self.depth() != 0 ==> r == Err::<(), SyntaxError>(SyntaxError::UnmatchedOpenBracket),
    {
        if self.depth == 0 {
            Ok(())
        } else {
            Err(SyntaxError::UnmatchedOpenBracket)
        }
    }
}

} // verus!
