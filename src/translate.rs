//! The single forward pass from Brainfuck source to the generated program.
use vstd::prelude::*;
use crate::balance::{BalanceValidator, SyntaxError};
use crate::cells::{CellEstimator, capacity_hint, clamp_index, right_moves};
use crate::command::{Command, command_of, repeatable};
use crate::emitter::{
    body_text, emit, emit_init, emit_prelude, init_text, kinds_of, lemma_body_push, prelude_text,
    statement_text,
};
use crate::encoder::{Encoder, Run, feed_step, pending_ok, single};
use crate::registry::{HelperRegistry, helpers_text};

verus! {

/// Where the pass stands after a prefix of the source.
pub ghost struct ScanState {
    /// The runs emitted so far, in source order.
    pub runs: Seq<Run>,
    /// The run still being accumulated.
    pub pending: Option<Run>,
    /// The loop nesting depth.
    pub depth: nat,
    /// Whether an unmatched `]` stopped the pass.
    pub aborted: bool,
}

/// The state before any character is read.
pub open spec fn initial_state() -> ScanState {
    ScanState { runs: Seq::empty(), pending: None, depth: 0, aborted: false }
}

/// `runs` followed by `extra`, if there is one.
pub open spec fn with_run(runs: Seq<Run>, extra: Option<Run>) -> Seq<Run> {
    match extra {
        Some(r) => runs.push(r),
        None => runs,
    }
}

/// The loop depth after one non-repeatable command.
pub open spec fn next_depth(depth: nat, k: Command) -> nat {
    if k == Command::LoopStart {
        depth + 1
    } else if k == Command::LoopEnd {
        (depth - 1) as nat
    } else {
        depth
    }
}

/// Reading one more character.
///
/// A comment character changes nothing.  A repeatable command goes to the
/// encoder.  Any other command first flushes the pending run and is then
/// emitted on its own, except a `]` at depth zero, which stops the pass.
pub open spec fn step(st: ScanState, c: char) -> ScanState {
    if st.aborted {
        st
    } else {
        match command_of(c) {
            None => st,
            Some(k) => if repeatable(k) {
                ScanState {
                    runs: with_run(st.runs, feed_step(st.pending, k).0),
                    pending: feed_step(st.pending, k).1,
                    depth: st.depth,
                    aborted: false,
                }
            } else if k == Command::LoopEnd && st.depth == 0 {
                ScanState {
                    runs: with_run(st.runs, st.pending),
                    pending: None,
                    depth: 0,
                    aborted: true,
                }
            } else {
                ScanState {
                    runs: with_run(st.runs, st.pending).push(single(k)),
                    pending: None,
                    depth: next_depth(st.depth, k),
                    aborted: false,
                }
            },
        }
    }
}

/// The state after reading all of `s`.
pub open spec fn scan(s: Seq<char>) -> ScanState
    decreases s.len(),
{
    if s.len() == 0 {
        initial_state()
    } else {
        step(scan(s.drop_last()), s.last())
    }
}

/// All runs of a complete pass, the last pending one flushed.
pub open spec fn final_runs(s: Seq<char>) -> Seq<Run> {
    with_run(scan(s).runs, scan(s).pending)
}

/// The verdict on a source.
pub open spec fn translation_result(s: Seq<char>) -> Result<(), SyntaxError> {
    if scan(s).aborted {
        Err(SyntaxError::UnmatchedCloseBracket)
    } else if scan(s).depth != 0 {
        Err(SyntaxError::UnmatchedOpenBracket)
    } else {
        Ok(())
    }
}

/// The program generated from a source that no unmatched `]` stops: the
/// prelude, one statement per run, the tape initialiser, and the helpers of
/// the kinds that occur among the runs.
pub open spec fn program_text(s: Seq<char>, initial_cells: Option<usize>) -> Seq<char> {
    prelude_text() + body_text(final_runs(s)) + init_text(capacity_hint(s, initial_cells))
        + helpers_text(kinds_of(final_runs(s)))
}

/// The text that the pass writes.  A pass stopped by an unmatched `]` has
/// written the statements up to it; any other pass writes the whole program,
/// also when an unclosed `[` makes it invalid.
pub open spec fn emitted_text(s: Seq<char>, initial_cells: Option<usize>) -> Seq<char> {
    if scan(s).aborted {
        prelude_text() + body_text(scan(s).runs)
    } else {
        program_text(s, initial_cells)
    }
}

proof fn lemma_scan_prefix(s: Seq<char>, i: int)
    requires
        0 <= i < s.len(),
    ensures
        scan(s.take(i + 1)) == step(scan(s.take(i)), s[i]),
        right_moves(s.take(i + 1)) == right_moves(s.take(i)) + if s[i] == '>' { 1nat } else { 0nat },
{
    assert(s.take(i + 1).drop_last() =~= s.take(i));
}

/// Appends `r`'s statement when there is a run.
fn emit_flushed(out: &mut String, registry: &mut HelperRegistry, r: Option<Run>)
    ensures
        final(out)@ == old(out)@ + match r {
            Some(x) => statement_text(x),
            None => Seq::<char>::empty(),
        },
        final(registry)@ == match r {
            Some(x) => old(registry)@.insert(x.kind),
            None => old(registry)@,
        },
{
    match r {
        Some(x) => emit(out, registry, x),
        None => {
            assert(out@ + Seq::<char>::empty() =~= out@);
        },
    }
}

/// The working state of one pass: the encoder, the validator, the helper
/// registry and the cell estimator, updated together character by character.
struct Translator {
    encoder: Encoder,
    balance: BalanceValidator,
    registry: HelperRegistry,
    cells: CellEstimator,
}

impl Translator {
    /// The working state stands for the model state `st` of a pass that has
    /// not stopped.
    spec fn agrees(&self, st: ScanState) -> bool {
        &&& !st.aborted
        &&& self.encoder.pending() == st.pending
        &&& pending_ok(st.pending)
        &&& self.balance.depth() == st.depth
        &&& self.registry@ == kinds_of(st.runs)
    }

    /// Reads one character: the exec counterpart of `step`.
    fn feed_char(&mut self, c: char, out: &mut String, st: Ghost<ScanState>, base: Ghost<Seq<char>>) -> (r: Result<(), SyntaxError>)
        requires
            old(self).agrees(st@),
            old(self).balance.depth() < usize::MAX,
            old(out)@ == base@ + body_text(st@.runs),
        ensures
            final(out)@ == base@ + body_text(step(st@, c).runs),
            r is Ok <==> !step(st@, c).aborted,
            r is Err ==> r == Err::<(), SyntaxError>(SyntaxError::UnmatchedCloseBracket),
            r is Ok ==> final(self).agrees(step(st@, c)),
            final(self).balance.depth() <= old(self).balance.depth() + 1,
            final(self).cells.explicit() == old(self).cells.explicit(),
            final(self).cells.counted() == if old(self).cells.explicit() is None && c == '>' {
                clamp_index(old(self).cells.counted() + 1)
            } else {
                old(self).cells.counted()
            },
    {
        let ghost before = st@;
        match Command::parse(c) {
            None => Ok(()),
            Some(k) => {
                self.cells.observe(k);
                if k.is_repeatable() {
                    let flushed = self.encoder.feed(k);
                    proof {
                        if let Some(x) = flushed {
                            lemma_body_push(before.runs, x);
                        }
                    }
                    emit_flushed(out, &mut self.registry, flushed);
                    assert(out@ =~= base@ + body_text(step(before, c).runs));
                    Ok(())
                } else {
                    let flushed = self.encoder.flush();
                    proof {
                        if let Some(x) = flushed {
                            lemma_body_push(before.runs, x);
                        }
                    }
                    emit_flushed(out, &mut self.registry, flushed);
                    let ghost mid = out@;
                    assert(mid =~= base@ + body_text(with_run(before.runs, before.pending)));
                    if k == Command::LoopEnd {
                        if let Err(e) = self.balance.close() {
                            return Err(e);
                        }
                    } else if k == Command::LoopStart {
                        self.balance.open();
                    }
                    proof {
                        lemma_body_push(with_run(before.runs, before.pending), single(k));
                    }
                    emit(out, &mut self.registry, Run { kind: k, count: 1 });
                    assert(out@ =~= base@ + body_text(step(before, c).runs));
                    Ok(())
                }
            },
        }
    }
}

/// Translates `source`, writing the generated program to `out` as it goes.
///
/// On an unmatched `]` the pass stops there; whatever was written must then
/// be discarded.  An unclosed `[` is reported only after the whole program
/// has been written, and that text must be discarded too.
pub fn translate_into(source: &str, initial_cells: Option<usize>, out: &mut String) -> (r: Result<(), SyntaxError>)
    requires
        source@.len() <= usize::MAX,
    ensures
        r == translation_result(source@),
        final(out)@ == old(out)@ + emitted_text(source@, initial_cells),
{
    let ghost s = source@;
    let ghost start = out@;
    let mut t = Translator {
        encoder: Encoder::new(),
        balance: BalanceValidator::new(),
        registry: HelperRegistry::new(),
        cells: CellEstimator::new(initial_cells),
    };
    emit_prelude(out);
    let ghost base = out@;
    assert(t.registry@ =~= kinds_of(Seq::<Run>::empty()));
    assert(s.take(0) =~= Seq::<char>::empty());
    assert(out@ =~= base + body_text(Seq::<Run>::empty()));
    for c in it: source.chars()
        invariant
            s == source@,
            it.seq() == s,
            s.len() <= usize::MAX,
            start == old(out)@,
            base == start + prelude_text(),
            out@ == base + body_text(scan(s.take(it.index() as int)).runs),
            t.agrees(scan(s.take(it.index() as int))),
            t.balance.depth() <= it.index(),
            t.cells.explicit() == initial_cells,
            initial_cells is None ==> t.cells.counted() == clamp_index(right_moves(s.take(it.index() as int))),
    {
        let ghost i = it.index() as int;
        proof {
            lemma_scan_prefix(s, i);
        }
        let r = t.feed_char(c, out, Ghost(scan(s.take(i))), Ghost(base));
        if r.is_err() {
            proof {
                lemma_aborted_stays(s, i + 1);
            }
            assert(out@ =~= start + emitted_text(s, initial_cells));
            return r;
        }
    }
    assert(s.take(s.len() as int) =~= s);
    let last = t.encoder.flush();
    proof {
        if let Some(x) = last {
            lemma_body_push(scan(s).runs, x);
        }
    }
    emit_flushed(out, &mut t.registry, last);
    emit_init(out, t.cells.hint());
    t.registry.append_helpers(out);
    assert(out@ =~= start + emitted_text(s, initial_cells));
    t.balance.finish()
}

/// Once a pass has stopped, further characters change nothing.
proof fn lemma_aborted_stays(s: Seq<char>, i: int)
    requires
        0 <= i <= s.len(),
        scan(s.take(i)).aborted,
    ensures
        scan(s) == scan(s.take(i)),
    decreases s.len() - i,
{
    if i < s.len() {
        lemma_scan_prefix(s, i);
        lemma_aborted_stays(s, i + 1);
    } else {
        assert(s.take(i) =~= s);
    }
}

/// Translates `source` into the text of an equivalent Rust program.
///
/// `initial_cells` seeds the tape's initial capacity; without it the number
/// of `>` characters in the source is used.  Any syntax error discards the
/// text produced.
pub fn translate(source: &str, initial_cells: Option<usize>) -> (r: Result<String, SyntaxError>)
    requires
        source@.len() <= usize::MAX,
    ensures
        match r {
            Ok(code) => translation_result(source@) is Ok && code@ == program_text(source@, initial_cells),
            Err(e) => translation_result(source@) == Err::<(), SyntaxError>(e),
        },
{
    let mut out = String::new();
    match translate_into(source, initial_cells, &mut out) {
        Ok(()) => {
            assert(out@ =~= program_text(source@, initial_cells));
            Ok(out)
        },
        Err(e) => Err(e),
    }
}

} // verus!
