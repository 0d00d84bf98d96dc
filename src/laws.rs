//! Properties of the whole translation, stated over the model of the pass.
use vstd::prelude::*;
use crate::balance::SyntaxError;
use crate::cells::capacity_hint;
use crate::command::{Command, command_of, repeatable, symbol_of, lemma_symbol_round_trip};
use crate::emitter::{body_text, init_text, kinds_of, lemma_body_push, prelude_text};
use crate::encoder::{Run, pending_ok, single};
use crate::registry::helpers_text;
use crate::translate::{emitted_text, final_runs, initial_state, scan, translation_result, with_run};

verus! {

/// Open loops minus closed loops over the whole text.
pub open spec fn nesting(s: Seq<char>) -> int
    decreases s.len(),
{
    if s.len() == 0 {
        0
    } else {
        nesting(s.drop_last()) + if s.last() == '[' {
            1int
        } else if s.last() == ']' {
            -1int
        } else {
            0int
        }
    }
}

/// No prefix closes more loops than it opens.
pub open spec fn never_overclosed(s: Seq<char>) -> bool {
    forall|i: int| 0 <= i <= s.len() ==> nesting(#[trigger] s.take(i)) >= 0
}

/// The brackets of `s` are balanced: every `]` closes an earlier `[`, and
/// every `[` is closed.
pub open spec fn balanced(s: Seq<char>) -> bool {
    never_overclosed(s) && nesting(s) == 0
}

/// The kinds of the commands that occur in `s`.
pub open spec fn kinds_in(s: Seq<char>) -> Set<Command> {
    Set::new(|k: Command| exists|i: int| 0 <= i < s.len() && command_of(#[trigger] s[i]) == Some(k))
}

proof fn lemma_take_of_drop_last(s: Seq<char>, i: int)
    requires
        s.len() > 0,
        0 <= i < s.len(),
    ensures
        s.take(i) == s.drop_last().take(i),
{
    assert(s.take(i) =~= s.drop_last().take(i));
}

/// The validator's depth is the nesting of what was read, and the pass stops
/// exactly when some prefix closes a loop that is not open.
proof fn lemma_depth_is_nesting(s: Seq<char>)
    ensures
        !scan(s).aborted <==> never_overclosed(s),
        !scan(s).aborted ==> scan(s).depth == nesting(s),
    decreases s.len(),
{
    if s.len() == 0 {
        assert forall|i: int| 0 <= i <= s.len() implies nesting(#[trigger] s.take(i)) >= 0 by {
            assert(s.take(i) =~= s);
        }
    } else {
        let t = s.drop_last();
        lemma_depth_is_nesting(t);
        assert(s.take(s.len() as int) =~= s);
        if never_overclosed(s) {
            assert forall|i: int| 0 <= i <= t.len() implies nesting(#[trigger] t.take(i)) >= 0 by {
                if i < s.len() {
                    lemma_take_of_drop_last(s, i);
                }
                assert(nesting(s.take(i)) >= 0);
            }
        }
        if !scan(t).aborted && nesting(s) >= 0 {
            assert forall|i: int| 0 <= i <= s.len() implies nesting(#[trigger] s.take(i)) >= 0 by {
                if i < s.len() {
                    lemma_take_of_drop_last(s, i);
                    assert(nesting(t.take(i)) >= 0);
                }
            }
        }
    }
}

/// A source translates without error exactly when its brackets are
/// balanced; the validator's depth is then back at zero.
pub proof fn lemma_balanced_iff_success(s: Seq<char>)
    ensures
        balanced(s) <==> translation_result(s) == Ok::<(), SyntaxError>(()),
        balanced(s) ==> !scan(s).aborted && scan(s).depth == 0,
{
    lemma_depth_is_nesting(s);
}

/// A source of comment characters alone translates without error into a
/// program with no statement and no helper.
pub proof fn lemma_comments_only(s: Seq<char>, initial_cells: Option<usize>)
    requires
        forall|i: int| 0 <= i < s.len() ==> command_of(#[trigger] s[i]) is None,
    ensures
        translation_result(s) == Ok::<(), SyntaxError>(()),
        final_runs(s) == Seq::<Run>::empty(),
        emitted_text(s, initial_cells) == prelude_text() + init_text(capacity_hint(s, initial_cells)),
    decreases s.len(),
{
    lemma_scan_comments_only(s);
    assert(kinds_of(Seq::<Run>::empty()) =~= Set::<Command>::empty());
    assert(helpers_text(Set::<Command>::empty()) =~= Seq::<char>::empty());
    assert(body_text(Seq::<Run>::empty()) =~= Seq::<char>::empty());
    assert(emitted_text(s, initial_cells) =~= prelude_text() + init_text(capacity_hint(s, initial_cells)));
}

proof fn lemma_scan_comments_only(s: Seq<char>)
    requires
        forall|i: int| 0 <= i < s.len() ==> command_of(#[trigger] s[i]) is None,
    ensures
        scan(s) == initial_state(),
    decreases s.len(),
{
    if s.len() > 0 {
        let t = s.drop_last();
        assert forall|i: int| 0 <= i < t.len() implies command_of(#[trigger] t[i]) is None by {
            assert(t[i] == s[i]);
        }
        lemma_scan_comments_only(t);
        assert(command_of(s[s.len() - 1]) is None);
    }
}

/// The kinds of the runs of a pass that has not stopped are the kinds of the
/// commands read.
proof fn lemma_kinds_of_runs(s: Seq<char>)
    ensures
        !scan(s).aborted ==> kinds_of(final_runs(s)) == kinds_in(s),
    decreases s.len(),
{
    if s.len() == 0 {
        assert(kinds_of(final_runs(s)) =~= kinds_in(s));
    } else {
        let t = s.drop_last();
        let c = s.last();
        lemma_kinds_of_runs(t);
        let st = scan(t);
        if !scan(s).aborted {
            let before = with_run(st.runs, st.pending);
            match st.pending {
                Some(p) => lemma_body_push(st.runs, p),
                None => {},
            }
            match command_of(c) {
                None => {},
                Some(k) => {
                    match scan(s).pending {
                        Some(q) => lemma_body_push(scan(s).runs, q),
                        None => {},
                    }
                    match st.pending {
                        Some(p) => lemma_body_push(st.runs.push(p), single(k)),
                        None => {},
                    }
                    lemma_body_push(before, single(k));
                },
            }
            assert forall|k: Command| kinds_in(s).contains(k) <==> #[trigger] kinds_in(t).contains(k)
                || command_of(c) == Some(k) by {
                if kinds_in(t).contains(k) {
                    let i = choose|i: int| 0 <= i < t.len() && command_of(#[trigger] t[i]) == Some(k);
                    assert(s[i] == t[i]);
                }
                if kinds_in(s).contains(k) {
                    let i = choose|i: int| 0 <= i < s.len() && command_of(#[trigger] s[i]) == Some(k);
                    if i < t.len() {
                        assert(s[i] == t[i]);
                    }
                }
                if command_of(c) == Some(k) {
                    assert(command_of(s[s.len() - 1]) == Some(k));
                }
            }
            assert(kinds_of(final_runs(s)) =~= kinds_in(s));
        }
    }
}

/// The program of a source that is not stopped by an unmatched `]` defines
/// the helper of a command exactly when that command's symbol occurs in the
/// source.
pub proof fn lemma_helpers_follow_usage(s: Seq<char>, initial_cells: Option<usize>, k: Command)
    requires
        !scan(s).aborted,
    ensures
        emitted_text(s, initial_cells) == prelude_text() + body_text(final_runs(s)) + init_text(
            capacity_hint(s, initial_cells),
        ) + helpers_text(kinds_in(s)),
        kinds_in(s).contains(k) <==> s.contains(symbol_of(k)),
{
    lemma_kinds_of_runs(s);
    if s.contains(symbol_of(k)) {
        let i = choose|i: int| 0 <= i < s.len() && s[i] == symbol_of(k);
        lemma_symbol_round_trip(k, s[i]);
    }
    if kinds_in(s).contains(k) {
        let i = choose|i: int| 0 <= i < s.len() && command_of(#[trigger] s[i]) == Some(k);
        lemma_symbol_round_trip(k, s[i]);
    }
}

/// The commands of `s`, in order, comments left out.
pub open spec fn commands_in(s: Seq<char>) -> Seq<Command>
    decreases s.len(),
{
    if s.len() == 0 {
        Seq::empty()
    } else {
        match command_of(s.last()) {
            Some(k) => commands_in(s.drop_last()).push(k),
            None => commands_in(s.drop_last()),
        }
    }
}

/// The commands that a run stands for.
pub open spec fn repeated(r: Run) -> Seq<Command> {
    Seq::new(r.count as nat, |_i: int| r.kind)
}

/// The commands that a sequence of runs stands for, in order.
pub open spec fn expand(runs: Seq<Run>) -> Seq<Command>
    decreases runs.len(),
{
    if runs.len() == 0 {
        Seq::empty()
    } else {
        expand(runs.drop_last()) + repeated(runs.last())
    }
}

/// Every run is non-empty, only repeatable commands have runs longer than
/// one, and two neighbouring runs of one repeatable kind occur only where
/// the first has reached the largest count.
pub open spec fn coalesced(runs: Seq<Run>) -> bool {
    &&& forall|i: int|
        0 <= i < runs.len() ==> (#[trigger] runs[i]).count >= 1 && (!repeatable(runs[i].kind)
            ==> runs[i].count == 1)
    &&& forall|i: int, j: int|
        0 <= i && j == i + 1 && j < runs.len() && (#[trigger] runs[i]).kind == (#[trigger] runs[j]).kind
            && repeatable(runs[i].kind) ==> runs[i].count == u64::MAX
}

proof fn lemma_expand_push(runs: Seq<Run>, r: Run)
    ensures
        expand(runs.push(r)) == expand(runs) + repeated(r),
{
    assert(runs.push(r).drop_last() =~= runs);
}

proof fn lemma_coalesced_push(runs: Seq<Run>, r: Run)
    requires
        coalesced(runs),
        r.count >= 1,
        !repeatable(r.kind) ==> r.count == 1,
        runs.len() > 0 && runs.last().kind == r.kind && repeatable(r.kind) ==> runs.last().count
            == u64::MAX,
    ensures
        coalesced(runs.push(r)),
{
    let n = runs.push(r);
    assert forall|i: int, j: int|
        0 <= i && j == i + 1 && j < n.len() && (#[trigger] n[i]).kind == (#[trigger] n[j]).kind
            && repeatable(n[i].kind) implies n[i].count == u64::MAX by {
        if j < runs.len() {
            assert(n[i] == runs[i] && n[j] == runs[j]);
        } else {
            assert(n[i] == runs.last());
        }
    }
    assert forall|i: int| 0 <= i < n.len() implies (#[trigger] n[i]).count >= 1 && (!repeatable(
        n[i].kind,
    ) ==> n[i].count == 1) by {
        if i < runs.len() {
            assert(n[i] == runs[i]);
        }
    }
}

proof fn lemma_coalesced_drop_last(runs: Seq<Run>)
    requires
        coalesced(runs),
        runs.len() > 0,
    ensures
        coalesced(runs.drop_last()),
        runs.last().count >= 1,
        runs.len() > 1 && runs[runs.len() - 2].kind == runs.last().kind && repeatable(runs.last().kind)
            ==> runs[runs.len() - 2].count == u64::MAX,
{
    let d = runs.drop_last();
    assert(runs.last() == runs[runs.len() - 1]);
    assert forall|i: int, j: int|
        0 <= i && j == i + 1 && j < d.len() && (#[trigger] d[i]).kind == (#[trigger] d[j]).kind
            && repeatable(d[i].kind) implies d[i].count == u64::MAX by {
        assert(d[i] == runs[i] && d[j] == runs[j]);
    }
    assert forall|i: int| 0 <= i < d.len() implies (#[trigger] d[i]).count >= 1 && (!repeatable(
        d[i].kind,
    ) ==> d[i].count == 1) by {
        assert(d[i] == runs[i]);
    }
    if runs.len() > 1 {
        let i = runs.len() - 2;
        let j = runs.len() - 1;
        assert(runs[i].kind == runs[j].kind && repeatable(runs[i].kind) ==> runs[i].count == u64::MAX);
    }
}

/// What holds of every state that a pass reaches without stopping.
proof fn lemma_runs_cover_commands(s: Seq<char>)
    ensures
        !scan(s).aborted ==> {
            &&& expand(final_runs(s)) == commands_in(s)
            &&& coalesced(final_runs(s))
            &&& pending_ok(scan(s).pending)
            &&& scan(s).pending is None && scan(s).runs.len() > 0 ==> !repeatable(
                scan(s).runs.last().kind,
            )
        },
    decreases s.len(),
{
    if s.len() == 0 {
        assert(expand(final_runs(s)) =~= commands_in(s));
    } else {
        let t = s.drop_last();
        let c = s.last();
        lemma_runs_cover_commands(t);
        let st = scan(t);
        if !scan(s).aborted {
            match command_of(c) {
                None => {},
                Some(k) => {
                    assert(repeated(single(k)) =~= seq![k]);
                    if repeatable(k) {
                        match st.pending {
                            Some(p) => {
                                lemma_coalesced_drop_last(st.runs.push(p));
                                assert(st.runs.push(p).drop_last() =~= st.runs);
                                lemma_expand_push(st.runs, p);
                                if p.kind == k && p.count < u64::MAX {
                                    let q = Run { kind: k, count: (p.count + 1) as u64 };
                                    lemma_expand_push(st.runs, q);
                                    assert(repeated(q) =~= repeated(p).push(k));
                                    assert(expand(st.runs) + repeated(p).push(k) =~= (expand(
                                        st.runs,
                                    ) + repeated(p)).push(k));
                                    if st.runs.len() > 0 {
                                        assert(st.runs.push(p)[st.runs.len() - 1] == st.runs.last());
                                    }
                                    lemma_coalesced_push(st.runs, q);
                                } else {
                                    lemma_expand_push(st.runs.push(p), single(k));
                                    lemma_coalesced_push(st.runs.push(p), single(k));
                                }
                            },
                            None => {
                                lemma_expand_push(st.runs, single(k));
                                lemma_coalesced_push(st.runs, single(k));
                            },
                        }
                    } else {
                        let before = with_run(st.runs, st.pending);
                        lemma_expand_push(before, single(k));
                        lemma_coalesced_push(before, single(k));
                    }
                },
            }
        }
    }
}

/// Run-length encoding loses and invents nothing: the runs of a pass that
/// is not stopped by an unmatched `]` spell out exactly the commands of the
/// source, and they are maximal: a change of kind always starts a new run,
/// and a run of one repeatable kind is followed by another of that kind only
/// once its count has saturated.
pub proof fn lemma_runs_spell_source(s: Seq<char>)
    requires
        !scan(s).aborted,
    ensures
        expand(final_runs(s)) == commands_in(s),
        coalesced(final_runs(s)),
{
    lemma_runs_cover_commands(s);
}

} // verus!
