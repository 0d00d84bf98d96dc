//! The text of the generated program.
use vstd::prelude::*;
use crate::command::{Command, repeatable};
use crate::encoder::Run;
use crate::registry::HelperRegistry;

verus! {

/// The leading text of the statement for a command.  For a repeatable
/// command it is an unfinished helper call that the run's count completes;
/// for any other command it is the whole statement.
#[verifier::opaque]
pub open spec fn statement_head(k: Command) -> Seq<char> {
    match k {
        Command::Inc => "    cinc(&mut v, i, "@,
        Command::Dec => "    cdec(&mut v, i, "@,
        Command::MoveRight => "    pinc(&mut v, &mut i, "@,
        Command::MoveLeft => "    pdec(&mut i, "@,
        Command::Read => "    if !rc(&mut v, i, &mut stdin_buf, &mut buf_p) { return; }\n"@,
        Command::Write => "    wc(v[i]);\n"@,
        Command::LoopStart => "    while v[i] != 0 {\n"@,
        Command::LoopEnd => "    }\n"@,
    }
}

/// The decimal digit `d`.
pub open spec fn digit_char(d: nat) -> char {
    if d == 0 { '0' }
    else if d == 1 { '1' }
    else if d == 2 { '2' }
    else if d == 3 { '3' }
    else if d == 4 { '4' }
    else if d == 5 { '5' }
    else if d == 6 { '6' }
    else if d == 7 { '7' }
    else if d == 8 { '8' }
    else { '9' }
}

/// `n` in decimal, without leading zeros.
pub open spec fn decimal(n: nat) -> Seq<char>
    decreases n,
{
    if n < 10 {
        seq![digit_char(n)]
    } else {
        decimal(n / 10).push(digit_char(n % 10))
    }
}

/// The closing text of a helper call.
pub open spec fn call_end() -> Seq<char> {
    ");\n"@
}

/// The statement that a run becomes.
pub open spec fn statement_text(r: Run) -> Seq<char> {
    if repeatable(r.kind) {
        statement_head(r.kind) + decimal(r.count as nat) + call_end()
    } else {
        statement_head(r.kind)
    }
}

/// The statements of a sequence of runs, in order.
pub open spec fn body_text(runs: Seq<Run>) -> Seq<char>
    decreases runs.len(),
{
    if runs.len() == 0 {
        Seq::empty()
    } else {
        body_text(runs.drop_last()) + statement_text(runs.last())
    }
}

/// The kinds of the runs in a sequence.
pub open spec fn kinds_of(runs: Seq<Run>) -> Set<Command> {
    Set::new(|k: Command| exists|i: int| 0 <= i < runs.len() && #[trigger] runs[i].kind == k)
}

/// The opening of the generated `main`, up to the first statement.
pub open spec fn prelude_text() -> Seq<char> {
    "#[allow(unused_variables)]
#[allow(unused_mut)]
fn main() {
    let mut stdin_buf = String::new();
    let mut buf_p = 0usize;
    let mut v = init_cells();
    let mut i = 0usize;
    v.push(0);
"@
}

/// The text between the last statement and the capacity hint.
pub open spec fn init_head() -> Seq<char> {
    "}

fn init_cells() -> Vec<u8> {
    Vec::<u8>::with_capacity("@
}

/// The text after the capacity hint.
pub open spec fn init_tail() -> Seq<char> {
    ")
}
"@
}

/// The end of `main` and the tape initialiser seeded with `hint`.
pub open spec fn init_text(hint: nat) -> Seq<char> {
    init_head() + decimal(hint) + init_tail()
}

/// Appending a run appends its statement and adds its kind.
pub proof fn lemma_body_push(runs: Seq<Run>, r: Run)
    ensures
        body_text(runs.push(r)) == body_text(runs) + statement_text(r),
        kinds_of(runs.push(r)) == kinds_of(runs).insert(r.kind),
{
    assert(runs.push(r).drop_last() =~= runs);
    let ks = kinds_of(runs.push(r));
    assert forall|k: Command| ks.contains(k) <==> kinds_of(runs).insert(r.kind).contains(k) by {
        if kinds_of(runs).contains(k) {
            let i = choose|i: int| 0 <= i < runs.len() && #[trigger] runs[i].kind == k;
            assert(runs.push(r)[i].kind == k);
        }
        if k == r.kind {
            assert(runs.push(r)[runs.len() as int].kind == k);
        }
        if ks.contains(k) {
            let i = choose|i: int| 0 <= i < runs.len() + 1 && #[trigger] runs.push(r)[i].kind == k;
            if i < runs.len() {
                assert(runs[i].kind == k);
            }
        }
    }
    assert(ks =~= kinds_of(runs).insert(r.kind));
}

/// Appends the decimal digit `d`.
fn push_digit(out: &mut String, d: u64)
    requires
        d < 10,
    ensures
        final(out)@ == old(out)@.push(digit_char(d as nat)),
{
    let s: &str = if d == 0 {
        proof { reveal_strlit("0"); }
        "0"
    } else if d == 1 {
        proof { reveal_strlit("1"); }
        "1"
    } else if d == 2 {
        proof { reveal_strlit("2"); }
        "2"
    } else if d == 3 {
        proof { reveal_strlit("3"); }
        "3"
    } else if d == 4 {
        proof { reveal_strlit("4"); }
        "4"
    } else if d == 5 {
        proof { reveal_strlit("5"); }
        "5"
    } else if d == 6 {
        proof { reveal_strlit("6"); }
        "6"
    } else if d == 7 {
        proof { reveal_strlit("7"); }
        "7"
    } else if d == 8 {
        proof { reveal_strlit("8"); }
        "8"
    } else {
        proof { reveal_strlit("9"); }
        "9"
    };
    assert(s@ =~= seq![digit_char(d as nat)]);
    out.append(s);
    assert(out@ =~= old(out)@.push(digit_char(d as nat)));
}

/// Appends `n` in decimal.
pub fn push_decimal(out: &mut String, n: u64)
    ensures
        final(out)@ == old(out)@ + decimal(n as nat),
    decreases n,
{
    if n < 10 {
        push_digit(out, n);
        assert(out@ =~= old(out)@ + decimal(n as nat));
    } else {
        push_decimal(out, n / 10);
        push_digit(out, n % 10);
        assert(out@ =~= old(out)@ + decimal(n as nat));
    }
}

/// The leading text of the statement for `k`.
fn head_of(k: Command) -> (r: &'static str)
    ensures
        r@ == statement_head(k),
{
    reveal(statement_head);
    match k {
        Command::Inc => "    cinc(&mut v, i, ",
        Command::Dec => "    cdec(&mut v, i, ",
        Command::MoveRight => "    pinc(&mut v, &mut i, ",
        Command::MoveLeft => "    pdec(&mut i, ",
        Command::Read => "    if !rc(&mut v, i, &mut stdin_buf, &mut buf_p) { return; }\n",
        Command::Write => "    wc(v[i]);\n",
        Command::LoopStart => "    while v[i] != 0 {\n",
        Command::LoopEnd => "    }\n",
    }
}

/// Writes the statement of one run and marks its helper as used.
pub fn emit(out: &mut String, registry: &mut HelperRegistry, r: Run)
    ensures
        final(out)@ == old(out)@ + statement_text(r),
        final(registry)@ == old(registry)@.insert(r.kind),
{
    out.append(head_of(r.kind));
    if r.kind.is_repeatable() {
        push_decimal(out, r.count);
        out.append(");\n");
        assert(out@ =~= old(out)@ + statement_text(r));
    }
    registry.mark(r.kind);
}

/// Appends the opening of the generated `main`.
pub fn emit_prelude(out: &mut String)
    ensures
        final(out)@ == old(out)@ + prelude_text(),
{
    out.append("#[allow(unused_variables)]
#[allow(unused_mut)]
fn main() {
    let mut stdin_buf = String::new();
    let mut buf_p = 0usize;
    let mut v = init_cells();
    let mut i = 0usize;
    v.push(0);
");
}

/// Closes `main` and appends the tape initialiser seeded with `hint`.
pub fn emit_init(out: &mut String, hint: usize)
    ensures
        final(out)@ == old(out)@ + init_text(hint as nat),
{
    out.append("}

fn init_cells() -> Vec<u8> {
    Vec::<u8>::with_capacity(");
    push_decimal(out, hint as u64);
    out.append(")
}
");
    assert(out@ =~= old(out)@ + init_text(hint as nat));
}

} // verus!
