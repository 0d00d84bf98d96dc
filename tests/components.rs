use bfcr::balance::{BalanceValidator, SyntaxError};
use bfcr::cells::CellEstimator;
use bfcr::command::Command;
use bfcr::emitter::{emit, push_decimal};
use bfcr::encoder::{Encoder, Run};
use bfcr::registry::{HelperRegistry, helper_source};

#[test]
fn parse_recognises_the_alphabet() {
    let all = [
        ('+', Command::Inc),
        ('-', Command::Dec),
        ('>', Command::MoveRight),
        ('<', Command::MoveLeft),
        (',', Command::Read),
        ('.', Command::Write),
        ('[', Command::LoopStart),
        (']', Command::LoopEnd),
    ];
    for (c, k) in all {
        assert_eq!(Command::parse(c), Some(k));
        assert_eq!(k.symbol(), c);
    }
    assert_eq!(Command::parse('a'), None);
    assert_eq!(Command::parse(' '), None);
    assert_eq!(Command::parse('é'), None);
}

#[test]
fn repeatable_kinds() {
    assert!(Command::Inc.is_repeatable());
    assert!(Command::MoveLeft.is_repeatable());
    assert!(!Command::Read.is_repeatable());
    assert!(!Command::LoopEnd.is_repeatable());
}

#[test]
fn encoder_coalesces_and_flushes() {
    let mut e = Encoder::new();
    assert_eq!(e.feed(Command::MoveRight), None);
    assert_eq!(e.feed(Command::MoveRight), None);
    assert_eq!(e.feed(Command::MoveRight), None);
    assert_eq!(e.feed(Command::Inc), Some(Run { kind: Command::MoveRight, count: 3 }));
    assert_eq!(e.flush(), Some(Run { kind: Command::Inc, count: 1 }));
    assert_eq!(e.flush(), None);
}

#[test]
fn balance_validator_tracks_depth() {
    let mut b = BalanceValidator::new();
    assert_eq!(b.close(), Err(SyntaxError::UnmatchedCloseBracket));
    b.open();
    b.open();
    assert_eq!(b.finish(), Err(SyntaxError::UnmatchedOpenBracket));
    assert_eq!(b.close(), Ok(()));
    assert_eq!(b.close(), Ok(()));
    assert_eq!(b.finish(), Ok(()));
    assert_eq!(b.close(), Err(SyntaxError::UnmatchedCloseBracket));
}

#[test]
fn cell_estimator_counts_or_ignores() {
    let mut c = CellEstimator::new(None);
    c.observe(Command::MoveRight);
    c.observe(Command::Inc);
    c.observe(Command::MoveRight);
    assert_eq!(c.hint(), 2);
    let mut d = CellEstimator::new(Some(100));
    d.observe(Command::MoveRight);
    assert_eq!(d.hint(), 100);
}

#[test]
fn registry_marks_kinds() {
    let mut r = HelperRegistry::new();
    assert!(!r.is_used(Command::Read));
    r.mark(Command::Read);
    assert!(r.is_used(Command::Read));
    assert!(!r.is_used(Command::Write));
    let mut out = String::new();
    r.append_helpers(&mut out);
    assert_eq!(out, helper_source(Command::Read));
    assert!(out.contains("fn rc("));
}

#[test]
fn loops_have_no_helper() {
    assert_eq!(helper_source(Command::LoopStart), "");
    assert_eq!(helper_source(Command::LoopEnd), "");
}

#[test]
fn decimal_text() {
    let mut out = String::new();
    push_decimal(&mut out, 0);
    out.push(' ');
    push_decimal(&mut out, 1234567890);
    out.push(' ');
    push_decimal(&mut out, u64::MAX);
    assert_eq!(out, "0 1234567890 18446744073709551615");
}

#[test]
fn emit_writes_and_marks() {
    let mut out = String::new();
    let mut r = HelperRegistry::new();
    emit(&mut out, &mut r, Run { kind: Command::MoveRight, count: 42 });
    emit(&mut out, &mut r, Run { kind: Command::Write, count: 1 });
    assert_eq!(out, "    pinc(&mut v, &mut i, 42);\n    wc(v[i]);\n");
    assert!(r.is_used(Command::MoveRight));
    assert!(r.is_used(Command::Write));
    assert!(!r.is_used(Command::Inc));
}
