//! The runtime helpers of the generated program, and which of them it needs.
use vstd::prelude::*;
use crate::command::Command;

verus! {

/// The source of the runtime helper behind each command's statements.
/// Loops are native `while` loops and need no helper.
#[verifier::opaque]
pub open spec fn helper_text(k: Command) -> Seq<char> {
    match k {
        Command::Inc => "
fn cinc(v: &mut Vec<u8>, i: usize, x: u64) {
    v[i] = v[i].wrapping_add(x as u8);
}
"@,
        Command::Dec => "
fn cdec(v: &mut Vec<u8>, i: usize, x: u64) {
    v[i] = v[i].wrapping_sub(x as u8);
}
"@,
        Command::MoveRight => "
fn pinc(v: &mut Vec<u8>, i: &mut usize, x: usize) {
    if *i > usize::MAX - x {
        panic!(\"Right bound reached.\");
    } else {
        *i += x;
        if *i >= v.len() {
            v.resize(1 + *i, 0);
        }
    }
}
"@,
        Command::MoveLeft => "
fn pdec(i: &mut usize, x: usize) {
    if *i < x {
        panic!(\"Left bound reached.\");
    } else {
        *i -= x;
    }
}
"@,
        Command::Read => "
fn rc(v: &mut Vec<u8>, i: usize, buf: &mut String, buf_p: &mut usize) -> bool {
    if *buf_p >= buf.len() {
        buf.clear();
        std::io::stdin().read_line(buf).expect(\"Couldn't read from stdin.\");
        if buf.len() == 0 {
            return false;
        } else {
            *buf_p = 0;
        }
    }
    v[i] = buf.as_bytes()[*buf_p];
    *buf_p += 1;
    true
}
"@,
        Command::Write => "
fn wc(c: u8) {
    use std::io::Write;
    std::io::stdout().write_all(&[c]).expect(\"Couldn't write to stdout.\");
}
"@,
        Command::LoopStart => ""@,
        Command::LoopEnd => ""@,
    }
}

/// The helper of `k` if `k` is among `used`, else nothing.
pub open spec fn helper_section(used: Set<Command>, k: Command) -> Seq<char> {
    if used.contains(k) { helper_text(k) } else { Seq::empty() }
}

/// The definitions of the used helpers, in the order of the command alphabet.
pub open spec fn helpers_text(used: Set<Command>) -> Seq<char> {
    helper_section(used, Command::Inc)
        + helper_section(used, Command::Dec)
        + helper_section(used, Command::MoveRight)
        + helper_section(used, Command::MoveLeft)
        + helper_section(used, Command::Read)
        + helper_section(used, Command::Write)
        + helper_section(used, Command::LoopStart)
        + helper_section(used, Command::LoopEnd)
}

/// The source of the helper behind `k`'s statements.
pub fn helper_source(k: Command) -> (r: &'static str)
    ensures
        r@ == helper_text(k),
{
    reveal(helper_text);
    match k {
        Command::Inc => "
fn cinc(v: &mut Vec<u8>, i: usize, x: u64) {
    v[i] = v[i].wrapping_add(x as u8);
}
",
        Command::Dec => "
fn cdec(v: &mut Vec<u8>, i: usize, x: u64) {
    v[i] = v[i].wrapping_sub(x as u8);
}
",
        Command::MoveRight => "
fn pinc(v: &mut Vec<u8>, i: &mut usize, x: usize) {
    if *i > usize::MAX - x {
        panic!(\"Right bound reached.\");
    } else {
        *i += x;
        if *i >= v.len() {
            v.resize(1 + *i, 0);
        }
    }
}
",
        Command::MoveLeft => "
fn pdec(i: &mut usize, x: usize) {
    if *i < x {
        panic!(\"Left bound reached.\");
    } else {
        *i -= x;
    }
}
",
        Command::Read => "
fn rc(v: &mut Vec<u8>, i: usize, buf: &mut String, buf_p: &mut usize) -> bool {
    if *buf_p >= buf.len() {
        buf.clear();
        std::io::stdin().read_line(buf).expect(\"Couldn't read from stdin.\");
        if buf.len() == 0 {
            return false;
        } else {
            *buf_p = 0;
        }
    }
    v[i] = buf.as_bytes()[*buf_p];
    *buf_p += 1;
    true
}
",
        Command::Write => "
fn wc(c: u8) {
    use std::io::Write;
    std::io::stdout().write_all(&[c]).expect(\"Couldn't write to stdout.\");
}
",
        Command::LoopStart => "",
        Command::LoopEnd => "",
    }
}

/// One flag per command: whether a statement of that kind has been emitted.
pub struct HelperRegistry {
    inc: bool,
    dec: bool,
    move_right: bool,
    move_left: bool,
    read: bool,
    write: bool,
    loop_start: bool,
    loop_end: bool,
}

impl View for HelperRegistry {
    type V = Set<Command>;

    /// The kinds marked as used.
    closed spec fn view(&self) -> Set<Command> {
        Set::new(
            |k: Command|
                match k {
                    Command::Inc => self.inc,
                    Command::Dec => self.dec,
                    Command::MoveRight => self.move_right,
                    Command::MoveLeft => self.move_left,
                    Command::Read => self.read,
                    Command::Write => self.write,
                    Command::LoopStart => self.loop_start,
                    Command::LoopEnd => self.loop_end,
                },
        )
    }
}

impl HelperRegistry {
    /// A registry with no kind marked.
    pub fn new() -> (r: HelperRegistry)
        ensures
            r@ == Set::<Command>::empty(),
    {
        let r = HelperRegistry {
            inc: false,
            dec: false,
            move_right: false,
            move_left: false,
            read: false,
            write: false,
            loop_start: false,
            loop_end: false,
        };
        assert(r@ =~= Set::<Command>::empty());
        r
    }

    /// Whether `k` has been marked.
    pub fn is_used(&self, k: Command) -> (r: bool)
        ensures
            r == self@.contains(k),
    {
        match k {
            Command::Inc => self.inc,
            Command::Dec => self.dec,
            Command::MoveRight => self.move_right,
            Command::MoveLeft => self.move_left,
            Command::Read => self.read,
            Command::Write => self.write,
            Command::LoopStart => self.loop_start,
            Command::LoopEnd => self.loop_end,
        }
    }

    /// Records that a statement of kind `k` was emitted.
    pub fn mark(&mut self, k: Command)
        ensures
            final(self)@ == old(self)@.insert(k),
    {
        match k {
            Command::Inc => self.inc = true,
            Command::Dec => self.dec = true,
            Command::MoveRight => self.move_right = true,
            Command::MoveLeft => self.move_left = true,
            Command::Read => self.read = true,
            Command::Write => self.write = true,
            Command::LoopStart => self.loop_start = true,
            Command::LoopEnd => self.loop_end = true,
        }
        assert(self@ =~= old(self)@.insert(k));
    }

    /// Appends the definition of `k`'s helper when `k` is marked.
    fn append_section(&self, out: &mut String, k: Command)
        ensures
            final(out)@ == old(out)@ + helper_section(self@, k),
    {
        if self.is_used(k) {
            out.append(helper_source(k));
        } else {
            assert(old(out)@ + Seq::<char>::empty() =~= old(out)@);
        }
    }

    /// Appends the definitions of all marked helpers, and of no other.
    pub fn append_helpers(&self, out: &mut String)
        ensures
            final(out)@ == old(out)@ + helpers_text(self@),
    {
        let ghost start = out@;
        let ghost mut done: Seq<char> = Seq::empty();
        assert(out@ =~= start + done);
        self.append_section(out, Command::Inc);
        proof {
            let sec = helper_section(self@, Command::Inc);
            assert(out@ =~= start + (done + sec));
            done = done + sec;
        }
        self.append_section(out, Command::Dec);
        proof {
            let sec = helper_section(self@, Command::Dec);
            assert(out@ =~= start + (done + sec));
            done = done + sec;
        }
        self.append_section(out, Command::MoveRight);
        proof {
            let sec = helper_section(self@, Command::MoveRight);
            assert(out@ =~= start + (done + sec));
            done = done + sec;
        }
        self.append_section(out, Command::MoveLeft);
        proof {
            let sec = helper_section(self@, Command::MoveLeft);
            assert(out@ =~= start + (done + sec));
            done = done + sec;
        }
        self.append_section(out, Command::Read);
        proof {
            let sec = helper_section(self@, Command::Read);
            assert(out@ =~= start + (done + sec));
            done = done + sec;
        }
        self.append_section(out, Command::Write);
        proof {
            let sec = helper_section(self@, Command::Write);
            assert(out@ =~= start + (done + sec));
            done = done + sec;
        }
        self.append_section(out, Command::LoopStart);
        proof {
            let sec = helper_section(self@, Command::LoopStart);
            assert(out@ =~= start + (done + sec));
            done = done + sec;
        }
        self.append_section(out, Command::LoopEnd);
        proof {
            let sec = helper_section(self@, Command::LoopEnd);
            assert(out@ =~= start + (done + sec));
            done = done + sec;
        }
        assert(done == helpers_text(self@));
    }
}

} // verus!
