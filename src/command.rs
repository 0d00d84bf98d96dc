//! The eight Brainfuck commands and how source characters map onto them.
use vstd::prelude::*;

verus! {

/// One of the eight Brainfuck commands.
#[derive(Clone, Copy, Debug, PartialEq, Eq, Structural)]
pub enum Command {
    /// `+`: add one to the current cell.
    Inc,
    /// `-`: subtract one from the current cell.
    Dec,
    /// `>`: move the pointer one cell to the right.
    MoveRight,
    /// `<`: move the pointer one cell to the left.
    MoveLeft,
    /// `,`: read one byte of input into the current cell.
    Read,
    /// `.`: write the current cell as one byte of output.
    Write,
    /// `[`: loop while the current cell is non-zero.
    LoopStart,
    /// `]`: end of the innermost open loop.
    LoopEnd,
}

/// The command that a source character stands for, if any.  Every other
/// character is a comment.
pub open spec fn command_of(c: char) -> Option<Command> {
    if c == '+' {
        Some(Command::Inc)
    } else if c == '-' {
        Some(Command::Dec)
    } else if c == '>' {
        Some(Command::MoveRight)
    } else if c == '<' {
        Some(Command::MoveLeft)
    } else if c == ',' {
        Some(Command::Read)
    } else if c == '.' {
        Some(Command::Write)
    } else if c == '[' {
        Some(Command::LoopStart)
    } else if c == ']' {
        Some(Command::LoopEnd)
    } else {
        None
    }
}

/// The source character of each command.
pub open spec fn symbol_of(k: Command) -> char {
    match k {
        Command::Inc => '+',
        Command::Dec => '-',
        Command::MoveRight => '>',
        Command::MoveLeft => '<',
        Command::Read => ',',
        Command::Write => '.',
        Command::LoopStart => '[',
        Command::LoopEnd => ']',
    }
}

/// Commands whose consecutive repetitions are coalesced into one run.
pub open spec fn repeatable(k: Command) -> bool {
    match k {
        Command::Inc | Command::Dec | Command::MoveRight | Command::MoveLeft => true,
        _ => false,
    }
}

/// Every command is the meaning of its own symbol, and of no other character.
pub proof fn lemma_symbol_round_trip(k: Command, c: char)
    ensures
        command_of(symbol_of(k)) == Some(k),
        command_of(c) == Some(k) <==> c == symbol_of(k),
{
}

impl Command {
    /// Recognises a source character; `None` for a comment character.
    pub fn parse(c: char) -> (r: Option<Command>)
        ensures
            r == command_of(c),
    {
        match c {
            '+' => Some(Command::Inc),
            '-' => Some(Command::Dec),
            '>' => Some(Command::MoveRight),
            '<' => Some(Command::MoveLeft),
            ',' => Some(Command::Read),
            '.' => Some(Command::Write),
            '[' => Some(Command::LoopStart),
            ']' => Some(Command::LoopEnd),
            _ => None,
        }
    }

    /// The character that stands for this command in source text.
    pub fn symbol(&self) -> (r: char)
        ensures
            r == symbol_of(*self),
    {
        match self {
            Command::Inc => '+',
            Command::Dec => '-',
            Command::MoveRight => '>',
            Command::MoveLeft => '<',
            Command::Read => ',',
            Command::Write => '.',
            Command::LoopStart => '[',
            Command::LoopEnd => ']',
        }
    }

    /// Whether repetitions of this command are coalesced into runs.
    pub fn is_repeatable(&self) -> (r: bool)
        ensures
            r == repeatable(*self),
    {
        match self {
            Command::Inc | Command::Dec | Command::MoveRight | Command::MoveLeft => true,
            _ => false,
        }
    }
}

} // verus!
