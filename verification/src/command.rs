//! The commands of the debugger prompt.

use vstd::prelude::*;

verus! {

/// One command of the user.
#[derive(Clone, Debug, PartialEq, Eq)]
pub enum DebuggerCommand {
    /// End the session.
    Quit,
    /// Start the program afresh with these arguments.
    Run(Vec<String>),
    /// Let a stopped program go on.
    Continue,
    /// Show the call chain at the stop point.
    Backtrace,
    /// Set a breakpoint at `*address`, a line or a function.
    Break(String),
}

/// Whether the two strings hold the same characters.
pub fn same_text(a: &str, b: &str) -> (same: bool)
    ensures
        same == (a@ == b@),
{
    let n: usize = a.unicode_len();
    if b.unicode_len() != n {
        return false;
    }
    let mut i: usize = 0;
    while i < n
        invariant
            i <= n,
            n == a@.len(),
            n == b@.len(),
            forall|j: int| 0 <= j < i ==> a@[j] == b@[j],
        decreases n - i,
    {
        if a.get_char(i) != b.get_char(i) {
            return false;
        }
        i = i + 1;
    }
    assert(a@ =~= b@);
    true
}

/// `word` is one of the three spellings of a command.
pub open spec fn spelled(word: Seq<char>, long: &str, middle: &str, short: &str) -> bool {
    word == long@ || word == middle@ || word == short@
}

/// The command that a line of tokens stands for, if it is one.
pub open spec fn command_of(tokens: Seq<String>, cmd: Option<DebuggerCommand>) -> bool {
    if tokens.len() == 0 {
        cmd.is_none()
    } else if spelled(tokens[0]@, "quit", "quit", "q") {
        cmd == Some(DebuggerCommand::Quit)
    } else if spelled(tokens[0]@, "run", "run", "r") {
        cmd matches Some(DebuggerCommand::Run(args)) && args@ == tokens.subrange(
            1,
            tokens.len() as int,
        )
    } else if spelled(tokens[0]@, "continue", "cont", "c") {
        cmd == Some(DebuggerCommand::Continue)
    } else if spelled(tokens[0]@, "backtrace", "back", "bt") {
        cmd == Some(DebuggerCommand::Backtrace)
    } else if spelled(tokens[0]@, "breakpoint", "break", "b") && tokens.len() >= 2 {
        cmd == Some(DebuggerCommand::Break(tokens[1]))
    } else {
        cmd.is_none()
    }
}

fn is_spelled(word: &str, long: &str, middle: &str, short: &str) -> (yes: bool)
    ensures
        yes == spelled(word@, long, middle, short),
{
    same_text(word, long) || same_text(word, middle) || same_text(word, short)
}

impl DebuggerCommand {
    /// Reads a command from the tokens of one input line.
    pub fn from_tokens(tokens: &Vec<String>) -> (cmd: Option<DebuggerCommand>)
        ensures
            command_of(tokens@, cmd),
    {
        if tokens.len() == 0 {
            return None;
        }
        let word: &str = tokens[0].as_str();
        if is_spelled(word, "quit", "quit", "q") {
            Some(DebuggerCommand::Quit)
        } else if is_spelled(word, "run", "run", "r") {
            let mut args: Vec<String> = Vec::new();
            let mut i: usize = 1;
            while i < tokens.len()
                invariant
                    1 <= i <= tokens.len(),
                    args@ == tokens@.subrange(1, i as int),
                decreases tokens.len() - i,
            {
                args.push(tokens[i].clone());
                assert(args@ =~= tokens@.subrange(1, i + 1));
                i = i + 1;
            }
            Some(DebuggerCommand::Run(args))
        } else if is_spelled(word, "continue", "cont", "c") {
            Some(DebuggerCommand::Continue)
        } else if is_spelled(word, "backtrace", "back", "bt") {
            Some(DebuggerCommand::Backtrace)
        } else if is_spelled(word, "breakpoint", "break", "b") && tokens.len() >= 2 {
            Some(DebuggerCommand::Break(tokens[1].clone()))
        } else {
            None
        }
    }
}

} // verus!
