//! The read-eval-print step: what the loop does with each thing the line
//! reader hands back.  Blank lines are discarded before they reach history
//! or the query executor; an interrupt only prints a notice; end of input
//! ends the loop; any other read error ends the process with a message.

use vstd::prelude::*;
use vstd::string::*;
use crate::text::{is_space, is_space_char};

verus! {

/// A line is blank when every character is whitespace (an empty line too).
pub open spec fn is_blank(s: Seq<char>) -> bool {
    forall|k: int| 0 <= k < s.len() ==> is_space(#[trigger] s[k])
}

/// Executable check for [`is_blank`].
pub fn is_blank_line(s: &str) -> (r: bool)
    ensures
        r == is_blank(s@),
{
    let n = s.unicode_len();
    let mut i: usize = 0;
    while i < n
        invariant
            i <= n,
            n == s@.len(),
            forall|k: int| 0 <= k < i ==> is_space(#[trigger] s@[k]),
        decreases n - i,
    {
        if !is_space_char(s.get_char(i)) {
            return false;
        }
        i = i + 1;
    }
    true
}

/// What the line reader hands the loop on one read.
pub enum ReplEvent {
    /// A line of input.
    Line(String),
    /// The operator sent an interrupt.
    Interrupted,
    /// End of input.
    EndOfInput,
    /// Any other read failure, with its message.
    ReadError(String),
}

/// What the loop does next.
pub enum ReplAction {
    /// Discard the line; read again.
    Skip,
    /// Record the line in history, run it as a query, then read again.
    Run(String),
    /// Print an interrupt notice; read again.
    Notice,
    /// Leave the loop and end normally.
    Exit,
    /// Print the message and end with a failure.
    FailExit(String),
}

/// One decision of the read-eval-print loop.  Blank lines are skipped, so
/// they never reach history or the query executor; any other line is run;
/// an interrupt is swallowed with a notice; end of input exits; a read
/// error exits with its message.
pub fn repl_step(ev: ReplEvent) -> (a: ReplAction)
    ensures
        match ev {
            ReplEvent::Line(l) => if is_blank(l@) {
                a == ReplAction::Skip
            } else {
                a == ReplAction::Run(l)
            },
            ReplEvent::Interrupted => a == ReplAction::Notice,
            ReplEvent::EndOfInput => a == ReplAction::Exit,
            ReplEvent::ReadError(m) => a == ReplAction::FailExit(m),
        },
{
    match ev {
        ReplEvent::Line(l) => {
            if is_blank_line(l.as_str()) {
                ReplAction::Skip
            } else {
                ReplAction::Run(l)
            }
        },
        ReplEvent::Interrupted => ReplAction::Notice,
        ReplEvent::EndOfInput => ReplAction::Exit,
        ReplEvent::ReadError(m) => ReplAction::FailExit(m),
    }
}

} // verus!
