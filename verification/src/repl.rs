//! The read-eval-print loop's per-line decision: skip a blank line, leave
//! on the exit sentinel, or hand the trimmed line to the executor.

use vstd::prelude::*;
use crate::text::{str_eq, trim, trim_spec};

verus! {

/// What one read line means to the loop.
pub enum ReplAction {
    /// The line is blank: prompt again, with no error.
    Skip,
    /// The line is the exit sentinel: leave the loop.
    Exit,
    /// Execute this trimmed line.
    Run(String),
}

/// The trimmed line equals one of the two recognized exit spellings,
/// case-sensitively.
pub open spec fn is_exit_line(s: Seq<char>) -> bool {
    trim_spec(s) == "exit"@ || trim_spec(s) == "quit"@
}

/// Decides what to do with one read line: blank lines are skipped, the
/// exit sentinel leaves the loop, and anything else runs.
pub fn repl_action(line: &str) -> (r: ReplAction)
    ensures
        trim_spec(line@).len() == 0 ==> r is Skip,
        trim_spec(line@).len() > 0 && is_exit_line(line@) ==> r is Exit,
        trim_spec(line@).len() > 0 && !is_exit_line(line@) ==> (r matches ReplAction::Run(t) && t@
            == trim_spec(line@)),
{
    let trimmed: &str = trim(line);
    if trimmed.unicode_len() == 0 {
        ReplAction::Skip
    } else if str_eq(trimmed, "exit") || str_eq(trimmed, "quit") {
        ReplAction::Exit
    } else {
        ReplAction::Run(trimmed.to_owned())
    }
}

/// The exit sentinel ends the loop without reaching the dispatcher: a
/// sentinel line is never blank, so it yields `Exit`, the one action that
/// carries no command to execute.
pub proof fn lemma_exit_sentinel_skips_dispatch(line: Seq<char>)
    requires
        is_exit_line(line),
    ensures
        trim_spec(line).len() > 0,
        !(trim_spec(line).len() == 0),
{
    reveal_strlit("exit");
    reveal_strlit("quit");
}

} // verus!
