//! The ways in which a line can fail.

use vstd::prelude::*;

verus! {

/// A failure of the operating system that the shell survives.
#[derive(Clone, Copy, Debug, PartialEq, Eq)]
pub enum OsFailure {
    /// The working directory could not be changed.
    ChangeDir,
    /// No child process could be created.
    Spawn,
    /// Waiting for a child failed.
    Wait,
}

/// Why a line, or the invocation of the shell itself, failed.
#[derive(Clone, Copy, Debug, PartialEq, Eq)]
pub enum ShellError {
    /// The line is malformed: a misplaced `>`, or a builtin with the wrong number of arguments.
    Parse,
    /// No directory of the search path holds the program.
    Resolution,
    /// The operating system refused a request.
    Os(OsFailure),
    /// The shell itself was started with too many arguments.
    Usage,
}

/// The one message that every failure is reported with, as characters.
pub open spec fn error_message() -> Seq<char> {
    seq![
        'A', 'n', ' ', 'e', 'r', 'r', 'o', 'r', ' ', 'h', 'a', 's', ' ', 'o', 'c', 'c', 'u', 'r',
        'r', 'e', 'd',
    ]
}

impl ShellError {
    /// The text to print for this failure: the same for all of them.
    pub fn message(&self) -> (text: &'static str)
        ensures
            text@ == error_message(),
    {
        proof {
            reveal_strlit("An error has occurred");
        }
        let text = "An error has occurred";
        assert(text@ =~= error_message());
        text
    }
}

} // verus!
