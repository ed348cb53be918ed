//! How the shell is started.

use vstd::prelude::*;
use crate::error::ShellError;

verus! {

/// The file of command lines that the shell was started with, if any.
///
/// `args` is the argument vector of the process, program name first. Without a further
/// argument the shell reads its lines from standard input. More than one is a usage error.
pub fn command_file(args: &Vec<String>) -> (r: Result<Option<&String>, ShellError>)
    ensures
        args.len() < 2 ==> r == Ok::<Option<&String>, ShellError>(None),
        args.len() == 2 ==> r == Ok::<Option<&String>, ShellError>(Some(&args[1])),
        args.len() > 2 ==> r == Err::<Option<&String>, ShellError>(ShellError::Usage),
{
    if args.len() > 2 {
        Err(ShellError::Usage)
    } else if args.len() == 2 {
        Ok(Some(&args[1]))
    } else {
        Ok(None)
    }
}

} // verus!
