//! Commands: what a group of tokens means.

use vstd::prelude::*;
use crate::error::ShellError;
use crate::text::reads;

verus! {

/// One command of a line.
#[derive(Debug, PartialEq, Eq)]
pub enum ShellCommand {
    /// `exit`: end the shell.
    BuiltinExit,
    /// `cd DIR`: change the working directory.
    BuiltinCd(String),
    /// `path DIR*`: replace the search path.
    BuiltinPath(Vec<String>),
    /// Any other command: a program to run as a child process.
    External {
        /// The argument vector of the child; `args[0]` is the program as it was typed.
        args: Vec<String>,
        /// The file that receives the child's output, if any.
        redirect: Option<String>,
    },
}

/// A command as a mathematical value: character sequences in place of strings.
pub enum CommandView {
    /// End the shell.
    BuiltinExit,
    /// Change the working directory to the one given.
    BuiltinCd(Seq<char>),
    /// Replace the search path by the directories given.
    BuiltinPath(Seq<Seq<char>>),
    /// Run the program `args[0]` with the argument vector `args`, its output bound to
    /// `redirect` if there is one.
    External { args: Seq<Seq<char>>, redirect: Option<Seq<char>> },
}

impl CommandView {
    /// An external command names its program: its argument vector is not empty.
    pub open spec fn wf(self) -> bool {
        self matches CommandView::External { args, .. } ==> args.len() > 0
    }
}

impl View for ShellCommand {
    type V = CommandView;

    open spec fn view(&self) -> CommandView {
        match self {
            ShellCommand::BuiltinExit => CommandView::BuiltinExit,
            ShellCommand::BuiltinCd(dir) => CommandView::BuiltinCd(dir@),
            ShellCommand::BuiltinPath(dirs) => CommandView::BuiltinPath(dirs.deep_view()),
            ShellCommand::External { args, redirect } => CommandView::External {
                args: args.deep_view(),
                redirect: redirect.deep_view(),
            },
        }
    }
}

impl DeepView for ShellCommand {
    type V = CommandView;

    open spec fn deep_view(&self) -> CommandView {
        self@
    }
}

/// The word `exit`.
pub open spec fn exit_word() -> Seq<char> {
    seq!['e', 'x', 'i', 't']
}

/// The word `cd`.
pub open spec fn cd_word() -> Seq<char> {
    seq!['c', 'd']
}

/// The word `path`.
pub open spec fn path_word() -> Seq<char> {
    seq!['p', 'a', 't', 'h']
}

/// The token `>`.
pub open spec fn redirect_op() -> Seq<char> {
    seq!['>']
}

/// The token `&`.
pub open spec fn parallel_op() -> Seq<char> {
    seq!['&']
}

/// Every `>` of the group is its last token but one, and is not its first.
pub open spec fn redirect_well_placed(group: Seq<Seq<char>>) -> bool {
    forall|i: int|
        0 <= i < group.len() && #[trigger] group[i] == redirect_op() ==> 1 <= i && i
            == group.len() - 2
}

/// What a group that names no builtin means.
pub open spec fn classify_external(group: Seq<Seq<char>>) -> Result<CommandView, ShellError> {
    if !redirect_well_placed(group) {
        Err(ShellError::Parse)
    } else if group.contains(redirect_op()) {
        Ok(
            CommandView::External {
                args: group.take(group.len() - 2),
                redirect: Some(group.last()),
            },
        )
    } else {
        Ok(CommandView::External { args: group, redirect: None })
    }
}

/// What a non-empty group of tokens means.
pub open spec fn classify(group: Seq<Seq<char>>) -> Result<CommandView, ShellError>
    recommends
        group.len() > 0,
{
    if group[0] == exit_word() {
        if group.len() == 1 {
            Ok(CommandView::BuiltinExit)
        } else {
            Err(ShellError::Parse)
        }
    } else if group[0] == cd_word() {
        if group.len() == 2 {
            Ok(CommandView::BuiltinCd(group[1]))
        } else {
            Err(ShellError::Parse)
        }
    } else if group[0] == path_word() {
        Ok(CommandView::BuiltinPath(group.skip(1)))
    } else {
        classify_external(group)
    }
}

/// `exit` takes no argument: with one it is malformed.
pub proof fn law_exit_takes_no_argument(group: Seq<Seq<char>>)
    requires
        group.len() > 0,
        group[0] == exit_word(),
    ensures
        group.len() == 1 ==> classify(group) == Ok::<CommandView, ShellError>(
            CommandView::BuiltinExit,
        ),
        group.len() > 1 ==> classify(group) == Err::<CommandView, ShellError>(ShellError::Parse),
{
}

/// `cd` takes exactly one directory: with none or with several it is malformed.
pub proof fn law_cd_takes_one_directory(group: Seq<Seq<char>>)
    requires
        group.len() > 0,
        group[0] == cd_word(),
    ensures
        group.len() == 2 ==> classify(group) == Ok::<CommandView, ShellError>(
            CommandView::BuiltinCd(group[1]),
        ),
        group.len() != 2 ==> classify(group) == Err::<CommandView, ShellError>(ShellError::Parse),
{
}

/// `path` takes any number of directories, none included, and is never malformed.
pub proof fn law_path_takes_any_directories(dirs: Seq<Seq<char>>)
    ensures
        classify(seq![path_word()] + dirs) == Ok::<CommandView, ShellError>(
            CommandView::BuiltinPath(dirs),
        ),
{
    let group = seq![path_word()] + dirs;
    assert(group.skip(1) =~= dirs);
}

/// A command has one redirection at most: with two `>` it is malformed, wherever they stand.
pub proof fn law_one_redirect_at_most(group: Seq<Seq<char>>, i: int, j: int)
    requires
        0 <= i < j < group.len(),
        group[i] == redirect_op(),
        group[j] == redirect_op(),
    ensures
        classify_external(group) == Err::<CommandView, ShellError>(ShellError::Parse),
{
}

/// A `>` and a file after at least one argument redirect the command, and leave its argument
/// vector.
pub proof fn law_redirect_at_the_end(args: Seq<Seq<char>>, file: Seq<char>)
    requires
        args.len() > 0,
        !args.contains(redirect_op()),
        file != redirect_op(),
    ensures
        classify_external(args + seq![redirect_op(), file]) == Ok::<CommandView, ShellError>(
            CommandView::External { args, redirect: Some(file) },
        ),
{
    let group = args + seq![redirect_op(), file];
    assert(group[args.len() as int] == redirect_op());
    assert(group.take(group.len() - 2) =~= args);
}

/// Without a `>` the whole group is the argument vector.
pub proof fn law_no_redirect(args: Seq<Seq<char>>)
    requires
        !args.contains(redirect_op()),
    ensures
        classify_external(args) == Ok::<CommandView, ShellError>(
            CommandView::External { args, redirect: None },
        ),
{
}

/// What a group is classified as is well formed.
pub proof fn law_classified_is_well_formed(group: Seq<Seq<char>>)
    requires
        group.len() > 0,
    ensures
        classify(group) matches Ok(command) ==> command.wf(),
{
    if classify_external(group) is Ok && group.contains(redirect_op()) {
        let k = choose|k: int| 0 <= k < group.len() && group[k] == redirect_op();
    }
}

impl ShellCommand {
    /// The directory that `cd` is asked to enter: the group's second token, if the group has
    /// exactly two.
    pub fn parse_cd(args: &Vec<String>) -> (dir: Option<String>)
        ensures
            args.len() == 2 ==> dir.deep_view() == Some(args.deep_view()[1]),
            args.len() != 2 ==> dir is None,
    {
        if args.len() == 2 {
            Some(args[1].clone())
        } else {
            None
        }
    }

    /// Takes the redirection off the end of an argument list.
    ///
    /// Fails if a `>` stands anywhere but before the last token, or at the very front.
    pub fn get_redirect(args: Vec<String>) -> (r: Result<(Option<String>, Vec<String>), ShellError>)
        ensures
            match r {
                Ok((redirect, rest)) => classify_external(args.deep_view()) == Ok::<
                    CommandView,
                    ShellError,
                >(
                    CommandView::External {
                        args: rest.deep_view(),
                        redirect: redirect.deep_view(),
                    },
                ),
                Err(e) => classify_external(args.deep_view()) == Err::<CommandView, ShellError>(e),
            },
    {
        let ghost group = args.deep_view();
        let n = args.len();
        let mut seen = false;
        let mut i: usize = 0;
        while i < n
            invariant
                group == args.deep_view(),
                n == args.len(),
                i <= n,
                forall|k: int|
                    0 <= k < i && #[trigger] group[k] == redirect_op() ==> 1 <= k && k == n - 2,
                seen <==> exists|k: int| 0 <= k < i && #[trigger] group[k] == redirect_op(),
            decreases n - i,
        {
            proof {
                reveal_strlit(">");
                assert(">"@ =~= redirect_op());
            }
            if reads(&args[i], ">") {
                assert(group[i as int] == redirect_op());
                if i == 0 || n - i != 2 {
                    return Err(ShellError::Parse);
                }
                seen = true;
            }
            i += 1;
        }
        if seen {
            let mut rest = args;
            let target = rest.pop().unwrap();
            let _ = rest.pop();
            assert(rest.deep_view() =~= group.take(group.len() - 2));
            Ok((Some(target), rest))
        } else {
            Ok((None, args))
        }
    }

    /// Classifies a group of tokens.
    pub fn try_from(group: Vec<String>) -> (r: Result<ShellCommand, ShellError>)
        requires
            group.len() > 0,
        ensures
            match r {
                Ok(command) => classify(group.deep_view()) == Ok::<CommandView, ShellError>(
                    command@,
                ),
                Err(e) => classify(group.deep_view()) == Err::<CommandView, ShellError>(e),
            },
            r matches Ok(command) ==> command@.wf(),
    {
        proof {
            reveal_strlit("exit");
            reveal_strlit("cd");
            reveal_strlit("path");
            assert("exit"@ =~= exit_word());
            assert("cd"@ =~= cd_word());
            assert("path"@ =~= path_word());
        }
        let mut group = group;
        let ghost tokens = group.deep_view();
        if reads(&group[0], "exit") {
            if group.len() == 1 {
                Ok(ShellCommand::BuiltinExit)
            } else {
                Err(ShellError::Parse)
            }
        } else if reads(&group[0], "cd") {
            match ShellCommand::parse_cd(&group) {
                Some(dir) => Ok(ShellCommand::BuiltinCd(dir)),
                None => Err(ShellError::Parse),
            }
        } else if reads(&group[0], "path") {
            let _ = group.remove(0);
            assert(group.deep_view() =~= tokens.skip(1));
            Ok(ShellCommand::BuiltinPath(group))
        } else {
            match ShellCommand::get_redirect(group) {
                Ok((redirect, args)) => {
                    Ok(ShellCommand::External { args, redirect })
                },
                Err(e) => Err(e),
            }
        }
    }
}

} // verus!
