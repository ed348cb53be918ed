//! The shell as a state machine: what it asks of its host, and how it goes on when the host
//! answers.

use vstd::prelude::*;
use crate::command_line::commands;
use crate::lexer::{is_blank, law_blank_line_has_no_tokens};
use crate::error::{OsFailure, ShellError};
use crate::shell_command::CommandView;

verus! {

/// The handle of a child process, as the operating system gave it.
#[derive(Clone, Copy, Debug, PartialEq, Eq)]
pub struct ChildHandle {
    pub pid: i32,
}

/// What the host reports back after it has carried out a request.
#[derive(Clone, Copy, Debug, PartialEq, Eq)]
pub enum Event {
    /// The candidate file was tested: `true` if it exists and can be executed.
    Probed(bool),
    /// A child process was created.
    Spawned(ChildHandle),
    /// No child process could be created.
    SpawnFailed,
    /// The working directory was changed (`true`), or could not be (`false`).
    DirChanged(bool),
    /// The wait for a child is over (`true`), or it failed (`false`).
    Reaped(bool),
}

/// A request to the host, as a mathematical value.
pub enum ActionView {
    /// Test whether `candidate` exists and can be executed.
    Probe { candidate: Seq<char> },
    /// Create a child that runs `executable` with `args`, its output bound to `redirect`.
    Spawn { executable: Seq<char>, args: Seq<Seq<char>>, redirect: Option<Seq<char>> },
    /// Change the working directory.
    ChangeDir { dir: Seq<char> },
    /// Wait until `child` has ended.
    Wait { child: ChildHandle },
    /// End the process with status 0.
    Exit,
    /// The line failed: print the diagnostic. Nothing of the line is left to do.
    Report { error: ShellError },
    /// The line is done, without a diagnostic.
    Done,
}

/// The directory in which a fresh shell looks for programs: `/bin`.
pub open spec fn default_dir() -> Seq<char> {
    seq!['/', 'b', 'i', 'n']
}

/// The file to look for in `dir` when `program` is asked for: `dir/program`.
pub open spec fn candidate(dir: Seq<char>, program: Seq<char>) -> Seq<char> {
    dir + seq!['/'] + program
}

/// The number of external commands among `commands`.
pub open spec fn external_count(commands: Seq<CommandView>) -> nat
    decreases commands.len(),
{
    if commands.len() == 0 {
        0
    } else {
        external_count(commands.drop_last()) + if commands.last() is External {
            1nat
        } else {
            0nat
        }
    }
}

/// The state of the shell.
pub struct ShellView {
    /// The search path: the directories in which programs are looked for, in order.
    pub path: Seq<Seq<char>>,
    /// The commands of the line that is being run.
    pub queue: Seq<CommandView>,
    /// The commands before this index are dealt with; the one at it is under way.
    pub cursor: int,
    /// Which directory of the search path is being tried for the command under way.
    pub probe: int,
    /// Whether that directory holds the program.
    pub found: bool,
    /// The children of this line, in the order of their creation.
    pub children: Seq<ChildHandle>,
    /// The children before this index have been waited for.
    pub reaped: int,
}

impl ShellView {
    /// The state between two lines.
    pub open spec fn idle(path: Seq<Seq<char>>) -> ShellView {
        ShellView {
            path,
            queue: Seq::empty(),
            cursor: 0,
            probe: 0,
            found: false,
            children: Seq::empty(),
            reaped: 0,
        }
    }

    /// The state in which the commands before `cursor` are dealt with and none is under way.
    pub open spec fn between(
        path: Seq<Seq<char>>,
        queue: Seq<CommandView>,
        cursor: int,
        children: Seq<ChildHandle>,
        reaped: int,
    ) -> ShellView {
        ShellView { path, queue, cursor, probe: 0, found: false, children, reaped }
    }

    /// The same state with one more child, or with none more.
    pub open spec fn with_child(self, child: Option<ChildHandle>) -> ShellView {
        match child {
            Some(handle) => ShellView { children: self.children.push(handle), ..self },
            None => self,
        }
    }

    /// No line is being run.
    pub open spec fn is_idle(self) -> bool {
        self.cursor >= self.queue.len() && self.reaped >= self.children.len()
    }

    /// What holds of every state that the shell can be in.
    pub open spec fn wf(self) -> bool {
        &&& 0 <= self.cursor <= self.queue.len()
        &&& 0 <= self.reaped <= self.children.len()
        &&& forall|i: int| 0 <= i < self.queue.len() ==> (#[trigger] self.queue[i]).wf()
        // one child for each external command that was dealt with
        &&& self.children.len() == external_count(self.queue.take(self.cursor))
        // the command under way is waiting for the host
        &&& self.cursor < self.queue.len() ==> match self.queue[self.cursor] {
            CommandView::BuiltinPath(_) => false,
            CommandView::External { .. } => 0 <= self.probe < self.path.len(),
            _ => self.probe == 0 && !self.found,
        }
        // no child is waited for while a command is left
        &&& self.cursor < self.queue.len() ==> self.reaped == 0
        &&& self.cursor == self.queue.len() ==> self.probe == 0 && !self.found
        // between two lines nothing but the search path is kept
        &&& self.is_idle() ==> self == Self::idle(self.path)
    }

    /// The request that the host still has to answer; `Done` if there is none.
    pub open spec fn outstanding(self) -> ActionView {
        if self.cursor < self.queue.len() {
            match self.queue[self.cursor] {
                CommandView::BuiltinExit => ActionView::Exit,
                CommandView::BuiltinCd(dir) => ActionView::ChangeDir { dir },
                CommandView::BuiltinPath(_) => ActionView::Done,
                CommandView::External { args, redirect } => {
                    let file = candidate(self.path[self.probe], args[0]);
                    if self.found {
                        ActionView::Spawn { executable: file, args, redirect }
                    } else {
                        ActionView::Probe { candidate: file }
                    }
                },
            }
        } else if self.reaped < self.children.len() {
            ActionView::Wait { child: self.children[self.reaped] }
        } else {
            ActionView::Done
        }
    }

    /// The line fails: it is given up as it stands, and the search path stays.
    pub open spec fn fail(self, error: ShellError) -> (ShellView, ActionView) {
        (Self::idle(self.path), ActionView::Report { error })
    }

    /// Every command is dealt with: wait for the next child, or finish the line.
    pub open spec fn drain(self) -> (ShellView, ActionView) {
        if self.reaped < self.children.len() {
            (self, ActionView::Wait { child: self.children[self.reaped] })
        } else {
            (Self::idle(self.path), ActionView::Done)
        }
    }

    /// Goes through the commands from the cursor on, up to the first that needs the host.
    ///
    /// `path` is carried out on the spot. An external command fails at once if the search
    /// path is empty; otherwise its first candidate is to be tested.
    pub open spec fn settle(self) -> (ShellView, ActionView)
        decreases self.queue.len() - self.cursor,
    {
        if self.cursor >= self.queue.len() {
            self.drain()
        } else {
            match self.queue[self.cursor] {
                CommandView::BuiltinPath(dirs) => ShellView {
                    path: dirs,
                    cursor: self.cursor + 1,
                    ..self
                }.settle(),
                CommandView::BuiltinExit => (self, ActionView::Exit),
                CommandView::BuiltinCd(dir) => (self, ActionView::ChangeDir { dir }),
                CommandView::External { args, .. } => if self.path.len() == 0 {
                    self.fail(ShellError::Resolution)
                } else {
                    (self, ActionView::Probe { candidate: candidate(self.path[0], args[0]) })
                },
            }
        }
    }

    /// Starts on the commands of a new line.
    ///
    /// While a line is under way no other is accepted: nothing changes, and the outstanding
    /// request is made again.
    pub open spec fn begin(self, commands: Seq<CommandView>) -> (ShellView, ActionView) {
        if self.is_idle() {
            ShellView { queue: commands, ..Self::idle(self.path) }.settle()
        } else {
            (self, self.outstanding())
        }
    }

    /// The command under way is dealt with: go on with the next.
    pub open spec fn advance(self) -> (ShellView, ActionView) {
        ShellView { cursor: self.cursor + 1, probe: 0, found: false, ..self }.settle()
    }

    /// The next state and the next request, after the host has reported `event`.
    ///
    /// An event that does not answer the outstanding request changes nothing: the request is
    /// made again.
    pub open spec fn next(self, event: Event) -> (ShellView, ActionView) {
        match (self.outstanding(), event) {
            (ActionView::Probe { .. }, Event::Probed(hit)) => {
                if hit {
                    let found = ShellView { found: true, ..self };
                    (found, found.outstanding())
                } else if self.probe + 1 < self.path.len() {
                    let onward = ShellView { probe: self.probe + 1, ..self };
                    (onward, onward.outstanding())
                } else {
                    self.fail(ShellError::Resolution)
                }
            },
            (ActionView::Spawn { .. }, Event::Spawned(child)) => self.with_child(
                Some(child),
            ).advance(),
            (ActionView::Spawn { .. }, Event::SpawnFailed) => self.fail(
                ShellError::Os(OsFailure::Spawn),
            ),
            (ActionView::ChangeDir { .. }, Event::DirChanged(done)) => {
                if done {
                    self.advance()
                } else {
                    self.fail(ShellError::Os(OsFailure::ChangeDir))
                }
            },
            (ActionView::Wait { .. }, Event::Reaped(done)) => {
                if done {
                    ShellView { reaped: self.reaped + 1, ..self }.drain()
                } else {
                    self.fail(ShellError::Os(OsFailure::Wait))
                }
            },
            _ => (self, self.outstanding()),
        }
    }

    /// Ready to go through the commands from the cursor on: nothing is under way.
    pub open spec fn ready(self) -> bool {
        &&& 0 <= self.cursor <= self.queue.len()
        &&& forall|i: int| 0 <= i < self.queue.len() ==> (#[trigger] self.queue[i]).wf()
        &&& self.children.len() == external_count(self.queue.take(self.cursor))
        &&& self.reaped == 0
        &&& self.probe == 0
        &&& !self.found
    }

    /// What a line of input leads to: a diagnostic if it is malformed, else the start of its
    /// commands. While a line is under way no other is looked at.
    pub open spec fn interpret(self, line: Seq<char>) -> (ShellView, ActionView) {
        if !self.is_idle() {
            (self, self.outstanding())
        } else {
            match commands(line) {
                Ok(list) => self.begin(list),
                Err(error) => self.fail(error),
            }
        }
    }
}

/// Counting one command further adds one if that command is external.
pub proof fn lemma_external_count_step(commands: Seq<CommandView>, cursor: int)
    requires
        0 <= cursor < commands.len(),
    ensures
        external_count(commands.take(cursor + 1)) == external_count(commands.take(cursor))
            + if commands[cursor] is External {
            1nat
        } else {
            0nat
        },
{
    assert(commands.take(cursor + 1).drop_last() =~= commands.take(cursor));
}

/// A request is never left unanswered by accident: whatever `settle` asks for is what its
/// state has outstanding, unless the line has failed.
proof fn lemma_settle(s: ShellView)
    requires
        s.ready(),
    ensures
        s.settle().0.wf(),
        s.settle().1 is Report || s.settle().1 == s.settle().0.outstanding(),
        s.settle().1 is Report ==> s.settle().0.is_idle(),
    decreases s.queue.len() - s.cursor,
{
    if s.cursor < s.queue.len() {
        lemma_external_count_step(s.queue, s.cursor);
        match s.queue[s.cursor] {
            CommandView::BuiltinPath(dirs) => {
                lemma_settle(ShellView { path: dirs, cursor: s.cursor + 1, ..s });
            },
            _ => {},
        }
    }
}

/// Every step keeps the state well formed, and asks for what the new state has outstanding
/// unless it reports a failure, after which the shell is idle.
pub proof fn law_step_keeps_well_formed(s: ShellView, event: Event)
    requires
        s.wf(),
    ensures
        s.next(event).0.wf(),
        s.next(event).1 is Report || s.next(event).1 == s.next(event).0.outstanding(),
        s.next(event).1 is Report ==> s.next(event).0.is_idle(),
{
    if s.cursor < s.queue.len() {
        lemma_external_count_step(s.queue, s.cursor);
    }
    match (s.outstanding(), event) {
        (ActionView::Spawn { .. }, Event::Spawned(child)) => {
            lemma_settle(
                ShellView {
                    children: s.children.push(child),
                    cursor: s.cursor + 1,
                    probe: 0,
                    found: false,
                    ..s
                },
            );
        },
        (ActionView::ChangeDir { .. }, Event::DirChanged(done)) => {
            if done {
                lemma_settle(ShellView { cursor: s.cursor + 1, probe: 0, found: false, ..s });
            }
        },
        _ => {},
    }
}

/// Beginning a line keeps the state well formed, and asks for what the new state has
/// outstanding unless it reports a failure, after which the shell is idle.
pub proof fn law_begin_keeps_well_formed(s: ShellView, commands: Seq<CommandView>)
    requires
        s.wf(),
        forall|i: int| 0 <= i < commands.len() ==> (#[trigger] commands[i]).wf(),
    ensures
        s.begin(commands).0.wf(),
        s.begin(commands).1 is Report || s.begin(commands).1 == s.begin(commands).0.outstanding(),
        s.begin(commands).1 is Report ==> s.begin(commands).0.is_idle(),
{
    let start = ShellView { queue: commands, ..ShellView::idle(s.path) };
    lemma_settle(start);
}

/// `path` replaces the search path by the directories it is given, be they none.
pub proof fn law_path_is_replaced(s: ShellView, dirs: Seq<Seq<char>>)
    requires
        s.is_idle(),
    ensures
        s.begin(seq![CommandView::BuiltinPath(dirs)]) == (ShellView::idle(dirs), ActionView::Done),
{
    let start = ShellView { queue: seq![CommandView::BuiltinPath(dirs)], ..ShellView::idle(s.path) };
    let then = ShellView { path: dirs, cursor: 1, ..start };
    assert(start.settle() == then.settle());
    assert(then.settle() == then.drain());
}

/// With an empty search path no program is found: the line fails before anything is asked of
/// the host.
pub proof fn law_empty_path_finds_nothing(s: ShellView, commands: Seq<CommandView>)
    requires
        s.is_idle(),
        s.path.len() == 0,
        commands.len() > 0,
        commands[0] is External,
    ensures
        s.begin(commands) == (s.fail(ShellError::Resolution)),
{
}

/// While the search path is empty no program is looked for and none is run, whatever the
/// line holds.
pub proof fn law_empty_path_runs_no_program(s: ShellView)
    requires
        s.wf(),
        s.path.len() == 0,
    ensures
        !(s.outstanding() is Probe),
        !(s.outstanding() is Spawn),
{
}

/// A wait is asked for only when every command of the line is dealt with, and so when every
/// child of the line is created.
pub proof fn law_wait_follows_every_spawn(s: ShellView)
    requires
        s.wf(),
        s.outstanding() is Wait,
    ensures
        s.cursor == s.queue.len(),
        s.children.len() == external_count(s.queue),
{
    assert(s.queue.take(s.cursor) =~= s.queue);
}

/// Once the waiting has begun nothing else is asked for: the next request is another wait,
/// or the line is over.
pub proof fn law_waits_come_last(s: ShellView, event: Event)
    requires
        s.wf(),
        s.outstanding() is Wait,
    ensures
        ({
            let request = s.next(event).1;
            request is Wait || request is Done || request is Report
        }),
{
}

/// A line ends without a diagnostic only when no child is left to wait for.
pub proof fn law_done_follows_every_wait(s: ShellView, event: Event)
    requires
        s.wf(),
        s.next(event).1 is Done,
    ensures
        s.reaped == s.children.len() || (s.reaped + 1 == s.children.len() && event
            == Event::Reaped(true)),
{
    if s.cursor < s.queue.len() {
        lemma_external_count_step(s.queue, s.cursor);
        match (s.outstanding(), event) {
            (ActionView::Spawn { .. }, Event::Spawned(child)) => {
                let then = s.with_child(Some(child));
                let onward = ShellView { cursor: s.cursor + 1, probe: 0, found: false, ..then };
                lemma_settle_keeps_children(onward);
            },
            (ActionView::ChangeDir { .. }, Event::DirChanged(done)) => {
                if done {
                    let onward = ShellView { cursor: s.cursor + 1, probe: 0, found: false, ..s };
                    lemma_settle_keeps_children(onward);
                }
            },
            _ => {},
        }
    }
}

/// `settle` creates no child and waits for none: if it ends the line there was none.
proof fn lemma_settle_keeps_children(s: ShellView)
    requires
        s.ready(),
        s.settle().1 is Done,
    ensures
        s.children.len() == 0,
    decreases s.queue.len() - s.cursor,
{
    if s.cursor < s.queue.len() {
        lemma_external_count_step(s.queue, s.cursor);
        match s.queue[s.cursor] {
            CommandView::BuiltinPath(dirs) => {
                lemma_settle_keeps_children(ShellView { path: dirs, cursor: s.cursor + 1, ..s });
            },
            _ => {},
        }
    }
}

/// `cd` asks the host to enter the directory. If the host does, the shell goes on; if it
/// cannot, the line fails.
pub proof fn law_cd_changes_directory(s: ShellView, dir: Seq<char>)
    requires
        s.is_idle(),
    ensures
        ({
            let (asked, request) = s.begin(seq![CommandView::BuiltinCd(dir)]);
            &&& request == ActionView::ChangeDir { dir }
            &&& asked.next(Event::DirChanged(true)) == (ShellView::idle(s.path), ActionView::Done)
            &&& asked.next(Event::DirChanged(false)) == asked.fail(
                ShellError::Os(OsFailure::ChangeDir),
            )
        }),
{
    let (asked, request) = s.begin(seq![CommandView::BuiltinCd(dir)]);
    // the line holds nothing else: once the directory is entered it is done
    let onward = ShellView { cursor: 1, ..asked };
    assert(asked.advance() == onward.settle());
    assert(onward.settle() == onward.drain());
}

/// A line of blanks asks for nothing: the shell stays as it is, and no diagnostic is due.
pub proof fn law_blank_line_does_nothing(s: ShellView, line: Seq<char>)
    requires
        s.wf(),
        s.is_idle(),
        forall|i: int| 0 <= i < line.len() ==> is_blank(#[trigger] line[i]),
    ensures
        s.interpret(line) == (s, ActionView::Done),
{
    law_blank_line_has_no_tokens(line);
    let none = Seq::<CommandView>::empty();
    assert(commands(line) matches Ok(list) && list =~= none);
    assert(s.begin(none) == (s, ActionView::Done));
}

/// A malformed line is reported and nothing of it is run: no request goes to the host, and
/// the search path stays, whatever the line holds besides.
pub proof fn law_malformed_line_runs_nothing(s: ShellView, line: Seq<char>)
    requires
        s.wf(),
        s.is_idle(),
        commands(line) is Err,
    ensures
        s.interpret(line) == (s, ActionView::Report { error: ShellError::Parse }),
{
}

/// While a line is under way no other is accepted.
pub proof fn law_one_line_at_a_time(s: ShellView, line: Seq<char>, commands: Seq<CommandView>)
    requires
        !s.is_idle(),
    ensures
        s.interpret(line) == (s, s.outstanding()),
        s.begin(commands) == (s, s.outstanding()),
{
}

/// Between two lines the shell asks for nothing, whatever it is told.
pub proof fn law_idle_is_quiet(s: ShellView, event: Event)
    requires
        s.is_idle(),
    ensures
        s.next(event) == (s, ActionView::Done),
{
}

/// After `exit` nothing else is asked for.
pub proof fn law_exit_is_final(s: ShellView, event: Event)
    requires
        s.outstanding() is Exit,
    ensures
        s.next(event) == (s, ActionView::Exit),
{
}

/// The program that is run is the first candidate that the host found, and its argument
/// vector is the command's own, program name first.
pub proof fn law_hit_is_run(s: ShellView)
    requires
        s.wf(),
        s.outstanding() is Probe,
    ensures
        s.queue[s.cursor] matches CommandView::External { args, redirect } && s.next(
            Event::Probed(true),
        ).1 == (ActionView::Spawn {
            executable: s.outstanding()->candidate,
            args,
            redirect,
        }),
{
}

/// The state and the request after `n` candidates in a row were not found.
pub open spec fn after_misses(s: ShellView, n: nat) -> (ShellView, ActionView)
    decreases n,
{
    if n == 0 {
        (s, s.outstanding())
    } else {
        after_misses(s, (n - 1) as nat).0.next(Event::Probed(false))
    }
}

/// If the host finds none of the candidates, every directory of the search path is tried in
/// its turn, and after the last the line fails: the program is not found.
pub proof fn law_every_directory_is_tried(s: ShellView, n: nat)
    requires
        s.wf(),
        s.outstanding() is Probe,
        n <= s.path.len() - s.probe,
    ensures
        n < s.path.len() - s.probe ==> after_misses(s, n) == (
            ShellView { probe: s.probe + n, ..s },
            ActionView::Probe {
                candidate: candidate(s.path[s.probe + n], s.queue[s.cursor]->args[0]),
            },
        ),
        n == s.path.len() - s.probe ==> after_misses(s, n) == s.fail(ShellError::Resolution),
    decreases n,
{
    if n > 0 {
        law_every_directory_is_tried(s, (n - 1) as nat);
        let before = ShellView { probe: s.probe + n - 1, ..s };
        assert(after_misses(s, (n - 1) as nat).0 == before);
    }
}

} // verus!
