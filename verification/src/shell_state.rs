//! The shell's state in executable form, and the requests it hands to its host.

use vstd::prelude::*;
use vstd::string::StringExecFns;
use crate::command_line::parse_line;
use crate::error::{OsFailure, ShellError};
use crate::machine::{
    candidate, default_dir, external_count, lemma_external_count_step, ActionView, ChildHandle,
    Event, ShellView,
};
use crate::shell_command::{CommandView, ShellCommand};
use crate::text::{copy_all, copy_optional};

verus! {

/// A request to the host.
#[derive(Debug, PartialEq, Eq)]
pub enum Action {
    /// Test whether `candidate` exists and can be executed, and answer with `Event::Probed`.
    Probe { candidate: String },
    /// Create a child that binds its output to `redirect`, if there is one, and then runs
    /// `executable` with the argument vector `args`. Answer with `Event::Spawned` or
    /// `Event::SpawnFailed`, without waiting for the child.
    Spawn { executable: String, args: Vec<String>, redirect: Option<String> },
    /// Change the working directory, and answer with `Event::DirChanged`.
    ChangeDir { dir: String },
    /// Wait until `child` has ended, and answer with `Event::Reaped`.
    Wait { child: ChildHandle },
    /// End the process with status 0.
    Exit,
    /// Print the diagnostic for `error`; the line is over.
    Report { error: ShellError },
    /// The line is over.
    Done,
}

impl View for Action {
    type V = ActionView;

    open spec fn view(&self) -> ActionView {
        match self {
            Action::Probe { candidate } => ActionView::Probe { candidate: candidate@ },
            Action::Spawn { executable, args, redirect } => ActionView::Spawn {
                executable: executable@,
                args: args.deep_view(),
                redirect: redirect.deep_view(),
            },
            Action::ChangeDir { dir } => ActionView::ChangeDir { dir: dir@ },
            Action::Wait { child } => ActionView::Wait { child: *child },
            Action::Exit => ActionView::Exit,
            Action::Report { error } => ActionView::Report { error: *error },
            Action::Done => ActionView::Done,
        }
    }
}

/// The shell: its search path, and how far the line that it runs has come.
pub struct ShellState {
    path: Vec<String>,
    queue: Vec<ShellCommand>,
    cursor: usize,
    probe: usize,
    found: bool,
    children: Vec<ChildHandle>,
    reaped: usize,
}

impl View for ShellState {
    type V = ShellView;

    closed spec fn view(&self) -> ShellView {
        ShellView {
            path: self.path.deep_view(),
            queue: self.queue.deep_view(),
            cursor: self.cursor as int,
            probe: self.probe as int,
            found: self.found,
            children: self.children@,
            reaped: self.reaped as int,
        }
    }
}

/// The file to look for in `dir` when `program` is asked for.
pub fn candidate_path(dir: &String, program: &String) -> (file: String)
    ensures
        file@ == candidate(dir@, program@),
{
    let mut file = dir.clone();
    proof {
        reveal_strlit("/");
    }
    file.append("/");
    file.append(program.as_str());
    file
}

/// The request for a test of the first candidate, or for the child once a candidate is found.
fn external_request(
    path: &Vec<String>,
    probe: usize,
    found: bool,
    args: &Vec<String>,
    redirect: &Option<String>,
) -> (action: Action)
    requires
        probe < path.len(),
        args.len() > 0,
    ensures
        action@ == if found {
            ActionView::Spawn {
                executable: candidate(path.deep_view()[probe as int], args.deep_view()[0]),
                args: args.deep_view(),
                redirect: redirect.deep_view(),
            }
        } else {
            ActionView::Probe {
                candidate: candidate(path.deep_view()[probe as int], args.deep_view()[0]),
            }
        },
{
    let file = candidate_path(&path[probe], &args[0]);
    if found {
        Action::Spawn { executable: file, args: copy_all(args), redirect: copy_optional(redirect) }
    } else {
        Action::Probe { candidate: file }
    }
}

impl ShellState {
    #[verifier::type_invariant]
    spec fn inv(self) -> bool {
        self@.wf()
    }

    /// A shell that looks for programs in `path`, with no line under way.
    pub fn new(path: Vec<String>) -> (shell: ShellState)
        ensures
            shell@ == ShellView::idle(path.deep_view()),
            shell@.wf(),
    {
        let queue: Vec<ShellCommand> = Vec::new();
        let children: Vec<ChildHandle> = Vec::new();
        proof {
            assert(queue.deep_view() =~= Seq::<CommandView>::empty());
        }
        ShellState { path, queue, cursor: 0, probe: 0, found: false, children, reaped: 0 }
    }

    /// The search path.
    pub fn path(&self) -> (path: &Vec<String>)
        ensures
            path.deep_view() == self@.path,
    {
        &self.path
    }

    /// Whether no line is under way, so that a new one may begin.
    pub fn is_idle(&self) -> (idle: bool)
        ensures
            idle == self@.is_idle(),
            self@.wf(),
    {
        proof {
            use_type_invariant(self);
        }
        self.cursor >= self.queue.len() && self.reaped >= self.children.len()
    }

    /// The request that the host still has to answer; `Action::Done` if there is none.
    pub fn pending(&self) -> (action: Action)
        ensures
            action@ == self@.outstanding(),
            self@.wf(),
    {
        proof {
            use_type_invariant(self);
        }
        if self.cursor < self.queue.len() {
            match &self.queue[self.cursor] {
                ShellCommand::BuiltinExit => Action::Exit,
                ShellCommand::BuiltinCd(dir) => Action::ChangeDir { dir: dir.clone() },
                ShellCommand::BuiltinPath(_) => Action::Done,
                ShellCommand::External { args, redirect } => external_request(
                    &self.path,
                    self.probe,
                    self.found,
                    args,
                    redirect,
                ),
            }
        } else if self.reaped < self.children.len() {
            Action::Wait { child: self.children[self.reaped] }
        } else {
            Action::Done
        }
    }

    /// Hands the state out and leaves an idle shell with an empty search path behind.
    fn take(&mut self) -> (state: ShellState)
        ensures
            state@ == old(self)@,
            state@.wf(),
    {
        proof {
            use_type_invariant(&*self);
        }
        let mut state = ShellState::new(Vec::new());
        core::mem::swap(self, &mut state);
        state
    }

    /// Waits for the next child, or finishes the line.
    fn drain(
        path: Vec<String>,
        queue: Vec<ShellCommand>,
        children: Vec<ChildHandle>,
        reaped: usize,
    ) -> (r: (ShellState, Action))
        requires
            reaped <= children.len(),
            children.len() == external_count(queue.deep_view()),
            forall|i: int| 0 <= i < queue.len() ==> (#[trigger] queue[i])@.wf(),
        ensures
            (r.0@, r.1@) == ShellView::between(
                path.deep_view(),
                queue.deep_view(),
                queue.len() as int,
                children@,
                reaped as int,
            ).drain(),
            r.0@.wf(),
    {
        if reaped < children.len() {
            let child = children[reaped];
            let cursor = queue.len();
            proof {
                assert(queue.deep_view().take(cursor as int) =~= queue.deep_view());
            }
            (
                ShellState { path, queue, cursor, probe: 0, found: false, children, reaped },
                Action::Wait { child },
            )
        } else {
            (ShellState::new(path), Action::Done)
        }
    }

    /// Goes through the commands from `cursor` on, up to the first that needs the host.
    #[verifier::loop_isolation(false)]
    fn settle(
        path: Vec<String>,
        queue: Vec<ShellCommand>,
        cursor: usize,
        children: Vec<ChildHandle>,
    ) -> (r: (ShellState, Action))
        requires
            cursor <= queue.len(),
            children.len() == external_count(queue.deep_view().take(cursor as int)),
            forall|i: int| 0 <= i < queue.len() ==> (#[trigger] queue[i])@.wf(),
        ensures
            (r.0@, r.1@) == ShellView::between(
                path.deep_view(),
                queue.deep_view(),
                cursor as int,
                children@,
                0,
            ).settle(),
            r.0@.wf(),
    {
        let ghost start = ShellView::between(
            path.deep_view(),
            queue.deep_view(),
            cursor as int,
            children@,
            0,
        );
        let mut path = path;
        let mut cursor = cursor;
        while cursor < queue.len()
            invariant
                cursor <= queue.len(),
                children.len() == external_count(queue.deep_view().take(cursor as int)),
                forall|i: int| 0 <= i < queue.len() ==> (#[trigger] queue[i])@.wf(),
                start.settle() == ShellView::between(
                    path.deep_view(),
                    queue.deep_view(),
                    cursor as int,
                    children@,
                    0,
                ).settle(),
            decreases queue.len() - cursor,
        {
            let ghost here = ShellView::between(
                path.deep_view(),
                queue.deep_view(),
                cursor as int,
                children@,
                0,
            );
            proof {
                lemma_external_count_step(here.queue, cursor as int);
            }
            let request = match &queue[cursor] {
                ShellCommand::BuiltinPath(dirs) => {
                    path = copy_all(dirs);
                    None
                },
                ShellCommand::BuiltinExit => Some(Action::Exit),
                ShellCommand::BuiltinCd(dir) => Some(Action::ChangeDir { dir: dir.clone() }),
                ShellCommand::External { args, redirect } => {
                    if path.len() == 0 {
                        let error = ShellError::Resolution;
                        return (ShellState::new(path), Action::Report { error });
                    }
                    Some(external_request(&path, 0, false, args, redirect))
                },
            };
            match request {
                Some(action) => {
                    let state = ShellState {
                        path,
                        queue,
                        cursor,
                        probe: 0,
                        found: false,
                        children,
                        reaped: 0,
                    };
                    return (state, action);
                },
                None => {
                    cursor += 1;
                },
            }
        }
        proof {
            assert(queue.deep_view().take(cursor as int) =~= queue.deep_view());
        }
        ShellState::drain(path, queue, children, 0)
    }

    /// Gives the line up and reports `error`; the search path stays.
    fn fail(&mut self, error: ShellError) -> (action: Action)
        ensures
            (final(self)@, action@) == old(self)@.fail(error),
            final(self)@.wf(),
    {
        let state = self.take();
        *self = ShellState::new(state.path);
        Action::Report { error }
    }

    /// The command under way is dealt with: goes on with the next.
    fn advance(&mut self, child: Option<ChildHandle>) -> (action: Action)
        requires
            old(self)@.cursor < old(self)@.queue.len(),
            (child is Some) == (old(self)@.queue[old(self)@.cursor] is External),
        ensures
            (final(self)@, action@) == old(self)@.with_child(child).advance(),
            final(self)@.wf(),
    {
        let state = self.take();
        let ghost before = state@;
        let ShellState { path, queue, cursor, probe: _, found: _, children, reaped: _ } = state;
        let mut children = children;
        proof {
            assert(cursor < queue.len());
            lemma_external_count_step(before.queue, before.cursor);
            assert forall|i: int| 0 <= i < queue.len() implies (#[trigger] queue[i])@.wf() by {
                assert(before.queue[i] == queue[i]@);
            }
        }
        match child {
            Some(handle) => {
                children.push(handle);
            },
            None => {},
        }
        let (state, action) = ShellState::settle(path, queue, cursor + 1, children);
        *self = state;
        action
    }

    /// Takes the host's report and says what to do next.
    ///
    /// A report that does not answer the pending request changes nothing, and the request is
    /// made again.
    pub fn resume(&mut self, event: Event) -> (action: Action)
        ensures
            (final(self)@, action@) == old(self)@.next(event),
            final(self)@.wf(),
    {
        proof {
            use_type_invariant(&*self);
        }
        if self.cursor < self.queue.len() {
            let external = match &self.queue[self.cursor] {
                ShellCommand::External { .. } => true,
                _ => false,
            };
            let changing = match &self.queue[self.cursor] {
                ShellCommand::BuiltinCd(_) => true,
                _ => false,
            };
            match event {
                Event::Probed(hit) => {
                    if external && !self.found {
                        if hit {
                            self.found = true;
                            self.pending()
                        } else if self.probe < self.path.len() - 1 {
                            self.probe = self.probe + 1;
                            self.pending()
                        } else {
                            self.fail(ShellError::Resolution)
                        }
                    } else {
                        self.pending()
                    }
                },
                Event::Spawned(child) => {
                    if external && self.found {
                        self.advance(Some(child))
                    } else {
                        self.pending()
                    }
                },
                Event::SpawnFailed => {
                    if external && self.found {
                        self.fail(ShellError::Os(OsFailure::Spawn))
                    } else {
                        self.pending()
                    }
                },
                Event::DirChanged(done) => {
                    if changing {
                        if done {
                            self.advance(None)
                        } else {
                            self.fail(ShellError::Os(OsFailure::ChangeDir))
                        }
                    } else {
                        self.pending()
                    }
                },
                Event::Reaped(_) => self.pending(),
            }
        } else if self.reaped < self.children.len() {
            match event {
                Event::Reaped(done) => {
                    if done {
                        let state = self.take();
                        let ShellState {
                            path,
                            queue,
                            cursor: _,
                            probe: _,
                            found: _,
                            children,
                            reaped,
                        } = state;
                        proof {
                            assert(queue.deep_view().take(queue.len() as int)
                                =~= queue.deep_view());
                            assert forall|i: int| 0 <= i < queue.len() implies (
                            #[trigger] queue[i])@.wf() by {
                                assert(queue.deep_view()[i] == queue[i]@);
                            }
                        }
                        let (state, action) = ShellState::drain(path, queue, children, reaped + 1);
                        *self = state;
                        action
                    } else {
                        self.fail(ShellError::Os(OsFailure::Wait))
                    }
                },
                _ => self.pending(),
            }
        } else {
            self.pending()
        }
    }

    /// Starts on a line that holds the one command `cmd`.
    ///
    /// If the command runs a program, the wait for the child follows right after its creation.
    /// While another line is under way the command is not accepted, and the pending request is
    /// made again.
    pub fn execute_single(&mut self, cmd: ShellCommand) -> (action: Action)
        requires
            cmd@.wf(),
        ensures
            (final(self)@, action@) == old(self)@.begin(seq![cmd@]),
            final(self)@.wf(),
    {
        let mut cmds: Vec<ShellCommand> = Vec::new();
        cmds.push(cmd);
        assert(cmds.deep_view() =~= seq![cmd@]);
        self.execute_parallel(cmds)
    }

    /// Starts on a line that holds the commands `cmds`, to run side by side.
    ///
    /// Builtins are carried out in their turn. Every child is created before the first wait.
    /// While another line is under way the commands are not accepted, and the pending request
    /// is made again.
    pub fn execute_parallel(&mut self, cmds: Vec<ShellCommand>) -> (action: Action)
        requires
            forall|i: int| 0 <= i < cmds.len() ==> (#[trigger] cmds[i])@.wf(),
        ensures
            (final(self)@, action@) == old(self)@.begin(cmds.deep_view()),
            final(self)@.wf(),
    {
        if !self.is_idle() {
            return self.pending();
        }
        let state = self.take();
        let (state, action) = ShellState::settle(state.path, cmds, 0, Vec::new());
        *self = state;
        action
    }

    /// Reads a line of input and starts on what it asks for.
    ///
    /// A line without tokens asks for nothing. A malformed line is reported and none of its
    /// commands is run. While another line is under way the line is not looked at, and the
    /// pending request is made again.
    pub fn interpret(&mut self, line: &str) -> (action: Action)
        ensures
            (final(self)@, action@) == old(self)@.interpret(line@),
            final(self)@.wf(),
    {
        if !self.is_idle() {
            return self.pending();
        }
        match parse_line(line) {
            Ok(cmds) => self.execute_parallel(cmds),
            Err(error) => self.fail(error),
        }
    }
}

impl Default for ShellState {
    /// A shell that looks for programs in `/bin`, with no line under way.
    fn default() -> (shell: ShellState)
        ensures
            shell@ == ShellView::idle(seq![default_dir()]),
            shell@.wf(),
    {
        proof {
            reveal_strlit("/bin");
        }
        let mut path: Vec<String> = Vec::new();
        path.push(String::from_str("/bin"));
        assert(path.deep_view() =~= seq![default_dir()]) by {
            assert("/bin"@ =~= default_dir());
        }
        ShellState::new(path)
    }
}

} // verus!
