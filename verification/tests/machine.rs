use wish::error::{OsFailure, ShellError};
use wish::invocation::command_file;
use wish::machine::{ChildHandle, Event};
use wish::shell_command::ShellCommand;
use wish::shell_state::{candidate_path, Action, ShellState};

fn strings(items: &[&str]) -> Vec<String> {
    items.iter().map(|item| item.to_string()).collect()
}

fn shell(path: &[&str]) -> ShellState {
    ShellState::new(strings(path))
}

fn probe(file: &str) -> Action {
    Action::Probe { candidate: file.to_string() }
}

fn spawn(file: &str, args: &[&str], redirect: Option<&str>) -> Action {
    Action::Spawn {
        executable: file.to_string(),
        args: strings(args),
        redirect: redirect.map(|target| target.to_string()),
    }
}

fn wait(pid: i32) -> Action {
    Action::Wait { child: ChildHandle { pid } }
}

fn report(error: ShellError) -> Action {
    Action::Report { error }
}

fn spawned(pid: i32) -> Event {
    Event::Spawned(ChildHandle { pid })
}

#[test]
fn new_shell_is_idle() {
    let sh = shell(&["/bin", "/usr/bin"]);
    assert!(sh.is_idle());
    assert_eq!(sh.path(), &strings(&["/bin", "/usr/bin"]));
    assert_eq!(sh.pending(), Action::Done);
}

#[test]
fn fresh_shell_looks_in_bin() {
    let mut sh = ShellState::default();
    assert!(sh.is_idle());
    assert_eq!(sh.path(), &strings(&["/bin"]));
    assert_eq!(sh.interpret("ls"), probe("/bin/ls"));
}

#[test]
fn candidate_is_directory_slash_program() {
    assert_eq!(candidate_path(&"/bin".to_string(), &"ls".to_string()), "/bin/ls");
    assert_eq!(candidate_path(&"".to_string(), &"ls".to_string()), "/ls");
    assert_eq!(candidate_path(&"rel/dir".to_string(), &"a.out".to_string()), "rel/dir/a.out");
}

#[test]
fn single_command_is_found_run_and_waited_for() {
    let mut sh = shell(&["/bin"]);
    assert_eq!(sh.interpret("ls"), probe("/bin/ls"));
    assert!(!sh.is_idle());
    assert_eq!(sh.resume(Event::Probed(true)), spawn("/bin/ls", &["ls"], None));
    assert_eq!(sh.resume(spawned(41)), wait(41));
    assert!(!sh.is_idle());
    assert_eq!(sh.resume(Event::Reaped(true)), Action::Done);
    assert!(sh.is_idle());
    assert_eq!(sh.path(), &strings(&["/bin"]));
}

#[test]
fn argument_vector_is_as_typed() {
    let mut sh = shell(&["/usr/local/bin", "/bin"]);
    assert_eq!(sh.interpret("  grep   -n  foo   file.txt "), probe("/usr/local/bin/grep"));
    assert_eq!(sh.resume(Event::Probed(false)), probe("/bin/grep"));
    assert_eq!(
        sh.resume(Event::Probed(true)),
        spawn("/bin/grep", &["grep", "-n", "foo", "file.txt"], None)
    );
}

#[test]
fn parallel_commands_are_all_spawned_before_the_first_wait() {
    let mut sh = shell(&["/bin"]);
    assert_eq!(sh.interpret("sleep 1 & sleep 1"), probe("/bin/sleep"));
    assert_eq!(sh.resume(Event::Probed(true)), spawn("/bin/sleep", &["sleep", "1"], None));
    assert_eq!(sh.resume(spawned(10)), probe("/bin/sleep"));
    assert_eq!(sh.resume(Event::Probed(true)), spawn("/bin/sleep", &["sleep", "1"], None));
    assert_eq!(sh.resume(spawned(11)), wait(10));
    assert_eq!(sh.resume(Event::Reaped(true)), wait(11));
    assert_eq!(sh.resume(Event::Reaped(true)), Action::Done);
    assert!(sh.is_idle());
}

#[test]
fn three_in_parallel_are_waited_for_in_spawn_order() {
    let mut sh = shell(&["/b"]);
    let mut action = sh.interpret("a & b & c");
    let mut requests: Vec<&str> = Vec::new();
    let mut pid = 100;
    loop {
        action = match action {
            Action::Probe { .. } => {
                requests.push("probe");
                sh.resume(Event::Probed(true))
            }
            Action::Spawn { .. } => {
                requests.push("spawn");
                pid += 1;
                sh.resume(spawned(pid))
            }
            Action::Wait { child } => {
                requests.push("wait");
                assert_eq!(child.pid, 101 + requests.iter().filter(|r| **r == "wait").count() as i32 - 1);
                sh.resume(Event::Reaped(true))
            }
            Action::Done => break,
            other => panic!("unexpected {:?}", other),
        };
    }
    assert_eq!(
        requests,
        vec!["probe", "spawn", "probe", "spawn", "probe", "spawn", "wait", "wait", "wait"]
    );
}

#[test]
fn redirect_goes_with_the_spawn() {
    let mut sh = shell(&["/bin"]);
    assert_eq!(sh.interpret("echo hi > out.txt"), probe("/bin/echo"));
    assert_eq!(
        sh.resume(Event::Probed(true)),
        spawn("/bin/echo", &["echo", "hi"], Some("out.txt"))
    );
    assert_eq!(sh.resume(spawned(5)), wait(5));
    assert_eq!(sh.resume(Event::Reaped(true)), Action::Done);
}

#[test]
fn two_redirects_spawn_nothing() {
    let mut sh = shell(&["/bin"]);
    assert_eq!(sh.interpret("foo > a > b"), report(ShellError::Parse));
    assert!(sh.is_idle());
    assert_eq!(sh.pending(), Action::Done);
}

#[test]
fn unknown_program_is_reported_once() {
    let mut sh = shell(&["/bin", "/usr/bin", "/opt/bin"]);
    assert_eq!(sh.interpret("doesnotexist"), probe("/bin/doesnotexist"));
    assert_eq!(sh.resume(Event::Probed(false)), probe("/usr/bin/doesnotexist"));
    assert_eq!(sh.resume(Event::Probed(false)), probe("/opt/bin/doesnotexist"));
    assert_eq!(sh.resume(Event::Probed(false)), report(ShellError::Resolution));
    assert!(sh.is_idle());
    // nothing further comes, whatever the host says
    assert_eq!(sh.resume(Event::Probed(false)), Action::Done);
    assert_eq!(sh.resume(Event::Reaped(true)), Action::Done);
    assert_eq!(sh.pending(), Action::Done);
}

#[test]
fn empty_path_finds_nothing_until_it_is_set_again() {
    let mut sh = shell(&["/bin"]);
    assert_eq!(sh.interpret("path"), Action::Done);
    assert!(sh.path().is_empty());
    assert_eq!(sh.interpret("ls"), report(ShellError::Resolution));
    assert_eq!(sh.interpret("ls -l > out"), report(ShellError::Resolution));
    assert!(sh.path().is_empty());
    assert_eq!(sh.interpret("path /usr/bin"), Action::Done);
    assert_eq!(sh.path(), &strings(&["/usr/bin"]));
    assert_eq!(sh.interpret("ls"), probe("/usr/bin/ls"));
}

#[test]
fn path_is_replaced_whole() {
    let mut sh = shell(&["/bin"]);
    assert_eq!(sh.interpret("path /a /b /c"), Action::Done);
    assert_eq!(sh.path(), &strings(&["/a", "/b", "/c"]));
    assert_eq!(sh.interpret("path /d"), Action::Done);
    assert_eq!(sh.path(), &strings(&["/d"]));
    assert!(sh.is_idle());
}

#[test]
fn cd_asks_for_the_directory() {
    let mut sh = shell(&["/bin"]);
    assert_eq!(sh.interpret("cd /tmp"), Action::ChangeDir { dir: "/tmp".to_string() });
    assert_eq!(sh.resume(Event::DirChanged(true)), Action::Done);
    assert!(sh.is_idle());
}

#[test]
fn cd_that_fails_is_reported() {
    let mut sh = shell(&["/bin"]);
    assert_eq!(sh.interpret("cd /nowhere"), Action::ChangeDir { dir: "/nowhere".to_string() });
    assert_eq!(sh.resume(Event::DirChanged(false)), report(ShellError::Os(OsFailure::ChangeDir)));
    assert!(sh.is_idle());
}

#[test]
fn cd_with_wrong_arity_changes_nothing() {
    let mut sh = shell(&["/bin"]);
    assert_eq!(sh.interpret("cd"), report(ShellError::Parse));
    assert!(sh.is_idle());
    assert_eq!(sh.interpret("cd a b"), report(ShellError::Parse));
    assert!(sh.is_idle());
    assert_eq!(sh.pending(), Action::Done);
}

#[test]
fn exit_ends_the_shell() {
    let mut sh = shell(&["/bin"]);
    assert_eq!(sh.interpret("exit"), Action::Exit);
    assert_eq!(sh.pending(), Action::Exit);
    assert_eq!(sh.resume(Event::Reaped(true)), Action::Exit);
    assert!(!sh.is_idle());
}

#[test]
fn exit_with_argument_does_not_end_the_shell() {
    let mut sh = shell(&["/bin"]);
    assert_eq!(sh.interpret("exit now"), report(ShellError::Parse));
    assert!(sh.is_idle());
    assert_eq!(sh.interpret("ls"), probe("/bin/ls"));
}

#[test]
fn blank_lines_do_nothing() {
    let mut sh = shell(&["/bin"]);
    assert_eq!(sh.interpret(""), Action::Done);
    assert_eq!(sh.interpret("   "), Action::Done);
    assert_eq!(sh.interpret("\t\r\n"), Action::Done);
    assert!(sh.is_idle());
    assert_eq!(sh.path(), &strings(&["/bin"]));
}

#[test]
fn failed_spawn_is_not_waited_for() {
    let mut sh = shell(&["/bin"]);
    assert_eq!(sh.interpret("ls"), probe("/bin/ls"));
    assert_eq!(sh.resume(Event::Probed(true)), spawn("/bin/ls", &["ls"], None));
    assert_eq!(sh.resume(Event::SpawnFailed), report(ShellError::Os(OsFailure::Spawn)));
    assert!(sh.is_idle());
    assert_eq!(sh.pending(), Action::Done);
}

#[test]
fn failed_wait_is_reported() {
    let mut sh = shell(&["/bin"]);
    sh.interpret("a & b");
    sh.resume(Event::Probed(true));
    sh.resume(spawned(1));
    sh.resume(Event::Probed(true));
    assert_eq!(sh.resume(spawned(2)), wait(1));
    assert_eq!(sh.resume(Event::Reaped(false)), report(ShellError::Os(OsFailure::Wait)));
    assert!(sh.is_idle());
}

#[test]
fn builtins_in_a_group_run_in_their_turn() {
    let mut sh = shell(&["/bin"]);
    assert_eq!(sh.interpret("path /usr/bin & ls & cd /tmp & pwd"), probe("/usr/bin/ls"));
    assert_eq!(sh.path(), &strings(&["/usr/bin"]));
    assert_eq!(sh.resume(Event::Probed(true)), spawn("/usr/bin/ls", &["ls"], None));
    assert_eq!(sh.resume(spawned(3)), Action::ChangeDir { dir: "/tmp".to_string() });
    assert_eq!(sh.resume(Event::DirChanged(true)), probe("/usr/bin/pwd"));
    assert_eq!(sh.resume(Event::Probed(true)), spawn("/usr/bin/pwd", &["pwd"], None));
    assert_eq!(sh.resume(spawned(4)), wait(3));
    assert_eq!(sh.resume(Event::Reaped(true)), wait(4));
    assert_eq!(sh.resume(Event::Reaped(true)), Action::Done);
}

#[test]
fn exit_in_a_group_leaves_children_behind() {
    let mut sh = shell(&["/bin"]);
    assert_eq!(sh.interpret("ls & exit"), probe("/bin/ls"));
    assert_eq!(sh.resume(Event::Probed(true)), spawn("/bin/ls", &["ls"], None));
    assert_eq!(sh.resume(spawned(9)), Action::Exit);
}

#[test]
fn failure_in_a_group_gives_the_rest_up() {
    let mut sh = shell(&["/bin"]);
    assert_eq!(sh.interpret("ls & nothere & path /x"), probe("/bin/ls"));
    assert_eq!(sh.resume(Event::Probed(true)), spawn("/bin/ls", &["ls"], None));
    assert_eq!(sh.resume(spawned(9)), probe("/bin/nothere"));
    assert_eq!(sh.resume(Event::Probed(false)), report(ShellError::Resolution));
    assert!(sh.is_idle());
    assert_eq!(sh.path(), &strings(&["/bin"]));
}

#[test]
fn malformed_group_keeps_earlier_builtins_from_running() {
    let mut sh = shell(&["/bin"]);
    assert_eq!(sh.interpret("path /x & cd"), report(ShellError::Parse));
    assert_eq!(sh.path(), &strings(&["/bin"]));
}

#[test]
fn stray_report_repeats_the_request() {
    let mut sh = shell(&["/bin", "/sbin"]);
    assert_eq!(sh.interpret("ls"), probe("/bin/ls"));
    assert_eq!(sh.resume(Event::Reaped(true)), probe("/bin/ls"));
    assert_eq!(sh.resume(spawned(1)), probe("/bin/ls"));
    assert_eq!(sh.resume(Event::SpawnFailed), probe("/bin/ls"));
    assert_eq!(sh.resume(Event::DirChanged(true)), probe("/bin/ls"));
    assert_eq!(sh.resume(Event::Probed(true)), spawn("/bin/ls", &["ls"], None));
    assert_eq!(sh.resume(Event::Probed(false)), spawn("/bin/ls", &["ls"], None));
    assert_eq!(sh.resume(Event::Probed(true)), spawn("/bin/ls", &["ls"], None));
    assert_eq!(sh.resume(spawned(2)), wait(2));
    assert_eq!(sh.resume(spawned(3)), wait(2));
    assert_eq!(sh.resume(Event::Probed(true)), wait(2));
    assert_eq!(sh.pending(), wait(2));
}

#[test]
fn execute_single_runs_one_command() {
    let mut sh = shell(&["/bin"]);
    let cmd = ShellCommand::External { args: strings(&["ls", "-a"]), redirect: None };
    assert_eq!(sh.execute_single(cmd), probe("/bin/ls"));
    assert_eq!(sh.resume(Event::Probed(true)), spawn("/bin/ls", &["ls", "-a"], None));
    assert_eq!(sh.resume(spawned(77)), wait(77));
    assert_eq!(sh.resume(Event::Reaped(true)), Action::Done);
    assert_eq!(sh.execute_single(ShellCommand::BuiltinPath(strings(&["/x"]))), Action::Done);
    assert_eq!(sh.path(), &strings(&["/x"]));
    assert_eq!(sh.execute_single(ShellCommand::BuiltinExit), Action::Exit);
}

#[test]
fn execute_parallel_runs_them_side_by_side() {
    let mut sh = shell(&["/bin"]);
    let cmds = vec![
        ShellCommand::External { args: strings(&["a"]), redirect: Some("o".to_string()) },
        ShellCommand::External { args: strings(&["b"]), redirect: None },
    ];
    assert_eq!(sh.execute_parallel(cmds), probe("/bin/a"));
    assert_eq!(sh.resume(Event::Probed(true)), spawn("/bin/a", &["a"], Some("o")));
    assert_eq!(sh.resume(spawned(1)), probe("/bin/b"));
    assert_eq!(sh.resume(Event::Probed(true)), spawn("/bin/b", &["b"], None));
    assert_eq!(sh.resume(spawned(2)), wait(1));
    // a line under way keeps others out
    assert_eq!(sh.execute_parallel(vec![]), wait(1));
    assert_eq!(sh.interpret("path /x"), wait(1));
    assert_eq!(sh.path(), &strings(&["/bin"]));
}

#[test]
fn no_commands_are_done_at_once() {
    let mut sh = shell(&["/bin"]);
    assert_eq!(sh.execute_parallel(vec![]), Action::Done);
    assert!(sh.is_idle());
}

#[test]
fn shell_started_without_argument_is_interactive() {
    assert_eq!(command_file(&strings(&["wish"])), Ok(None));
    assert_eq!(command_file(&strings(&[])), Ok(None));
}

#[test]
fn shell_started_with_a_file_reads_it() {
    let args = strings(&["wish", "batch.txt"]);
    assert_eq!(command_file(&args), Ok(Some(&"batch.txt".to_string())));
}

#[test]
fn shell_started_with_more_is_a_usage_error() {
    assert_eq!(command_file(&strings(&["wish", "a", "b"])), Err(ShellError::Usage));
    assert_eq!(command_file(&strings(&["wish", "a", "b", "c"])), Err(ShellError::Usage));
}
