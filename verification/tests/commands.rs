use wish::command_line::{parse_line, split_groups};
use wish::error::ShellError;
use wish::shell_command::ShellCommand;

fn words(items: &[&str]) -> Vec<String> {
    items.iter().map(|item| item.to_string()).collect()
}

fn external(args: &[&str], redirect: Option<&str>) -> ShellCommand {
    ShellCommand::External { args: words(args), redirect: redirect.map(|file| file.to_string()) }
}

#[test]
fn exit_alone_is_the_builtin() {
    assert_eq!(ShellCommand::try_from(words(&["exit"])), Ok(ShellCommand::BuiltinExit));
}

#[test]
fn exit_with_an_argument_is_malformed() {
    assert_eq!(ShellCommand::try_from(words(&["exit", "now"])), Err(ShellError::Parse));
    assert_eq!(ShellCommand::try_from(words(&["exit", "0", "1"])), Err(ShellError::Parse));
    assert_eq!(parse_line("exit now"), Err(ShellError::Parse));
}

#[test]
fn cd_takes_exactly_one_directory() {
    assert_eq!(
        ShellCommand::try_from(words(&["cd", "/tmp"])),
        Ok(ShellCommand::BuiltinCd("/tmp".to_string()))
    );
    assert_eq!(ShellCommand::try_from(words(&["cd"])), Err(ShellError::Parse));
    assert_eq!(ShellCommand::try_from(words(&["cd", "a", "b"])), Err(ShellError::Parse));
    assert_eq!(ShellCommand::try_from(words(&["cd", "a", "b", "c"])), Err(ShellError::Parse));
}

#[test]
fn parse_cd_gives_the_second_of_two() {
    assert_eq!(ShellCommand::parse_cd(&words(&["cd", "/usr"])), Some("/usr".to_string()));
    assert_eq!(ShellCommand::parse_cd(&words(&["cd"])), None);
    assert_eq!(ShellCommand::parse_cd(&words(&["cd", "a", "b"])), None);
    assert_eq!(ShellCommand::parse_cd(&words(&[])), None);
}

#[test]
fn path_takes_all_that_follows() {
    assert_eq!(
        ShellCommand::try_from(words(&["path", "/bin", "/usr/bin"])),
        Ok(ShellCommand::BuiltinPath(words(&["/bin", "/usr/bin"])))
    );
    assert_eq!(ShellCommand::try_from(words(&["path"])), Ok(ShellCommand::BuiltinPath(vec![])));
    assert_eq!(
        ShellCommand::try_from(words(&["path", ">", "x"])),
        Ok(ShellCommand::BuiltinPath(words(&[">", "x"])))
    );
}

#[test]
fn external_command_keeps_all_tokens() {
    assert_eq!(
        ShellCommand::try_from(words(&["ls", "-l", "/tmp"])),
        Ok(external(&["ls", "-l", "/tmp"], None))
    );
    assert_eq!(ShellCommand::try_from(words(&["exits"])), Ok(external(&["exits"], None)));
    assert_eq!(ShellCommand::try_from(words(&["CD", "x"])), Ok(external(&["CD", "x"], None)));
}

#[test]
fn redirect_is_taken_off_the_end() {
    assert_eq!(
        ShellCommand::try_from(words(&["echo", "hi", ">", "out.txt"])),
        Ok(external(&["echo", "hi"], Some("out.txt")))
    );
    assert_eq!(
        ShellCommand::get_redirect(words(&["ls", ">", "out"])),
        Ok((Some("out".to_string()), words(&["ls"])))
    );
    assert_eq!(ShellCommand::get_redirect(words(&["ls", "-a"])), Ok((None, words(&["ls", "-a"]))));
    assert_eq!(ShellCommand::get_redirect(words(&[])), Ok((None, words(&[]))));
}

#[test]
fn misplaced_redirect_is_malformed() {
    // nothing before it
    assert_eq!(ShellCommand::get_redirect(words(&[">", "out"])), Err(ShellError::Parse));
    // nothing after it
    assert_eq!(ShellCommand::get_redirect(words(&["ls", ">"])), Err(ShellError::Parse));
    // two files after it
    assert_eq!(ShellCommand::get_redirect(words(&["ls", ">", "a", "b"])), Err(ShellError::Parse));
    // alone
    assert_eq!(ShellCommand::get_redirect(words(&[">"])), Err(ShellError::Parse));
}

#[test]
fn two_redirects_are_malformed() {
    assert_eq!(
        ShellCommand::try_from(words(&["foo", ">", "a", ">", "b"])),
        Err(ShellError::Parse)
    );
    assert_eq!(ShellCommand::get_redirect(words(&["foo", ">", ">"])), Err(ShellError::Parse));
    assert_eq!(ShellCommand::get_redirect(words(&["foo", ">", ">", "b"])), Err(ShellError::Parse));
    assert_eq!(parse_line("foo > a > b"), Err(ShellError::Parse));
    assert_eq!(parse_line("foo>a>b"), Err(ShellError::Parse));
}

#[test]
fn groups_are_cut_at_ampersands() {
    assert_eq!(
        split_groups(&words(&["sleep", "1", "&", "sleep", "2"])),
        vec![words(&["sleep", "1"]), words(&["sleep", "2"])]
    );
    assert_eq!(split_groups(&words(&["ls"])), vec![words(&["ls"])]);
}

#[test]
fn empty_groups_are_dropped() {
    assert_eq!(
        split_groups(&words(&["&", "a", "&", "&", "b", "&"])),
        vec![words(&["a"]), words(&["b"])]
    );
    assert_eq!(split_groups(&words(&["&", "&"])), Vec::<Vec<String>>::new());
    assert_eq!(split_groups(&words(&[])), Vec::<Vec<String>>::new());
}

#[test]
fn line_without_tokens_asks_for_nothing() {
    assert_eq!(parse_line(""), Ok(vec![]));
    assert_eq!(parse_line("   \t  "), Ok(vec![]));
    assert_eq!(parse_line(" & "), Ok(vec![]));
}

#[test]
fn line_with_one_command() {
    assert_eq!(parse_line("ls -l\n"), Ok(vec![external(&["ls", "-l"], None)]));
    assert_eq!(parse_line("ls>out"), Ok(vec![external(&["ls"], Some("out"))]));
}

#[test]
fn line_with_commands_side_by_side() {
    assert_eq!(
        parse_line("sleep 1 & sleep 1"),
        Ok(vec![external(&["sleep", "1"], None), external(&["sleep", "1"], None)])
    );
    assert_eq!(
        parse_line("cd /tmp&path /bin /usr/bin&ls > out&exit"),
        Ok(vec![
            ShellCommand::BuiltinCd("/tmp".to_string()),
            ShellCommand::BuiltinPath(words(&["/bin", "/usr/bin"])),
            external(&["ls"], Some("out")),
            ShellCommand::BuiltinExit,
        ])
    );
}

#[test]
fn one_malformed_group_spoils_the_line() {
    assert_eq!(parse_line("ls & cd"), Err(ShellError::Parse));
    assert_eq!(parse_line("cd a b & ls"), Err(ShellError::Parse));
    assert_eq!(parse_line("ls & echo > & pwd"), Err(ShellError::Parse));
    assert_eq!(parse_line("ls & exit 1 & pwd"), Err(ShellError::Parse));
}

#[test]
fn every_failure_has_the_same_message() {
    assert_eq!(ShellError::Parse.message(), "An error has occurred");
    assert_eq!(ShellError::Resolution.message(), "An error has occurred");
    assert_eq!(ShellError::Usage.message(), "An error has occurred");
    assert_eq!(
        ShellError::Os(wish::error::OsFailure::ChangeDir).message(),
        "An error has occurred"
    );
    assert_eq!(ShellError::Os(wish::error::OsFailure::Spawn).message(), "An error has occurred");
    assert_eq!(ShellError::Os(wish::error::OsFailure::Wait).message(), "An error has occurred");
}
