use minishell::builtins::cd_fail_message;
use minishell::builtins::cd_target;
use minishell::builtins::exit_decision;
use minishell::builtins::join_words;
use minishell::builtins::not_found_message;
use minishell::builtins::BuiltinCommand;
use minishell::builtins::BuiltinEffect;
use minishell::builtins::ExitDecision;
use minishell::builtins::Shell;
use minishell::dispatch::tail_words;
use minishell::dispatch::Action;
use minishell::numparse::parse_i32;
use minishell::tokenize::parse_input;

fn strings(ws: &[&str]) -> Vec<String> {
    ws.iter().map(|w| String::from(*w)).collect()
}

#[test]
fn registry_knows_the_five_builtins() {
    let shell = Shell::new();
    assert_eq!(shell.lookup("exit"), Some(BuiltinCommand::Exit));
    assert_eq!(shell.lookup("echo"), Some(BuiltinCommand::Echo));
    assert_eq!(shell.lookup("type"), Some(BuiltinCommand::Type));
    assert_eq!(shell.lookup("pwd"), Some(BuiltinCommand::Pwd));
    assert_eq!(shell.lookup("cd"), Some(BuiltinCommand::Cd));
    assert_eq!(shell.lookup("ls"), None);
    assert!(shell.is_builtin("cd"));
    assert!(!shell.is_builtin("foobar123"));
}

#[test]
fn dispatch_prefers_builtins() {
    let shell = Shell::new();
    let words = parse_input("echo x");
    assert_eq!(shell.dispatch(&words), Action::RunBuiltin(BuiltinCommand::Echo));
    let external = parse_input("ls -l");
    assert_eq!(shell.dispatch(&external), Action::RunExternal);
}

#[test]
fn tail_words_drops_the_command_name() {
    let words = strings(&["echo", "a", "b"]);
    assert_eq!(tail_words(&words), strings(&["a", "b"]));
    assert_eq!(tail_words(&strings(&["pwd"])), Vec::<String>::new());
}

#[test]
fn parses_decimal_exit_codes() {
    assert_eq!(parse_i32("0"), Some(0));
    assert_eq!(parse_i32("42"), Some(42));
    assert_eq!(parse_i32("-7"), Some(-7));
    assert_eq!(parse_i32("+5"), Some(5));
    assert_eq!(parse_i32("2147483647"), Some(2147483647));
    assert_eq!(parse_i32("-2147483648"), Some(-2147483648));
}

#[test]
fn rejects_invalid_exit_codes() {
    assert_eq!(parse_i32(""), None);
    assert_eq!(parse_i32("-"), None);
    assert_eq!(parse_i32("+"), None);
    assert_eq!(parse_i32("notanumber"), None);
    assert_eq!(parse_i32("1 2"), None);
    assert_eq!(parse_i32("12a"), None);
    assert_eq!(parse_i32("--5"), None);
    assert_eq!(parse_i32("2147483648"), None);
    assert_eq!(parse_i32("-2147483649"), None);
    assert_eq!(parse_i32("99999999999999999999"), None);
}

#[test]
fn exit_defaults_to_zero_and_rejects_garbage() {
    assert_eq!(exit_decision(&strings(&[])), ExitDecision::Terminate(0));
    assert_eq!(exit_decision(&strings(&["3"])), ExitDecision::Terminate(3));
    assert_eq!(exit_decision(&strings(&["notanumber"])), ExitDecision::Invalid);
}

#[test]
fn echo_joins_arguments_with_single_spaces() {
    assert_eq!(join_words(&strings(&["a", "b", "c"])), "a b c");
    assert_eq!(join_words(&strings(&["a  b"])), "a  b");
    assert_eq!(join_words(&strings(&[])), "");
}

#[test]
fn cd_resolves_home_and_verbatim_paths() {
    let home = Some(String::from("/home/u"));
    assert_eq!(cd_target(&strings(&[]), &home), Some(String::from("/home/u")));
    assert_eq!(cd_target(&strings(&["~"]), &home), Some(String::from("/home/u")));
    assert_eq!(cd_target(&strings(&["/tmp"]), &home), Some(String::from("/tmp")));
    assert_eq!(cd_target(&strings(&["rel/dir"]), &home), Some(String::from("rel/dir")));
    assert_eq!(cd_target(&strings(&[]), &None), None);
    assert_eq!(cd_target(&strings(&["~"]), &None), None);
    assert_eq!(cd_target(&strings(&["/tmp"]), &None), Some(String::from("/tmp")));
}

#[test]
fn diagnostic_messages_name_the_culprit() {
    assert_eq!(not_found_message("foobar123"), "foobar123: command not found");
    assert_eq!(cd_fail_message("/nope"), "cd: /nope: No such file or directory");
}

#[test]
fn execute_echo_prints_joined_arguments() {
    let shell = Shell::new();
    let e = BuiltinCommand::Echo.execute(&strings(&["hello", "world"]), &shell, &None, &None, &None);
    assert_eq!(e, BuiltinEffect::PrintLine(String::from("hello world")));
}

#[test]
fn execute_exit_terminates_or_reports() {
    let shell = Shell::new();
    let e = BuiltinCommand::Exit.execute(&strings(&[]), &shell, &None, &None, &None);
    assert_eq!(e, BuiltinEffect::Terminate(0));
    let e = BuiltinCommand::Exit.execute(&strings(&["3"]), &shell, &None, &None, &None);
    assert_eq!(e, BuiltinEffect::Terminate(3));
    let e = BuiltinCommand::Exit.execute(&strings(&["notanumber"]), &shell, &None, &None, &None);
    assert_eq!(e, BuiltinEffect::Diagnostic(String::from("exit: invalid argument")));
}

#[test]
fn execute_pwd_prints_directory_or_diagnoses() {
    let shell = Shell::new();
    let cwd = Some(String::from("/work"));
    let e = BuiltinCommand::Pwd.execute(&strings(&[]), &shell, &None, &cwd, &None);
    assert_eq!(e, BuiltinEffect::PrintLine(String::from("/work")));
    let e = BuiltinCommand::Pwd.execute(&strings(&[]), &shell, &None, &None, &None);
    assert_eq!(
        e,
        BuiltinEffect::Diagnostic(String::from("pwd: error retrieving current directory"))
    );
}

#[test]
fn execute_type_reports_builtins_paths_and_misses() {
    let shell = Shell::new();
    let e = BuiltinCommand::Type.execute(&strings(&["echo"]), &shell, &None, &None, &None);
    assert_eq!(e, BuiltinEffect::PrintLine(String::from("echo is a shell builtin")));
    let resolved = Some(String::from("/usr/bin/ls"));
    let e = BuiltinCommand::Type.execute(&strings(&["ls"]), &shell, &None, &None, &resolved);
    assert_eq!(e, BuiltinEffect::PrintLine(String::from("ls is /usr/bin/ls")));
    let e = BuiltinCommand::Type.execute(&strings(&["nope"]), &shell, &None, &None, &None);
    assert_eq!(e, BuiltinEffect::PrintLine(String::from("nope: not found")));
    let e = BuiltinCommand::Type.execute(&strings(&[]), &shell, &None, &None, &None);
    assert_eq!(e, BuiltinEffect::PrintLine(String::from("type: missing argument")));
}

#[test]
fn execute_cd_changes_directory_or_diagnoses() {
    let shell = Shell::new();
    let home = Some(String::from("/home/u"));
    let e = BuiltinCommand::Cd.execute(&strings(&[]), &shell, &home, &None, &None);
    assert_eq!(e, BuiltinEffect::ChangeDir(String::from("/home/u")));
    let e = BuiltinCommand::Cd.execute(&strings(&["/tmp"]), &shell, &home, &None, &None);
    assert_eq!(e, BuiltinEffect::ChangeDir(String::from("/tmp")));
    let e = BuiltinCommand::Cd.execute(&strings(&["~"]), &shell, &None, &None, &None);
    assert_eq!(e, BuiltinEffect::Diagnostic(String::from("cd: $HOME not set")));
}
