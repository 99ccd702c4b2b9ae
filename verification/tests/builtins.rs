use crab_shell_core::command::{parse_input, Command};
use crab_shell_core::number::parse_i32;
use crab_shell_core::shell::{
    builtin_of, Builtin, DirectoryError, LaunchError, Report, Request, Shell, Step, NO_EXIT_CODE,
};
use crab_shell_core::text::{chars_of, is_space_char, join_from, same_text};

fn cmd(name: &str, args: &[&str]) -> Command {
    Command {
        command: name.to_string(),
        arguments: args.iter().map(|a| a.to_string()).collect(),
    }
}

fn pair(k: &str, v: &str) -> (String, String) {
    (k.to_string(), v.to_string())
}

fn failure(line: &str) -> Report {
    Report {
        code: 1,
        output: vec![],
        errors: vec![line.to_string()],
    }
}

fn silent() -> Report {
    Report {
        code: 0,
        output: vec![],
        errors: vec![],
    }
}

#[test]
fn decimal_integers() {
    assert_eq!(parse_i32("0"), Some(0));
    assert_eq!(parse_i32("42"), Some(42));
    assert_eq!(parse_i32("-7"), Some(-7));
    assert_eq!(parse_i32("+3"), Some(3));
    assert_eq!(parse_i32("007"), Some(7));
    assert_eq!(parse_i32("-0"), Some(0));
    assert_eq!(parse_i32("2147483647"), Some(i32::MAX));
    assert_eq!(parse_i32("-2147483648"), Some(i32::MIN));
    assert_eq!(parse_i32("00000000000000000000012"), Some(12));
}

#[test]
fn texts_that_write_no_integer() {
    for s in [
        "", "-", "+", "abc", "1 ", " 1", "1_000", "+-1", "--1", "1.5", "0x10", "2147483648",
        "-2147483649", "99999999999999999999", "\u{661}\u{662}",
    ] {
        assert_eq!(parse_i32(s), None, "{:?}", s);
    }
}

#[test]
fn decimal_integers_agree_with_std() {
    for s in ["12", "-12", "+12", "", "-", "2147483648", "-2147483648", "4x", "0009"] {
        assert_eq!(parse_i32(s), s.parse::<i32>().ok(), "{:?}", s);
    }
}

#[test]
fn white_space_agrees_with_std() {
    let mut c = 0u32;
    while c <= 0x10FFFF {
        if let Some(ch) = char::from_u32(c) {
            assert_eq!(is_space_char(ch), ch.is_whitespace(), "U+{:04X}", c);
        }
        c += 1;
    }
}

#[test]
fn text_helpers() {
    assert_eq!(chars_of("añb"), vec!['a', 'ñ', 'b']);
    assert!(same_text("cd", "cd"));
    assert!(!same_text("cd", "cdx"));
    assert!(!same_text("cd", "ce"));
    assert!(same_text("", ""));
    let parts = vec!["a".to_string(), "b".to_string(), "c".to_string()];
    assert_eq!(join_from(&parts, 0, "/"), "a/b/c");
    assert_eq!(join_from(&parts, 1, ":"), "b:c");
    assert_eq!(join_from(&parts, 2, ":"), "c");
    assert_eq!(join_from(&parts, 3, ":"), "");
}

#[test]
fn registry_of_builtins() {
    assert_eq!(builtin_of("cd"), Some(Builtin::ChangeDir));
    assert_eq!(builtin_of("exit"), Some(Builtin::Exit));
    assert_eq!(builtin_of("setvar"), Some(Builtin::SetVar));
    assert_eq!(builtin_of("unsetvar"), Some(Builtin::UnsetVar));
    assert_eq!(builtin_of("refenvvar"), Some(Builtin::RefreshEnv));
    assert_eq!(builtin_of("listvar"), Some(Builtin::ListVars));
    assert_eq!(builtin_of("ls"), None);
    assert_eq!(builtin_of(""), None);
    assert_eq!(builtin_of("CD"), None);
}

#[test]
fn setvar_joins_the_value_with_colons() {
    let mut shell = Shell::new(&vec![]);
    let report = shell.set_custom_var(&cmd("setvar", &["PATHS", "/bin", "/usr/bin", "/opt"]));
    assert_eq!(report, silent());
    assert_eq!(shell.vars.list_all().0, vec![pair("PATHS", "/bin:/usr/bin:/opt")]);
    let report = shell.set_custom_var(&cmd("setvar", &["X", "1"]));
    assert_eq!(report, silent());
    assert_eq!(
        shell.vars.list_all().0,
        vec![pair("PATHS", "/bin:/usr/bin:/opt"), pair("X", "1")]
    );
}

#[test]
fn setvar_needs_two_arguments() {
    let mut shell = Shell::new(&vec![]);
    let usage = "Not enough arguments, you have to specify {key} and {value}";
    assert_eq!(shell.set_custom_var(&cmd("setvar", &[])), failure(usage));
    assert_eq!(shell.set_custom_var(&cmd("setvar", &["X"])), failure(usage));
    assert!(shell.vars.list_all().0.is_empty());
}

#[test]
fn unsetvar_removes_each_key_and_reports_the_missing() {
    let mut shell = Shell::new(&vec![pair("E", "env")]);
    shell.vars.set_var("A".to_string(), "1".to_string());
    shell.vars.set_var("B".to_string(), "2".to_string());
    shell.vars.set_var("C".to_string(), "3".to_string());
    let report = shell.unset_custom_var(&cmd("unsetvar", &["A", "nope", "C", "A", "E"]));
    assert_eq!(
        report,
        Report {
            code: 1,
            output: vec![],
            errors: vec![
                "Cannot unset 'nope' because it doesn't exist.".to_string(),
                "Cannot unset 'A' because it doesn't exist.".to_string(),
                "Cannot unset 'E' because it doesn't exist.".to_string(),
            ],
        }
    );
    let (custom, env) = shell.vars.list_all();
    assert_eq!(custom, vec![pair("B", "2")]);
    assert_eq!(env, vec![pair("E", "env")]);
}

#[test]
fn unsetvar_succeeds_when_all_keys_exist() {
    let mut shell = Shell::new(&vec![]);
    shell.vars.set_var("A".to_string(), "1".to_string());
    shell.vars.set_var("B".to_string(), "2".to_string());
    assert_eq!(shell.unset_custom_var(&cmd("unsetvar", &["B", "A"])), silent());
    assert!(shell.vars.list_all().0.is_empty());
}

#[test]
fn unsetvar_needs_an_argument() {
    let mut shell = Shell::new(&vec![]);
    shell.vars.set_var("A".to_string(), "1".to_string());
    assert_eq!(
        shell.unset_custom_var(&cmd("unsetvar", &[])),
        failure("Not enough arguments, you have to specify {key}")
    );
    assert_eq!(shell.vars.list_all().0, vec![pair("A", "1")]);
}

#[test]
fn listvar_lists_custom_then_environment() {
    let mut shell = Shell::new(&vec![pair("HOME", "/root"), pair("LANG", "C")]);
    shell.vars.set_var("X".to_string(), "1".to_string());
    let report = shell.list_vars(&cmd("listvar", &["ignored"]));
    assert_eq!(
        report,
        Report {
            code: 0,
            output: vec![
                "CUSTOM VARIABLES:".to_string(),
                "\tX=1".to_string(),
                "ENVIRONMENT'S VARIABLES:".to_string(),
                "\tHOME=/root".to_string(),
                "\tLANG=C".to_string(),
            ],
            errors: vec![],
        }
    );
}

#[test]
fn listvar_of_an_empty_store() {
    let shell = Shell::new(&vec![]);
    let report = shell.list_vars(&cmd("listvar", &[]));
    assert_eq!(
        report.output,
        vec!["CUSTOM VARIABLES:".to_string(), "ENVIRONMENT'S VARIABLES:".to_string()]
    );
    assert_eq!(report.code, 0);
}

#[test]
fn exit_asks_for_the_end_of_the_process() {
    let shell = Shell::new(&vec![]);
    assert_eq!(
        shell.exit(&cmd("exit", &[])),
        Step::Pending(Request::Exit { code: 0 })
    );
    assert_eq!(
        shell.exit(&cmd("exit", &["3"])),
        Step::Pending(Request::Exit { code: 3 })
    );
    assert_eq!(
        shell.exit(&cmd("exit", &["-2", "ignored"])),
        Step::Pending(Request::Exit { code: -2 })
    );
}

#[test]
fn exit_refuses_a_code_that_is_no_integer() {
    let shell = Shell::new(&vec![]);
    let usage = "Cannot parse the code in the arguments (it has to be an integer)";
    assert_eq!(shell.exit(&cmd("exit", &["now"])), Step::Done(failure(usage)));
    assert_eq!(shell.exit(&cmd("exit", &[""])), Step::Done(failure(usage)));
    assert_eq!(
        shell.exit(&cmd("exit", &["99999999999"])),
        Step::Done(failure(usage))
    );
}

#[test]
fn cd_targets() {
    let shell = Shell::new(&vec![]);
    assert_eq!(
        shell.change_dir(&cmd("cd", &[])),
        Step::Pending(Request::ChangeDir { target: None })
    );
    assert_eq!(
        shell.change_dir(&cmd("cd", &["/tmp"])),
        Step::Pending(Request::ChangeDir {
            target: Some("/tmp".to_string())
        })
    );
    assert_eq!(
        shell.change_dir(&cmd("cd", &["usr", "local", "bin"])),
        Step::Pending(Request::ChangeDir {
            target: Some("usr/local/bin".to_string())
        })
    );
}

#[test]
fn cd_outcomes() {
    let target = "/no/such".to_string();
    assert_eq!(Shell::directory_changed(&target, Ok(())), silent());
    assert_eq!(
        Shell::directory_changed(&target, Err(DirectoryError::NotFound)),
        failure("Directory '/no/such' doesn't exist.")
    );
    assert_eq!(
        Shell::directory_changed(&target, Err(DirectoryError::PermissionDenied)),
        failure("You lack permissions to enter in '/no/such'")
    );
    assert_eq!(
        Shell::directory_changed(
            &target,
            Err(DirectoryError::Other("Not a directory".to_string()))
        ),
        failure("Unhandled error of type: Not a directory")
    );
}

#[test]
fn refenvvar_takes_the_new_environment() {
    let mut shell = Shell::new(&vec![pair("A", "old")]);
    shell.vars.set_var("X".to_string(), "1".to_string());
    let step = shell.execute_user_input(cmd("refenvvar", &[]));
    assert_eq!(step, Step::Pending(Request::ReadEnvironment));
    let code = shell.refresh_env_var(&vec![pair("A", "new")]);
    assert_eq!(code, 0);
    let (custom, env) = shell.vars.list_all();
    assert_eq!(custom, vec![pair("X", "1")]);
    assert_eq!(env, vec![pair("A", "new")]);
}

#[test]
fn child_process_outcomes() {
    assert_eq!(Shell::process_ended(Ok(Some(0))), Some(0));
    assert_eq!(Shell::process_ended(Ok(Some(127))), Some(127));
    assert_eq!(Shell::process_ended(Ok(None)), Some(NO_EXIT_CODE));
    assert_eq!(NO_EXIT_CODE, -1);
    assert_eq!(Shell::process_ended(Err(LaunchError)), None);
}

#[test]
fn blank_line_is_nothing_to_run() {
    let mut shell = Shell::new(&vec![]);
    let parsed = parse_input("   ".to_string()).unwrap();
    assert_eq!(shell.execute_user_input(parsed), Step::Nothing);
}

#[test]
fn unknown_name_asks_for_a_child_process() {
    let mut shell = Shell::new(&vec![]);
    let parsed = parse_input("grep -n \"two words\" file.txt".to_string()).unwrap();
    assert_eq!(
        shell.execute_user_input(parsed),
        Step::Pending(Request::Spawn {
            program: "grep".to_string(),
            arguments: vec!["-n".to_string(), "two words".to_string(), "file.txt".to_string()],
        })
    );
    assert_eq!(shell.execute_as_builtin(&cmd("grep", &["x"])), None);
}

#[test]
fn builtins_run_through_the_dispatcher() {
    let mut shell = Shell::new(&vec![pair("HOME", "/root")]);
    let step = shell.execute_user_input(parse_input("setvar X 1".to_string()).unwrap());
    assert_eq!(step, Step::Done(silent()));
    assert_eq!(shell.vars.list_all().0, vec![pair("X", "1")]);
    let step = shell.execute_user_input(parse_input("listvar".to_string()).unwrap());
    assert_eq!(
        step,
        Step::Done(Report {
            code: 0,
            output: vec![
                "CUSTOM VARIABLES:".to_string(),
                "\tX=1".to_string(),
                "ENVIRONMENT'S VARIABLES:".to_string(),
                "\tHOME=/root".to_string(),
            ],
            errors: vec![],
        })
    );
    let step = shell.execute_user_input(parse_input("unsetvar Y".to_string()).unwrap());
    assert_eq!(
        step,
        Step::Done(failure("Cannot unset 'Y' because it doesn't exist."))
    );
    assert_eq!(shell.vars.list_all().0, vec![pair("X", "1")]);
    let step = shell.execute_user_input(parse_input("cd a b".to_string()).unwrap());
    assert_eq!(
        step,
        Step::Pending(Request::ChangeDir {
            target: Some("a/b".to_string())
        })
    );
    let step = shell.execute_user_input(parse_input("exit 4".to_string()).unwrap());
    assert_eq!(step, Step::Pending(Request::Exit { code: 4 }));
    assert_eq!(
        shell.execute_as_builtin(&cmd("exit", &["x"])),
        Some(Step::Done(failure(
            "Cannot parse the code in the arguments (it has to be an integer)"
        )))
    );
}

#[test]
fn default_prompt() {
    assert_eq!(Shell::default_prompt_handler("/home/me"), "/home/me) ");
}
