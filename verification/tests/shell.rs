use leviathan_plugins::shell::{color_env, wait_step, WaitStep};
use leviathan_plugins::json::JsonValue;
use leviathan_plugins::shell::{
    append_limited, run_result, executable_lookup, parse_open_spec, parse_run_spec, process_spawn_caps, shell_args, shell_kind,
    ExecutableLookup, RawShellOpenValue, RawShellRun, RawShellRunValue, ShellKind,
    DEFAULT_OUTPUT_LIMIT, MAX_OUTPUT_LIMIT,
};

#[test]
fn parses_string_spec() {
    let spec = parse_run_spec(RawShellRunValue::Command("echo hi".into())).unwrap();
    assert_eq!(spec.command, "echo hi");
    assert!(spec.ansi);
}

#[test]
fn rejects_empty_command() {
    let err = parse_run_spec(RawShellRunValue::Command(" ".into())).unwrap_err();
    assert!(err.contains("must not be empty"));
}

#[test]
fn table_spec_fills_defaults_and_clamps_output() {
    let spec = parse_run_spec(RawShellRunValue::Table(RawShellRun {
        command: Some("ls".into()),
        cwd: Some(String::new()),
        env: vec![("A".into(), "1".into())],
        input: None,
        timeout_ms: Some(0),
        max_output_bytes: Some(10),
        ansi: None,
    }))
    .unwrap();
    assert_eq!(spec.cwd, None);
    assert_eq!(spec.timeout_ms, None);
    assert_eq!(spec.max_output_bytes, 1024);
    assert!(spec.ansi);
    let big = parse_run_spec(RawShellRunValue::Table(RawShellRun {
        command: Some("ls".into()),
        cwd: Some("/tmp".into()),
        env: vec![],
        input: Some("x".into()),
        timeout_ms: Some(50),
        max_output_bytes: Some(u64::MAX),
        ansi: Some(false),
    }))
    .unwrap();
    assert_eq!(big.cwd.as_deref(), Some("/tmp"));
    assert_eq!(big.timeout_ms, Some(50));
    assert_eq!(big.max_output_bytes, MAX_OUTPUT_LIMIT);
    assert!(!big.ansi);
    let default = parse_run_spec(RawShellRunValue::Table(RawShellRun {
        command: Some("ls".into()),
        cwd: None,
        env: vec![],
        input: None,
        timeout_ms: None,
        max_output_bytes: None,
        ansi: None,
    }))
    .unwrap();
    assert_eq!(default.max_output_bytes, DEFAULT_OUTPUT_LIMIT);
}

#[test]
fn run_spec_errors() {
    assert_eq!(
        parse_run_spec(RawShellRunValue::Other).unwrap_err(),
        "shell.run expects a command string or spec table"
    );
    let missing = RawShellRun {
        command: None,
        cwd: None,
        env: vec![],
        input: None,
        timeout_ms: None,
        max_output_bytes: None,
        ansi: None,
    };
    assert_eq!(parse_run_spec(RawShellRunValue::Table(missing)).unwrap_err(), "shell.run spec requires command");
}

#[test]
fn open_spec_drops_empty_fields() {
    let spec = parse_open_spec(RawShellOpenValue::Table { cwd: Some(String::new()), env: vec![], rows: Some(0), cols: Some(80) }).unwrap();
    assert_eq!(spec.cwd, None);
    assert_eq!(spec.rows, None);
    assert_eq!(spec.cols, Some(80));
    assert!(parse_open_spec(RawShellOpenValue::Nil).is_ok());
    assert_eq!(parse_open_spec(RawShellOpenValue::Other).unwrap_err(), "shell.open expects nil or a spec table");
}

#[test]
fn shell_kinds_and_arguments() {
    assert_eq!(shell_kind("CMD.EXE"), ShellKind::Cmd);
    assert_eq!(shell_kind("pwsh"), ShellKind::PowerShell);
    assert_eq!(shell_kind("Bash"), ShellKind::PosixLogin);
    assert_eq!(shell_kind("fish"), ShellKind::Command);
    assert_eq!(shell_args(ShellKind::PosixLogin, "ls"), vec!["-lc", "ls"]);
    assert_eq!(shell_args(ShellKind::Command, "ls"), vec!["-c", "ls"]);
    assert_eq!(shell_args(ShellKind::Cmd, "dir"), vec!["/D", "/C", "dir"]);
    assert_eq!(shell_args(ShellKind::PowerShell, "ls"), vec!["-NoLogo", "-NoProfile", "-Command", "ls"]);
}

#[test]
fn spawn_capabilities_name_the_program() {
    assert_eq!(process_spawn_caps("/bin/bash"), vec!["process:spawn", "process:spawn:bash"]);
    assert_eq!(
        process_spawn_caps("/usr/bin/pwsh.exe"),
        vec!["process:spawn", "process:spawn:pwsh.exe", "process:spawn:pwsh"]
    );
    assert_eq!(process_spawn_caps("/"), vec!["process:spawn"]);
}

#[test]
fn executable_lookup_kinds() {
    assert_eq!(executable_lookup(""), ExecutableLookup::Nothing);
    assert_eq!(executable_lookup("bash"), ExecutableLookup::SearchPath);
    assert_eq!(executable_lookup("/bin/bash"), ExecutableLookup::UsePath);
    assert_eq!(executable_lookup("./bash"), ExecutableLookup::UsePath);
}

fn field<'a>(v: &'a JsonValue, key: &str) -> &'a JsonValue {
    match v {
        JsonValue::Object(m) => &m.iter().find(|(k, _)| k == key).unwrap().1,
        _ => panic!("not a table"),
    }
}

#[test]
fn run_result_reports_success_and_combined_output() {
    let r = run_result("bash", "echo hi", "/tmp", Some(0), true, false, "hi\n", "warn\n");
    assert!(matches!(field(&r, "success"), JsonValue::Bool(true)));
    assert!(matches!(field(&r, "status"), JsonValue::Str(s) if s == "success"));
    assert!(matches!(field(&r, "exit_code"), JsonValue::Integer(0)));
    assert!(matches!(field(&r, "combined"), JsonValue::Str(s) if s == "hi\nwarn\n"));
    assert!(matches!(field(&r, "shell"), JsonValue::Str(s) if s == "bash"));
    assert!(matches!(field(&r, "timed_out"), JsonValue::Bool(false)));
}

#[test]
fn run_result_timeout_is_never_success() {
    let r = run_result("sh", "sleep 5", "", None, true, true, "", "");
    assert!(matches!(field(&r, "success"), JsonValue::Bool(false)));
    assert!(matches!(field(&r, "status"), JsonValue::Str(s) if s == "timed_out"));
    assert!(matches!(field(&r, "exit_code"), JsonValue::Null));
}

#[test]
fn run_result_failed_exit() {
    let r = run_result("sh", "false", "", Some(1), false, false, "", "boom");
    assert!(matches!(field(&r, "status"), JsonValue::Str(s) if s == "failed"));
    assert!(matches!(field(&r, "combined"), JsonValue::Str(s) if s == "boom"));
}

#[test]
fn append_limited_stops_at_the_limit() {
    let mut out = vec![1u8, 2];
    append_limited(&mut out, &[3, 4, 5, 6], 4);
    assert_eq!(out, vec![1, 2, 3, 4]);
    append_limited(&mut out, &[7], 4);
    assert_eq!(out, vec![1, 2, 3, 4]);
    let mut small = Vec::new();
    append_limited(&mut small, &[9, 8], 10);
    assert_eq!(small, vec![9, 8]);
}

#[test]
fn wait_loop_honours_cancel_before_timeout() {
    assert_eq!(wait_step(true, 10_000, Some(5)), WaitStep::Cancel);
    assert_eq!(wait_step(false, 5, Some(5)), WaitStep::TimeOut);
    assert_eq!(wait_step(false, 4, Some(5)), WaitStep::Poll);
    assert_eq!(wait_step(false, 1_000_000, None), WaitStep::Poll);
}

#[test]
fn ansi_asks_for_colour_through_five_variables() {
    assert!(color_env(false).is_empty());
    let env = color_env(true);
    assert_eq!(env.len(), 5);
    assert_eq!(env[0], ("TERM".to_string(), "xterm-256color".to_string()));
    assert_eq!(env[4], ("FORCE_COLOR".to_string(), "1".to_string()));
}
