use reinject::cli::{
    check_exit_code, cmd_check, cmd_monitor, cmd_parse, cmd_record, input_without_json,
    parser_arguments, require_arg, resolve_state_dir,
};
use reinject::json::quote;
use reinject::text::{is_blank, parse_u64, render_u64, same_text};
use reinject::{
    hook_output, parse_command, record, write_monitor_status, CliError, Command, HookInput,
    InjectReason, MonitorStatus, StateDir, ThrottleDecision,
};

fn args(list: &[&str]) -> Vec<String> {
    list.iter().map(|s| s.to_string()).collect()
}

fn input(session: Option<&str>, agent: Option<&str>, transcript: Option<&str>) -> HookInput {
    HookInput {
        session_id: session.map(|s| s.to_string()),
        agent_id: agent.map(|s| s.to_string()),
        transcript_path: transcript.map(|s| s.to_string()),
    }
}

#[test]
fn cmd_output_default_sys_msg() {
    let out = hook_output("PreToolUse", "ctx", None);
    let v: serde_json::Value = serde_json::from_str(&out).unwrap();
    assert_eq!(v["hookSpecificOutput"]["hookEventName"], "PreToolUse");
    assert!(v.get("systemMessage").is_some());
}

#[test]
fn record_writes_consumer_state() {
    let mut dir = StateDir::new();
    let monitor = MonitorStatus {
        non_thinking_bytes: 42,
        thinking_bytes: 7,
        ..Default::default()
    };
    write_monitor_status(&mut dir, &monitor);
    record(&mut dir, "my-hook", &monitor);
    let saved = reinject::read_consumer_state(&dir, "my-hook").unwrap();
    assert_eq!(saved, monitor);
}

#[test]
fn cmd_parse_nonexistent_file_prints_zero_zero() {
    assert_eq!(cmd_parse(None), "0 0");
}

#[test]
fn resolve_state_dir_falls_back_to_pid_when_no_session() {
    let path = resolve_state_dir("host", &input(None, None, None), 4242);
    assert_eq!(path, "/tmp/host-reinject-4242");
}

#[test]
fn resolve_state_dir_prefers_the_session() {
    assert_eq!(
        resolve_state_dir("host", &input(Some("abc"), None, None), 1),
        "/tmp/host-reinject-abc"
    );
    assert_eq!(
        resolve_state_dir("host", &input(Some("abc"), None, None), 2),
        "/tmp/host-reinject-abc"
    );
    assert_eq!(
        resolve_state_dir("host", &input(Some(""), None, None), 1),
        "/tmp/host-reinject-1"
    );
}

#[test]
fn cmd_parse_prints_both_counts() {
    assert_eq!(cmd_parse(Some((12, 340))), "12 340");
    assert_eq!(cmd_parse(Some((0, 0))), "0 0");
}

#[test]
fn commands_are_recognised() {
    assert_eq!(parse_command(&args(&["p", "monitor"])), Ok(Command::Monitor));
    assert_eq!(parse_command(&args(&["p", "reset", "x"])), Ok(Command::Reset));
    assert_eq!(
        parse_command(&args(&["p", "check", "h"])),
        Ok(Command::Check { hook_name: "h".to_string() })
    );
    assert_eq!(
        parse_command(&args(&["p", "record", "h"])),
        Ok(Command::Record { hook_name: "h".to_string() })
    );
    assert_eq!(
        parse_command(&args(&["p", "output", "e", "c"])),
        Ok(Command::Output {
            hook_event: "e".to_string(),
            context: "c".to_string(),
            system_message: None,
        })
    );
    assert_eq!(
        parse_command(&args(&["p", "output", "e", "c", "m"])),
        Ok(Command::Output {
            hook_event: "e".to_string(),
            context: "c".to_string(),
            system_message: Some("m".to_string()),
        })
    );
    assert_eq!(
        parse_command(&args(&["p", "parse", "t.jsonl", "+12"])),
        Ok(Command::Parse { path: "t.jsonl".to_string(), offset: 12 })
    );
}

#[test]
fn bad_arguments_are_errors() {
    let error = |list: &[&str]| parse_command(&args(list)).unwrap_err();
    assert_eq!(error(&["p"]), CliError::NoSubcommand);
    assert_eq!(error(&["p", ""]), CliError::NoSubcommand);
    assert_eq!(error(&[]), CliError::NoSubcommand);
    assert_eq!(error(&["p", ""]).exit_code(), 2);
    assert_eq!(error(&["p", ""]).message(), "");
    assert!(error(&["p", ""]).shows_subcommands());
    let unknown = error(&["p", "go"]);
    assert_eq!(unknown.message(), "unknown subcommand: go");
    assert_eq!(unknown.exit_code(), 1);
    assert!(unknown.shows_subcommands());
    let missing = error(&["p", "check"]);
    assert_eq!(
        missing.message(),
        "missing argument \u{2014} usage: reinject check <hook-name>"
    );
    assert!(!missing.shows_subcommands());
    assert_eq!(
        error(&["p", "record"]),
        CliError::MissingArgument("record <hook-name>".to_string())
    );
    assert_eq!(
        error(&["p", "output", "e"]),
        CliError::MissingArgument("output <hook-event> <context>".to_string())
    );
    assert_eq!(
        error(&["p", "parse", "t"]),
        CliError::MissingArgument("parse <transcript-path> <offset>".to_string())
    );
    assert_eq!(error(&["p", "parse", "t", "1x"]).message(), "invalid offset: 1x");
    assert_eq!(error(&["p", "parse", "t", "1x"]).exit_code(), 1);
    assert_eq!(require_arg(&args(&["a"]), 0, "u"), Ok("a".to_string()));
    assert_eq!(
        require_arg(&args(&["a"]), 1, "u"),
        Err(CliError::MissingArgument("u".to_string()))
    );
}

#[test]
fn parser_takes_two_arguments() {
    assert_eq!(
        parser_arguments(&args(&["p", "t", "7"])),
        Some(("t".to_string(), 7))
    );
    assert_eq!(
        parser_arguments(&args(&["p", "t", "x"])),
        Some(("t".to_string(), 0))
    );
    assert_eq!(parser_arguments(&args(&["p", "t"])), None);
}

#[test]
fn blank_input_needs_no_json() {
    assert_eq!(input_without_json(" \n\u{3000}"), Some(input(None, None, None)));
    assert_eq!(input_without_json("{}"), None);
    assert!(is_blank(""));
    assert!(!is_blank(" x "));
}

#[test]
fn monitor_runs_for_a_named_transcript_outside_sub_agents() {
    assert_eq!(
        cmd_monitor(&input(None, None, Some("t.jsonl"))),
        Some("t.jsonl".to_string())
    );
    assert_eq!(cmd_monitor(&input(None, Some("a"), Some("t.jsonl"))), None);
    assert_eq!(cmd_monitor(&input(None, None, Some(""))), None);
    assert_eq!(cmd_monitor(&input(None, None, None)), None);
}

#[test]
fn check_never_injects_in_sub_agents() {
    let mut dir = StateDir::new();
    let decision = cmd_check(&input(None, Some("a"), None), "h", &mut dir);
    assert_eq!(decision, ThrottleDecision::Skip);
    assert_eq!(dir.get("h"), None);
    assert_eq!(check_exit_code(&decision), 1);
    let decision = cmd_check(&input(None, None, None), "h", &mut dir);
    assert_eq!(decision, ThrottleDecision::Inject(InjectReason::FirstRun));
    assert_eq!(check_exit_code(&decision), 0);
    assert_eq!(dir.get("h"), Some("0\n0\n"));
}

#[test]
fn record_takes_the_monitor_totals() {
    let mut dir = StateDir::new();
    cmd_record("h", &mut dir);
    assert_eq!(dir.get("h"), Some("0\n0\n"));
    let totals = MonitorStatus {
        non_thinking_bytes: 3,
        thinking_bytes: 4,
        usage_tokens: Some(5),
    };
    write_monitor_status(&mut dir, &totals);
    cmd_record("h", &mut dir);
    assert_eq!(dir.get("h"), Some("3\n4\n5\n"));
}

#[test]
fn hook_output_is_json() {
    assert_eq!(
        hook_output("PreToolUse", "a \"b\"\n", Some("m")),
        "{\"hookSpecificOutput\":{\"additionalContext\":\"a \\\"b\\\"\\n\",\"hookEventName\":\"PreToolUse\"},\"systemMessage\":\"m\"}"
    );
}

#[test]
fn quoting_escapes_what_json_reserves() {
    assert_eq!(
        quote("\u{8}\t\u{c}\r\u{1}\u{1f}\\/\u{7f}\u{e9}"),
        "\"\\b\\t\\f\\r\\u0001\\u001f\\\\/\u{7f}\u{e9}\""
    );
}

#[test]
fn numbers_are_read_and_written() {
    assert_eq!(render_u64(0), "0");
    assert_eq!(render_u64(u64::MAX), "18446744073709551615");
    assert_eq!(parse_u64("18446744073709551615"), Some(u64::MAX));
    assert_eq!(parse_u64("18446744073709551616"), None);
    assert_eq!(parse_u64("99999999999999999999"), None);
    assert_eq!(parse_u64("007"), Some(7));
    assert_eq!(parse_u64("+"), None);
    assert_eq!(parse_u64(""), None);
    assert_eq!(parse_u64(" 1"), None);
    assert_eq!(parse_u64("1_000"), None);
    assert!(same_text("caf\u{e9}", "caf\u{e9}"));
    assert!(!same_text("a", "ab"));
    assert!(!same_text("a", "b"));
}
