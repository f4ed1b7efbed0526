use openclaw_installer::config::Environment;
use openclaw_installer::run::{Invocation, ProcessOutput};
use openclaw_installer::commands::{config_get_command, config_set_command};
use openclaw_installer::{
    check_node, check_openclaw, ensure_path, get_config_path, get_config_value, get_last_audit, install_node,
    install_openclaw, run_security_audit, run_security_fix, set_config_value, AppState,
};

fn done(status: Option<i32>, stdout: &str, stderr: &str) -> Result<ProcessOutput, String> {
    Ok(ProcessOutput { status, stdout: stdout.as_bytes().to_vec(), stderr: stderr.as_bytes().to_vec() })
}

fn list(items: &[&str]) -> Vec<String> {
    items.iter().map(|s| s.to_string()).collect()
}

fn report_text(critical: u32) -> String {
    format!("{{\"summary\":{{\"critical\":{},\"warn\":0,\"info\":0}},\"findings\":[]}}", critical)
}

#[test]
fn no_audit_before_the_first() {
    let state = AppState::new();
    assert_eq!(get_last_audit(&state), None);
    assert_eq!(state, AppState { last_audit: None });
}

#[test]
fn last_audit_is_the_most_recent_success() {
    let mut state = AppState::new();
    let first = run_security_audit(done(Some(0), &report_text(1), ""), &mut state).unwrap();
    assert_eq!(first.score, 75);
    assert_eq!(get_last_audit(&state), Some(first.clone()));
    let second = run_security_audit(done(Some(0), &report_text(2), ""), &mut state).unwrap();
    assert_eq!(second.score, 50);
    assert_eq!(get_last_audit(&state), Some(second.clone()));
    assert_eq!(get_last_audit(&state), Some(second));
}

#[test]
fn failed_fix_leaves_the_last_audit() {
    let mut state = AppState::new();
    let result = run_security_audit(done(Some(0), &report_text(0), ""), &mut state).unwrap();
    assert_eq!(run_security_fix(done(Some(1), "", "cannot fix")), Err("cannot fix ".to_string()));
    assert_eq!(get_last_audit(&state), Some(result.clone()));
    assert_eq!(run_security_fix(Err("not found".to_string())), Err("not found".to_string()));
    assert_eq!(get_last_audit(&state), Some(result.clone()));
    assert_eq!(run_security_fix(done(Some(0), "fixed", "")), Ok("fixed".to_string()));
    assert_eq!(get_last_audit(&state), Some(result));
}

#[test]
fn failed_audit_leaves_the_last_audit() {
    let mut state = AppState::new();
    let err = run_security_audit(done(Some(0), "not json", "oops"), &mut state).unwrap_err();
    assert_eq!(err, "Could not parse audit JSON. stdout: not json stderr: oops");
    assert_eq!(get_last_audit(&state), None);
    let result = run_security_audit(done(Some(0), &report_text(3), ""), &mut state).unwrap();
    assert_eq!(result.score, 25);
    let err = run_security_audit(Err("gone".to_string()), &mut state).unwrap_err();
    assert_eq!(err, "Failed to run openclaw: gone");
    assert_eq!(get_last_audit(&state), Some(result));
}

#[test]
fn snapshot_is_a_copy() {
    let mut state = AppState::new();
    run_security_audit(done(Some(0), &report_text(1), ""), &mut state).unwrap();
    let mut snapshot = get_last_audit(&state).unwrap();
    snapshot.score = 0;
    snapshot.message.push_str(" (edited)");
    assert_eq!(get_last_audit(&state).unwrap().score, 75);
    assert_eq!(get_last_audit(&state).unwrap().message, "1 critical, 0 warn, 0 info");
}

#[test]
fn blank_config_path_is_refused_before_anything_runs() {
    for blank in ["", " ", "   ", "\t\n", "\u{00A0}\u{3000}"] {
        assert_eq!(config_get_command(blank, true), Err("path is empty".to_string()), "{:?}", blank);
        assert_eq!(config_get_command(blank, false), Err("path is empty".to_string()), "{:?}", blank);
        assert_eq!(config_set_command(blank, "v", true), Err("path is empty".to_string()), "{:?}", blank);
        assert_eq!(config_set_command(blank, "v", false), Err("path is empty".to_string()), "{:?}", blank);
    }
}

#[test]
fn blank_config_path_fails_whatever_the_outcome() {
    for blank in ["", "   ", "\r\n\t"] {
        assert_eq!(get_config_value(blank.to_string(), done(Some(0), "value", "")), Err("path is empty".to_string()));
        assert_eq!(get_config_value(blank.to_string(), Err("x".to_string())), Err("path is empty".to_string()));
        assert_eq!(
            set_config_value(blank.to_string(), "v".to_string(), done(Some(0), "", "")),
            Err("path is empty".to_string())
        );
        assert_eq!(
            set_config_value(blank.to_string(), "v".to_string(), Err("x".to_string())),
            Err("path is empty".to_string())
        );
    }
}

#[test]
fn config_get_passes_the_trimmed_path() {
    assert_eq!(
        config_get_command("  gateway.port ", false),
        Ok(Invocation { program: "openclaw".to_string(), args: list(&["config", "get", "gateway.port"]) })
    );
    assert_eq!(
        config_get_command("gateway.port", true),
        Ok(Invocation { program: "cmd".to_string(), args: list(&["/C", "openclaw", "config", "get", "gateway.port"]) })
    );
}

#[test]
fn config_set_passes_the_value_as_one_token() {
    assert_eq!(
        config_set_command(" a.b ", " x y & z \"q\" ", false),
        Ok(Invocation { program: "openclaw".to_string(), args: list(&["config", "set", "a.b", " x y & z \"q\" "]) })
    );
    assert_eq!(
        config_set_command("a.b", "", true),
        Ok(Invocation { program: "cmd".to_string(), args: list(&["/C", "openclaw", "config", "set", "a.b", ""]) })
    );
}

#[test]
fn config_value_is_trimmed_stdout() {
    assert_eq!(get_config_value("gateway.port".to_string(), done(Some(0), " 18789\n", "warn")), Ok("18789".to_string()));
    assert_eq!(get_config_value(" p ".to_string(), done(Some(0), "", "")), Ok(String::new()));
}

#[test]
fn config_get_failure_prefers_stderr() {
    assert_eq!(
        get_config_value("p".to_string(), done(Some(1), " out ", " err \n")),
        Err("err".to_string())
    );
    assert_eq!(get_config_value("p".to_string(), done(Some(1), " out ", "  \n")), Err("out".to_string()));
    assert_eq!(get_config_value("p".to_string(), done(Some(1), "", "")), Err(String::new()));
    assert_eq!(get_config_value("p".to_string(), done(None, "zzz", "aaa")), Err("aaa".to_string()));
    assert_eq!(get_config_value("p".to_string(), done(Some(1), "aaa", "zzz")), Err("zzz".to_string()));
}

#[test]
fn config_get_that_cannot_start_returns_the_error() {
    assert_eq!(get_config_value("p".to_string(), Err("program not found".to_string())), Err("program not found".to_string()));
}

#[test]
fn config_set_reports_success_and_failure() {
    assert_eq!(set_config_value("p".to_string(), "v".to_string(), done(Some(0), "ignored", "ignored")), Ok(()));
    assert_eq!(
        set_config_value("p".to_string(), "v".to_string(), done(Some(2), " out\n", " err\n")),
        Err("err out".to_string())
    );
    assert_eq!(set_config_value("p".to_string(), "v".to_string(), done(None, "", "")), Err(" ".to_string()));
    assert_eq!(
        set_config_value("p".to_string(), "v".to_string(), Err("program not found".to_string())),
        Err("program not found".to_string())
    );
}

#[test]
fn config_path_command_resolves_the_path() {
    let env = Environment {
        config_path: None,
        state_dir: None,
        userprofile: Some("C:\\Users\\me".to_string()),
        home: None,
    };
    assert_eq!(get_config_path(&env), Ok("C:\\Users\\me\\.openclaw\\openclaw.json".to_string()));
    let env = Environment { config_path: None, state_dir: None, userprofile: None, home: None };
    assert_eq!(get_config_path(&env), Err("USERPROFILE and HOME are not set".to_string()));
}

#[test]
fn check_commands_pass_the_checks_on() {
    let node = check_node(done(Some(0), "v22.1.0", ""));
    assert!(node.found && node.ok);
    assert_eq!(node.major, Some(22));
    let node = check_node(done(Some(0), "v18.0.0", ""));
    assert!(node.found && !node.ok);
    assert_eq!(node.major, Some(18));
    let claw = check_openclaw(done(Some(0), "1.2.3\n", ""));
    assert!(claw.found);
    assert_eq!(claw.version, Some("1.2.3".to_string()));
    assert_eq!(claw.message, "OpenClaw 1.2.3");
}

#[test]
fn install_commands_turn_flags_into_results() {
    assert_eq!(
        install_node(Ok(Some(0))),
        Ok("Node.js installed. Restart the app and run Check again.".to_string())
    );
    assert_eq!(install_node(Ok(Some(5))), Err("winget exited with code: Some(5)".to_string()));
    assert_eq!(install_node(Err("denied".to_string())), Err("winget failed: denied".to_string()));
    assert_eq!(install_openclaw(done(Some(0), "ok", "")), Ok("Installed. ok".to_string()));
    assert_eq!(install_openclaw(done(Some(1), "o", "e")), Err("npm error: e o".to_string()));
    assert_eq!(ensure_path(false, Err(String::new()), None), Ok("N/A on this platform".to_string()));
    assert_eq!(ensure_path(true, done(Some(0), "", ""), None), Err("npm prefix empty".to_string()));
    assert_eq!(
        ensure_path(true, done(Some(0), "C:\\npm", ""), Some("c:\\NPM\\bin".to_string())),
        Ok("PATH already contains npm bin".to_string())
    );
}

#[test]
fn fix_command_turns_the_flag_into_a_result() {
    assert_eq!(run_security_fix(done(Some(0), " all good \n", "")), Ok("all good".to_string()));
    assert_eq!(run_security_fix(done(Some(1), "out", "err")), Err("err out".to_string()));
}
