//! The commands that the installer offers, each as what it decides: the
//! invocation to run, and the answer that the outcome of the run comes to.

use vstd::prelude::*;
use crate::config::{config_path_of, resolve_config_path, Environment};
use crate::install;
use crate::install::{
    node_check, npm_install_outcome, npm_path_outcome, openclaw_check, winget_outcome,
    NodeCheckResult, OpenClawCheckResult,
};
use crate::run::{command, command_plan, texts, Invocation, InvocationView, ProcessOutput};
use crate::security;
use crate::security::{audit_outcome, audit_view, fix_outcome, AuditResult};
use crate::text::{flagged, is_blank, lemma_blank_trims_to_nothing, text_result, trim, trimmed};
use crate::{last_after, AppState, SessionEvent};

verus! {

/// Returns the path of OpenClaw's configuration file.
pub fn get_config_path(env: &Environment) -> (r: Result<String, String>)
    ensures
        text_result(r) == config_path_of(*env),
{
    resolve_config_path(env)
}

/// The message for a configuration path that is empty once trimmed.
pub open spec fn empty_path_error() -> Seq<char> {
    "path is empty"@
}

/// The view of a planned invocation, or of the reason why there is none.
pub open spec fn plan_view(r: Result<Invocation, String>) -> Result<InvocationView, Seq<char>> {
    match r {
        Ok(inv) => Ok(inv@),
        Err(e) => Err(e@),
    }
}

/// The invocation that reads a configuration value: `openclaw config get`
/// with the trimmed path. There is none for a path that is empty once trimmed.
pub open spec fn config_get_plan(
    path: Seq<char>,
    windows: bool,
) -> Result<InvocationView, Seq<char>> {
    if trimmed(path).len() == 0 {
        Err(empty_path_error())
    } else {
        Ok(command_plan("openclaw"@, seq!["config"@, "get"@, trimmed(path)], windows))
    }
}

/// The invocation that writes a configuration value: `openclaw config set`
/// with the trimmed path and the value as it is, one argument each. There is
/// none for a path that is empty once trimmed.
pub open spec fn config_set_plan(
    path: Seq<char>,
    value: Seq<char>,
    windows: bool,
) -> Result<InvocationView, Seq<char>> {
    if trimmed(path).len() == 0 {
        Err(empty_path_error())
    } else {
        Ok(command_plan("openclaw"@, seq!["config"@, "set"@, trimmed(path), value], windows))
    }
}

/// Plans the reading of a configuration value, or refuses the path.
pub fn config_get_command(path: &str, windows: bool) -> (r: Result<Invocation, String>)
    ensures
        plan_view(r) == config_get_plan(path@, windows),
{
    let key = trim(path);
    if key.as_str().is_empty() {
        return Err("path is empty".to_owned());
    }
    let mut args: Vec<String> = Vec::new();
    args.push("config".to_owned());
    args.push("get".to_owned());
    args.push(key);
    assert(texts(args@) =~= seq!["config"@, "get"@, trimmed(path@)]);
    Ok(command("openclaw", args, windows))
}

/// Plans the writing of a configuration value, or refuses the path.
pub fn config_set_command(path: &str, value: &str, windows: bool) -> (r: Result<Invocation, String>)
    ensures
        plan_view(r) == config_set_plan(path@, value@, windows),
{
    let key = trim(path);
    if key.as_str().is_empty() {
        return Err("path is empty".to_owned());
    }
    let mut args: Vec<String> = Vec::new();
    args.push("config".to_owned());
    args.push("set".to_owned());
    args.push(key);
    args.push(value.to_owned());
    assert(texts(args@) =~= seq!["config"@, "set"@, trimmed(path@), value@]);
    Ok(command("openclaw", args, windows))
}

/// What a process that failed says of its failure: its trimmed standard
/// error, or its trimmed standard output where the former is empty.
pub open spec fn failure_text(output: ProcessOutput) -> Seq<char> {
    if trimmed(output.stderr_text()).len() > 0 {
        trimmed(output.stderr_text())
    } else {
        trimmed(output.stdout_text())
    }
}

/// The configuration value under a path.
///
/// A path that is empty once trimmed is refused, whatever the outcome. Else
/// the value is the trimmed standard output of a process that ended with exit
/// code zero, and every other outcome is an error.
pub open spec fn config_value(
    path: Seq<char>,
    outcome: Result<ProcessOutput, String>,
) -> Result<Seq<char>, Seq<char>> {
    if trimmed(path).len() == 0 {
        Err(empty_path_error())
    } else {
        match outcome {
            Err(e) => Err(e@),
            Ok(output) => if output.succeeded() {
                Ok(trimmed(output.stdout_text()))
            } else {
                Err(failure_text(output))
            },
        }
    }
}

/// Reads a configuration value from the outcome of `openclaw config get`.
pub fn get_config_value(
    path: String,
    outcome: Result<ProcessOutput, String>,
) -> (r: Result<String, String>)
    ensures
        text_result(r) == config_value(path@, outcome),
{
    if trim(path.as_str()).as_str().is_empty() {
        return Err("path is empty".to_owned());
    }
    match outcome {
        Err(e) => Err(e),
        Ok(output) => {
            let stdout = trim(output.stdout_string().as_str());
            if output.success() {
                Ok(stdout)
            } else {
                let stderr = trim(output.stderr_string().as_str());
                if stderr.as_str().is_empty() {
                    Err(stdout)
                } else {
                    Err(stderr)
                }
            }
        },
    }
}

/// Whether a configuration value was written.
///
/// A path that is empty once trimmed is refused, whatever the outcome. Else
/// the value was written where the process ended with exit code zero; the
/// error of another outcome quotes its standard error, then its standard
/// output.
pub open spec fn config_written(
    path: Seq<char>,
    outcome: Result<ProcessOutput, String>,
) -> Result<(), Seq<char>> {
    if trimmed(path).len() == 0 {
        Err(empty_path_error())
    } else {
        match outcome {
            Err(e) => Err(e@),
            Ok(output) => if output.succeeded() {
                Ok(())
            } else {
                Err(trimmed(output.stderr_text()) + " "@ + trimmed(output.stdout_text()))
            },
        }
    }
}

/// The view of what `set_config_value` returns.
pub open spec fn unit_result(r: Result<(), String>) -> Result<(), Seq<char>> {
    match r {
        Ok(_) => Ok(()),
        Err(e) => Err(e@),
    }
}

/// Reads the outcome of `openclaw config set`.
pub fn set_config_value(
    path: String,
    value: String,
    outcome: Result<ProcessOutput, String>,
) -> (r: Result<(), String>)
    ensures
        unit_result(r) == config_written(path@, outcome),
{
    if trim(path.as_str()).as_str().is_empty() {
        return Err("path is empty".to_owned());
    }
    match outcome {
        Err(e) => Err(e),
        Ok(output) => {
            if output.success() {
                Ok(())
            } else {
                let mut message = trim(output.stderr_string().as_str());
                message.append(" ");
                message.append(trim(output.stdout_string().as_str()).as_str());
                Err(message)
            }
        },
    }
}

/// A path that is empty or holds white space only is refused before anything
/// runs: there is no invocation for it, and whatever outcome is handed in,
/// the answer is the same error.
pub proof fn lemma_blank_path_is_refused(
    path: Seq<char>,
    value: Seq<char>,
    windows: bool,
    outcome: Result<ProcessOutput, String>,
)
    requires
        is_blank(path),
    ensures
        config_get_plan(path, windows) == Err::<InvocationView, Seq<char>>(empty_path_error()),
        config_set_plan(path, value, windows) == Err::<InvocationView, Seq<char>>(empty_path_error()),
        config_value(path, outcome) == Err::<Seq<char>, Seq<char>>(empty_path_error()),
        config_written(path, outcome) == Err::<(), Seq<char>>(empty_path_error()),
{
    lemma_blank_trims_to_nothing(path);
}

/// A path that holds more than white space is taken: there is an invocation
/// for it, and it passes the path on without the white space round it.
pub proof fn lemma_other_path_is_run(path: Seq<char>, value: Seq<char>, windows: bool)
    requires
        !is_blank(path),
    ensures
        config_get_plan(path, windows) is Ok,
        config_set_plan(path, value, windows) is Ok,
        trimmed(path).len() > 0,
{
    lemma_blank_trims_to_nothing(path);
}

/// Checks Node.js from the outcome of `node -v`.
pub fn check_node(outcome: Result<ProcessOutput, String>) -> (r: NodeCheckResult)
    ensures
        r@ == node_check(outcome),
{
    install::check_node(outcome)
}

/// Checks OpenClaw from the outcome of `openclaw --version`.
pub fn check_openclaw(outcome: Result<ProcessOutput, String>) -> (r: OpenClawCheckResult)
    ensures
        r@ == openclaw_check(outcome),
{
    install::check_openclaw(outcome)
}

/// Turns success and a message into a result.
fn into_result(pair: (bool, String)) -> (r: Result<String, String>)
    ensures
        text_result(r) == flagged((pair.0, pair.1@)),
{
    let (ok, message) = pair;
    if ok {
        Ok(message)
    } else {
        Err(message)
    }
}

/// Reports the installation of Node.js from how winget ended.
pub fn install_node(status: Result<Option<i32>, String>) -> (r: Result<String, String>)
    ensures
        text_result(r) == flagged(winget_outcome(status)),
{
    into_result(install::install_node_via_winget(status))
}

/// Reports the installation of OpenClaw from the outcome of npm.
pub fn install_openclaw(outcome: Result<ProcessOutput, String>) -> (r: Result<String, String>)
    ensures
        text_result(r) == flagged(npm_install_outcome(outcome)),
{
    into_result(install::install_openclaw_npm(outcome))
}

/// Reports whether npm's directory is on the `PATH`.
pub fn ensure_path(
    windows: bool,
    outcome: Result<ProcessOutput, String>,
    path: Option<String>,
) -> (r: Result<String, String>)
    ensures
        text_result(r) == flagged(npm_path_outcome(windows, outcome, path)),
{
    into_result(install::ensure_npm_on_path(windows, outcome, path))
}

/// Reads the outcome of the audit and stores the result where there is one.
/// After a failure the state is as it was.
pub fn run_security_audit(
    outcome: Result<ProcessOutput, String>,
    state: &mut AppState,
) -> (r: Result<AuditResult, String>)
    ensures
        audit_view(r) == audit_outcome(outcome),
        r matches Ok(result) ==> result@.well_formed(),
        final(state)@ == last_after(old(state)@, SessionEvent::Audit(outcome)),
        old(state).well_formed() ==> final(state).well_formed(),
{
    match security::run_audit(outcome) {
        Ok(result) => {
            state.last_audit = Some(result.clone());
            Ok(result)
        },
        Err(e) => Err(e),
    }
}

/// Reports the fix from the outcome of its run. The state of the session
/// has no part in it.
pub fn run_security_fix(outcome: Result<ProcessOutput, String>) -> (r: Result<String, String>)
    ensures
        text_result(r) == flagged(fix_outcome(outcome)),
{
    into_result(security::run_fix(outcome))
}

/// Returns a copy of the result of the last audit that succeeded, if any.
pub fn get_last_audit(state: &AppState) -> (r: Option<AuditResult>)
    ensures
        r matches Some(result) ==> state@ == Some(result@),
        r is None ==> state@ is None,
{
    match &state.last_audit {
        Some(result) => Some(result.clone()),
        None => None,
    }
}

} // verus!
