//! Install flow: detect Node.js, install it with winget, install OpenClaw
//! with npm, and check that npm's programs are on the `PATH`.

use vstd::prelude::*;
use crate::run::{command, command_plan, texts, Invocation, InvocationView, ProcessOutput};
use crate::text::{
    chars_of, contains, contains_text, debug_number, debug_number_string, leading, leading_run,
    lowercase, parse_u32, parsed_u32, replace_char, replaced, strip, strip_both, strip_start,
    substring, text_result, to_lowercase, trim, trimmed, CharSet,
};

verus! {

/// What was found of Node.js.
#[derive(Debug, PartialEq, Eq)]
pub struct NodeCheckResult {
    pub found: bool,
    pub version: Option<String>,
    pub major: Option<u32>,
    pub ok: bool,
    pub message: String,
}

/// A Node.js check as plain values.
pub struct NodeCheckView {
    pub found: bool,
    pub version: Option<Seq<char>>,
    pub major: Option<u32>,
    pub ok: bool,
    pub message: Seq<char>,
}

impl View for NodeCheckResult {
    type V = NodeCheckView;

    open spec fn view(&self) -> NodeCheckView {
        NodeCheckView {
            found: self.found,
            version: match self.version {
                Some(v) => Some(v@),
                None => None,
            },
            major: self.major,
            ok: self.ok,
            message: self.message@,
        }
    }
}

/// The oldest major version of Node.js that will do.
pub const MIN_NODE_MAJOR: u32 = 22;

/// The major version of a version number: the decimal number before its first `.`.
pub open spec fn node_major(version: Seq<char>) -> Option<u32> {
    parsed_u32(version.take(leading_run(version, CharSet::Except('.')) as int))
}

/// Reads the major version from a version number.
pub fn parse_node_major(s: &str) -> (major: Option<u32>)
    ensures
        major == node_major(s@),
{
    let v = chars_of(s);
    let n = v.len();
    assert(v@.subrange(0, n as int) == v@);
    let end = leading(&v, 0, n, CharSet::Except('.'));
    assert(v@.subrange(0, end as int) == v@.take(end as int));
    let first = substring(&v, 0, end);
    parse_u32(first.as_str())
}

/// The version number in what `node -v` prints: the trimmed output without the `v` before it.
pub open spec fn node_version(stdout: Seq<char>) -> Seq<char> {
    strip_start(trimmed(stdout), CharSet::Only('v'))
}

/// Whether a major version is there and is new enough.
pub open spec fn node_ok(major: Option<u32>) -> bool {
    match major {
        Some(m) => m >= MIN_NODE_MAJOR,
        None => false,
    }
}

/// The message of a Node.js check.
pub open spec fn node_message(version: Seq<char>, major: Option<u32>) -> Seq<char> {
    if node_ok(major) {
        "Node "@ + version + " (OK)"@
    } else {
        "Node "@ + version + " found but need 22+ (major: "@ + debug_number(
            match major {
                Some(m) => Some(m as int),
                None => None,
            },
        ) + ")"@
    }
}

/// What a run of `node -v` says of Node.js.
///
/// Where the program could not be started, Node.js was not found. Where it
/// ran, it was found, whatever its exit code or version; it is in order where
/// its major version reads as a number from 22.
pub open spec fn node_check(outcome: Result<ProcessOutput, String>) -> NodeCheckView {
    match outcome {
        Err(e) => NodeCheckView {
            found: false,
            version: None,
            major: None,
            ok: false,
            message: "Node not found: "@ + e@,
        },
        Ok(output) => {
            let version = node_version(output.stdout_text());
            let major = node_major(version);
            NodeCheckView {
                found: true,
                version: Some(version),
                major,
                ok: node_ok(major),
                message: node_message(version, major),
            }
        },
    }
}

/// Plans the check for Node.js: `node -v`, run directly.
pub fn node_command() -> (inv: Invocation)
    ensures
        inv@ == (InvocationView { program: "node"@, args: seq!["-v"@] }),
{
    let mut args: Vec<String> = Vec::new();
    args.push("-v".to_owned());
    assert(texts(args@) =~= seq!["-v"@]);
    Invocation { program: "node".to_owned(), args }
}

/// Reads the outcome of `node -v`.
pub fn check_node(outcome: Result<ProcessOutput, String>) -> (r: NodeCheckResult)
    ensures
        r@ == node_check(outcome),
{
    match outcome {
        Err(e) => {
            let mut message = "Node not found: ".to_owned();
            message.append(e.as_str());
            NodeCheckResult { found: false, version: None, major: None, ok: false, message }
        },
        Ok(output) => {
            let stdout = output.stdout_string();
            let version = strip_both(trim(stdout.as_str()).as_str(), Some(CharSet::Only('v')), None);
            let major = parse_node_major(version.as_str());
            let ok = match major {
                Some(m) => m >= MIN_NODE_MAJOR,
                None => false,
            };
            let mut message = "Node ".to_owned();
            message.append(version.as_str());
            if ok {
                message.append(" (OK)");
            } else {
                message.append(" found but need 22+ (major: ");
                let shown = match major {
                    Some(m) => Some(m as i64),
                    None => None,
                };
                message.append(debug_number_string(shown).as_str());
                message.append(")");
            }
            NodeCheckResult { found: true, version: Some(version), major, ok, message }
        },
    }
}

/// The arguments that have winget install Node.js LTS without asking.
pub open spec fn winget_args() -> Seq<Seq<char>> {
    seq![
        "install"@,
        "OpenJS.NodeJS.LTS"@,
        "--accept-package-agreements"@,
        "--accept-source-agreements"@,
    ]
}

/// Plans the installation of Node.js: `winget install`, run directly.
pub fn winget_command() -> (inv: Invocation)
    ensures
        inv@ == (InvocationView { program: "winget"@, args: winget_args() }),
{
    let mut args: Vec<String> = Vec::new();
    args.push("install".to_owned());
    args.push("OpenJS.NodeJS.LTS".to_owned());
    args.push("--accept-package-agreements".to_owned());
    args.push("--accept-source-agreements".to_owned());
    assert(texts(args@) =~= winget_args());
    Invocation { program: "winget".to_owned(), args }
}

/// What a run of winget comes to, from its exit code or the error that kept
/// it from starting: success where the code is zero, and nothing else.
pub open spec fn winget_outcome(status: Result<Option<i32>, String>) -> (bool, Seq<char>) {
    match status {
        Ok(code) => if code == Some(0i32) {
            (true, "Node.js installed. Restart the app and run Check again."@)
        } else {
            (
                false,
                "winget exited with code: "@ + debug_number(
                    match code {
                        Some(c) => Some(c as int),
                        None => None,
                    },
                ),
            )
        },
        Err(e) => (false, "winget failed: "@ + e@),
    }
}

/// Reads how the installation of Node.js ended.
pub fn install_node_via_winget(status: Result<Option<i32>, String>) -> (r: (bool, String))
    ensures
        r.0 == winget_outcome(status).0,
        r.1@ == winget_outcome(status).1,
{
    match status {
        Ok(Some(0)) => (true, "Node.js installed. Restart the app and run Check again.".to_owned()),
        Ok(code) => {
            let shown = match code {
                Some(c) => Some(c as i64),
                None => None,
            };
            let mut message = "winget exited with code: ".to_owned();
            message.append(debug_number_string(shown).as_str());
            (false, message)
        },
        Err(e) => {
            let mut message = "winget failed: ".to_owned();
            message.append(e.as_str());
            (false, message)
        },
    }
}

/// The arguments that have npm install the newest OpenClaw for all users.
pub open spec fn npm_install_args() -> Seq<Seq<char>> {
    seq!["install"@, "-g"@, "openclaw@latest"@]
}

/// Plans the installation of OpenClaw: `npm install -g openclaw@latest`.
pub fn npm_install_command(windows: bool) -> (inv: Invocation)
    ensures
        inv@ == command_plan("npm"@, npm_install_args(), windows),
{
    let mut args: Vec<String> = Vec::new();
    args.push("install".to_owned());
    args.push("-g".to_owned());
    args.push("openclaw@latest".to_owned());
    assert(texts(args@) =~= npm_install_args());
    command("npm", args, windows)
}

/// What the installation of OpenClaw comes to: success where npm ended with
/// exit code zero, and the output that tells of it.
pub open spec fn npm_install_outcome(outcome: Result<ProcessOutput, String>) -> (bool, Seq<char>) {
    match outcome {
        Err(e) => (false, "npm not found or failed: "@ + e@),
        Ok(output) => if output.succeeded() {
            (true, "Installed. "@ + trimmed(output.stdout_text()))
        } else {
            (
                false,
                "npm error: "@ + trimmed(output.stderr_text()) + " "@ + trimmed(output.stdout_text()),
            )
        },
    }
}

/// Reads how the installation of OpenClaw ended.
pub fn install_openclaw_npm(outcome: Result<ProcessOutput, String>) -> (r: (bool, String))
    ensures
        r.0 == npm_install_outcome(outcome).0,
        r.1@ == npm_install_outcome(outcome).1,
{
    match outcome {
        Err(e) => {
            let mut message = "npm not found or failed: ".to_owned();
            message.append(e.as_str());
            (false, message)
        },
        Ok(output) => {
            let stdout = output.stdout_string();
            if output.success() {
                let mut message = "Installed. ".to_owned();
                message.append(trim(stdout.as_str()).as_str());
                (true, message)
            } else {
                let stderr = output.stderr_string();
                let mut message = "npm error: ".to_owned();
                message.append(trim(stderr.as_str()).as_str());
                message.append(" ");
                message.append(trim(stdout.as_str()).as_str());
                (false, message)
            }
        },
    }
}

/// What was found of the OpenClaw program.
#[derive(Debug, PartialEq, Eq)]
pub struct OpenClawCheckResult {
    pub found: bool,
    pub version: Option<String>,
    pub message: String,
}

/// An OpenClaw check as plain values.
pub struct OpenClawCheckView {
    pub found: bool,
    pub version: Option<Seq<char>>,
    pub message: Seq<char>,
}

impl View for OpenClawCheckResult {
    type V = OpenClawCheckView;

    open spec fn view(&self) -> OpenClawCheckView {
        OpenClawCheckView {
            found: self.found,
            version: match self.version {
                Some(v) => Some(v@),
                None => None,
            },
            message: self.message@,
        }
    }
}

/// What a run of `openclaw --version` says of the program: found where it
/// ended with exit code zero and printed something besides white space, with
/// the trimmed output as its version.
pub open spec fn openclaw_check(outcome: Result<ProcessOutput, String>) -> OpenClawCheckView {
    match outcome {
        Err(_) => OpenClawCheckView {
            found: false,
            version: None,
            message: "openclaw not found in PATH"@,
        },
        Ok(output) => {
            let version = trimmed(output.stdout_text());
            if output.succeeded() && version.len() > 0 {
                OpenClawCheckView {
                    found: true,
                    version: Some(version),
                    message: "OpenClaw "@ + version,
                }
            } else {
                OpenClawCheckView { found: false, version: None, message: "openclaw failed"@ }
            }
        },
    }
}

/// Plans the check for OpenClaw: `openclaw --version`.
pub fn openclaw_version_command(windows: bool) -> (inv: Invocation)
    ensures
        inv@ == command_plan("openclaw"@, seq!["--version"@], windows),
{
    let mut args: Vec<String> = Vec::new();
    args.push("--version".to_owned());
    assert(texts(args@) =~= seq!["--version"@]);
    command("openclaw", args, windows)
}

/// Reads the outcome of `openclaw --version`.
pub fn check_openclaw(outcome: Result<ProcessOutput, String>) -> (r: OpenClawCheckResult)
    ensures
        r@ == openclaw_check(outcome),
{
    match outcome {
        Err(_) => OpenClawCheckResult {
            found: false,
            version: None,
            message: "openclaw not found in PATH".to_owned(),
        },
        Ok(output) => {
            let version = trim(output.stdout_string().as_str());
            if output.success() && !version.as_str().is_empty() {
                let mut message = "OpenClaw ".to_owned();
                message.append(version.as_str());
                OpenClawCheckResult { found: true, version: Some(version), message }
            } else {
                OpenClawCheckResult { found: false, version: None, message: "openclaw failed".to_owned() }
            }
        },
    }
}

/// The prefix in what `npm config get prefix` prints: the trimmed output
/// without the double quotes round it.
pub open spec fn npm_prefix_text(stdout: Seq<char>) -> Seq<char> {
    strip(trimmed(stdout), CharSet::Only('"'))
}

/// What a run of `npm config get prefix` gives: the prefix, an error where it
/// is empty, or the error that kept npm from starting.
pub open spec fn npm_prefix(
    outcome: Result<ProcessOutput, String>,
) -> Result<Seq<char>, Seq<char>> {
    match outcome {
        Err(e) => Err(e@),
        Ok(output) => {
            let prefix = npm_prefix_text(output.stdout_text());
            if prefix.len() == 0 {
                Err("npm prefix empty"@)
            } else {
                Ok(prefix)
            }
        },
    }
}

/// Plans the query for npm's prefix: `npm config get prefix`.
pub fn npm_prefix_command(windows: bool) -> (inv: Invocation)
    ensures
        inv@ == command_plan("npm"@, seq!["config"@, "get"@, "prefix"@], windows),
{
    let mut args: Vec<String> = Vec::new();
    args.push("config".to_owned());
    args.push("get".to_owned());
    args.push("prefix".to_owned());
    assert(texts(args@) =~= seq!["config"@, "get"@, "prefix"@]);
    command("npm", args, windows)
}

/// Reads npm's prefix from the outcome of `npm config get prefix`.
pub fn get_npm_prefix(outcome: Result<ProcessOutput, String>) -> (r: Result<String, String>)
    ensures
        text_result(r) == npm_prefix(outcome),
{
    match outcome {
        Err(e) => Err(e),
        Ok(output) => {
            let trimmed_out = trim(output.stdout_string().as_str());
            let prefix = strip_both(
                trimmed_out.as_str(),
                Some(CharSet::Only('"')),
                Some(CharSet::Only('"')),
            );
            if prefix.as_str().is_empty() {
                Err("npm prefix empty".to_owned())
            } else {
                Ok(prefix)
            }
        },
    }
}

/// The directory of npm's programs under a prefix: the prefix with `\` for
/// each `/`, and `\bin` after it.
pub open spec fn npm_bin(prefix: Seq<char>) -> Seq<char> {
    replaced(prefix, '/', '\\') + "\\bin"@
}

/// Whether a `PATH` names a directory, whatever the case of letters.
pub open spec fn path_mentions(path: Seq<char>, dir: Seq<char>) -> bool {
    contains_text(lowercase(path), lowercase(dir))
}

/// What the check of the `PATH` comes to.
///
/// Off Windows there is nothing to check. On Windows the check fails where
/// npm's prefix cannot be had; else it succeeds, and says whether the `PATH`
/// given already names npm's directory or names the directory to add.
pub open spec fn npm_path_outcome(
    windows: bool,
    outcome: Result<ProcessOutput, String>,
    path: Option<String>,
) -> (bool, Seq<char>) {
    if !windows {
        (true, "N/A on this platform"@)
    } else {
        match npm_prefix(outcome) {
            Err(e) => (false, e),
            Ok(prefix) => if path matches Some(current) && path_mentions(current@, npm_bin(prefix)) {
                (true, "PATH already contains npm bin"@)
            } else {
                (
                    true,
                    "Add to user PATH manually if needed: "@ + npm_bin(prefix)
                        + " (Then restart this app.)"@,
                )
            },
        }
    }
}

/// Checks that npm's directory is on the `PATH`, from the outcome of
/// `npm config get prefix` and the `PATH` of the user. Off Windows neither is
/// looked at.
pub fn ensure_npm_on_path(
    windows: bool,
    outcome: Result<ProcessOutput, String>,
    path: Option<String>,
) -> (r: (bool, String))
    ensures
        r.0 == npm_path_outcome(windows, outcome, path).0,
        r.1@ == npm_path_outcome(windows, outcome, path).1,
{
    if !windows {
        return (true, "N/A on this platform".to_owned());
    }
    match get_npm_prefix(outcome) {
        Err(e) => (false, e),
        Ok(prefix) => {
            let mut bin = replace_char(prefix.as_str(), '/', '\\');
            bin.append("\\bin");
            let listed = match &path {
                Some(current) => contains(
                    to_lowercase(current.as_str()).as_str(),
                    to_lowercase(bin.as_str()).as_str(),
                ),
                None => false,
            };
            if listed {
                (true, "PATH already contains npm bin".to_owned())
            } else {
                let mut message = "Add to user PATH manually if needed: ".to_owned();
                message.append(bin.as_str());
                message.append(" (Then restart this app.)");
                (true, message)
            }
        },
    }
}

} // verus!
