//! Where OpenClaw keeps its state and its configuration, in Windows form:
//! parts separated by `\`, no separator at the end.

use vstd::prelude::*;
use crate::text::{
    lemma_trailing_run_is_maximal, replace_char, replaced, strip_both, strip_end, text_result,
    trailing_run, trim, trimmed, CharSet,
};

verus! {

/// The variables of the environment that decide the paths, each as it is set.
/// One that is not set, or holds what is not Unicode, is absent.
#[derive(Debug, PartialEq, Eq)]
pub struct Environment {
    /// `OPENCLAW_CONFIG_PATH`: the configuration file itself.
    pub config_path: Option<String>,
    /// `OPENCLAW_STATE_DIR`: the state directory.
    pub state_dir: Option<String>,
    /// `USERPROFILE`: the user's home on Windows.
    pub userprofile: Option<String>,
    /// `HOME`: the user's home elsewhere.
    pub home: Option<String>,
}

/// A path with `\` for each `/`, and without the `\` at its end.
pub open spec fn windows_form(path: Seq<char>) -> Seq<char> {
    strip_end(replaced(path, '/', '\\'), CharSet::Only('\\'))
}

/// Whether a path is in Windows form: it holds no `/` and does not end in `\`.
pub open spec fn is_windows_form(path: Seq<char>) -> bool {
    &&& forall|i: int| 0 <= i < path.len() ==> #[trigger] path[i] != '/'
    &&& path.len() > 0 ==> path.last() != '\\'
}

/// A path as it is normalized: trimmed, then brought into Windows form.
pub open spec fn normalized(path: Seq<char>) -> Seq<char> {
    windows_form(trimmed(path))
}

/// Brings a path into Windows form.
pub fn normalize_windows_path(s: &str) -> (r: String)
    ensures
        r@ == normalized(s@),
{
    let swapped = replace_char(trim(s).as_str(), '/', '\\');
    strip_both(swapped.as_str(), None, Some(CharSet::Only('\\')))
}

/// The path that a variable overrides with: its value in Windows form, where
/// it is set and that form is not empty.
pub open spec fn override_path(value: Option<String>) -> Option<Seq<char>> {
    match value {
        Some(v) => if normalized(v@).len() > 0 {
            Some(normalized(v@))
        } else {
            None
        },
        None => None,
    }
}

/// The home that the environment names: `USERPROFILE` where it is set, else `HOME`.
pub open spec fn home_of(env: Environment) -> Option<Seq<char>> {
    match env.userprofile {
        Some(u) => Some(u@),
        None => match env.home {
            Some(h) => Some(h@),
            None => None,
        },
    }
}

/// The state directory: the override where there is one, else `.openclaw`
/// under the home in Windows form, and an error where no home is named.
pub open spec fn state_dir_of(env: Environment) -> Result<Seq<char>, Seq<char>> {
    match override_path(env.state_dir) {
        Some(dir) => Ok(dir),
        None => match home_of(env) {
            Some(home) => Ok(windows_form(home) + "\\.openclaw"@),
            None => Err("USERPROFILE and HOME are not set"@),
        },
    }
}

/// The configuration file: the override where there is one, else
/// `openclaw.json` in the state directory.
pub open spec fn config_path_of(env: Environment) -> Result<Seq<char>, Seq<char>> {
    match override_path(env.config_path) {
        Some(path) => Ok(path),
        None => match state_dir_of(env) {
            Ok(dir) => Ok(strip_end(dir, CharSet::Only('\\')) + "\\openclaw.json"@),
            Err(e) => Err(e),
        },
    }
}

/// Reads the path that a variable overrides with.
fn read_override(value: &Option<String>) -> (r: Option<String>)
    ensures
        r matches Some(p) ==> override_path(*value) == Some(p@),
        r is None ==> override_path(*value) is None,
{
    match value {
        Some(v) => {
            let path = normalize_windows_path(v.as_str());
            if path.as_str().is_empty() {
                None
            } else {
                Some(path)
            }
        },
        None => None,
    }
}

/// Resolves the state directory.
pub fn resolve_state_dir(env: &Environment) -> (r: Result<String, String>)
    ensures
        text_result(r) == state_dir_of(*env),
{
    if let Some(dir) = read_override(&env.state_dir) {
        return Ok(dir);
    }
    let home = match &env.userprofile {
        Some(u) => u,
        None => match &env.home {
            Some(h) => h,
            None => {
                return Err("USERPROFILE and HOME are not set".to_owned());
            },
        },
    };
    let swapped = replace_char(home.as_str(), '/', '\\');
    let mut dir = strip_both(swapped.as_str(), None, Some(CharSet::Only('\\')));
    dir.append("\\.openclaw");
    Ok(dir)
}

/// Resolves the path of the configuration file.
pub fn resolve_config_path(env: &Environment) -> (r: Result<String, String>)
    ensures
        text_result(r) == config_path_of(*env),
{
    if let Some(path) = read_override(&env.config_path) {
        return Ok(path);
    }
    match resolve_state_dir(env) {
        Ok(dir) => {
            let mut path = strip_both(dir.as_str(), None, Some(CharSet::Only('\\')));
            path.append("\\openclaw.json");
            Ok(path)
        },
        Err(e) => Err(e),
    }
}

/// Bringing a path into Windows form gives a path in Windows form.
pub proof fn lemma_windows_form(path: Seq<char>)
    ensures
        is_windows_form(windows_form(path)),
{
    let swapped = replaced(path, '/', '\\');
    lemma_trailing_run_is_maximal(swapped, CharSet::Only('\\'));
    let form = windows_form(path);
    assert forall|i: int| 0 <= i < form.len() implies #[trigger] form[i] != '/' by {
        assert(form[i] == swapped[i]);
    }
    if form.len() > 0 {
        assert(form.last() == swapped[swapped.len() - trailing_run(swapped, CharSet::Only('\\')) - 1]);
    }
}

/// Every path that is resolved is in Windows form, whatever the environment holds.
pub proof fn lemma_resolved_paths_are_windows_form(env: Environment)
    ensures
        state_dir_of(env) matches Ok(dir) ==> is_windows_form(dir),
        config_path_of(env) matches Ok(path) ==> is_windows_form(path),
{
    reveal_strlit("\\.openclaw");
    reveal_strlit("\\openclaw.json");
    if let Some(v) = env.state_dir {
        lemma_windows_form(trimmed(v@));
    }
    if let Some(v) = env.config_path {
        lemma_windows_form(trimmed(v@));
    }
    if let Ok(dir) = state_dir_of(env) {
        if override_path(env.state_dir) is None {
            let home = home_of(env)->0;
            lemma_windows_form(home);
            let tail = "\\.openclaw"@;
            assert forall|i: int| 0 <= i < dir.len() implies #[trigger] dir[i] != '/' by {
                if i >= windows_form(home).len() {
                    assert(dir[i] == tail[i - windows_form(home).len()]);
                }
            }
            assert(dir.last() == tail.last());
        }
        assert(is_windows_form(dir));
        if override_path(env.config_path) is None {
            let stem = strip_end(dir, CharSet::Only('\\'));
            let path = config_path_of(env)->Ok_0;
            let tail = "\\openclaw.json"@;
            assert forall|i: int| 0 <= i < path.len() implies #[trigger] path[i] != '/' by {
                if i >= stem.len() {
                    assert(path[i] == tail[i - stem.len()]);
                } else {
                    assert(path[i] == dir[i]);
                }
            }
            assert(path.last() == tail.last());
        }
    }
}

} // verus!
