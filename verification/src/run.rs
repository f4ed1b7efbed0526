//! How an external program is invoked, and what comes back from it.
//!
//! On Windows `npm`, `npx` and `openclaw` are installed as `.cmd` scripts, which
//! process creation does not resolve by itself: they are run through `cmd /C`.

use vstd::prelude::*;
use crate::text::{
    chars_of, eq_ignore_ascii_case, from_utf8_lossy, same_ignoring_ascii_case, trailing,
    trailing_run, utf8_lossy, CharSet,
};

verus! {

/// The views of a list of strings.
pub open spec fn texts(list: Seq<String>) -> Seq<Seq<char>> {
    Seq::new(list.len(), |i: int| list[i]@)
}

/// A program and the arguments it is started with, each argument one token.
#[derive(Debug, PartialEq, Eq)]
pub struct Invocation {
    pub program: String,
    pub args: Vec<String>,
}

/// An invocation as plain text.
pub struct InvocationView {
    pub program: Seq<char>,
    pub args: Seq<Seq<char>>,
}

impl View for Invocation {
    type V = InvocationView;

    open spec fn view(&self) -> InvocationView {
        InvocationView { program: self.program@, args: texts(self.args@) }
    }
}

/// What a finished process left behind: its exit code, absent where a signal
/// ended it, and the bytes of its two output streams.
#[derive(Debug, PartialEq, Eq)]
pub struct ProcessOutput {
    pub status: Option<i32>,
    pub stdout: Vec<u8>,
    pub stderr: Vec<u8>,
}

impl ProcessOutput {
    /// Whether the process ended with exit code zero.
    pub open spec fn succeeded(&self) -> bool {
        self.status == Some(0i32)
    }

    /// The standard output as text.
    pub open spec fn stdout_text(&self) -> Seq<char> {
        utf8_lossy(self.stdout@)
    }

    /// The standard error as text.
    pub open spec fn stderr_text(&self) -> Seq<char> {
        utf8_lossy(self.stderr@)
    }

    /// Tests whether the process ended with exit code zero.
    pub fn success(&self) -> (b: bool)
        ensures
            b == self.succeeded(),
    {
        match self.status {
            Some(code) => code == 0,
            None => false,
        }
    }

    /// Decodes the standard output, replacing what is not UTF-8.
    pub fn stdout_string(&self) -> (s: String)
        ensures
            s@ == self.stdout_text(),
    {
        from_utf8_lossy(&self.stdout)
    }

    /// Decodes the standard error, replacing what is not UTF-8.
    pub fn stderr_string(&self) -> (s: String)
        ensures
            s@ == self.stderr_text(),
    {
        from_utf8_lossy(&self.stderr)
    }
}

/// The last part of a path: what follows its last `/` or `\`.
pub open spec fn base_name(program: Seq<char>) -> Seq<char> {
    program.skip(program.len() - trailing_run(program, CharSet::NonSeparators))
}

/// The programs that are script wrappers on Windows.
pub open spec fn cmd_script_programs() -> Seq<Seq<char>> {
    seq!["npm"@, "openclaw"@, "npx"@]
}

/// Whether the base name of `program` is one of the script wrappers, in any case of letters.
pub open spec fn is_cmd_script(program: Seq<char>) -> bool {
    exists|i: int|
        0 <= i < cmd_script_programs().len() && same_ignoring_ascii_case(
            base_name(program),
            #[trigger] cmd_script_programs()[i],
        )
}

/// Tests whether `program` names one of the script wrappers.
pub fn is_cmd_script_program(program: &str) -> (b: bool)
    ensures
        b == is_cmd_script(program@),
{
    let v = chars_of(program);
    let n = v.len();
    assert(v@.subrange(0, n as int) == v@);
    let start: usize = n - trailing(&v, 0, n, CharSet::NonSeparators);
    let names: [&str; 3] = ["npm", "openclaw", "npx"];
    assert(cmd_script_programs() =~= Seq::new(3, |i: int| names@[i]@));
    let mut i: usize = 0;
    while i < 3
        invariant
            i <= 3,
            start <= v.len(),
            v@ == program@,
            v@.skip(start as int) == base_name(program@),
            cmd_script_programs() == Seq::new(3, |i: int| names@[i]@),
            forall|j: int|
                0 <= j < i ==> !same_ignoring_ascii_case(
                    base_name(program@),
                    #[trigger] cmd_script_programs()[j],
                ),
        decreases 3 - i,
    {
        if eq_ignore_ascii_case(&v, start, names[i]) {
            assert(cmd_script_programs()[i as int] == names@[i as int]@);
            return true;
        }
        i += 1;
    }
    false
}

/// The invocation that runs `program` with `args`: through `cmd /C` where the
/// platform is Windows and the program is a script wrapper, directly otherwise.
pub open spec fn command_plan(
    program: Seq<char>,
    args: Seq<Seq<char>>,
    windows: bool,
) -> InvocationView {
    if windows && is_cmd_script(program) {
        InvocationView { program: "cmd"@, args: seq!["/C"@, program] + args }
    } else {
        InvocationView { program, args }
    }
}

/// Plans how to run `program` with `args` on this platform.
pub fn command(program: &str, args: Vec<String>, windows: bool) -> (inv: Invocation)
    ensures
        inv@ == command_plan(program@, texts(args@), windows),
{
    if windows && is_cmd_script_program(program) {
        let mut all: Vec<String> = Vec::new();
        all.push("/C".to_owned());
        all.push(program.to_owned());
        let mut i: usize = 0;
        while i < args.len()
            invariant
                i <= args.len(),
                all.len() == 2 + i,
                all@[0]@ == "/C"@,
                all@[1]@ == program@,
                forall|j: int| 0 <= j < i ==> (#[trigger] all@[2 + j])@ == args@[j]@,
            decreases args.len() - i,
        {
            all.push(args[i].clone());
            i += 1;
        }
        assert(texts(all@) =~= seq!["/C"@, program@] + texts(args@)) by {
            assert forall|k: int| 0 <= k < all.len() implies texts(all@)[k] == (seq!["/C"@, program@]
                + texts(args@))[k] by {
                if k >= 2 {
                    assert(all@[2 + (k - 2)]@ == args@[k - 2]@);
                }
            }
        }
        Invocation { program: "cmd".to_owned(), args: all }
    } else {
        Invocation { program: program.to_owned(), args }
    }
}

} // verus!
