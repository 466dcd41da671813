//! External command outcomes.
//!
//! Turns what an external command (cargo, mainly) reported into a result,
//! describing a failure by its arguments, exit status, and captured output.

use crate::error::PinError;
use crate::text::{decimal, decimal_string, join, joined, lines, split_lines, views};
use crate::text::{contains, has_substring};
use vstd::prelude::*;

verus! {

/// A command that ran and exited unsuccessfully.
#[derive(Debug)]
pub struct CommandFailure {
    pub args: Vec<String>,
    pub returncode: i32,
    pub stdout: Vec<String>,
    pub stderr: Vec<String>,
}

/// What a finished command reported: whether it succeeded, its exit code
/// (none when a signal ended it), and its output decoded as text.
#[derive(Debug)]
pub struct CommandOutput {
    pub success: bool,
    pub code: Option<i32>,
    pub stdout: String,
    pub stderr: String,
}

/// The views of a list of string slices.
pub open spec fn str_views(v: Seq<&str>) -> Seq<Seq<char>> {
    v.map_values(|x: &str| x@)
}

/// The exit status recorded for a failure: the code, or -1 without one.
pub open spec fn status_code(code: Option<i32>) -> i32 {
    match code {
        Some(c) => c,
        None => -1i32,
    }
}

/// The failure describing `args` and `output`: each stream split into lines.
pub open spec fn failure_of(args: Seq<&str>, output: CommandOutput, f: CommandFailure) -> bool {
    &&& views(f.args@) == str_views(args)
    &&& f.returncode == status_code(output.code)
    &&& views(f.stdout@) == lines(output.stdout@)
    &&& views(f.stderr@) == lines(output.stderr@)
}

/// The text describing a failure: the command line and its exit status,
/// then the captured stdout and stderr, each only when it has lines.
pub open spec fn failure_text(f: CommandFailure) -> Seq<char> {
    let head = "`"@ + joined(views(f.args@), " "@) + "` failed with exit status "@
        + decimal(f.returncode as int) + "\n"@;
    let out = if f.stdout@.len() > 0 {
        "stdout:\n"@ + joined(views(f.stdout@), "\n"@) + "\n"@
    } else {
        Seq::<char>::empty()
    };
    let err = if f.stderr@.len() > 0 {
        "stderr:\n"@ + joined(views(f.stderr@), "\n"@)
    } else {
        Seq::<char>::empty()
    };
    head + out + err
}

/// Owned copies of `args`.
fn owned_args(args: &[&str]) -> (r: Vec<String>)
    ensures
        views(r@) == str_views(args@),
{
    let mut r: Vec<String> = Vec::new();
    let mut i: usize = 0;
    while i < args.len()
        invariant
            i <= args@.len(),
            views(r@) == str_views(args@).take(i as int),
        decreases args.len() - i,
    {
        let a: &str = args[i];
        let ghost before = r@;
        r.push(a.to_owned());
        proof {
            assert(views(r@) =~= views(before).push(a@));
            assert(str_views(args@).take(i + 1) =~= str_views(args@).take(i as int).push(a@));
        }
        i = i + 1;
    }
    assert(str_views(args@).take(args@.len() as int) == str_views(args@));
    r
}

impl CommandFailure {
    /// The failure of the command `args` that reported `output`.
    pub fn new(args: &[&str], output: &CommandOutput) -> (f: CommandFailure)
        ensures
            failure_of(args@, *output, f),
    {
        let returncode = match output.code {
            Some(c) => c,
            None => -1i32,
        };
        CommandFailure {
            args: owned_args(args),
            returncode,
            stdout: split_lines(output.stdout.as_str()),
            stderr: split_lines(output.stderr.as_str()),
        }
    }

    /// Whether some line of the captured stderr contains `needle`.
    pub fn stderr_contains(&self, needle: &str) -> (r: bool)
        ensures
            r == exists|i: int| 0 <= i < self.stderr@.len() && has_substring(#[trigger] self.stderr@[i]@, needle@),
    {
        let mut i: usize = 0;
        while i < self.stderr.len()
            invariant
                i <= self.stderr@.len(),
                forall|j: int| 0 <= j < i ==> !has_substring(#[trigger] self.stderr@[j]@, needle@),
            decreases self.stderr.len() - i,
        {
            if contains(self.stderr[i].as_str(), needle) {
                return true;
            }
            i = i + 1;
        }
        false
    }

    /// The human-readable description of this failure.
    pub fn message(&self) -> (r: String)
        ensures
            r@ == failure_text(*self),
    {
        let mut r = String::new();
        r.append("`");
        let command_line = join(&self.args, " ");
        r.append(command_line.as_str());
        r.append("` failed with exit status ");
        let code = decimal_string(self.returncode);
        r.append(code.as_str());
        r.append("\n");
        if self.stdout.len() > 0 {
            r.append("stdout:\n");
            let out = join(&self.stdout, "\n");
            r.append(out.as_str());
            r.append("\n");
        }
        if self.stderr.len() > 0 {
            r.append("stderr:\n");
            let err = join(&self.stderr, "\n");
            r.append(err.as_str());
        }
        r
    }
}

/// The result of running `args` when it reported `output`: success, or the
/// failure that describes it.
pub fn command_run(args: &[&str], output: &CommandOutput) -> (r: Result<(), PinError>)
    ensures
        output.success ==> r is Ok,
        !output.success ==> (r matches Err(PinError::Command(f)) && failure_of(args@, *output, f)),
{
    if !output.success {
        return Err(PinError::Command(CommandFailure::new(args, output)));
    }
    Ok(())
}

/// The standard output of running `args` when it reported `output`, or the
/// failure that describes it.
pub fn command_output(args: &[&str], output: &CommandOutput) -> (r: Result<String, PinError>)
    ensures
        output.success ==> (r matches Ok(s) && s@ == output.stdout@),
        !output.success ==> (r matches Err(PinError::Command(f)) && failure_of(args@, *output, f)),
{
    if !output.success {
        return Err(PinError::Command(CommandFailure::new(args, output)));
    }
    Ok(output.stdout.clone())
}

} // verus!
