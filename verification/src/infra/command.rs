//! What a finished command left behind, as plain values.

use vstd::prelude::*;
use vstd::string::*;

use crate::domain::text::{texts, trim, trim_str};
use crate::error::{TideError, TideResult};

verus! {

/// What a finished command left behind.
#[derive(Debug)]
pub struct CommandOutput {
    /// Whether the command exited with success.
    pub success: bool,
    /// The exit code, where the command exited with one.
    pub code: Option<i32>,
    /// What was printed, where it is UTF-8.
    pub stdout: Option<String>,
    /// What was printed as diagnostics, with invalid UTF-8 replaced.
    pub stderr: String,
}

/// A copy of a list of arguments.
pub fn clone_args(args: &Vec<String>) -> (r: Vec<String>)
    ensures
        texts(r@) == texts(args@),
{
    let mut out: Vec<String> = Vec::new();
    let mut i: usize = 0;
    while i < args.len()
        invariant
            i <= args.len(),
            texts(out@) == texts(args@.take(i as int)),
        decreases args.len() - i,
    {
        let ghost before = out@;
        out.push(args[i].clone());
        proof {
            assert(args@.take(i + 1) == args@.take(i as int).push(args@[i as int]));
            assert(texts(out@) == texts(before).push(args@[i as int]@));
            assert(texts(args@.take(i + 1)) == texts(args@.take(i as int)).push(args@[i as int]@));
        }
        i += 1;
    }
    assert(args@.take(args.len() as int) == args@);
    out
}

/// What a command printed, trimmed. Output that is not UTF-8 is an
/// `InvalidUtf8` failure.
pub fn stdout_trimmed(output: &CommandOutput) -> (r: TideResult<String>)
    ensures
        match output.stdout {
            Some(text) => r matches Ok(out) && out@ == trim(text@),
            None => r matches Err(TideError::InvalidUtf8),
        },
{
    match &output.stdout {
        Some(text) => Ok(trim_str(text.as_str())),
        None => Err(TideError::InvalidUtf8),
    }
}

/// The diagnostics of a command, trimmed.
pub fn stderr_trimmed(output: &CommandOutput) -> (r: String)
    ensures
        r@ == trim(output.stderr@),
{
    trim_str(output.stderr.as_str())
}

} // verus!
