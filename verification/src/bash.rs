//! The outcome of a shell command run for the assistant, and how it is
//! reported back to it.

use vstd::prelude::*;
use crate::text::{decimal, has_prefix, has_suffix, push_str, to_owned, u64_to_decimal};

verus! {

/// What a finished shell command produced.
#[derive(Debug, Clone)]
pub struct BashResult {
    pub stdout: String,
    pub stderr: String,
    pub exit_code: i32,
}

/// The decimal representation of a signed number, as `Display` writes it.
pub open spec fn signed_decimal(n: int) -> Seq<char> {
    if n < 0 {
        "-"@ + decimal((-n) as nat)
    } else {
        decimal(n as nat)
    }
}

/// What the assistant is told of a finished command: its standard output
/// and its standard error, each under a heading when not empty, or only its
/// exit code when both are empty.
pub open spec fn spec_bash_report(stdout: Seq<char>, stderr: Seq<char>, exit_code: int) -> Seq<
    char,
> {
    (if stdout.len() > 0 {
        "stdout:\n"@ + stdout
    } else {
        Seq::empty()
    }) + (if stderr.len() > 0 {
        "stderr:\n"@ + stderr
    } else {
        Seq::empty()
    }) + (if stdout.len() == 0 && stderr.len() == 0 {
        "exit code: "@ + signed_decimal(exit_code)
    } else {
        Seq::empty()
    })
}

/// The report starts with the standard output under its heading when there
/// is any, ends with the standard error under its heading when there is any,
/// and only a command that printed nothing is reported by its exit code.
pub proof fn lemma_bash_report_parts(stdout: Seq<char>, stderr: Seq<char>, exit_code: int)
    ensures
        ({
            let r = spec_bash_report(stdout, stderr, exit_code);
            &&& stdout.len() > 0 ==> has_prefix(r, "stdout:\n"@ + stdout)
            &&& stderr.len() > 0 ==> has_suffix(r, "stderr:\n"@ + stderr)
            &&& stdout.len() > 0 && stderr.len() == 0 ==> r == "stdout:\n"@ + stdout
            &&& stdout.len() == 0 && stderr.len() > 0 ==> r == "stderr:\n"@ + stderr
            &&& stdout.len() == 0 && stderr.len() == 0 ==> r == "exit code: "@ + signed_decimal(
                exit_code,
            )
        }),
{
    let r = spec_bash_report(stdout, stderr, exit_code);
    let o = "stdout:\n"@ + stdout;
    let e = "stderr:\n"@ + stderr;
    if stdout.len() > 0 && stderr.len() > 0 {
        assert(r =~= o + e);
        assert(r.subrange(0, o.len() as int) =~= o);
        assert(r.subrange(r.len() - e.len(), r.len() as int) =~= e);
    } else if stdout.len() > 0 {
        assert(r =~= o);
        assert(r.subrange(0, o.len() as int) =~= o);
    } else if stderr.len() > 0 {
        assert(r =~= e);
        assert(r.subrange(r.len() - e.len(), r.len() as int) =~= e);
    } else {
        assert(r =~= "exit code: "@ + signed_decimal(exit_code));
    }
}

/// The decimal representation of `n`.
pub fn i32_to_decimal(n: i32) -> (r: String)
    ensures
        r@ == signed_decimal(n as int),
{
    if n < 0 {
        let magnitude: u64 = (0i64 - (n as i64)) as u64;
        let mut r = to_owned("-");
        let digits = u64_to_decimal(magnitude);
        push_str(&mut r, digits.as_str());
        r
    } else {
        u64_to_decimal(n as u64)
    }
}

impl BashResult {
    /// What the assistant is told of this result.
    pub fn report(&self) -> (r: String)
        ensures
            r@ == spec_bash_report(self.stdout@, self.stderr@, self.exit_code as int),
    {
        let mut out = String::new();
        let no_out = self.stdout.unicode_len() == 0;
        let no_err = self.stderr.unicode_len() == 0;
        if !no_out {
            push_str(&mut out, "stdout:\n");
            push_str(&mut out, self.stdout.as_str());
        }
        if !no_err {
            push_str(&mut out, "stderr:\n");
            push_str(&mut out, self.stderr.as_str());
        }
        if no_out && no_err {
            push_str(&mut out, "exit code: ");
            let code = i32_to_decimal(self.exit_code);
            push_str(&mut out, code.as_str());
        }
        assert(out@ =~= spec_bash_report(self.stdout@, self.stderr@, self.exit_code as int));
        out
    }
}

} // verus!
