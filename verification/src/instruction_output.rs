//! The textual response an instruction produces, written back verbatim to
//! the remote side.

use vstd::prelude::*;
use vstd::string::StringExecFns;

verus! {

/// The response body for a pipeline that ran to completion: a blank line,
/// then the captured standard output, then the captured standard error,
/// each newline-terminated.
pub open spec fn success_output(out: Seq<char>, err: Seq<char>) -> Seq<char> {
    "\n"@ + out + "\n"@ + err + "\n"@
}

/// The response body for a pipeline whose final stage could not be run: the
/// error message with a trailing newline.
pub open spec fn error_output(msg: Seq<char>) -> Seq<char> {
    msg + "\n"@
}

/// One instruction's response text.
pub struct InstructionOutput {
    pub output: String,
}

impl InstructionOutput {
    /// Formats the two captured streams of a finished pipeline.
    pub fn from_streams(stdout_text: &str, stderr_text: &str) -> (r: Self)
        ensures
            r.output@ == success_output(stdout_text@, stderr_text@),
    {
        let mut output = String::new();
        output.append("\n");
        output.append(stdout_text);
        output.append("\n");
        output.append(stderr_text);
        output.append("\n");
        proof {
            assert(output@ =~= success_output(stdout_text@, stderr_text@));
        }
        InstructionOutput { output }
    }

    /// Formats the failure of a pipeline's final stage.
    pub fn from_error_text(message: &str) -> (r: Self)
        ensures
            r.output@ == error_output(message@),
    {
        let mut output = String::new();
        output.append(message);
        output.append("\n");
        proof {
            assert(output@ =~= error_output(message@));
        }
        InstructionOutput { output }
    }
}

} // verus!
