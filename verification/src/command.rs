//! The decision half of the command-execution bridge.  The surrounding
//! process spawns the shell, waits, and hands back the exit status and the
//! captured output streams; this module turns them into the bridge's
//! result: the stdout text on success, a `CommandFailed` carrying the
//! stderr text otherwise.  Invalid byte sequences in either stream are
//! replaced, never a hard failure.

use vstd::prelude::*;
use vstd::utf8::{decode_utf8, valid_utf8};

verus! {

/// What the text of a byte stream is: the replacement-character decoding
/// that the decision logic relies on.
pub uninterp spec fn lossy_utf8(bytes: Seq<u8>) -> Seq<char>;

/// Relies on `String::from_utf8_lossy`: the result is a function of the
/// bytes alone, and on valid UTF-8 input the decoding is exact.
#[verifier::external_body]
fn utf8_lossy(v: &Vec<u8>) -> (r: String)
    ensures
        r@ == lossy_utf8(v@),
        valid_utf8(v@) ==> r@ == decode_utf8(v@),
{
    String::from_utf8_lossy(v.as_slice()).into_owned()
}

/// Failure of one command round-trip: the command exited non-zero (the
/// carried text is its stderr), or it could not be spawned at all (the
/// carried text is the OS error).
#[derive(Debug)]
pub enum CommandError {
    CommandFailed(String),
}

/// The text an error carries.
pub open spec fn spec_error_text(e: CommandError) -> Seq<char> {
    match e {
        CommandError::CommandFailed(s) => s@,
    }
}

impl CommandError {
    /// A readable account of the failure.
    pub fn message(&self) -> (m: String)
        ensures
            m@ == "Nushell error: "@ + spec_error_text(*self),
    {
        match self {
            CommandError::CommandFailed(stderr) => String::from_str("Nushell error: ").concat(
                stderr.as_str(),
            ),
        }
    }
}

/// Turn a finished command's exit status and captured streams into the
/// bridge's result: the stdout text exactly when the command succeeded, the
/// stderr text as the failure otherwise.
pub fn interpret_output(success: bool, stdout: &Vec<u8>, stderr: &Vec<u8>) -> (r: Result<
    String,
    CommandError,
>)
    ensures
        r is Ok <==> success,
        r matches Ok(out) ==> out@ == lossy_utf8(stdout@),
        r matches Err(e) ==> spec_error_text(e) == lossy_utf8(stderr@),
{
    if success {
        Ok(utf8_lossy(stdout))
    } else {
        Err(CommandError::CommandFailed(utf8_lossy(stderr)))
    }
}

} // verus!
