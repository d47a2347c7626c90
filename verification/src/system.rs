//! The result of running an external command, and the rules that classify a
//! captured output as success or failure.
//!
//! Running the command itself is I/O and stays outside this crate; what is
//! decided here, and therefore verified, is how the captured streams are
//! trimmed and which of them makes the run a failure.

use vstd::prelude::*;
use vstd::string::StrSliceExecFns;
use vstd::string::StringExecFns;

verus! {

/// A captured stream with its trailing newline removed: command output ends
/// in one, and the caller wants the text without it.
pub open spec fn trimmed(s: Seq<char>) -> Seq<char> {
    if s.len() > 0 {
        s.drop_last()
    } else {
        s
    }
}

/// What an external command printed, both streams trimmed of their last
/// character.
#[derive(Debug)]
pub struct SystemResult {
    pub stdout: String,
    pub stderr: String,
}

/// `s` without its last character, or unchanged if empty.
fn chop(s: &str) -> (r: String)
    ensures
        r@ == trimmed(s@),
{
    let len = s.unicode_len();
    if len == 0 {
        return s.to_owned();
    }
    let r = s.substring_char(0, len - 1).to_owned();
    proof {
        assert(s@.subrange(0, len - 1) =~= s@.drop_last());
    }
    r
}

impl SystemResult {
    /// Classifies a command's captured streams: both are trimmed of their
    /// trailing character, and the run is a failure exactly when the trimmed
    /// error stream is non-empty.
    pub fn from_captured(stdout: &str, stderr: &str) -> (r: Result<SystemResult, SystemResult>)
        ensures
            trimmed(stderr@).len() == 0 ==> (r matches Ok(sr) && sr.stdout@ == trimmed(stdout@)
                && sr.stderr@ == trimmed(stderr@)),
            trimmed(stderr@).len() > 0 ==> (r matches Err(sr) && sr.stdout@ == trimmed(stdout@)
                && sr.stderr@ == trimmed(stderr@)),
    {
        let out = chop(stdout);
        let err = chop(stderr);
        let failed = err.as_str().unicode_len() > 0;
        let result = SystemResult { stdout: out, stderr: err };
        if failed {
            Err(result)
        } else {
            Ok(result)
        }
    }

    /// The result that stands for a command that could not be started:
    /// nothing on standard output, and the cause on the error stream.
    pub fn from_error(e: &str) -> (r: SystemResult)
        ensures
            r.stdout@ == Seq::<char>::empty(),
            r.stderr@ == "Failed to excute process: "@ + e@,
    {
        SystemResult {
            stdout: String::new(),
            stderr: String::from_str("Failed to excute process: ").concat(e),
        }
    }
}

impl From<String> for SystemResult {
    /// The `From` form of [`SystemResult::from_error`]; callers that need
    /// the contract call that function directly.
    fn from(e: String) -> SystemResult {
        SystemResult::from_error(e.as_str())
    }
}

impl vstd::std_specs::convert::FromSpecImpl<String> for SystemResult {
    open spec fn obeys_from_spec() -> bool {
        false
    }

    open spec fn from_spec(e: String) -> SystemResult {
        SystemResult { stdout: e, stderr: e }
    }
}

} // verus!
