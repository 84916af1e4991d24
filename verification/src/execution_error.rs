//! The single error kind the engine surfaces: a human-readable message,
//! answered over HTTP as status 400 with a small JSON body.

use vstd::prelude::*;
use vstd::string::StringExecFns;

verus! {

/// An engine-level failure: port I/O, a failed lookup, or console output
/// that does not parse.
#[derive(Debug, Clone)]
pub struct ExecutionError {
    pub message: String,
}

/// The JSON body carrying an error message: `{"message":<text>}` with the
/// text quoted verbatim.
pub open spec fn spec_json_message(m: Seq<char>) -> Seq<char> {
    "{\"message\":\""@ + m + "\"}"@
}

impl ExecutionError {
    /// The HTTP status under which every engine error is answered.
    pub fn http_status(&self) -> (s: u16)
        ensures
            s == 400,
    {
        400
    }

    /// The JSON body for this error.
    pub fn http_body(&self) -> (b: String)
        ensures
            b@ == spec_json_message(self.message@),
    {
        let mut b = "{\"message\":\"".to_owned();
        b.append(self.message.as_str());
        b.append("\"}");
        b
    }
}

} // verus!
