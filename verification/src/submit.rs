//! `submit_via` in its first shape: a `submit_sm` without optional parameters,
//! answered with a [`SubmitResp`].
use crate::script::{Fault, ScriptError};
use crate::sends;
use crate::sends::PeerAnswer;
use crate::status::SmppStatus;
use crate::text;
use vstd::prelude::*;

verus! {

/// Response returned by `submit_via` where the peer answered.
#[derive(Debug, Clone)]
pub struct SubmitResp {
    pub command_status: String,
    pub message_id: String,
}

impl SubmitResp {
    /// How the response shows in a log.
    pub fn repr(&self) -> (out: String)
        ensures
            out@ == "SubmitResp(command_status="@ + text::quoted(self.command_status@)
                + ", message_id="@ + text::quoted(self.message_id@) + ")"@,
    {
        let mut out: String = String::new();
        out.append("SubmitResp(command_status=");
        out.append(text::to_quoted(self.command_status.as_str()).as_str());
        out.append(", message_id=");
        out.append(text::to_quoted(self.message_id.as_str()).as_str());
        out.append(")");
        assert(out@ =~= "SubmitResp(command_status="@ + text::quoted(self.command_status@)
            + ", message_id="@ + text::quoted(self.message_id@) + ")"@);
        out
    }
}

/// What a script gets for a submitted message: the status that the peer answered
/// with, and the id that it assigned, or an empty one where it assigned none.
pub fn submit_outcome(bind: &str, answer: Result<PeerAnswer, SmppStatus>) -> (r: Result<
    SubmitResp,
    ScriptError,
>)
    ensures
        match answer {
            Ok(a) => r matches Ok(resp) && resp.command_status@ == a.command_status.spelling()
                && resp.message_id@ == match a.message_id {
                Some(id) => id@,
                None => Seq::empty(),
            },
            Err(status) => r matches Err(e) && e@ == Fault::Runtime(
                sends::bind_failure(bind@, "submit_sm"@, status),
            ),
        },
{
    match sends::submitted(bind, "submit_sm", answer) {
        Ok(resp) => Ok(
            SubmitResp { command_status: resp.command_status, message_id: resp.message_id },
        ),
        Err(e) => Err(e),
    }
}

} // verus!
