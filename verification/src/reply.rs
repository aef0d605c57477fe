//! What a handler returns for a PDU.
use crate::script::{Fault, ScriptError};
use crate::status;
use crate::status::SmppStatus;
use crate::text;
use crate::tlv::Tlv;
use vstd::prelude::*;

verus! {

/// What the script's `@smpp.on_pdu` handler returns — either
/// `pdu.reply(message_id="…")` for accept (submit_sm path) or
/// `pdu.reply(command_status="ESME_RSUBMITFAIL")` for reject.
#[derive(Debug, Clone)]
pub struct PduReply {
    pub command_status: SmppStatus,
    pub message_id: Option<String>,
    /// `query_sm` path only.
    pub message_state: Option<u8>,
    pub final_date: String,
    pub error_code: u8,
    /// `data_sm` path only: optional parameters of the response.
    pub tlvs: Vec<Tlv>,
}

/// How an optional text shows in a log.
pub open spec fn shown_text(v: Option<String>) -> Seq<char> {
    match v {
        Some(s) => "Some("@ + text::quoted(s@) + ")"@,
        None => "None"@,
    }
}

impl PduReply {
    /// Whether this is a plain reply with the status `status` and the id
    /// `message_id`.
    pub open spec fn is_plain(self, status: SmppStatus, message_id: Option<String>) -> bool {
        &&& self.command_status == status
        &&& self.message_id == message_id
        &&& self.message_state is None
        &&& self.final_date@.len() == 0
        &&& self.error_code == 0
        &&& self.tlvs@.len() == 0
    }

    /// Whether `r` is what making a reply from the status that is spelled
    /// `spelled` gives: a plain reply, or a value error where no status that a
    /// script may name is spelled so.
    pub open spec fn is_new(
        r: Result<PduReply, ScriptError>,
        spelled: Seq<char>,
        message_id: Option<String>,
    ) -> bool {
        match r {
            Ok(reply) => {
                &&& reply.command_status.is_script_status()
                &&& reply.command_status.spelling() == spelled
                &&& reply.is_plain(reply.command_status, message_id)
            },
            Err(e) => {
                &&& !status::names_a_status(spelled)
                &&& e@ == Fault::Value("unknown SMPP status: "@ + text::quoted(spelled))
            },
        }
    }

    /// A reply with a status, given by its name, and an optional message id.
    pub fn new(command_status: String, message_id: Option<String>) -> (r: Result<
        PduReply,
        ScriptError,
    >)
        ensures
            PduReply::is_new(r, command_status@, message_id),
    {
        match status::parse_smpp_status(command_status.as_str()) {
            Ok(status) => Ok(
                PduReply {
                    command_status: status,
                    message_id,
                    message_state: None,
                    final_date: String::new(),
                    error_code: 0,
                    tlvs: Vec::new(),
                },
            ),
            Err(e) => Err(e),
        }
    }

    /// The reply that stands for a handler that returns nothing.
    pub fn default_ok() -> (r: PduReply)
        ensures
            r.is_plain(SmppStatus::ESME_ROK, None),
    {
        PduReply {
            command_status: SmppStatus::ESME_ROK,
            message_id: None,
            message_state: None,
            final_date: String::new(),
            error_code: 0,
            tlvs: Vec::new(),
        }
    }

    /// How the reply shows in a log.
    pub fn repr(&self) -> (out: String)
        ensures
            out@ == "PduReply(command_status="@ + self.command_status.spelling() + ", message_id="@
                + shown_text(self.message_id) + ")"@,
    {
        let mut out: String = String::new();
        out.append("PduReply(command_status=");
        out.append(self.command_status.name());
        out.append(", message_id=");
        match &self.message_id {
            Some(s) => {
                out.append("Some(");
                out.append(text::to_quoted(s.as_str()).as_str());
                out.append(")");
            },
            None => {
                out.append("None");
            },
        }
        out.append(")");
        assert(out@ =~= "PduReply(command_status="@ + self.command_status.spelling()
            + ", message_id="@ + shown_text(self.message_id) + ")"@);
        out
    }
}

/// A reply that was made has the status that was spelled and the id that was
/// given, and nothing else; one is made for every status that a script may name,
/// and for no other.
pub proof fn a_reply_is_what_was_asked_for(
    r: Result<PduReply, ScriptError>,
    spelled: Seq<char>,
    message_id: Option<String>,
)
    requires
        PduReply::is_new(r, spelled, message_id),
    ensures
        r is Ok <==> status::names_a_status(spelled),
        r matches Ok(reply) ==> {
            &&& reply.command_status.spelling() == spelled
            &&& reply.message_id == message_id
            &&& reply.message_state is None
            &&& reply.final_date@.len() == 0
            &&& reply.error_code == 0
            &&& reply.tlvs@.len() == 0
        },
        r matches Err(e) ==> e@ is Value,
{
    if let Ok(reply) = r {
        assert(reply.command_status.is_script_status());
    }
}

} // verus!
