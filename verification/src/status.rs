//! SMPP 3.4 command statuses and their names.
use crate::script::{Fault, ScriptError};
use crate::text;
use vstd::prelude::*;

verus! {

/// A command status that the codec knows.
#[allow(non_camel_case_types)]
#[derive(Debug, Clone, Copy, PartialEq, Eq, Structural)]
pub enum SmppStatus {
    /// No error.
    ESME_ROK,
    /// Message length is invalid.
    ESME_RINVMSGLEN,
    /// Command length is invalid.
    ESME_RINVCMDLEN,
    /// Invalid command id.
    ESME_RINVCMDID,
    /// Incorrect bind status for the command.
    ESME_RINVBNDSTS,
    /// ESME already bound.
    ESME_RALYBND,
    /// Invalid priority flag.
    ESME_RINVPRTFLG,
    /// Invalid registered-delivery flag.
    ESME_RINVREGDLVFLG,
    /// System error.
    ESME_RSYSERR,
    /// Invalid source address.
    ESME_RINVSRCADR,
    /// Invalid destination address.
    ESME_RINVDSTADR,
    /// Message id is invalid.
    ESME_RINVMSGID,
    /// Bind failed.
    ESME_RBINDFAIL,
    /// Invalid password.
    ESME_RINVPASWD,
    /// Invalid system id.
    ESME_RINVSYSID,
    /// Cancelling failed.
    ESME_RCANCELFAIL,
    /// Replacing failed.
    ESME_RREPLACEFAIL,
    /// Message queue full.
    ESME_RMSGQFUL,
    /// Invalid service type.
    ESME_RINVSERTYP,
    /// Invalid number of destinations.
    ESME_RINVNUMDESTS,
    /// Invalid distribution-list name.
    ESME_RINVDLNAME,
    /// Invalid destination flag.
    ESME_RINVDESTFLAG,
    /// Invalid submit with replace.
    ESME_RINVSUBREP,
    /// Invalid esm_class.
    ESME_RINVESMCLASS,
    /// Cannot submit to a distribution list.
    ESME_RCNTSUBDL,
    /// Submitting failed.
    ESME_RSUBMITFAIL,
    /// Invalid source type of number.
    ESME_RINVSRCTON,
    /// Invalid source numbering plan.
    ESME_RINVSRCNPI,
    /// Invalid destination type of number.
    ESME_RINVDSTTON,
    /// Invalid destination numbering plan.
    ESME_RINVDSTNPI,
    /// Invalid system_type.
    ESME_RINVSYSTYP,
    /// Invalid replace_if_present flag.
    ESME_RINVREPFLAG,
    /// Invalid number of messages.
    ESME_RINVNUMMSGS,
    /// The ESME has exceeded its message limit.
    ESME_RTHROTTLED,
    /// Invalid scheduled delivery time.
    ESME_RINVSCHED,
    /// Invalid validity period.
    ESME_RINVEXPIRY,
    /// Predefined message not found.
    ESME_RINVDFTMSGID,
    /// Temporary error in the receiving ESME.
    ESME_RX_T_APPN,
    /// Permanent error in the receiving ESME.
    ESME_RX_P_APPN,
    /// The receiving ESME rejects the message.
    ESME_RX_R_APPN,
    /// Querying failed.
    ESME_RQUERYFAIL,
    /// Error in the optional parameters.
    ESME_RINVOPTPARSTREAM,
    /// Optional parameter not allowed.
    ESME_ROPTPARNOTALLWD,
    /// Invalid parameter length.
    ESME_RINVPARLEN,
    /// Expected optional parameter missing.
    ESME_RMISSINGOPTPARAM,
    /// Invalid optional parameter value.
    ESME_RINVOPTPARAMVAL,
    /// Delivery failure.
    ESME_RDELIVERYFAILURE,
    /// Unknown error.
    ESME_RUNKNOWNERR,
}

impl SmppStatus {
    /// The number that stands for the status on the wire.
    pub open spec fn number(self) -> u32 {
        match self {
            SmppStatus::ESME_ROK => 0x00,
            SmppStatus::ESME_RINVMSGLEN => 0x01,
            SmppStatus::ESME_RINVCMDLEN => 0x02,
            SmppStatus::ESME_RINVCMDID => 0x03,
            SmppStatus::ESME_RINVBNDSTS => 0x04,
            SmppStatus::ESME_RALYBND => 0x05,
            SmppStatus::ESME_RINVPRTFLG => 0x06,
            SmppStatus::ESME_RINVREGDLVFLG => 0x07,
            SmppStatus::ESME_RSYSERR => 0x08,
            SmppStatus::ESME_RINVSRCADR => 0x0A,
            SmppStatus::ESME_RINVDSTADR => 0x0B,
            SmppStatus::ESME_RINVMSGID => 0x0C,
            SmppStatus::ESME_RBINDFAIL => 0x0D,
            SmppStatus::ESME_RINVPASWD => 0x0E,
            SmppStatus::ESME_RINVSYSID => 0x0F,
            SmppStatus::ESME_RCANCELFAIL => 0x11,
            SmppStatus::ESME_RREPLACEFAIL => 0x13,
            SmppStatus::ESME_RMSGQFUL => 0x14,
            SmppStatus::ESME_RINVSERTYP => 0x15,
            SmppStatus::ESME_RINVNUMDESTS => 0x33,
            SmppStatus::ESME_RINVDLNAME => 0x34,
            SmppStatus::ESME_RINVDESTFLAG => 0x40,
            SmppStatus::ESME_RINVSUBREP => 0x42,
            SmppStatus::ESME_RINVESMCLASS => 0x43,
            SmppStatus::ESME_RCNTSUBDL => 0x44,
            SmppStatus::ESME_RSUBMITFAIL => 0x45,
            SmppStatus::ESME_RINVSRCTON => 0x48,
            SmppStatus::ESME_RINVSRCNPI => 0x49,
            SmppStatus::ESME_RINVDSTTON => 0x50,
            SmppStatus::ESME_RINVDSTNPI => 0x51,
            SmppStatus::ESME_RINVSYSTYP => 0x53,
            SmppStatus::ESME_RINVREPFLAG => 0x54,
            SmppStatus::ESME_RINVNUMMSGS => 0x55,
            SmppStatus::ESME_RTHROTTLED => 0x58,
            SmppStatus::ESME_RINVSCHED => 0x61,
            SmppStatus::ESME_RINVEXPIRY => 0x62,
            SmppStatus::ESME_RINVDFTMSGID => 0x63,
            SmppStatus::ESME_RX_T_APPN => 0x64,
            SmppStatus::ESME_RX_P_APPN => 0x65,
            SmppStatus::ESME_RX_R_APPN => 0x66,
            SmppStatus::ESME_RQUERYFAIL => 0x67,
            SmppStatus::ESME_RINVOPTPARSTREAM => 0xC0,
            SmppStatus::ESME_ROPTPARNOTALLWD => 0xC1,
            SmppStatus::ESME_RINVPARLEN => 0xC2,
            SmppStatus::ESME_RMISSINGOPTPARAM => 0xC3,
            SmppStatus::ESME_RINVOPTPARAMVAL => 0xC4,
            SmppStatus::ESME_RDELIVERYFAILURE => 0xFE,
            SmppStatus::ESME_RUNKNOWNERR => 0xFF,
        }
    }

    /// The status that a number on the wire stands for.
    pub open spec fn numbered(code: u32) -> Option<SmppStatus> {
        match code {
            0x00 => Some(SmppStatus::ESME_ROK),
            0x01 => Some(SmppStatus::ESME_RINVMSGLEN),
            0x02 => Some(SmppStatus::ESME_RINVCMDLEN),
            0x03 => Some(SmppStatus::ESME_RINVCMDID),
            0x04 => Some(SmppStatus::ESME_RINVBNDSTS),
            0x05 => Some(SmppStatus::ESME_RALYBND),
            0x06 => Some(SmppStatus::ESME_RINVPRTFLG),
            0x07 => Some(SmppStatus::ESME_RINVREGDLVFLG),
            0x08 => Some(SmppStatus::ESME_RSYSERR),
            0x0A => Some(SmppStatus::ESME_RINVSRCADR),
            0x0B => Some(SmppStatus::ESME_RINVDSTADR),
            0x0C => Some(SmppStatus::ESME_RINVMSGID),
            0x0D => Some(SmppStatus::ESME_RBINDFAIL),
            0x0E => Some(SmppStatus::ESME_RINVPASWD),
            0x0F => Some(SmppStatus::ESME_RINVSYSID),
            0x11 => Some(SmppStatus::ESME_RCANCELFAIL),
            0x13 => Some(SmppStatus::ESME_RREPLACEFAIL),
            0x14 => Some(SmppStatus::ESME_RMSGQFUL),
            0x15 => Some(SmppStatus::ESME_RINVSERTYP),
            0x33 => Some(SmppStatus::ESME_RINVNUMDESTS),
            0x34 => Some(SmppStatus::ESME_RINVDLNAME),
            0x40 => Some(SmppStatus::ESME_RINVDESTFLAG),
            0x42 => Some(SmppStatus::ESME_RINVSUBREP),
            0x43 => Some(SmppStatus::ESME_RINVESMCLASS),
            0x44 => Some(SmppStatus::ESME_RCNTSUBDL),
            0x45 => Some(SmppStatus::ESME_RSUBMITFAIL),
            0x48 => Some(SmppStatus::ESME_RINVSRCTON),
            0x49 => Some(SmppStatus::ESME_RINVSRCNPI),
            0x50 => Some(SmppStatus::ESME_RINVDSTTON),
            0x51 => Some(SmppStatus::ESME_RINVDSTNPI),
            0x53 => Some(SmppStatus::ESME_RINVSYSTYP),
            0x54 => Some(SmppStatus::ESME_RINVREPFLAG),
            0x55 => Some(SmppStatus::ESME_RINVNUMMSGS),
            0x58 => Some(SmppStatus::ESME_RTHROTTLED),
            0x61 => Some(SmppStatus::ESME_RINVSCHED),
            0x62 => Some(SmppStatus::ESME_RINVEXPIRY),
            0x63 => Some(SmppStatus::ESME_RINVDFTMSGID),
            0x64 => Some(SmppStatus::ESME_RX_T_APPN),
            0x65 => Some(SmppStatus::ESME_RX_P_APPN),
            0x66 => Some(SmppStatus::ESME_RX_R_APPN),
            0x67 => Some(SmppStatus::ESME_RQUERYFAIL),
            0xC0 => Some(SmppStatus::ESME_RINVOPTPARSTREAM),
            0xC1 => Some(SmppStatus::ESME_ROPTPARNOTALLWD),
            0xC2 => Some(SmppStatus::ESME_RINVPARLEN),
            0xC3 => Some(SmppStatus::ESME_RMISSINGOPTPARAM),
            0xC4 => Some(SmppStatus::ESME_RINVOPTPARAMVAL),
            0xFE => Some(SmppStatus::ESME_RDELIVERYFAILURE),
            0xFF => Some(SmppStatus::ESME_RUNKNOWNERR),
            _ => None,
        }
    }

    /// The name of the status.
    pub open spec fn spelling(self) -> Seq<char> {
        match self {
            SmppStatus::ESME_ROK => "ESME_ROK"@,
            SmppStatus::ESME_RINVMSGLEN => "ESME_RINVMSGLEN"@,
            SmppStatus::ESME_RINVCMDLEN => "ESME_RINVCMDLEN"@,
            SmppStatus::ESME_RINVCMDID => "ESME_RINVCMDID"@,
            SmppStatus::ESME_RINVBNDSTS => "ESME_RINVBNDSTS"@,
            SmppStatus::ESME_RALYBND => "ESME_RALYBND"@,
            SmppStatus::ESME_RINVPRTFLG => "ESME_RINVPRTFLG"@,
            SmppStatus::ESME_RINVREGDLVFLG => "ESME_RINVREGDLVFLG"@,
            SmppStatus::ESME_RSYSERR => "ESME_RSYSERR"@,
            SmppStatus::ESME_RINVSRCADR => "ESME_RINVSRCADR"@,
            SmppStatus::ESME_RINVDSTADR => "ESME_RINVDSTADR"@,
            SmppStatus::ESME_RINVMSGID => "ESME_RINVMSGID"@,
            SmppStatus::ESME_RBINDFAIL => "ESME_RBINDFAIL"@,
            SmppStatus::ESME_RINVPASWD => "ESME_RINVPASWD"@,
            SmppStatus::ESME_RINVSYSID => "ESME_RINVSYSID"@,
            SmppStatus::ESME_RCANCELFAIL => "ESME_RCANCELFAIL"@,
            SmppStatus::ESME_RREPLACEFAIL => "ESME_RREPLACEFAIL"@,
            SmppStatus::ESME_RMSGQFUL => "ESME_RMSGQFUL"@,
            SmppStatus::ESME_RINVSERTYP => "ESME_RINVSERTYP"@,
            SmppStatus::ESME_RINVNUMDESTS => "ESME_RINVNUMDESTS"@,
            SmppStatus::ESME_RINVDLNAME => "ESME_RINVDLNAME"@,
            SmppStatus::ESME_RINVDESTFLAG => "ESME_RINVDESTFLAG"@,
            SmppStatus::ESME_RINVSUBREP => "ESME_RINVSUBREP"@,
            SmppStatus::ESME_RINVESMCLASS => "ESME_RINVESMCLASS"@,
            SmppStatus::ESME_RCNTSUBDL => "ESME_RCNTSUBDL"@,
            SmppStatus::ESME_RSUBMITFAIL => "ESME_RSUBMITFAIL"@,
            SmppStatus::ESME_RINVSRCTON => "ESME_RINVSRCTON"@,
            SmppStatus::ESME_RINVSRCNPI => "ESME_RINVSRCNPI"@,
            SmppStatus::ESME_RINVDSTTON => "ESME_RINVDSTTON"@,
            SmppStatus::ESME_RINVDSTNPI => "ESME_RINVDSTNPI"@,
            SmppStatus::ESME_RINVSYSTYP => "ESME_RINVSYSTYP"@,
            SmppStatus::ESME_RINVREPFLAG => "ESME_RINVREPFLAG"@,
            SmppStatus::ESME_RINVNUMMSGS => "ESME_RINVNUMMSGS"@,
            SmppStatus::ESME_RTHROTTLED => "ESME_RTHROTTLED"@,
            SmppStatus::ESME_RINVSCHED => "ESME_RINVSCHED"@,
            SmppStatus::ESME_RINVEXPIRY => "ESME_RINVEXPIRY"@,
            SmppStatus::ESME_RINVDFTMSGID => "ESME_RINVDFTMSGID"@,
            SmppStatus::ESME_RX_T_APPN => "ESME_RX_T_APPN"@,
            SmppStatus::ESME_RX_P_APPN => "ESME_RX_P_APPN"@,
            SmppStatus::ESME_RX_R_APPN => "ESME_RX_R_APPN"@,
            SmppStatus::ESME_RQUERYFAIL => "ESME_RQUERYFAIL"@,
            SmppStatus::ESME_RINVOPTPARSTREAM => "ESME_RINVOPTPARSTREAM"@,
            SmppStatus::ESME_ROPTPARNOTALLWD => "ESME_ROPTPARNOTALLWD"@,
            SmppStatus::ESME_RINVPARLEN => "ESME_RINVPARLEN"@,
            SmppStatus::ESME_RMISSINGOPTPARAM => "ESME_RMISSINGOPTPARAM"@,
            SmppStatus::ESME_RINVOPTPARAMVAL => "ESME_RINVOPTPARAMVAL"@,
            SmppStatus::ESME_RDELIVERYFAILURE => "ESME_RDELIVERYFAILURE"@,
            SmppStatus::ESME_RUNKNOWNERR => "ESME_RUNKNOWNERR"@,
        }
    }

    /// Whether a script may name the status: all but the errors of the optional
    /// parameters, the delivery failure and the unknown error, which only the
    /// codec gives.
    pub open spec fn is_script_status(self) -> bool {
        match self {
            SmppStatus::ESME_RINVOPTPARSTREAM
            | SmppStatus::ESME_ROPTPARNOTALLWD
            | SmppStatus::ESME_RINVPARLEN
            | SmppStatus::ESME_RMISSINGOPTPARAM
            | SmppStatus::ESME_RINVOPTPARAMVAL
            | SmppStatus::ESME_RDELIVERYFAILURE
            | SmppStatus::ESME_RUNKNOWNERR => false,
            _ => true,
        }
    }

    /// The number that stands for the status on the wire.
    pub fn code(self) -> (r: u32)
        ensures
            r == self.number(),
    {
        match self {
            SmppStatus::ESME_ROK => 0x00,
            SmppStatus::ESME_RINVMSGLEN => 0x01,
            SmppStatus::ESME_RINVCMDLEN => 0x02,
            SmppStatus::ESME_RINVCMDID => 0x03,
            SmppStatus::ESME_RINVBNDSTS => 0x04,
            SmppStatus::ESME_RALYBND => 0x05,
            SmppStatus::ESME_RINVPRTFLG => 0x06,
            SmppStatus::ESME_RINVREGDLVFLG => 0x07,
            SmppStatus::ESME_RSYSERR => 0x08,
            SmppStatus::ESME_RINVSRCADR => 0x0A,
            SmppStatus::ESME_RINVDSTADR => 0x0B,
            SmppStatus::ESME_RINVMSGID => 0x0C,
            SmppStatus::ESME_RBINDFAIL => 0x0D,
            SmppStatus::ESME_RINVPASWD => 0x0E,
            SmppStatus::ESME_RINVSYSID => 0x0F,
            SmppStatus::ESME_RCANCELFAIL => 0x11,
            SmppStatus::ESME_RREPLACEFAIL => 0x13,
            SmppStatus::ESME_RMSGQFUL => 0x14,
            SmppStatus::ESME_RINVSERTYP => 0x15,
            SmppStatus::ESME_RINVNUMDESTS => 0x33,
            SmppStatus::ESME_RINVDLNAME => 0x34,
            SmppStatus::ESME_RINVDESTFLAG => 0x40,
            SmppStatus::ESME_RINVSUBREP => 0x42,
            SmppStatus::ESME_RINVESMCLASS => 0x43,
            SmppStatus::ESME_RCNTSUBDL => 0x44,
            SmppStatus::ESME_RSUBMITFAIL => 0x45,
            SmppStatus::ESME_RINVSRCTON => 0x48,
            SmppStatus::ESME_RINVSRCNPI => 0x49,
            SmppStatus::ESME_RINVDSTTON => 0x50,
            SmppStatus::ESME_RINVDSTNPI => 0x51,
            SmppStatus::ESME_RINVSYSTYP => 0x53,
            SmppStatus::ESME_RINVREPFLAG => 0x54,
            SmppStatus::ESME_RINVNUMMSGS => 0x55,
            SmppStatus::ESME_RTHROTTLED => 0x58,
            SmppStatus::ESME_RINVSCHED => 0x61,
            SmppStatus::ESME_RINVEXPIRY => 0x62,
            SmppStatus::ESME_RINVDFTMSGID => 0x63,
            SmppStatus::ESME_RX_T_APPN => 0x64,
            SmppStatus::ESME_RX_P_APPN => 0x65,
            SmppStatus::ESME_RX_R_APPN => 0x66,
            SmppStatus::ESME_RQUERYFAIL => 0x67,
            SmppStatus::ESME_RINVOPTPARSTREAM => 0xC0,
            SmppStatus::ESME_ROPTPARNOTALLWD => 0xC1,
            SmppStatus::ESME_RINVPARLEN => 0xC2,
            SmppStatus::ESME_RMISSINGOPTPARAM => 0xC3,
            SmppStatus::ESME_RINVOPTPARAMVAL => 0xC4,
            SmppStatus::ESME_RDELIVERYFAILURE => 0xFE,
            SmppStatus::ESME_RUNKNOWNERR => 0xFF,
        }
    }

    /// The status that a number on the wire stands for.
    pub fn from_code(code: u32) -> (r: Option<SmppStatus>)
        ensures
            r == SmppStatus::numbered(code),
    {
        match code {
            0x00 => Some(SmppStatus::ESME_ROK),
            0x01 => Some(SmppStatus::ESME_RINVMSGLEN),
            0x02 => Some(SmppStatus::ESME_RINVCMDLEN),
            0x03 => Some(SmppStatus::ESME_RINVCMDID),
            0x04 => Some(SmppStatus::ESME_RINVBNDSTS),
            0x05 => Some(SmppStatus::ESME_RALYBND),
            0x06 => Some(SmppStatus::ESME_RINVPRTFLG),
            0x07 => Some(SmppStatus::ESME_RINVREGDLVFLG),
            0x08 => Some(SmppStatus::ESME_RSYSERR),
            0x0A => Some(SmppStatus::ESME_RINVSRCADR),
            0x0B => Some(SmppStatus::ESME_RINVDSTADR),
            0x0C => Some(SmppStatus::ESME_RINVMSGID),
            0x0D => Some(SmppStatus::ESME_RBINDFAIL),
            0x0E => Some(SmppStatus::ESME_RINVPASWD),
            0x0F => Some(SmppStatus::ESME_RINVSYSID),
            0x11 => Some(SmppStatus::ESME_RCANCELFAIL),
            0x13 => Some(SmppStatus::ESME_RREPLACEFAIL),
            0x14 => Some(SmppStatus::ESME_RMSGQFUL),
            0x15 => Some(SmppStatus::ESME_RINVSERTYP),
            0x33 => Some(SmppStatus::ESME_RINVNUMDESTS),
            0x34 => Some(SmppStatus::ESME_RINVDLNAME),
            0x40 => Some(SmppStatus::ESME_RINVDESTFLAG),
            0x42 => Some(SmppStatus::ESME_RINVSUBREP),
            0x43 => Some(SmppStatus::ESME_RINVESMCLASS),
            0x44 => Some(SmppStatus::ESME_RCNTSUBDL),
            0x45 => Some(SmppStatus::ESME_RSUBMITFAIL),
            0x48 => Some(SmppStatus::ESME_RINVSRCTON),
            0x49 => Some(SmppStatus::ESME_RINVSRCNPI),
            0x50 => Some(SmppStatus::ESME_RINVDSTTON),
            0x51 => Some(SmppStatus::ESME_RINVDSTNPI),
            0x53 => Some(SmppStatus::ESME_RINVSYSTYP),
            0x54 => Some(SmppStatus::ESME_RINVREPFLAG),
            0x55 => Some(SmppStatus::ESME_RINVNUMMSGS),
            0x58 => Some(SmppStatus::ESME_RTHROTTLED),
            0x61 => Some(SmppStatus::ESME_RINVSCHED),
            0x62 => Some(SmppStatus::ESME_RINVEXPIRY),
            0x63 => Some(SmppStatus::ESME_RINVDFTMSGID),
            0x64 => Some(SmppStatus::ESME_RX_T_APPN),
            0x65 => Some(SmppStatus::ESME_RX_P_APPN),
            0x66 => Some(SmppStatus::ESME_RX_R_APPN),
            0x67 => Some(SmppStatus::ESME_RQUERYFAIL),
            0xC0 => Some(SmppStatus::ESME_RINVOPTPARSTREAM),
            0xC1 => Some(SmppStatus::ESME_ROPTPARNOTALLWD),
            0xC2 => Some(SmppStatus::ESME_RINVPARLEN),
            0xC3 => Some(SmppStatus::ESME_RMISSINGOPTPARAM),
            0xC4 => Some(SmppStatus::ESME_RINVOPTPARAMVAL),
            0xFE => Some(SmppStatus::ESME_RDELIVERYFAILURE),
            0xFF => Some(SmppStatus::ESME_RUNKNOWNERR),
            _ => None,
        }
    }

    /// The name of the status.
    pub fn name(self) -> (r: &'static str)
        ensures
            r@ == self.spelling(),
    {
        match self {
            SmppStatus::ESME_ROK => "ESME_ROK",
            SmppStatus::ESME_RINVMSGLEN => "ESME_RINVMSGLEN",
            SmppStatus::ESME_RINVCMDLEN => "ESME_RINVCMDLEN",
            SmppStatus::ESME_RINVCMDID => "ESME_RINVCMDID",
            SmppStatus::ESME_RINVBNDSTS => "ESME_RINVBNDSTS",
            SmppStatus::ESME_RALYBND => "ESME_RALYBND",
            SmppStatus::ESME_RINVPRTFLG => "ESME_RINVPRTFLG",
            SmppStatus::ESME_RINVREGDLVFLG => "ESME_RINVREGDLVFLG",
            SmppStatus::ESME_RSYSERR => "ESME_RSYSERR",
            SmppStatus::ESME_RINVSRCADR => "ESME_RINVSRCADR",
            SmppStatus::ESME_RINVDSTADR => "ESME_RINVDSTADR",
            SmppStatus::ESME_RINVMSGID => "ESME_RINVMSGID",
            SmppStatus::ESME_RBINDFAIL => "ESME_RBINDFAIL",
            SmppStatus::ESME_RINVPASWD => "ESME_RINVPASWD",
            SmppStatus::ESME_RINVSYSID => "ESME_RINVSYSID",
            SmppStatus::ESME_RCANCELFAIL => "ESME_RCANCELFAIL",
            SmppStatus::ESME_RREPLACEFAIL => "ESME_RREPLACEFAIL",
            SmppStatus::ESME_RMSGQFUL => "ESME_RMSGQFUL",
            SmppStatus::ESME_RINVSERTYP => "ESME_RINVSERTYP",
            SmppStatus::ESME_RINVNUMDESTS => "ESME_RINVNUMDESTS",
            SmppStatus::ESME_RINVDLNAME => "ESME_RINVDLNAME",
            SmppStatus::ESME_RINVDESTFLAG => "ESME_RINVDESTFLAG",
            SmppStatus::ESME_RINVSUBREP => "ESME_RINVSUBREP",
            SmppStatus::ESME_RINVESMCLASS => "ESME_RINVESMCLASS",
            SmppStatus::ESME_RCNTSUBDL => "ESME_RCNTSUBDL",
            SmppStatus::ESME_RSUBMITFAIL => "ESME_RSUBMITFAIL",
            SmppStatus::ESME_RINVSRCTON => "ESME_RINVSRCTON",
            SmppStatus::ESME_RINVSRCNPI => "ESME_RINVSRCNPI",
            SmppStatus::ESME_RINVDSTTON => "ESME_RINVDSTTON",
            SmppStatus::ESME_RINVDSTNPI => "ESME_RINVDSTNPI",
            SmppStatus::ESME_RINVSYSTYP => "ESME_RINVSYSTYP",
            SmppStatus::ESME_RINVREPFLAG => "ESME_RINVREPFLAG",
            SmppStatus::ESME_RINVNUMMSGS => "ESME_RINVNUMMSGS",
            SmppStatus::ESME_RTHROTTLED => "ESME_RTHROTTLED",
            SmppStatus::ESME_RINVSCHED => "ESME_RINVSCHED",
            SmppStatus::ESME_RINVEXPIRY => "ESME_RINVEXPIRY",
            SmppStatus::ESME_RINVDFTMSGID => "ESME_RINVDFTMSGID",
            SmppStatus::ESME_RX_T_APPN => "ESME_RX_T_APPN",
            SmppStatus::ESME_RX_P_APPN => "ESME_RX_P_APPN",
            SmppStatus::ESME_RX_R_APPN => "ESME_RX_R_APPN",
            SmppStatus::ESME_RQUERYFAIL => "ESME_RQUERYFAIL",
            SmppStatus::ESME_RINVOPTPARSTREAM => "ESME_RINVOPTPARSTREAM",
            SmppStatus::ESME_ROPTPARNOTALLWD => "ESME_ROPTPARNOTALLWD",
            SmppStatus::ESME_RINVPARLEN => "ESME_RINVPARLEN",
            SmppStatus::ESME_RMISSINGOPTPARAM => "ESME_RMISSINGOPTPARAM",
            SmppStatus::ESME_RINVOPTPARAMVAL => "ESME_RINVOPTPARAMVAL",
            SmppStatus::ESME_RDELIVERYFAILURE => "ESME_RDELIVERYFAILURE",
            SmppStatus::ESME_RUNKNOWNERR => "ESME_RUNKNOWNERR",
        }
    }

    /// Whether the status is success.
    pub fn is_ok(self) -> (r: bool)
        ensures
            r == (self == SmppStatus::ESME_ROK),
    {
        match self {
            SmppStatus::ESME_ROK => true,
            _ => false,
        }
    }
}

/// Whether `s` spells a status that a script may name.
pub open spec fn names_a_status(s: Seq<char>) -> bool {
    exists|status: SmppStatus| status.is_script_status() && #[trigger] status.spelling() == s
}

/// Map an SMPP status string ("ESME_ROK", "ESME_RSUBMITFAIL", …) to its
/// status. A value error on an unknown spelling, so that script bugs surface
/// immediately rather than fall through to `ESME_ROK`.
pub fn parse_smpp_status(s: &str) -> (r: Result<SmppStatus, ScriptError>)
    ensures
        match r {
            Ok(status) => status.is_script_status() && status.spelling() == s@,
            Err(e) => {
                &&& !names_a_status(s@)
                &&& e@ == Fault::Value("unknown SMPP status: "@ + text::quoted(s@))
            },
        },
{
    if text::same(s, "ESME_ROK") {
        return Ok(SmppStatus::ESME_ROK);
    }
    if text::same(s, "ESME_RINVMSGLEN") {
        return Ok(SmppStatus::ESME_RINVMSGLEN);
    }
    if text::same(s, "ESME_RINVCMDLEN") {
        return Ok(SmppStatus::ESME_RINVCMDLEN);
    }
    if text::same(s, "ESME_RINVCMDID") {
        return Ok(SmppStatus::ESME_RINVCMDID);
    }
    if text::same(s, "ESME_RINVBNDSTS") {
        return Ok(SmppStatus::ESME_RINVBNDSTS);
    }
    if text::same(s, "ESME_RALYBND") {
        return Ok(SmppStatus::ESME_RALYBND);
    }
    if text::same(s, "ESME_RINVPRTFLG") {
        return Ok(SmppStatus::ESME_RINVPRTFLG);
    }
    if text::same(s, "ESME_RINVREGDLVFLG") {
        return Ok(SmppStatus::ESME_RINVREGDLVFLG);
    }
    if text::same(s, "ESME_RSYSERR") {
        return Ok(SmppStatus::ESME_RSYSERR);
    }
    if text::same(s, "ESME_RINVSRCADR") {
        return Ok(SmppStatus::ESME_RINVSRCADR);
    }
    if text::same(s, "ESME_RINVDSTADR") {
        return Ok(SmppStatus::ESME_RINVDSTADR);
    }
    if text::same(s, "ESME_RINVMSGID") {
        return Ok(SmppStatus::ESME_RINVMSGID);
    }
    if text::same(s, "ESME_RBINDFAIL") {
        return Ok(SmppStatus::ESME_RBINDFAIL);
    }
    if text::same(s, "ESME_RINVPASWD") {
        return Ok(SmppStatus::ESME_RINVPASWD);
    }
    if text::same(s, "ESME_RINVSYSID") {
        return Ok(SmppStatus::ESME_RINVSYSID);
    }
    if text::same(s, "ESME_RCANCELFAIL") {
        return Ok(SmppStatus::ESME_RCANCELFAIL);
    }
    if text::same(s, "ESME_RREPLACEFAIL") {
        return Ok(SmppStatus::ESME_RREPLACEFAIL);
    }
    if text::same(s, "ESME_RMSGQFUL") {
        return Ok(SmppStatus::ESME_RMSGQFUL);
    }
    if text::same(s, "ESME_RINVSERTYP") {
        return Ok(SmppStatus::ESME_RINVSERTYP);
    }
    if text::same(s, "ESME_RINVNUMDESTS") {
        return Ok(SmppStatus::ESME_RINVNUMDESTS);
    }
    if text::same(s, "ESME_RINVDLNAME") {
        return Ok(SmppStatus::ESME_RINVDLNAME);
    }
    if text::same(s, "ESME_RINVDESTFLAG") {
        return Ok(SmppStatus::ESME_RINVDESTFLAG);
    }
    if text::same(s, "ESME_RINVSUBREP") {
        return Ok(SmppStatus::ESME_RINVSUBREP);
    }
    if text::same(s, "ESME_RINVESMCLASS") {
        return Ok(SmppStatus::ESME_RINVESMCLASS);
    }
    if text::same(s, "ESME_RCNTSUBDL") {
        return Ok(SmppStatus::ESME_RCNTSUBDL);
    }
    if text::same(s, "ESME_RSUBMITFAIL") {
        return Ok(SmppStatus::ESME_RSUBMITFAIL);
    }
    if text::same(s, "ESME_RINVSRCTON") {
        return Ok(SmppStatus::ESME_RINVSRCTON);
    }
    if text::same(s, "ESME_RINVSRCNPI") {
        return Ok(SmppStatus::ESME_RINVSRCNPI);
    }
    if text::same(s, "ESME_RINVDSTTON") {
        return Ok(SmppStatus::ESME_RINVDSTTON);
    }
    if text::same(s, "ESME_RINVDSTNPI") {
        return Ok(SmppStatus::ESME_RINVDSTNPI);
    }
    if text::same(s, "ESME_RINVSYSTYP") {
        return Ok(SmppStatus::ESME_RINVSYSTYP);
    }
    if text::same(s, "ESME_RINVREPFLAG") {
        return Ok(SmppStatus::ESME_RINVREPFLAG);
    }
    if text::same(s, "ESME_RINVNUMMSGS") {
        return Ok(SmppStatus::ESME_RINVNUMMSGS);
    }
    if text::same(s, "ESME_RTHROTTLED") {
        return Ok(SmppStatus::ESME_RTHROTTLED);
    }
    if text::same(s, "ESME_RINVSCHED") {
        return Ok(SmppStatus::ESME_RINVSCHED);
    }
    if text::same(s, "ESME_RINVEXPIRY") {
        return Ok(SmppStatus::ESME_RINVEXPIRY);
    }
    if text::same(s, "ESME_RINVDFTMSGID") {
        return Ok(SmppStatus::ESME_RINVDFTMSGID);
    }
    if text::same(s, "ESME_RX_T_APPN") {
        return Ok(SmppStatus::ESME_RX_T_APPN);
    }
    if text::same(s, "ESME_RX_P_APPN") {
        return Ok(SmppStatus::ESME_RX_P_APPN);
    }
    if text::same(s, "ESME_RX_R_APPN") {
        return Ok(SmppStatus::ESME_RX_R_APPN);
    }
    if text::same(s, "ESME_RQUERYFAIL") {
        return Ok(SmppStatus::ESME_RQUERYFAIL);
    }
    let mut message: String = String::new();
    message.append("unknown SMPP status: ");
    message.append(text::to_quoted(s).as_str());
    assert(message@ =~= "unknown SMPP status: "@ + text::quoted(s@));
    Err(ScriptError::Value(message))
}

// ── What is promised of the names and numbers ────────────────────────────

/// A status is found again by its number, and a number by the status that it
/// stands for.
pub proof fn numbers_are_found_again(status: SmppStatus, code: u32)
    ensures
        SmppStatus::numbered(status.number()) == Some(status),
        SmppStatus::numbered(code) matches Some(s) ==> s.number() == code,
{
}

/// What tells the names apart: the length, and the last, the fourth-last and
/// the sixth-last character.
spec fn mark(name: Seq<char>) -> int {
    ((name.len() * 0x100 + name[name.len() - 1] as int) * 0x100 + name[name.len() - 4] as int)
        * 0x100 + name[name.len() - 6] as int
}

/// The status whose name has the mark `m`.
spec fn marked(m: int) -> SmppStatus {
    if m == 0x84B5F4D {
        SmppStatus::ESME_ROK
    } else if m == 0xF4E474D {
        SmppStatus::ESME_RINVMSGLEN
    } else if m == 0xF4E4443 {
        SmppStatus::ESME_RINVCMDLEN
    } else if m == 0xE444D56 {
        SmppStatus::ESME_RINVCMDID
    } else if m == 0xF534442 {
        SmppStatus::ESME_RINVBNDSTS
    } else if m == 0xC445941 {
        SmppStatus::ESME_RALYBND
    } else if m == 0xF475450 {
        SmppStatus::ESME_RINVPRTFLG
    } else if m == 0x12475644 {
        SmppStatus::ESME_RINVREGDLVFLG
    } else if m == 0xC525353 {
        SmppStatus::ESME_RSYSERR
    } else if m == 0xF524353 {
        SmppStatus::ESME_RINVSRCADR
    } else if m == 0xF525444 {
        SmppStatus::ESME_RINVDSTADR
    } else if m == 0xE445356 {
        SmppStatus::ESME_RINVMSGID
    } else if m == 0xE4C464E {
        SmppStatus::ESME_RBINDFAIL
    } else if m == 0xE444156 {
        SmppStatus::ESME_RINVPASWD
    } else if m == 0xE445956 {
        SmppStatus::ESME_RINVSYSID
    } else if m == 0x104C4645 {
        SmppStatus::ESME_RCANCELFAIL
    } else if m == 0x114C4643 {
        SmppStatus::ESME_RREPLACEFAIL
    } else if m == 0xD4C5153 {
        SmppStatus::ESME_RMSGQFUL
    } else if m == 0xF505253 {
        SmppStatus::ESME_RINVSERTYP
    } else if m == 0x1153454D {
        SmppStatus::ESME_RINVNUMDESTS
    } else if m == 0xF454E44 {
        SmppStatus::ESME_RINVDLNAME
    } else if m == 0x11474653 {
        SmppStatus::ESME_RINVDESTFLAG
    } else if m == 0xF504253 {
        SmppStatus::ESME_RINVSUBREP
    } else if m == 0x11534C4D {
        SmppStatus::ESME_RINVESMCLASS
    } else if m == 0xE4C5554 {
        SmppStatus::ESME_RCNTSUBDL
    } else if m == 0x104C4649 {
        SmppStatus::ESME_RSUBMITFAIL
    } else if m == 0xF4E4353 {
        SmppStatus::ESME_RINVSRCTON
    } else if m == 0xF494353 {
        SmppStatus::ESME_RINVSRCNPI
    } else if m == 0xF4E5444 {
        SmppStatus::ESME_RINVDSTTON
    } else if m == 0xF495444 {
        SmppStatus::ESME_RINVDSTNPI
    } else if m == 0xF505353 {
        SmppStatus::ESME_RINVSYSTYP
    } else if m == 0x10474645 {
        SmppStatus::ESME_RINVREPFLAG
    } else if m == 0x10534D55 {
        SmppStatus::ESME_RINVNUMMSGS
    } else if m == 0xF44544F {
        SmppStatus::ESME_RTHROTTLED
    } else if m == 0xE444356 {
        SmppStatus::ESME_RINVSCHED
    } else if m == 0xF595045 {
        SmppStatus::ESME_RINVEXPIRY
    } else if m == 0x11445354 {
        SmppStatus::ESME_RINVDFTMSGID
    } else if m == 0xE4E4154 {
        SmppStatus::ESME_RX_T_APPN
    } else if m == 0xE4E4150 {
        SmppStatus::ESME_RX_P_APPN
    } else if m == 0xE4E4152 {
        SmppStatus::ESME_RX_R_APPN
    } else if m == 0xF4C4652 {
        SmppStatus::ESME_RQUERYFAIL
    } else if m == 0x154D5253 {
        SmppStatus::ESME_RINVOPTPARSTREAM
    } else if m == 0x14444C54 {
        SmppStatus::ESME_ROPTPARNOTALLWD
    } else if m == 0xF4E5250 {
        SmppStatus::ESME_RINVPARLEN
    } else if m == 0x154D4154 {
        SmppStatus::ESME_RMISSINGOPTPARAM
    } else if m == 0x144C4D52 {
        SmppStatus::ESME_RINVOPTPARAMVAL
    } else if m == 0x15454C41 {
        SmppStatus::ESME_RDELIVERYFAILURE
    } else {
        SmppStatus::ESME_RUNKNOWNERR
    }
}

proof fn mark_tells(status: SmppStatus)
    ensures
        marked(mark(status.spelling())) == status,
{
    match status {
        SmppStatus::ESME_ROK => {
            reveal_strlit("ESME_ROK");
        },
        SmppStatus::ESME_RINVMSGLEN => {
            reveal_strlit("ESME_RINVMSGLEN");
        },
        SmppStatus::ESME_RINVCMDLEN => {
            reveal_strlit("ESME_RINVCMDLEN");
        },
        SmppStatus::ESME_RINVCMDID => {
            reveal_strlit("ESME_RINVCMDID");
        },
        SmppStatus::ESME_RINVBNDSTS => {
            reveal_strlit("ESME_RINVBNDSTS");
        },
        SmppStatus::ESME_RALYBND => {
            reveal_strlit("ESME_RALYBND");
        },
        SmppStatus::ESME_RINVPRTFLG => {
            reveal_strlit("ESME_RINVPRTFLG");
        },
        SmppStatus::ESME_RINVREGDLVFLG => {
            reveal_strlit("ESME_RINVREGDLVFLG");
        },
        SmppStatus::ESME_RSYSERR => {
            reveal_strlit("ESME_RSYSERR");
        },
        SmppStatus::ESME_RINVSRCADR => {
            reveal_strlit("ESME_RINVSRCADR");
        },
        SmppStatus::ESME_RINVDSTADR => {
            reveal_strlit("ESME_RINVDSTADR");
        },
        SmppStatus::ESME_RINVMSGID => {
            reveal_strlit("ESME_RINVMSGID");
        },
        SmppStatus::ESME_RBINDFAIL => {
            reveal_strlit("ESME_RBINDFAIL");
        },
        SmppStatus::ESME_RINVPASWD => {
            reveal_strlit("ESME_RINVPASWD");
        },
        SmppStatus::ESME_RINVSYSID => {
            reveal_strlit("ESME_RINVSYSID");
        },
        SmppStatus::ESME_RCANCELFAIL => {
            reveal_strlit("ESME_RCANCELFAIL");
        },
        SmppStatus::ESME_RREPLACEFAIL => {
            reveal_strlit("ESME_RREPLACEFAIL");
        },
        SmppStatus::ESME_RMSGQFUL => {
            reveal_strlit("ESME_RMSGQFUL");
        },
        SmppStatus::ESME_RINVSERTYP => {
            reveal_strlit("ESME_RINVSERTYP");
        },
        SmppStatus::ESME_RINVNUMDESTS => {
            reveal_strlit("ESME_RINVNUMDESTS");
        },
        SmppStatus::ESME_RINVDLNAME => {
            reveal_strlit("ESME_RINVDLNAME");
        },
        SmppStatus::ESME_RINVDESTFLAG => {
            reveal_strlit("ESME_RINVDESTFLAG");
        },
        SmppStatus::ESME_RINVSUBREP => {
            reveal_strlit("ESME_RINVSUBREP");
        },
        SmppStatus::ESME_RINVESMCLASS => {
            reveal_strlit("ESME_RINVESMCLASS");
        },
        SmppStatus::ESME_RCNTSUBDL => {
            reveal_strlit("ESME_RCNTSUBDL");
        },
        SmppStatus::ESME_RSUBMITFAIL => {
            reveal_strlit("ESME_RSUBMITFAIL");
        },
        SmppStatus::ESME_RINVSRCTON => {
            reveal_strlit("ESME_RINVSRCTON");
        },
        SmppStatus::ESME_RINVSRCNPI => {
            reveal_strlit("ESME_RINVSRCNPI");
        },
        SmppStatus::ESME_RINVDSTTON => {
            reveal_strlit("ESME_RINVDSTTON");
        },
        SmppStatus::ESME_RINVDSTNPI => {
            reveal_strlit("ESME_RINVDSTNPI");
        },
        SmppStatus::ESME_RINVSYSTYP => {
            reveal_strlit("ESME_RINVSYSTYP");
        },
        SmppStatus::ESME_RINVREPFLAG => {
            reveal_strlit("ESME_RINVREPFLAG");
        },
        SmppStatus::ESME_RINVNUMMSGS => {
            reveal_strlit("ESME_RINVNUMMSGS");
        },
        SmppStatus::ESME_RTHROTTLED => {
            reveal_strlit("ESME_RTHROTTLED");
        },
        SmppStatus::ESME_RINVSCHED => {
            reveal_strlit("ESME_RINVSCHED");
        },
        SmppStatus::ESME_RINVEXPIRY => {
            reveal_strlit("ESME_RINVEXPIRY");
        },
        SmppStatus::ESME_RINVDFTMSGID => {
            reveal_strlit("ESME_RINVDFTMSGID");
        },
        SmppStatus::ESME_RX_T_APPN => {
            reveal_strlit("ESME_RX_T_APPN");
        },
        SmppStatus::ESME_RX_P_APPN => {
            reveal_strlit("ESME_RX_P_APPN");
        },
        SmppStatus::ESME_RX_R_APPN => {
            reveal_strlit("ESME_RX_R_APPN");
        },
        SmppStatus::ESME_RQUERYFAIL => {
            reveal_strlit("ESME_RQUERYFAIL");
        },
        SmppStatus::ESME_RINVOPTPARSTREAM => {
            reveal_strlit("ESME_RINVOPTPARSTREAM");
        },
        SmppStatus::ESME_ROPTPARNOTALLWD => {
            reveal_strlit("ESME_ROPTPARNOTALLWD");
        },
        SmppStatus::ESME_RINVPARLEN => {
            reveal_strlit("ESME_RINVPARLEN");
        },
        SmppStatus::ESME_RMISSINGOPTPARAM => {
            reveal_strlit("ESME_RMISSINGOPTPARAM");
        },
        SmppStatus::ESME_RINVOPTPARAMVAL => {
            reveal_strlit("ESME_RINVOPTPARAMVAL");
        },
        SmppStatus::ESME_RDELIVERYFAILURE => {
            reveal_strlit("ESME_RDELIVERYFAILURE");
        },
        SmppStatus::ESME_RUNKNOWNERR => {
            reveal_strlit("ESME_RUNKNOWNERR");
        },
    }
}

/// No two statuses share a name, so a name means one status at most.
pub proof fn names_are_distinct(a: SmppStatus, b: SmppStatus)
    requires
        a.spelling() == b.spelling(),
    ensures
        a == b,
{
    mark_tells(a);
    mark_tells(b);
}

/// Scripts may name the statuses below 0xC0, which are those that answer a
/// command, and no others. Success is the number 0 and the name `ESME_ROK`.
pub proof fn scripts_name_what_answers_a_command(status: SmppStatus)
    ensures
        status.is_script_status() <==> status.number() < 0xC0,
        status.number() == 0 <==> status.spelling() == "ESME_ROK"@,
        status.number() == 0 <==> status == SmppStatus::ESME_ROK,
        names_a_status(status.spelling()) <==> status.number() < 0xC0,
{
    if status.spelling() == "ESME_ROK"@ {
        names_are_distinct(status, SmppStatus::ESME_ROK);
    }
    if names_a_status(status.spelling()) {
        let other = choose|other: SmppStatus|
            other.is_script_status() && #[trigger] other.spelling() == status.spelling();
        names_are_distinct(other, status);
    }
}

} // verus!
