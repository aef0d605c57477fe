//! The script-facing **send** helpers: what goes out, and what comes of it.
//!
//! Two families, mirroring the two SMPP directions:
//!
//! * **Outbound binds** (we are the ESME; target by bind name) —
//!   [`submit_via`], [`submit_multi_via`], [`data_via`], [`cancel_via`],
//!   [`query_via`] and [`replace_via`].
//! * **Inbound sessions** (we are the SMSC; target a bound ESME by
//!   `session_id`) — [`deliver_to`], [`data_to`] and [`alert_to`].
//!
//! Each function turns the arguments of a call into the message to send, or
//! refuses them; [`submitted`], [`acknowledged`], [`queried`] and [`delivered`]
//! turn the peer's answer into what the script gets.
use crate::numbers;
use crate::pdu;
use crate::pdu::{
    AlertPdu, CancelSm, DataSm, DestAddress, QuerySm, ReplaceSm, Sm, SubmitMulti, MESSAGE_PAYLOAD,
};
use crate::script::{Fault, ScriptError};
use crate::status::SmppStatus;
use crate::text;
use crate::tlv;
use crate::tlv::{Tlv, TlvKey, TlvValue};
use vstd::prelude::*;
use vstd::utf8::*;

verus! {

/// `short_message` is one length octet plus at most 254 octets of body.
pub const SHORT_MESSAGE_MAX: usize = 254;

// ── Checks ───────────────────────────────────────────────────────────────

/// What is said of a body that is too long.
pub open spec fn too_long(command: Seq<char>, len: nat, payload_available: bool) -> Seq<char> {
    command + " short_message is "@ + numbers::decimal(len)
        + " bytes, over the SMPP 3.4 254-byte limit"@ + if payload_available {
        " — send it as tlvs={\"MESSAGE_PAYLOAD\": …} with short_message=b\"\" instead"@
    } else {
        ""@
    }
}

/// Refuses a body over the limit, and points at `message_payload` where the
/// command has it, which is where such a body belongs.
pub fn check_short_message(command: &str, len: usize, payload_available: bool) -> (r: Result<
    (),
    ScriptError,
>)
    ensures
        match r {
            Ok(_) => len <= SHORT_MESSAGE_MAX,
            Err(e) => len > SHORT_MESSAGE_MAX && e@ == Fault::Value(
                too_long(command@, len as nat, payload_available),
            ),
        },
{
    if len <= SHORT_MESSAGE_MAX {
        return Ok(());
    }
    let mut m: String = String::new();
    m.append(command);
    m.append(" short_message is ");
    m.append(numbers::decimal_text(len as u64).as_str());
    m.append(" bytes, over the SMPP 3.4 254-byte limit");
    m.append(
        if payload_available {
            " — send it as tlvs={\"MESSAGE_PAYLOAD\": …} with short_message=b\"\" instead"
        } else {
            ""
        },
    );
    assert(m@ =~= too_long(command@, len as nat, payload_available));
    Err(ScriptError::Value(m))
}

/// What is said of a body that is given twice.
pub open spec fn given_twice(command: Seq<char>) -> Seq<char> {
    command
        + ": pass the body either as short_message= or as tlvs={\"MESSAGE_PAYLOAD\": …}, not both"@
}

/// A list of parameters with a body folded in: behind the others, or not at all
/// where it is empty.
pub open spec fn folded(
    tlvs: Seq<(u16, Seq<u8>)>,
    short_message: Seq<u8>,
) -> Seq<(u16, Seq<u8>)> {
    if short_message.len() == 0 {
        tlvs
    } else {
        tlvs.push((MESSAGE_PAYLOAD, short_message))
    }
}

/// Whether a body is given twice: as such, and as `message_payload`.
pub open spec fn is_ambiguous(tlvs: Seq<(u16, Seq<u8>)>, short_message: Seq<u8>) -> bool {
    short_message.len() > 0 && tlv::first_value(tlvs, MESSAGE_PAYLOAD) is Some
}

/// Fold a helper's `short_message=` into the `message_payload` optional
/// parameter. A `data_sm` has no `short_message` field at all — its body exists
/// only as that TLV — so this is the only way one carries a message.
///
/// Supplying both a body and an explicit `MESSAGE_PAYLOAD` is rejected: the
/// intent is ambiguous, and silently picking one is how a message goes missing.
pub fn fold_message_payload(command: &str, short_message: Vec<u8>, tlvs: &mut Vec<Tlv>) -> (r:
    Result<(), ScriptError>)
    ensures
        match r {
            Ok(_) => {
                &&& !is_ambiguous(tlv::views(old(tlvs)@), short_message@)
                &&& tlv::views(final(tlvs)@) == folded(tlv::views(old(tlvs)@), short_message@)
            },
            Err(e) => {
                &&& is_ambiguous(tlv::views(old(tlvs)@), short_message@)
                &&& e@ == Fault::Value(given_twice(command@))
                &&& final(tlvs)@ == old(tlvs)@
            },
        },
{
    if short_message.len() == 0 {
        return Ok(());
    }
    if tlv::get_tlv(tlvs, MESSAGE_PAYLOAD).is_some() {
        let mut m: String = String::new();
        m.append(command);
        m.append(
            ": pass the body either as short_message= or as tlvs={\"MESSAGE_PAYLOAD\": …}, not both",
        );
        assert(m@ =~= given_twice(command@));
        return Err(ScriptError::Value(m));
    }
    let ghost was = tlvs@;
    let ghost body = short_message@;
    tlvs.push(Tlv { tag: MESSAGE_PAYLOAD, value: short_message });
    assert(tlv::views(tlvs@) =~= tlv::views(was).push((MESSAGE_PAYLOAD, body)));
    Ok(())
}

/// Build the `data_sm` both [`data_via`] and [`data_to`] put on the wire.
pub fn build_data_sm(
    service_type: String,
    source_addr_ton: u8,
    source_addr_npi: u8,
    source_addr: String,
    dest_addr_ton: u8,
    dest_addr_npi: u8,
    destination_addr: String,
    esm_class: u8,
    registered_delivery: u8,
    data_coding: u8,
    short_message: Vec<u8>,
    tlvs: Vec<Tlv>,
) -> (r: Result<DataSm, ScriptError>)
    ensures
        match r {
            Ok(d) => {
                &&& !is_ambiguous(tlv::views(tlvs@), short_message@)
                &&& d.service_type == service_type
                &&& d.source_addr_ton == source_addr_ton
                &&& d.source_addr_npi == source_addr_npi
                &&& d.source_addr == source_addr
                &&& d.dest_addr_ton == dest_addr_ton
                &&& d.dest_addr_npi == dest_addr_npi
                &&& d.destination_addr == destination_addr
                &&& d.esm_class == esm_class
                &&& d.registered_delivery == registered_delivery
                &&& d.data_coding == data_coding
                &&& tlv::views(d.tlvs@) == folded(tlv::views(tlvs@), short_message@)
            },
            Err(e) => is_ambiguous(tlv::views(tlvs@), short_message@) && e@ == Fault::Value(
                given_twice("data_sm"@),
            ),
        },
{
    let mut tlvs: Vec<Tlv> = tlvs;
    match fold_message_payload("data_sm", short_message, &mut tlvs) {
        Ok(_) => {},
        Err(e) => {
            return Err(e);
        },
    }
    Ok(
        DataSm {
            service_type,
            source_addr_ton,
            source_addr_npi,
            source_addr,
            dest_addr_ton,
            dest_addr_npi,
            destination_addr,
            esm_class,
            registered_delivery,
            data_coding,
            tlvs,
        },
    )
}

// ── The wire image of a data_sm ──────────────────────────────────────────

/// A text as a C-octet-string.
pub open spec fn c_octets(s: Seq<char>) -> Seq<u8> {
    encode_utf8(s).push(0)
}

/// Optional parameters on the wire, one behind the other.
pub open spec fn tlvs_wire(tlvs: Seq<(u16, Seq<u8>)>) -> Seq<u8>
    decreases tlvs.len(),
{
    if tlvs.len() == 0 {
        Seq::empty()
    } else {
        tlvs_wire(tlvs.drop_last()) + tlv::tlv_wire(tlvs.last())
    }
}

/// The parameters of a `data_sm` in wire order.
pub open spec fn data_sm_body(d: DataSm) -> Seq<u8> {
    c_octets(d.service_type@) + seq![d.source_addr_ton, d.source_addr_npi] + c_octets(
        d.source_addr@,
    ) + seq![d.dest_addr_ton, d.dest_addr_npi] + c_octets(d.destination_addr@)
        + seq![d.esm_class, d.registered_delivery, d.data_coding] + tlvs_wire(tlv::views(d.tlvs@))
}

/// A `data_sm` on the wire: the header — length, command id, status, sequence
/// number — and the parameters.
pub open spec fn data_sm_wire(d: DataSm, sequence_number: u32) -> Seq<u8> {
    tlv::big_endian(16 + data_sm_body(d).len(), 4) + tlv::big_endian(0x103, 4) + tlv::big_endian(
        0,
        4,
    ) + tlv::big_endian(sequence_number as nat, 4) + data_sm_body(d)
}

/// smpp34's `data_sm::new`, `data_sm::with_tlvs` and `data_sm::encode`: the PDU
/// with these parameters on the wire. Its length field has four octets, so a
/// longer PDU is left out.
#[verifier::external_body]
fn codec_data_sm(d: DataSm, sequence_number: u32) -> (r: Vec<u8>)
    requires
        16 + data_sm_body(d).len() <= u32::MAX,
    ensures
        r@ == data_sm_wire(d, sequence_number),
{
    smpp34::data_sm::new(
        sequence_number,
        d.service_type,
        d.source_addr_ton,
        d.source_addr_npi,
        d.source_addr,
        d.dest_addr_ton,
        d.dest_addr_npi,
        d.destination_addr,
        d.esm_class,
        d.registered_delivery,
        d.data_coding,
    ).with_tlvs(d.tlvs.into_iter().map(|t| smpp34::Tlv::new(t.tag, t.value))).encode()
}

impl DataSm {
    /// The PDU on the wire. The session that sends it assigns the sequence
    /// number.
    pub fn encode(self, sequence_number: u32) -> (r: Vec<u8>)
        requires
            16 + data_sm_body(self).len() <= u32::MAX,
        ensures
            r@ == data_sm_wire(self, sequence_number),
    {
        codec_data_sm(self, sequence_number)
    }
}

// ── Responses ────────────────────────────────────────────────────────────

/// Response returned by the send helpers.
///
/// `command_status` is the name of the peer's status: "ESME_ROK" on success,
/// another where the peer answered with a refusal. `message_id` is the
/// SMSC-assigned id when the operation returns one (`submit_sm`,
/// `submit_sm_multi`, `data_sm`); empty otherwise.
#[derive(Debug, Clone)]
pub struct SmppResp {
    pub command_status: String,
    pub message_id: String,
}

/// Response returned by [`query_via`] — the result of a `query_sm`.
///
/// `message_state` is the SMPP message-state code (1=ENROUTE, 2=DELIVERED,
/// 3=EXPIRED, 4=DELETED, 5=UNDELIVERABLE, 6=ACCEPTED, 7=UNKNOWN, 8=REJECTED).
/// `final_date` is the SMPP-format absolute time (empty if not final);
/// `error_code` the network error code.
#[derive(Debug, Clone)]
pub struct QueryResp {
    pub command_status: String,
    pub message_id: String,
    pub message_state: u8,
    pub final_date: String,
    pub error_code: u8,
}

/// What a peer answers to a message: its status, and the message id where it
/// assigns one.
#[derive(Debug)]
pub struct PeerAnswer {
    pub command_status: SmppStatus,
    pub message_id: Option<String>,
}

/// What a peer answers to a `query_sm`.
#[derive(Debug)]
pub struct QueryAnswer {
    pub command_status: SmppStatus,
    pub message_id: String,
    pub message_state: u8,
    pub final_date: String,
    pub error_code: u8,
}

impl SmppResp {
    /// Whether the peer accepted.
    pub fn ok(&self) -> (r: bool)
        ensures
            r == (self.command_status@ == "ESME_ROK"@),
    {
        text::same(self.command_status.as_str(), "ESME_ROK")
    }

    /// A response of success.
    pub fn ok_with(message_id: String) -> (r: SmppResp)
        ensures
            r.command_status@ == "ESME_ROK"@,
            r.message_id == message_id,
    {
        SmppResp { command_status: "ESME_ROK".to_owned(), message_id }
    }

    /// How the response shows in a log.
    pub fn repr(&self) -> (out: String)
        ensures
            out@ == "SmppResp(command_status="@ + text::quoted(self.command_status@)
                + ", message_id="@ + text::quoted(self.message_id@) + ")"@,
    {
        let mut out: String = String::new();
        out.append("SmppResp(command_status=");
        out.append(text::to_quoted(self.command_status.as_str()).as_str());
        out.append(", message_id=");
        out.append(text::to_quoted(self.message_id.as_str()).as_str());
        out.append(")");
        assert(out@ =~= "SmppResp(command_status="@ + text::quoted(self.command_status@)
            + ", message_id="@ + text::quoted(self.message_id@) + ")"@);
        out
    }
}

impl QueryResp {
    /// Whether the peer accepted.
    pub fn ok(&self) -> (r: bool)
        ensures
            r == (self.command_status@ == "ESME_ROK"@),
    {
        text::same(self.command_status.as_str(), "ESME_ROK")
    }

    /// How the response shows in a log.
    pub fn repr(&self) -> (out: String)
        ensures
            out@ == "QueryResp(command_status="@ + text::quoted(self.command_status@)
                + ", message_id="@ + text::quoted(self.message_id@) + ", message_state="@
                + numbers::decimal(self.message_state as nat) + ", final_date="@ + text::quoted(
                self.final_date@,
            ) + ", error_code="@ + numbers::decimal(self.error_code as nat) + ")"@,
    {
        let mut out: String = String::new();
        out.append("QueryResp(command_status=");
        out.append(text::to_quoted(self.command_status.as_str()).as_str());
        out.append(", message_id=");
        out.append(text::to_quoted(self.message_id.as_str()).as_str());
        out.append(", message_state=");
        out.append(numbers::decimal_text(self.message_state as u64).as_str());
        out.append(", final_date=");
        out.append(text::to_quoted(self.final_date.as_str()).as_str());
        out.append(", error_code=");
        out.append(numbers::decimal_text(self.error_code as u64).as_str());
        out.append(")");
        assert(out@ =~= "QueryResp(command_status="@ + text::quoted(self.command_status@)
            + ", message_id="@ + text::quoted(self.message_id@) + ", message_state="@
            + numbers::decimal(self.message_state as nat) + ", final_date="@ + text::quoted(
            self.final_date@,
        ) + ", error_code="@ + numbers::decimal(self.error_code as nat) + ")"@);
        out
    }
}

// ── What goes out ────────────────────────────────────────────────────────

/// What is said while the SMPP task is not running.
pub open spec fn not_started() -> Seq<char> {
    "siphon-smpp runtime not started — the SMPP task is not registered"@
}

/// Refuses a call while the SMPP task is not running.
pub fn require_state(started: bool) -> (r: Result<(), ScriptError>)
    ensures
        match r {
            Ok(_) => started,
            Err(e) => !started && e@ == Fault::Runtime(not_started()),
        },
{
    if started {
        Ok(())
    } else {
        Err(
            ScriptError::Runtime(
                "siphon-smpp runtime not started — the SMPP task is not registered".to_owned(),
            ),
        )
    }
}

/// The optional parameters of a call.
pub open spec fn call_tlvs(tlvs: Option<&Vec<(TlvKey, TlvValue)>>) -> Result<
    Seq<(u16, Seq<u8>)>,
    Fault,
> {
    match tlvs {
        Some(items) => tlv::dict_tlvs(items@),
        None => Ok(Seq::empty()),
    }
}

/// What is wrong with a call that sends a `short_message` of `len` octets and
/// optional parameters as `command`, if anything: first that nothing is running,
/// then the length, then the parameters.
pub open spec fn message_fault(
    started: bool,
    command: Seq<char>,
    len: nat,
    tlvs: Option<&Vec<(TlvKey, TlvValue)>>,
) -> Option<Fault> {
    if !started {
        Some(Fault::Runtime(not_started()))
    } else if len > SHORT_MESSAGE_MAX {
        Some(Fault::Value(too_long(command, len, true)))
    } else {
        match call_tlvs(tlvs) {
            Ok(_) => None,
            Err(f) => Some(f),
        }
    }
}

/// The optional parameters of a call that sends a `short_message`.
fn checked_tlvs(
    started: bool,
    command: &str,
    len: usize,
    tlvs: Option<&Vec<(TlvKey, TlvValue)>>,
) -> (r: Result<Vec<Tlv>, ScriptError>)
    ensures
        match r {
            Ok(out) => message_fault(started, command@, len as nat, tlvs) is None && call_tlvs(tlvs)
                == Ok::<Seq<(u16, Seq<u8>)>, Fault>(tlv::views(out@)),
            Err(e) => message_fault(started, command@, len as nat, tlvs) == Some(e@),
        },
{
    match require_state(started) {
        Ok(_) => {},
        Err(e) => {
            return Err(e);
        },
    }
    match check_short_message(command, len, true) {
        Ok(_) => {},
        Err(e) => {
            return Err(e);
        },
    }
    let r: Result<Vec<Tlv>, ScriptError> = tlv::tlvs_from_py(tlvs);
    assert(tlvs is None ==> (r matches Ok(out) && tlv::views(out@) =~= Seq::empty()));
    r
}

/// Whether `out` is `sm` ready to be sent: with its length and with these
/// optional parameters.
pub open spec fn is_ready(out: Sm, sm: Sm, tlvs: Seq<(u16, Seq<u8>)>) -> bool {
    &&& out == Sm { sm_length: sm.short_message@.len() as u8, tlvs: out.tlvs, ..sm }
    &&& tlv::views(out.tlvs@) == tlvs
}

fn ready(
    started: bool,
    command: &str,
    sm: Sm,
    tlvs: Option<&Vec<(TlvKey, TlvValue)>>,
) -> (r: Result<Sm, ScriptError>)
    ensures
        match r {
            Ok(out) => {
                &&& message_fault(started, command@, sm.short_message@.len(), tlvs) is None
                &&& is_ready(out, sm, call_tlvs(tlvs)->Ok_0)
            },
            Err(e) => message_fault(started, command@, sm.short_message@.len(), tlvs) == Some(e@),
        },
{
    match checked_tlvs(started, command, sm.short_message.len(), tlvs) {
        Ok(parameters) => {
            let mut out: Sm = sm;
            out.sm_length = out.short_message.len() as u8;
            out.tlvs = parameters;
            Ok(out)
        },
        Err(e) => Err(e),
    }
}

/// The `submit_sm` that a call of `submit_via` sends.
pub fn submit_via(started: bool, sm: Sm, tlvs: Option<&Vec<(TlvKey, TlvValue)>>) -> (r: Result<
    Sm,
    ScriptError,
>)
    ensures
        match r {
            Ok(out) => {
                &&& message_fault(started, "submit_sm"@, sm.short_message@.len(), tlvs) is None
                &&& is_ready(out, sm, call_tlvs(tlvs)->Ok_0)
                &&& out.service_type == sm.service_type
                &&& out.source_addr_ton == sm.source_addr_ton
                &&& out.source_addr_npi == sm.source_addr_npi
                &&& out.source_addr == sm.source_addr
                &&& out.dest_addr_ton == sm.dest_addr_ton
                &&& out.dest_addr_npi == sm.dest_addr_npi
                &&& out.destination_addr == sm.destination_addr
                &&& out.esm_class == sm.esm_class
                &&& out.protocol_id == sm.protocol_id
                &&& out.priority_flag == sm.priority_flag
                &&& out.schedule_delivery_time == sm.schedule_delivery_time
                &&& out.validity_period == sm.validity_period
                &&& out.registered_delivery == sm.registered_delivery
                &&& out.replace_if_present_flag == sm.replace_if_present_flag
                &&& out.data_coding == sm.data_coding
                &&& out.sm_default_msg_id == sm.sm_default_msg_id
                &&& out.short_message == sm.short_message
                &&& out.sm_length == sm.short_message@.len()
                &&& tlv::views(out.tlvs@) == call_tlvs(tlvs)->Ok_0
            },
            Err(e) => message_fault(started, "submit_sm"@, sm.short_message@.len(), tlvs) == Some(
                e@,
            ),
        },
{
    ready(started, "submit_sm", sm, tlvs)
}

/// The `deliver_sm` that a call of `deliver_to` sends.
pub fn deliver_to(started: bool, sm: Sm, tlvs: Option<&Vec<(TlvKey, TlvValue)>>) -> (r: Result<
    Sm,
    ScriptError,
>)
    ensures
        match r {
            Ok(out) => {
                &&& message_fault(started, "deliver_sm"@, sm.short_message@.len(), tlvs) is None
                &&& is_ready(out, sm, call_tlvs(tlvs)->Ok_0)
                &&& out.service_type == sm.service_type
                &&& out.source_addr_ton == sm.source_addr_ton
                &&& out.source_addr_npi == sm.source_addr_npi
                &&& out.source_addr == sm.source_addr
                &&& out.dest_addr_ton == sm.dest_addr_ton
                &&& out.dest_addr_npi == sm.dest_addr_npi
                &&& out.destination_addr == sm.destination_addr
                &&& out.esm_class == sm.esm_class
                &&& out.protocol_id == sm.protocol_id
                &&& out.priority_flag == sm.priority_flag
                &&& out.schedule_delivery_time == sm.schedule_delivery_time
                &&& out.validity_period == sm.validity_period
                &&& out.registered_delivery == sm.registered_delivery
                &&& out.replace_if_present_flag == sm.replace_if_present_flag
                &&& out.data_coding == sm.data_coding
                &&& out.sm_default_msg_id == sm.sm_default_msg_id
                &&& out.short_message == sm.short_message
                &&& out.sm_length == sm.short_message@.len()
                &&& tlv::views(out.tlvs@) == call_tlvs(tlvs)->Ok_0
            },
            Err(e) => message_fault(started, "deliver_sm"@, sm.short_message@.len(), tlvs) == Some(
                e@,
            ),
        },
{
    ready(started, "deliver_sm", sm, tlvs)
}

/// What is said of too many destinations.
pub open spec fn too_many(n: nat) -> Seq<char> {
    "submit_sm_multi addresses "@ + numbers::decimal(n)
        + " destinations, over the SMPP 3.4 limit of 254"@
}

/// What is wrong with a call of `submit_multi_via`, if anything: what is wrong
/// with the message, then the number of destinations.
pub open spec fn multi_fault(
    started: bool,
    len: nat,
    tlvs: Option<&Vec<(TlvKey, TlvValue)>>,
    destinations: nat,
) -> Option<Fault> {
    match message_fault(started, "submit_sm_multi"@, len, tlvs) {
        Some(f) => Some(f),
        None => if destinations > 254 {
            Some(Fault::Value(too_many(destinations)))
        } else {
            None
        },
    }
}

/// Whether `d` is the SME `address` with the type of number and the numbering
/// plan of the call.
pub open spec fn is_sme(d: DestAddress, address: String, ton: u8, npi: u8) -> bool {
    d == DestAddress::Sme { dest_addr_ton: ton, dest_addr_npi: npi, destination_addr: address }
}

/// The `submit_sm_multi` that a call of `submit_multi_via` sends: `sm` to each of
/// `destinations`, which are SME addresses with the type of number and the
/// numbering plan of `sm`. Its own destination address is not used.
pub fn submit_multi_via(
    started: bool,
    sm: Sm,
    destinations: Vec<String>,
    tlvs: Option<&Vec<(TlvKey, TlvValue)>>,
) -> (r: Result<SubmitMulti, ScriptError>)
    ensures
        match r {
            Ok(out) => {
                &&& multi_fault(started, sm.short_message@.len(), tlvs, destinations@.len()) is None
                &&& out.service_type == sm.service_type
                &&& out.source_addr_ton == sm.source_addr_ton
                &&& out.source_addr_npi == sm.source_addr_npi
                &&& out.source_addr == sm.source_addr
                &&& out.dest_addresses@.len() == destinations@.len()
                &&& forall|i: int|
                    0 <= i < destinations@.len() ==> is_sme(
                        #[trigger] out.dest_addresses@[i],
                        destinations@[i],
                        sm.dest_addr_ton,
                        sm.dest_addr_npi,
                    )
                &&& out.esm_class == sm.esm_class
                &&& out.protocol_id == sm.protocol_id
                &&& out.priority_flag == sm.priority_flag
                &&& out.schedule_delivery_time == sm.schedule_delivery_time
                &&& out.validity_period == sm.validity_period
                &&& out.registered_delivery == sm.registered_delivery
                &&& out.replace_if_present_flag == sm.replace_if_present_flag
                &&& out.data_coding == sm.data_coding
                &&& out.sm_default_msg_id == sm.sm_default_msg_id
                &&& out.sm_length == sm.short_message@.len()
                &&& out.short_message == sm.short_message
                &&& tlv::views(out.tlvs@) == call_tlvs(tlvs)->Ok_0
            },
            Err(e) => multi_fault(started, sm.short_message@.len(), tlvs, destinations@.len())
                == Some(e@),
        },
{
    let parameters: Vec<Tlv> = match checked_tlvs(
        started,
        "submit_sm_multi",
        sm.short_message.len(),
        tlvs,
    ) {
        Ok(parameters) => parameters,
        Err(e) => {
            return Err(e);
        },
    };
    let n: usize = destinations.len();
    if n > 254 {
        let mut m: String = String::new();
        m.append("submit_sm_multi addresses ");
        m.append(numbers::decimal_text(n as u64).as_str());
        m.append(" destinations, over the SMPP 3.4 limit of 254");
        assert(m@ =~= too_many(n as nat));
        return Err(ScriptError::Value(m));
    }
    let mut dest_addresses: Vec<DestAddress> = Vec::new();
    let mut i: usize = 0;
    while i < n
        invariant
            i <= n,
            n == destinations@.len(),
            dest_addresses@.len() == i,
            forall|j: int|
                0 <= j < i ==> is_sme(
                    #[trigger] dest_addresses@[j],
                    destinations@[j],
                    sm.dest_addr_ton,
                    sm.dest_addr_npi,
                ),
        decreases n - i,
    {
        dest_addresses.push(
            DestAddress::Sme {
                dest_addr_ton: sm.dest_addr_ton,
                dest_addr_npi: sm.dest_addr_npi,
                destination_addr: destinations[i].clone(),
            },
        );
        i = i + 1;
    }
    Ok(
        SubmitMulti {
            service_type: sm.service_type,
            source_addr_ton: sm.source_addr_ton,
            source_addr_npi: sm.source_addr_npi,
            source_addr: sm.source_addr,
            dest_addresses,
            esm_class: sm.esm_class,
            protocol_id: sm.protocol_id,
            priority_flag: sm.priority_flag,
            schedule_delivery_time: sm.schedule_delivery_time,
            validity_period: sm.validity_period,
            registered_delivery: sm.registered_delivery,
            replace_if_present_flag: sm.replace_if_present_flag,
            data_coding: sm.data_coding,
            sm_default_msg_id: sm.sm_default_msg_id,
            sm_length: sm.short_message.len() as u8,
            short_message: sm.short_message,
            tlvs: parameters,
        },
    )
}

/// What is wrong with a call that sends a `data_sm`, if anything: first that
/// nothing is running, then the parameters, then a body that is given twice. Its
/// length is no matter.
pub open spec fn data_fault(
    started: bool,
    short_message: Seq<u8>,
    tlvs: Option<&Vec<(TlvKey, TlvValue)>>,
) -> Option<Fault> {
    if !started {
        Some(Fault::Runtime(not_started()))
    } else {
        match call_tlvs(tlvs) {
            Err(f) => Some(f),
            Ok(list) => if is_ambiguous(list, short_message) {
                Some(Fault::Value(given_twice("data_sm"@)))
            } else {
                None
            },
        }
    }
}

/// Whether `out` is `d` with these parameters in place of its own.
pub open spec fn is_data_with(out: DataSm, d: DataSm, tlvs: Seq<(u16, Seq<u8>)>) -> bool {
    &&& out == DataSm { tlvs: out.tlvs, ..d }
    &&& tlv::views(out.tlvs@) == tlvs
}

/// The `data_sm` that a call of `data_via` sends. `data_sm` is the TLV-based
/// alternative to `submit_sm`: it has **no `short_message` field**, so
/// `short_message=` is carried in the `message_payload` optional parameter,
/// which is also what lets it exceed the 254-byte `submit_sm` limit.
pub fn data_via(
    started: bool,
    d: DataSm,
    short_message: Vec<u8>,
    tlvs: Option<&Vec<(TlvKey, TlvValue)>>,
) -> (r: Result<DataSm, ScriptError>)
    ensures
        match r {
            Ok(out) => {
                &&& data_fault(started, short_message@, tlvs) is None
                &&& is_data_with(out, d, folded(call_tlvs(tlvs)->Ok_0, short_message@))
                &&& out.service_type == d.service_type
                &&& out.source_addr_ton == d.source_addr_ton
                &&& out.source_addr_npi == d.source_addr_npi
                &&& out.source_addr == d.source_addr
                &&& out.dest_addr_ton == d.dest_addr_ton
                &&& out.dest_addr_npi == d.dest_addr_npi
                &&& out.destination_addr == d.destination_addr
                &&& out.esm_class == d.esm_class
                &&& out.registered_delivery == d.registered_delivery
                &&& out.data_coding == d.data_coding
            },
            Err(e) => data_fault(started, short_message@, tlvs) == Some(e@),
        },
{
    match require_state(started) {
        Ok(_) => {},
        Err(e) => {
            return Err(e);
        },
    }
    let parameters: Vec<Tlv> = match tlv::tlvs_from_py(tlvs) {
        Ok(parameters) => parameters,
        Err(e) => {
            return Err(e);
        },
    };
    assert(tlvs is None ==> tlv::views(parameters@) =~= Seq::empty());
    build_data_sm(
        d.service_type,
        d.source_addr_ton,
        d.source_addr_npi,
        d.source_addr,
        d.dest_addr_ton,
        d.dest_addr_npi,
        d.destination_addr,
        d.esm_class,
        d.registered_delivery,
        d.data_coding,
        short_message,
        parameters,
    )
}

/// The `data_sm` that a call of `data_to` sends. As with [`data_via`],
/// `short_message=` travels in the `message_payload` optional parameter.
pub fn data_to(
    started: bool,
    d: DataSm,
    short_message: Vec<u8>,
    tlvs: Option<&Vec<(TlvKey, TlvValue)>>,
) -> (r: Result<DataSm, ScriptError>)
    ensures
        match r {
            Ok(out) => {
                &&& data_fault(started, short_message@, tlvs) is None
                &&& is_data_with(out, d, folded(call_tlvs(tlvs)->Ok_0, short_message@))
                &&& out.service_type == d.service_type
                &&& out.source_addr_ton == d.source_addr_ton
                &&& out.source_addr_npi == d.source_addr_npi
                &&& out.source_addr == d.source_addr
                &&& out.dest_addr_ton == d.dest_addr_ton
                &&& out.dest_addr_npi == d.dest_addr_npi
                &&& out.destination_addr == d.destination_addr
                &&& out.esm_class == d.esm_class
                &&& out.registered_delivery == d.registered_delivery
                &&& out.data_coding == d.data_coding
            },
            Err(e) => data_fault(started, short_message@, tlvs) == Some(e@),
        },
{
    data_via(started, d, short_message, tlvs)
}

/// The `cancel_sm` that a call of `cancel_via` sends.
pub fn cancel_via(started: bool, c: CancelSm) -> (r: Result<CancelSm, ScriptError>)
    ensures
        match r {
            Ok(out) => started && out == c,
            Err(e) => !started && e@ == Fault::Runtime(not_started()),
        },
{
    match require_state(started) {
        Ok(_) => Ok(c),
        Err(e) => Err(e),
    }
}

/// The `query_sm` that a call of `query_via` sends.
pub fn query_via(started: bool, q: QuerySm) -> (r: Result<QuerySm, ScriptError>)
    ensures
        match r {
            Ok(out) => started && out == q,
            Err(e) => !started && e@ == Fault::Runtime(not_started()),
        },
{
    match require_state(started) {
        Ok(_) => Ok(q),
        Err(e) => Err(e),
    }
}

/// The `replace_sm` that a call of `replace_via` sends. It has no optional
/// parameters in 3.4, so there is no `message_payload` to fall back on — the
/// body has to fit.
pub fn replace_via(started: bool, s: ReplaceSm) -> (r: Result<ReplaceSm, ScriptError>)
    ensures
        match r {
            Ok(out) => {
                &&& started
                &&& s.short_message@.len() <= SHORT_MESSAGE_MAX
                &&& out == ReplaceSm { sm_length: s.short_message@.len() as u8, ..s }
            },
            Err(e) => if !started {
                e@ == Fault::Runtime(not_started())
            } else {
                &&& s.short_message@.len() > SHORT_MESSAGE_MAX
                &&& e@ == Fault::Value(
                    too_long("replace_sm"@, s.short_message@.len(), false),
                )
            },
        },
{
    match require_state(started) {
        Ok(_) => {},
        Err(e) => {
            return Err(e);
        },
    }
    match check_short_message("replace_sm", s.short_message.len(), false) {
        Ok(_) => {},
        Err(e) => {
            return Err(e);
        },
    }
    let mut out: ReplaceSm = s;
    out.sm_length = out.short_message.len() as u8;
    Ok(out)
}

/// The `alert_notification` that a call of `alert_to` sends.
pub fn alert_to(started: bool, a: AlertPdu) -> (r: Result<AlertPdu, ScriptError>)
    ensures
        match r {
            Ok(out) => started && out == a,
            Err(e) => !started && e@ == Fault::Runtime(not_started()),
        },
{
    match require_state(started) {
        Ok(_) => Ok(a),
        Err(e) => Err(e),
    }
}

/// Refuses `command` to a session that cannot receive.
pub fn require_receiver(session_id: &str, can_receive: bool, command: &str) -> (r: Result<
    (),
    ScriptError,
>)
    ensures
        match r {
            Ok(_) => can_receive,
            Err(e) => !can_receive && e@ == Fault::Runtime(
                "esme session "@ + text::quoted(session_id@) + " is not RX/TRX — cannot "@
                    + command@,
            ),
        },
{
    if can_receive {
        return Ok(());
    }
    let mut m: String = String::new();
    m.append("esme session ");
    m.append(text::to_quoted(session_id).as_str());
    m.append(" is not RX/TRX — cannot ");
    m.append(command);
    assert(m@ =~= "esme session "@ + text::quoted(session_id@) + " is not RX/TRX — cannot "@
        + command@);
    Err(ScriptError::Runtime(m))
}

// ── What comes of it ─────────────────────────────────────────────────────

/// What is said of a send on a bind that the peer refused.
pub open spec fn bind_failure(bind: Seq<char>, command: Seq<char>, status: SmppStatus) -> Seq<
    char,
> {
    "bind "@ + text::quoted(bind) + " "@ + command + " failed: "@ + status.spelling()
}

fn bind_failed(bind: &str, command: &str, status: SmppStatus) -> (e: ScriptError)
    ensures
        e@ == Fault::Runtime(bind_failure(bind@, command@, status)),
{
    let mut m: String = String::new();
    m.append("bind ");
    m.append(text::to_quoted(bind).as_str());
    m.append(" ");
    m.append(command);
    m.append(" failed: ");
    m.append(status.name());
    assert(m@ =~= bind_failure(bind@, command@, status));
    ScriptError::Runtime(m)
}

/// What a script gets for a message submitted on a bind: the status that the
/// peer answered with, and the id that it assigned, or an empty one where it
/// assigned none. A send that was not answered fails.
pub fn submitted(bind: &str, command: &str, answer: Result<PeerAnswer, SmppStatus>) -> (r: Result<
    SmppResp,
    ScriptError,
>)
    ensures
        match answer {
            Ok(a) => r matches Ok(resp) && resp.command_status@ == a.command_status.spelling()
                && resp.message_id@ == match a.message_id {
                Some(id) => id@,
                None => Seq::empty(),
            },
            Err(status) => r matches Err(e) && e@ == Fault::Runtime(
                bind_failure(bind@, command@, status),
            ),
        },
{
    match answer {
        Ok(a) => Ok(
            SmppResp {
                command_status: a.command_status.name().to_owned(),
                message_id: match a.message_id {
                    Some(id) => id,
                    None => String::new(),
                },
            },
        ),
        Err(status) => Err(bind_failed(bind, command, status)),
    }
}

/// What a script gets for another command sent on a bind: the status that the
/// peer answered with.
pub fn acknowledged(bind: &str, command: &str, answer: Result<SmppStatus, SmppStatus>) -> (r:
    Result<SmppResp, ScriptError>)
    ensures
        match answer {
            Ok(status) => r matches Ok(resp) && resp.command_status@ == status.spelling()
                && resp.message_id@.len() == 0,
            Err(status) => r matches Err(e) && e@ == Fault::Runtime(
                bind_failure(bind@, command@, status),
            ),
        },
{
    match answer {
        Ok(status) => Ok(
            SmppResp { command_status: status.name().to_owned(), message_id: String::new() },
        ),
        Err(status) => Err(bind_failed(bind, command, status)),
    }
}

/// What a script gets for a query sent on a bind.
pub fn queried(bind: &str, answer: Result<QueryAnswer, SmppStatus>) -> (r: Result<
    QueryResp,
    ScriptError,
>)
    ensures
        match answer {
            Ok(a) => {
                &&& r matches Ok(resp)
                &&& resp.command_status@ == a.command_status.spelling()
                &&& resp.message_id == a.message_id
                &&& resp.message_state == a.message_state
                &&& resp.final_date == a.final_date
                &&& resp.error_code == a.error_code
            },
            Err(status) => r matches Err(e) && e@ == Fault::Runtime(
                bind_failure(bind@, "query_sm"@, status),
            ),
        },
{
    match answer {
        Ok(a) => Ok(
            QueryResp {
                command_status: a.command_status.name().to_owned(),
                message_id: a.message_id,
                message_state: a.message_state,
                final_date: a.final_date,
                error_code: a.error_code,
            },
        ),
        Err(status) => Err(bind_failed(bind, "query_sm", status)),
    }
}

/// What a script gets for a message sent to a session: the status that the peer
/// answered with.
pub fn delivered(session_id: &str, command: &str, answer: Result<SmppStatus, SmppStatus>) -> (r:
    Result<SmppResp, ScriptError>)
    ensures
        match answer {
            Ok(status) => r matches Ok(resp) && resp.command_status@ == status.spelling()
                && resp.message_id@.len() == 0,
            Err(status) => r matches Err(e) && e@ == Fault::Runtime(
                command@ + " to session "@ + text::quoted(session_id@) + " failed: "@
                    + status.spelling(),
            ),
        },
{
    match answer {
        Ok(status) => Ok(
            SmppResp { command_status: status.name().to_owned(), message_id: String::new() },
        ),
        Err(status) => {
            let mut m: String = String::new();
            m.append(command);
            m.append(" to session ");
            m.append(text::to_quoted(session_id).as_str());
            m.append(" failed: ");
            m.append(status.name());
            assert(m@ =~= command@ + " to session "@ + text::quoted(session_id@) + " failed: "@
                + status.spelling());
            Err(ScriptError::Runtime(m))
        },
    }
}

/// The first NUL octet from `from` on.
pub open spec fn nul_from(octets: Seq<u8>, from: int) -> Option<int>
    decreases octets.len() - from,
{
    if from < 0 || from >= octets.len() {
        None
    } else if octets[from] == 0 {
        Some(from)
    } else {
        nul_from(octets, from + 1)
    }
}

/// The message id that a `data_sm_resp` on the wire carries: the C-octet
/// string behind the header, where the status in the header is 0. A refusal
/// carries none.
pub open spec fn data_sm_resp_id(resp: Seq<u8>) -> Option<Seq<char>> {
    if resp.len() < 16 || resp[8] != 0 || resp[9] != 0 || resp[10] != 0 || resp[11] != 0 {
        None
    } else {
        match nul_from(resp, 16) {
            Some(end) => Some(text::lossy_text(resp.subrange(16, end))),
            None => None,
        }
    }
}

/// The message id that a `data_sm_resp` on the wire carries.
pub fn message_id_of_data_sm_resp(resp: &Vec<u8>) -> (r: Option<String>)
    ensures
        match r {
            Some(id) => data_sm_resp_id(resp@) == Some(id@),
            None => data_sm_resp_id(resp@) is None,
        },
{
    let n: usize = resp.len();
    if n < 16 || resp[8] != 0 || resp[9] != 0 || resp[10] != 0 || resp[11] != 0 {
        return None;
    }
    let mut id: Vec<u8> = Vec::new();
    let mut i: usize = 16;
    while i < n
        invariant
            n == resp@.len(),
            16 <= i <= n,
            resp@[8] == 0 && resp@[9] == 0 && resp@[10] == 0 && resp@[11] == 0,
            id@ == resp@.subrange(16, i as int),
            nul_from(resp@, 16) == nul_from(resp@, i as int),
        decreases n - i,
    {
        if resp[i] == 0 {
            return Some(text::from_utf8_lossy(id.as_slice()));
        }
        id.push(resp[i]);
        assert(resp@.subrange(16, i + 1) =~= resp@.subrange(16, i as int).push(resp@[i as int]));
        i = i + 1;
    }
    None
}

// ── What is promised of a response ───────────────────────────────────────

/// A refusal by the peer is told from a success: the status that a response
/// names is `ESME_ROK` where the peer answered `ESME_ROK`, and nowhere else.
pub proof fn a_refusal_is_not_ok(status: SmppStatus)
    ensures
        status.spelling() == "ESME_ROK"@ <==> status == SmppStatus::ESME_ROK,
{
    if status.spelling() == "ESME_ROK"@ {
        crate::status::names_are_distinct(status, SmppStatus::ESME_ROK);
    }
}

// ── What is promised of a data_sm ────────────────────────────────────────

/// A parameter behind others is found where none of the others has its tag.
proof fn pushed_is_found(tlvs: Seq<(u16, Seq<u8>)>, tag: u16, value: Seq<u8>)
    requires
        tlv::first_value(tlvs, tag) is None,
    ensures
        tlv::first_value(tlvs.push((tag, value)), tag) == Some(value),
    decreases tlvs.len(),
{
    let more = tlvs.push((tag, value));
    if tlvs.len() > 0 {
        assert(more.skip(1) =~= tlvs.skip(1).push((tag, value)));
        pushed_is_found(tlvs.skip(1), tag, value);
    }
}

/// The body that goes into a `data_sm` is the body that a handler reads out of
/// it: the given one, or else the explicit `message_payload`, or else nothing.
/// No `short_message` is invented.
pub proof fn a_data_sm_carries_its_body(
    sent: DataSm,
    seen: pdu::Pdu,
    tlvs: Seq<(u16, Seq<u8>)>,
    short_message: Seq<u8>,
)
    requires
        !is_ambiguous(tlvs, short_message),
        tlv::views(sent.tlvs@) == folded(tlvs, short_message),
        tlv::views(seen.tlvs@) == tlv::views(sent.tlvs@),
        seen.short_message@.len() == 0,
    ensures
        seen.message() == if short_message.len() > 0 {
            short_message
        } else {
            match tlv::first_value(tlvs, MESSAGE_PAYLOAD) {
                Some(v) => v,
                None => Seq::empty(),
            }
        },
{
    if short_message.len() > 0 {
        pushed_is_found(tlvs, MESSAGE_PAYLOAD, short_message);
    } else {
        assert(seen.short_message@ =~= Seq::empty());
    }
}

/// Folding a body in adds one parameter at most and leaves the others as they
/// are.
pub proof fn folding_keeps_the_others(
    tlvs: Seq<(u16, Seq<u8>)>,
    short_message: Seq<u8>,
    tag: u16,
)
    requires
        !is_ambiguous(tlvs, short_message),
        tag != MESSAGE_PAYLOAD,
    ensures
        tlv::first_value(folded(tlvs, short_message), tag) == tlv::first_value(tlvs, tag),
        tlv::tags_are_distinct(tlvs) ==> tlv::tags_are_distinct(folded(tlvs, short_message)),
{
    if short_message.len() > 0 {
        other_is_kept(tlvs, MESSAGE_PAYLOAD, short_message, tag);
        if tlv::tags_are_distinct(tlvs) {
            let more = tlvs.push((MESSAGE_PAYLOAD, short_message));
            assert forall|i: int, j: int| 0 <= i < j < more.len() implies (#[trigger] more[i]).0 != (
            #[trigger] more[j]).0 by {
                none_has_the_tag(tlvs, MESSAGE_PAYLOAD, i);
            }
        }
    }
}

proof fn other_is_kept(tlvs: Seq<(u16, Seq<u8>)>, tag: u16, value: Seq<u8>, other: u16)
    requires
        tag != other,
    ensures
        tlv::first_value(tlvs.push((tag, value)), other) == tlv::first_value(tlvs, other),
    decreases tlvs.len(),
{
    let more = tlvs.push((tag, value));
    if tlvs.len() > 0 {
        assert(more.skip(1) =~= tlvs.skip(1).push((tag, value)));
        other_is_kept(tlvs.skip(1), tag, value, other);
    } else {
        assert(more.skip(1) =~= tlvs);
        assert(tlv::first_value(more.skip(1), other) is None);
    }
}

proof fn none_has_the_tag(tlvs: Seq<(u16, Seq<u8>)>, tag: u16, i: int)
    requires
        tlv::first_value(tlvs, tag) is None,
        0 <= i < tlvs.len(),
    ensures
        tlvs[i].0 != tag,
    decreases tlvs.len(),
{
    if i > 0 {
        none_has_the_tag(tlvs.skip(1), tag, i - 1);
    }
}

// ── What is promised of what goes out ────────────────────────────────────

/// What a script sends is what a handler on the other side sees: every parameter
/// of the message is the argument of the call, the length is that of the body,
/// and the optional parameters are those of the call.
pub proof fn a_handler_sees_what_a_script_sends(
    sm: Sm,
    tlvs: Seq<(u16, Seq<u8>)>,
    out: Sm,
    seen: pdu::Pdu,
    command: Seq<char>,
)
    requires
        sm.short_message@.len() <= 254,
        is_ready(out, sm, tlvs),
        seen.shows_sm(out, command),
    ensures
        seen.command@ == command,
        seen.service_type == sm.service_type,
        seen.source_addr_ton == sm.source_addr_ton,
        seen.source_addr_npi == sm.source_addr_npi,
        seen.source_addr == sm.source_addr,
        seen.dest_addr_ton == sm.dest_addr_ton,
        seen.dest_addr_npi == sm.dest_addr_npi,
        seen.destination_addr == sm.destination_addr,
        seen.esm_class == sm.esm_class,
        seen.protocol_id == sm.protocol_id,
        seen.priority_flag == sm.priority_flag,
        seen.registered_delivery == sm.registered_delivery,
        seen.data_coding == sm.data_coding,
        seen.short_message@ == sm.short_message@,
        seen.sm_length == sm.short_message@.len(),
        tlv::views(seen.tlvs@) == tlvs,
        out.schedule_delivery_time == sm.schedule_delivery_time,
        out.validity_period == sm.validity_period,
        out.replace_if_present_flag == sm.replace_if_present_flag,
        out.sm_default_msg_id == sm.sm_default_msg_id,
{
}

/// The optional parameters of a call go out one for one, in the order of the
/// call: each under the tag of its key, with the octets of its value. A call
/// without any sends none.
pub proof fn parameters_go_out_one_for_one(items: &Vec<(TlvKey, TlvValue)>, i: int)
    requires
        call_tlvs(Some(items)) is Ok,
        0 <= i < items@.len(),
    ensures
        call_tlvs(Some(items))->Ok_0.len() == items@.len(),
        tlv::key_tag(items@[i].0) == Ok::<u16, Fault>(call_tlvs(Some(items))->Ok_0[i].0),
        tlv::value_octets(call_tlvs(Some(items))->Ok_0[i].0, items@[i].1) == Ok::<Seq<u8>, Fault>(
            call_tlvs(Some(items))->Ok_0[i].1,
        ),
        call_tlvs(None) == Ok::<Seq<(u16, Seq<u8>)>, Fault>(Seq::empty()),
{
    tlv::a_dict_goes_out_in_its_order(items@, i);
}

/// A call is refused for what is wrong with it and for nothing else: that nothing
/// is running, a body of more than 254 octets, more than 254 destinations, or
/// parameters that cannot be sent. A `data_sm` takes a body of any length, but
/// not two bodies.
pub proof fn a_call_is_refused_only_for_a_fault(
    started: bool,
    command: Seq<char>,
    body: Seq<u8>,
    tlvs: Option<&Vec<(TlvKey, TlvValue)>>,
    destinations: nat,
)
    ensures
        message_fault(started, command, body.len(), tlvs) is None <==> started && body.len() <= 254
            && call_tlvs(tlvs) is Ok,
        multi_fault(started, body.len(), tlvs, destinations) is None <==> started && body.len()
            <= 254 && call_tlvs(tlvs) is Ok && destinations <= 254,
        data_fault(started, body, tlvs) is None <==> started && call_tlvs(tlvs) is Ok && !(
        body.len() > 0 && exists|i: int|
            0 <= i < call_tlvs(tlvs)->Ok_0.len() && (#[trigger] call_tlvs(tlvs)->Ok_0[i]).0
                == 0x0424),
        !started ==> message_fault(started, command, body.len(), tlvs)->0 is Runtime && multi_fault(
            started,
            body.len(),
            tlvs,
            destinations,
        )->0 is Runtime && data_fault(started, body, tlvs)->0 is Runtime,
        started && body.len() > 254 ==> message_fault(
            started,
            command,
            body.len(),
            tlvs,
        )->0 is Value && multi_fault(started, body.len(), tlvs, destinations)->0 is Value,
        started && body.len() <= 254 && call_tlvs(tlvs) is Err ==> message_fault(
            started,
            command,
            body.len(),
            tlvs,
        ) == Some(call_tlvs(tlvs)->Err_0),
{
    if call_tlvs(tlvs) is Ok {
        let list = call_tlvs(tlvs)->Ok_0;
        tlv::the_first_of_a_tag_is_read(list, 0x0424);
    }
}

/// A `data_sm_resp` that accepts gives the id that stands behind its header, up
/// to the NUL that closes it; one that refuses gives none, whatever it carries.
pub proof fn a_response_gives_its_id(header: Seq<u8>, id: Seq<u8>, rest: Seq<u8>)
    requires
        header.len() == 16,
        forall|i: int| 0 <= i < id.len() ==> id[i] != 0,
    ensures
        header[8] == 0 && header[9] == 0 && header[10] == 0 && header[11] == 0 ==> data_sm_resp_id(
            header + id.push(0) + rest,
        ) == Some(text::lossy_text(id)),
        !(header[8] == 0 && header[9] == 0 && header[10] == 0 && header[11] == 0)
            ==> data_sm_resp_id(header + id.push(0) + rest) is None,
{
    let all = header + id.push(0) + rest;
    assert forall|i: int| 16 <= i < 16 + id.len() implies all[i] != 0 by {
        assert(all[i] == id[i - 16]);
    }
    assert(all[16 + id.len() as int] == 0);
    nul_is_found(all, 16, 16 + id.len() as int);
    assert(all.subrange(16, 16 + id.len() as int) =~= id);
    assert(all[8] == header[8] && all[9] == header[9] && all[10] == header[10] && all[11]
        == header[11]);
}

proof fn nul_is_found(octets: Seq<u8>, from: int, at: int)
    requires
        0 <= from <= at < octets.len(),
        octets[at] == 0,
        forall|i: int| from <= i < at ==> octets[i] != 0,
    ensures
        nul_from(octets, from) == Some(at),
    decreases at - from,
{
    if from < at {
        nul_is_found(octets, from + 1, at);
    }
}

/// A body is folded in behind the parameters of the call, which keep their
/// places; an empty one adds nothing.
pub proof fn a_body_is_folded_in_at_the_end(tlvs: Seq<(u16, Seq<u8>)>, body: Seq<u8>)
    ensures
        body.len() == 0 ==> folded(tlvs, body) == tlvs,
        body.len() > 0 ==> folded(tlvs, body).len() == tlvs.len() + 1 && folded(tlvs, body).last()
            == (0x0424u16, body),
        forall|i: int| 0 <= i < tlvs.len() ==> #[trigger] folded(tlvs, body)[i] == tlvs[i],
{
}

} // verus!
