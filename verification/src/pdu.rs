//! The messages of SMPP 3.4 as plain values, and [`Pdu`], the one shape in which
//! a handler sees them all.
use crate::numbers;
use crate::receipt;
use crate::receipt::{Receipt, ReceiptValue};
use crate::reply::PduReply;
use crate::script::{Fault, ScriptError};
use crate::status;
use crate::status::SmppStatus;
use crate::text;
use crate::tlv;
use crate::tlv::{Tlv, TlvKey, TlvValue};
use vstd::prelude::*;

verus! {

// ── On the wire ──────────────────────────────────────────────────────────

/// A `submit_sm` or a `deliver_sm`: the two have the same
/// parameters.
#[derive(Debug, Clone)]
pub struct Sm {
    pub service_type: String,
    pub source_addr_ton: u8,
    pub source_addr_npi: u8,
    pub source_addr: String,
    pub dest_addr_ton: u8,
    pub dest_addr_npi: u8,
    pub destination_addr: String,
    pub esm_class: u8,
    pub protocol_id: u8,
    pub priority_flag: u8,
    pub schedule_delivery_time: String,
    pub validity_period: String,
    pub registered_delivery: u8,
    pub replace_if_present_flag: u8,
    pub data_coding: u8,
    pub sm_default_msg_id: u8,
    pub sm_length: u8,
    pub short_message: Vec<u8>,
    pub tlvs: Vec<Tlv>,
}

/// A `data_sm`. It has no `short_message`: its message travels in the
/// `message_payload` parameter.
#[derive(Debug, Clone)]
pub struct DataSm {
    pub service_type: String,
    pub source_addr_ton: u8,
    pub source_addr_npi: u8,
    pub source_addr: String,
    pub dest_addr_ton: u8,
    pub dest_addr_npi: u8,
    pub destination_addr: String,
    pub esm_class: u8,
    pub registered_delivery: u8,
    pub data_coding: u8,
    pub tlvs: Vec<Tlv>,
}

/// A destination of a `submit_sm_multi`.
#[derive(Debug, Clone)]
pub enum DestAddress {
    /// One SME.
    Sme { dest_addr_ton: u8, dest_addr_npi: u8, destination_addr: String },
    /// A distribution list.
    DistributionList { dl_name: String },
}

/// A `submit_sm_multi`.
#[derive(Debug, Clone)]
pub struct SubmitMulti {
    pub service_type: String,
    pub source_addr_ton: u8,
    pub source_addr_npi: u8,
    pub source_addr: String,
    pub dest_addresses: Vec<DestAddress>,
    pub esm_class: u8,
    pub protocol_id: u8,
    pub priority_flag: u8,
    pub schedule_delivery_time: String,
    pub validity_period: String,
    pub registered_delivery: u8,
    pub replace_if_present_flag: u8,
    pub data_coding: u8,
    pub sm_default_msg_id: u8,
    pub sm_length: u8,
    pub short_message: Vec<u8>,
    pub tlvs: Vec<Tlv>,
}

/// A `cancel_sm`.
#[derive(Debug, Clone)]
pub struct CancelSm {
    pub service_type: String,
    pub message_id: String,
    pub source_addr_ton: u8,
    pub source_addr_npi: u8,
    pub source_addr: String,
    pub dest_addr_ton: u8,
    pub dest_addr_npi: u8,
    pub destination_addr: String,
}

/// A `query_sm`.
#[derive(Debug, Clone)]
pub struct QuerySm {
    pub message_id: String,
    pub source_addr_ton: u8,
    pub source_addr_npi: u8,
    pub source_addr: String,
}

/// A `replace_sm`.
#[derive(Debug, Clone)]
pub struct ReplaceSm {
    pub message_id: String,
    pub source_addr_ton: u8,
    pub source_addr_npi: u8,
    pub source_addr: String,
    pub schedule_delivery_time: String,
    pub validity_period: String,
    pub registered_delivery: u8,
    pub sm_default_msg_id: u8,
    pub sm_length: u8,
    pub short_message: Vec<u8>,
}

/// An `alert_notification`.
#[derive(Debug, Clone)]
pub struct AlertPdu {
    pub source_addr_ton: u8,
    pub source_addr_npi: u8,
    pub source_addr: String,
    pub esme_addr_ton: u8,
    pub esme_addr_npi: u8,
    pub esme_addr: String,
    pub ms_availability_status: Option<u8>,
}

/// The tag of `message_payload`.
pub const MESSAGE_PAYLOAD: u16 = 0x0424;

/// The tag of `receipted_message_id`.
pub const RECEIPTED_MESSAGE_ID: u16 = 0x001E;

/// The tag of `message_state`.
pub const MESSAGE_STATE: u16 = 0x0427;

/// The tag of `user_message_reference`.
pub const USER_MESSAGE_REFERENCE: u16 = 0x0204;

/// The tag of `sar_msg_ref_num`.
pub const SAR_MSG_REF_NUM: u16 = 0x020C;

/// The tag of `sar_total_segments`.
pub const SAR_TOTAL_SEGMENTS: u16 = 0x020E;

/// The tag of `sar_segment_seqnum`.
pub const SAR_SEGMENT_SEQNUM: u16 = 0x020F;

/// The tag of `more_messages_to_send`.
pub const MORE_MESSAGES_TO_SEND: u16 = 0x0426;

/// The tag of `network_error_code`.
pub const NETWORK_ERROR_CODE: u16 = 0x0423;

// ── In the script ────────────────────────────────────────────────────────

/// Common surface for `submit_sm`, `submit_sm_multi`, `deliver_sm`, `data_sm`,
/// `cancel_sm`, `query_sm` and `replace_sm`. Field names mirror SMPP 3.4;
/// same shape on every direction so the routing layer can treat them uniformly.
/// The `command` field tells which operation produced it; not every field is
/// meaningful for every command.
#[derive(Debug, Clone)]
pub struct Pdu {
    pub command: String,
    /// SMSC-assigned message id — set for `cancel_sm` / `query_sm` /
    /// `replace_sm` (which target a prior submission); empty for the others.
    pub message_id: String,
    pub service_type: String,
    pub source_addr_ton: u8,
    pub source_addr_npi: u8,
    pub source_addr: String,
    pub dest_addr_ton: u8,
    pub dest_addr_npi: u8,
    pub destination_addr: String,
    pub esm_class: u8,
    pub protocol_id: u8,
    pub priority_flag: u8,
    pub registered_delivery: u8,
    pub data_coding: u8,
    pub sm_length: u8,
    pub short_message: Vec<u8>,
    /// `submit_sm_multi` only: the SME addresses and distribution-list names.
    pub destinations: Vec<String>,
    /// The optional parameters, in wire order.
    pub tlvs: Vec<Tlv>,
}

/// A copy of a list of optional parameters.
pub fn copy_tlvs(tlvs: &Vec<Tlv>) -> (out: Vec<Tlv>)
    ensures
        tlv::views(out@) == tlv::views(tlvs@),
{
    let mut out: Vec<Tlv> = Vec::new();
    let mut i: usize = 0;
    while i < tlvs.len()
        invariant
            i <= tlvs@.len(),
            tlv::views(out@) == tlv::views(tlvs@).take(i as int),
        decreases tlvs@.len() - i,
    {
        let ghost was = out@;
        let copy: Tlv = Tlv { tag: tlvs[i].tag, value: tlv::copy_octets(&tlvs[i].value) };
        let ghost added = copy@;
        out.push(copy);
        assert(tlv::views(out@) =~= tlv::views(was).push(added));
        assert(tlv::views(tlvs@).take(i + 1) =~= tlv::views(tlvs@).take(i as int).push(
            tlv::views(tlvs@)[i as int],
        ));
        i = i + 1;
    }
    assert(tlv::views(tlvs@).take(i as int) =~= tlv::views(tlvs@));
    out
}

/// The address or the name of a destination.
pub open spec fn destination_text(d: DestAddress) -> Seq<char> {
    match d {
        DestAddress::Sme { destination_addr, .. } => destination_addr@,
        DestAddress::DistributionList { dl_name } => dl_name@,
    }
}

/// The addresses and names of destinations.
fn destination_texts(ds: &Vec<DestAddress>) -> (out: Vec<String>)
    ensures
        out@.len() == ds@.len(),
        forall|i: int| 0 <= i < ds@.len() ==> (#[trigger] out@[i])@ == destination_text(ds@[i]),
{
    let mut out: Vec<String> = Vec::new();
    let mut i: usize = 0;
    while i < ds.len()
        invariant
            i <= ds@.len(),
            out@.len() == i,
            forall|j: int| 0 <= j < i ==> (#[trigger] out@[j])@ == destination_text(ds@[j]),
        decreases ds@.len() - i,
    {
        let text: String = match &ds[i] {
            DestAddress::Sme { destination_addr, .. } => destination_addr.clone(),
            DestAddress::DistributionList { dl_name } => dl_name.clone(),
        };
        out.push(text);
        i = i + 1;
    }
    out
}

impl Pdu {
    /// Whether this is `s` as the command `command`: every parameter that a
    /// handler sees, and no message id or list of destinations.
    pub open spec fn shows_sm(self, s: Sm, command: Seq<char>) -> bool {
        &&& self.command@ == command
        &&& self.message_id@.len() == 0
        &&& self.service_type == s.service_type
        &&& self.source_addr_ton == s.source_addr_ton
        &&& self.source_addr_npi == s.source_addr_npi
        &&& self.source_addr == s.source_addr
        &&& self.dest_addr_ton == s.dest_addr_ton
        &&& self.dest_addr_npi == s.dest_addr_npi
        &&& self.destination_addr == s.destination_addr
        &&& self.esm_class == s.esm_class
        &&& self.protocol_id == s.protocol_id
        &&& self.priority_flag == s.priority_flag
        &&& self.registered_delivery == s.registered_delivery
        &&& self.data_coding == s.data_coding
        &&& self.sm_length == s.sm_length
        &&& self.short_message@ == s.short_message@
        &&& self.destinations@.len() == 0
        &&& tlv::views(self.tlvs@) == tlv::views(s.tlvs@)
    }

    fn from_sm(s: &Sm, command: &str) -> (r: Pdu)
        ensures
            r.shows_sm(*s, command@),
    {
        Pdu {
            command: command.to_owned(),
            message_id: String::new(),
            service_type: s.service_type.clone(),
            source_addr_ton: s.source_addr_ton,
            source_addr_npi: s.source_addr_npi,
            source_addr: s.source_addr.clone(),
            dest_addr_ton: s.dest_addr_ton,
            dest_addr_npi: s.dest_addr_npi,
            destination_addr: s.destination_addr.clone(),
            esm_class: s.esm_class,
            protocol_id: s.protocol_id,
            priority_flag: s.priority_flag,
            registered_delivery: s.registered_delivery,
            data_coding: s.data_coding,
            sm_length: s.sm_length,
            short_message: tlv::copy_octets(&s.short_message),
            destinations: Vec::new(),
            tlvs: copy_tlvs(&s.tlvs),
        }
    }

    /// Build a `Pdu` from a `submit_sm`.
    pub fn from_submit(s: &Sm) -> (r: Pdu)
        ensures
            r.shows_sm(*s, "submit_sm"@),
            r.command@ == "submit_sm"@,
            r.message_id@.len() == 0,
            r.destinations@.len() == 0,
            r.service_type == s.service_type,
            r.source_addr_ton == s.source_addr_ton,
            r.source_addr_npi == s.source_addr_npi,
            r.source_addr == s.source_addr,
            r.dest_addr_ton == s.dest_addr_ton,
            r.dest_addr_npi == s.dest_addr_npi,
            r.destination_addr == s.destination_addr,
            r.esm_class == s.esm_class,
            r.protocol_id == s.protocol_id,
            r.priority_flag == s.priority_flag,
            r.registered_delivery == s.registered_delivery,
            r.data_coding == s.data_coding,
            r.sm_length == s.sm_length,
            r.short_message@ == s.short_message@,
            tlv::views(r.tlvs@) == tlv::views(s.tlvs@),
    {
        Pdu::from_sm(s, "submit_sm")
    }

    /// Build a `Pdu` from a `deliver_sm`.
    pub fn from_deliver(d: &Sm) -> (r: Pdu)
        ensures
            r.shows_sm(*d, "deliver_sm"@),
            r.command@ == "deliver_sm"@,
            r.message_id@.len() == 0,
            r.destinations@.len() == 0,
            r.service_type == d.service_type,
            r.source_addr_ton == d.source_addr_ton,
            r.source_addr_npi == d.source_addr_npi,
            r.source_addr == d.source_addr,
            r.dest_addr_ton == d.dest_addr_ton,
            r.dest_addr_npi == d.dest_addr_npi,
            r.destination_addr == d.destination_addr,
            r.esm_class == d.esm_class,
            r.protocol_id == d.protocol_id,
            r.priority_flag == d.priority_flag,
            r.registered_delivery == d.registered_delivery,
            r.data_coding == d.data_coding,
            r.sm_length == d.sm_length,
            r.short_message@ == d.short_message@,
            tlv::views(r.tlvs@) == tlv::views(d.tlvs@),
    {
        Pdu::from_sm(d, "deliver_sm")
    }

    /// Build a `Pdu` from a `submit_sm_multi`: the destinations stand in
    /// `destinations`, and the single destination stays empty.
    pub fn from_submit_multi(s: &SubmitMulti) -> (r: Pdu)
        ensures
            r.command@ == "submit_sm_multi"@,
            r.message_id@.len() == 0,
            r.service_type == s.service_type,
            r.source_addr_ton == s.source_addr_ton,
            r.source_addr_npi == s.source_addr_npi,
            r.source_addr == s.source_addr,
            r.dest_addr_ton == 0,
            r.dest_addr_npi == 0,
            r.destination_addr@.len() == 0,
            r.esm_class == s.esm_class,
            r.protocol_id == s.protocol_id,
            r.priority_flag == s.priority_flag,
            r.registered_delivery == s.registered_delivery,
            r.data_coding == s.data_coding,
            r.sm_length == s.sm_length,
            r.short_message@ == s.short_message@,
            r.destinations@.len() == s.dest_addresses@.len(),
            forall|i: int|
                0 <= i < s.dest_addresses@.len() ==> (#[trigger] r.destinations@[i])@
                    == destination_text(s.dest_addresses@[i]),
            tlv::views(r.tlvs@) == tlv::views(s.tlvs@),
    {
        Pdu {
            command: "submit_sm_multi".to_owned(),
            message_id: String::new(),
            service_type: s.service_type.clone(),
            source_addr_ton: s.source_addr_ton,
            source_addr_npi: s.source_addr_npi,
            source_addr: s.source_addr.clone(),
            dest_addr_ton: 0,
            dest_addr_npi: 0,
            destination_addr: String::new(),
            esm_class: s.esm_class,
            protocol_id: s.protocol_id,
            priority_flag: s.priority_flag,
            registered_delivery: s.registered_delivery,
            data_coding: s.data_coding,
            sm_length: s.sm_length,
            short_message: tlv::copy_octets(&s.short_message),
            destinations: destination_texts(&s.dest_addresses),
            tlvs: copy_tlvs(&s.tlvs),
        }
    }

    /// Build a `Pdu` from a `data_sm`. Its message is in the optional
    /// parameters; nothing is invented for `short_message`.
    pub fn from_data(d: &DataSm) -> (r: Pdu)
        ensures
            r.command@ == "data_sm"@,
            r.message_id@.len() == 0,
            r.service_type == d.service_type,
            r.source_addr_ton == d.source_addr_ton,
            r.source_addr_npi == d.source_addr_npi,
            r.source_addr == d.source_addr,
            r.dest_addr_ton == d.dest_addr_ton,
            r.dest_addr_npi == d.dest_addr_npi,
            r.destination_addr == d.destination_addr,
            r.esm_class == d.esm_class,
            r.protocol_id == 0,
            r.priority_flag == 0,
            r.registered_delivery == d.registered_delivery,
            r.data_coding == d.data_coding,
            r.sm_length == 0,
            r.short_message@.len() == 0,
            r.destinations@.len() == 0,
            tlv::views(r.tlvs@) == tlv::views(d.tlvs@),
    {
        Pdu {
            command: "data_sm".to_owned(),
            message_id: String::new(),
            service_type: d.service_type.clone(),
            source_addr_ton: d.source_addr_ton,
            source_addr_npi: d.source_addr_npi,
            source_addr: d.source_addr.clone(),
            dest_addr_ton: d.dest_addr_ton,
            dest_addr_npi: d.dest_addr_npi,
            destination_addr: d.destination_addr.clone(),
            esm_class: d.esm_class,
            protocol_id: 0,
            priority_flag: 0,
            registered_delivery: d.registered_delivery,
            data_coding: d.data_coding,
            sm_length: 0,
            short_message: Vec::new(),
            destinations: Vec::new(),
            tlvs: copy_tlvs(&d.tlvs),
        }
    }

    /// Build a `Pdu` from an inbound `cancel_sm` — `message_id` + addressing
    /// identify the message(s) to cancel.
    pub fn from_cancel(c: &CancelSm) -> (r: Pdu)
        ensures
            r.command@ == "cancel_sm"@,
            r.message_id == c.message_id,
            r.service_type == c.service_type,
            r.source_addr_ton == c.source_addr_ton,
            r.source_addr_npi == c.source_addr_npi,
            r.source_addr == c.source_addr,
            r.dest_addr_ton == c.dest_addr_ton,
            r.dest_addr_npi == c.dest_addr_npi,
            r.destination_addr == c.destination_addr,
            r.has_no_message(),
            r.registered_delivery == 0,
            r.esm_class == 0,
            r.protocol_id == 0,
            r.priority_flag == 0,
            r.data_coding == 0,
            r.sm_length == 0,
            r.short_message@.len() == 0,
            r.destinations@.len() == 0,
            r.tlvs@.len() == 0,
    {
        Pdu {
            command: "cancel_sm".to_owned(),
            message_id: c.message_id.clone(),
            service_type: c.service_type.clone(),
            source_addr_ton: c.source_addr_ton,
            source_addr_npi: c.source_addr_npi,
            source_addr: c.source_addr.clone(),
            dest_addr_ton: c.dest_addr_ton,
            dest_addr_npi: c.dest_addr_npi,
            destination_addr: c.destination_addr.clone(),
            esm_class: 0,
            protocol_id: 0,
            priority_flag: 0,
            registered_delivery: 0,
            data_coding: 0,
            sm_length: 0,
            short_message: Vec::new(),
            destinations: Vec::new(),
            tlvs: Vec::new(),
        }
    }

    /// Whether the parameters that go with a message are all unset.
    pub open spec fn has_no_message(self) -> bool {
        &&& self.esm_class == 0
        &&& self.protocol_id == 0
        &&& self.priority_flag == 0
        &&& self.data_coding == 0
        &&& self.sm_length == 0
        &&& self.short_message@.len() == 0
        &&& self.destinations@.len() == 0
        &&& self.tlvs@.len() == 0
    }

    /// Build a `Pdu` from an inbound `query_sm` — `message_id` + source address
    /// identify the message whose state is being queried.
    pub fn from_query(q: &QuerySm) -> (r: Pdu)
        ensures
            r.command@ == "query_sm"@,
            r.message_id == q.message_id,
            r.service_type@.len() == 0,
            r.source_addr_ton == q.source_addr_ton,
            r.source_addr_npi == q.source_addr_npi,
            r.source_addr == q.source_addr,
            r.dest_addr_ton == 0,
            r.dest_addr_npi == 0,
            r.destination_addr@.len() == 0,
            r.has_no_message(),
            r.registered_delivery == 0,
            r.esm_class == 0,
            r.protocol_id == 0,
            r.priority_flag == 0,
            r.data_coding == 0,
            r.sm_length == 0,
            r.short_message@.len() == 0,
            r.destinations@.len() == 0,
            r.tlvs@.len() == 0,
    {
        Pdu {
            command: "query_sm".to_owned(),
            message_id: q.message_id.clone(),
            service_type: String::new(),
            source_addr_ton: q.source_addr_ton,
            source_addr_npi: q.source_addr_npi,
            source_addr: q.source_addr.clone(),
            dest_addr_ton: 0,
            dest_addr_npi: 0,
            destination_addr: String::new(),
            esm_class: 0,
            protocol_id: 0,
            priority_flag: 0,
            registered_delivery: 0,
            data_coding: 0,
            sm_length: 0,
            short_message: Vec::new(),
            destinations: Vec::new(),
            tlvs: Vec::new(),
        }
    }

    /// Build a `Pdu` from an inbound `replace_sm` — `message_id` + source
    /// address identify the message to replace; `short_message` is the new
    /// body. (`schedule_delivery_time` / `validity_period` are carried on the
    /// wire but not surfaced.)
    pub fn from_replace(r: &ReplaceSm) -> (p: Pdu)
        ensures
            p.command@ == "replace_sm"@,
            p.message_id == r.message_id,
            p.service_type@.len() == 0,
            p.source_addr_ton == r.source_addr_ton,
            p.source_addr_npi == r.source_addr_npi,
            p.source_addr == r.source_addr,
            p.dest_addr_ton == 0,
            p.dest_addr_npi == 0,
            p.destination_addr@.len() == 0,
            p.esm_class == 0,
            p.protocol_id == 0,
            p.priority_flag == 0,
            p.registered_delivery == r.registered_delivery,
            p.data_coding == 0,
            p.sm_length == r.sm_length,
            p.short_message@ == r.short_message@,
            p.destinations@.len() == 0,
            p.tlvs@.len() == 0,
    {
        Pdu {
            command: "replace_sm".to_owned(),
            message_id: r.message_id.clone(),
            service_type: String::new(),
            source_addr_ton: r.source_addr_ton,
            source_addr_npi: r.source_addr_npi,
            source_addr: r.source_addr.clone(),
            dest_addr_ton: 0,
            dest_addr_npi: 0,
            destination_addr: String::new(),
            esm_class: 0,
            protocol_id: 0,
            priority_flag: 0,
            registered_delivery: r.registered_delivery,
            data_coding: 0,
            sm_length: r.sm_length,
            short_message: tlv::copy_octets(&r.short_message),
            destinations: Vec::new(),
            tlvs: Vec::new(),
        }
    }

    // ── Reading ──────────────────────────────────────────────────────────

    /// The value of the first optional parameter with the tag `tag`.
    pub open spec fn parameter(self, tag: u16) -> Option<Seq<u8>> {
        tlv::first_value(tlv::views(self.tlvs@), tag)
    }

    /// The message: `message_payload` when the peer used it, `short_message`
    /// otherwise.
    pub open spec fn message(self) -> Seq<u8> {
        match self.parameter(MESSAGE_PAYLOAD) {
            Some(v) => v,
            None => self.short_message@,
        }
    }

    /// The message: `message_payload` when the peer used it, `short_message`
    /// otherwise.
    pub fn body(&self) -> (r: &Vec<u8>)
        ensures
            r@ == self.message(),
    {
        match tlv::get_tlv(&self.tlvs, MESSAGE_PAYLOAD) {
            Some(v) => v,
            None => &self.short_message,
        }
    }

    /// True when the `short_message` field carries a TPDU (`UDHI` flag in
    /// `esm_class`). When set, decode the payload with an SMS-TPDU codec rather
    /// than treating it as a literal message.
    pub fn is_tpdu(&self) -> (r: bool)
        ensures
            r == (self.esm_class & 0x40 != 0),
    {
        self.esm_class & 0x40 != 0
    }

    /// True when this `deliver_sm` is a **delivery receipt** (DLR) — the
    /// `esm_class` message-type bits (0x04) flag it as an SMSC delivery receipt.
    pub fn is_dlr(&self) -> (r: bool)
        ensures
            r == (self.esm_class & 0x04 != 0),
    {
        self.esm_class & 0x04 != 0
    }

    /// The optional parameters as `{tag: bytes}`.
    pub fn tlv_dict(&self) -> (r: Vec<Tlv>)
        ensures
            tlv::views(r@) == tlv::tlv_dict(tlv::views(self.tlvs@)),
    {
        tlv::tlvs_to_py(&self.tlvs)
    }

    /// The value of an optional parameter, by name or by tag.
    pub fn tlv(&self, key: &TlvKey) -> (r: Result<Option<&Vec<u8>>, ScriptError>)
        ensures
            match r {
                Ok(Some(v)) => tlv::key_tag(*key) matches Ok(tag) && self.parameter(tag) == Some(v@),
                Ok(None) => tlv::key_tag(*key) matches Ok(tag) && self.parameter(tag) is None,
                Err(e) => tlv::key_tag(*key) == Err::<u16, Fault>(e@),
            },
    {
        match tlv::tag_from_py(key) {
            Ok(tag) => Ok(tlv::get_tlv(&self.tlvs, tag)),
            Err(e) => Err(e),
        }
    }

    /// `message_payload`, as it is.
    pub fn message_payload(&self) -> (r: Option<&Vec<u8>>)
        ensures
            match r {
                Some(v) => self.parameter(MESSAGE_PAYLOAD) == Some(v@),
                None => self.parameter(MESSAGE_PAYLOAD) is None,
            },
    {
        tlv::get_tlv(&self.tlvs, MESSAGE_PAYLOAD)
    }

    /// `receipted_message_id`, without its closing NUL.
    pub fn receipted_message_id(&self) -> (r: Option<String>)
        ensures
            text::holds(r, tlv::text_of(self.parameter(RECEIPTED_MESSAGE_ID))),
    {
        tlv::get_text(&self.tlvs, RECEIPTED_MESSAGE_ID)
    }

    /// `message_state`.
    pub fn message_state(&self) -> (r: Option<u8>)
        ensures
            r == tlv::one_octet(self.parameter(MESSAGE_STATE)),
    {
        tlv::get_u8(&self.tlvs, MESSAGE_STATE)
    }

    /// `user_message_reference`.
    pub fn user_message_reference(&self) -> (r: Option<u16>)
        ensures
            r == tlv::two_octets(self.parameter(USER_MESSAGE_REFERENCE)),
    {
        tlv::get_u16(&self.tlvs, USER_MESSAGE_REFERENCE)
    }

    /// `sar_msg_ref_num`.
    pub fn sar_msg_ref_num(&self) -> (r: Option<u16>)
        ensures
            r == tlv::two_octets(self.parameter(SAR_MSG_REF_NUM)),
    {
        tlv::get_u16(&self.tlvs, SAR_MSG_REF_NUM)
    }

    /// `sar_total_segments`.
    pub fn sar_total_segments(&self) -> (r: Option<u8>)
        ensures
            r == tlv::one_octet(self.parameter(SAR_TOTAL_SEGMENTS)),
    {
        tlv::get_u8(&self.tlvs, SAR_TOTAL_SEGMENTS)
    }

    /// `sar_segment_seqnum`.
    pub fn sar_segment_seqnum(&self) -> (r: Option<u8>)
        ensures
            r == tlv::one_octet(self.parameter(SAR_SEGMENT_SEQNUM)),
    {
        tlv::get_u8(&self.tlvs, SAR_SEGMENT_SEQNUM)
    }

    /// `more_messages_to_send`.
    pub fn more_messages_to_send(&self) -> (r: Option<u8>)
        ensures
            r == tlv::one_octet(self.parameter(MORE_MESSAGES_TO_SEND)),
    {
        tlv::get_u8(&self.tlvs, MORE_MESSAGES_TO_SEND)
    }

    /// `network_error_code`: the network type and the error, of a value of three
    /// octets.
    pub fn network_error_code(&self) -> (r: Option<(u8, u16)>)
        ensures
            r == match self.parameter(NETWORK_ERROR_CODE) {
                Some(v) => if v.len() == 3 {
                    Some((v[0], (v[1] * 256 + v[2]) as u16))
                } else {
                    None
                },
                None => None,
            },
    {
        match tlv::get_tlv(&self.tlvs, NETWORK_ERROR_CODE) {
            Some(v) => if v.len() == 3 {
                Some((v[0], (v[1] as u16) * 256 + (v[2] as u16)))
            } else {
                None
            },
            None => None,
        }
    }

    /// The receipt that the PDU carries, if it carries one: a delivery receipt
    /// with a body that has receipt keys, or with `receipted_message_id` or
    /// `message_state`.
    pub open spec fn has_receipt(self) -> bool {
        &&& self.esm_class & 0x04 != 0
        &&& {
            ||| receipt::is_receipt(text::lossy_text(self.message()))
            ||| tlv::text_of(self.parameter(RECEIPTED_MESSAGE_ID)) is Some
            ||| tlv::one_octet(self.parameter(MESSAGE_STATE)) is Some
        }
    }

    /// Parsed delivery-receipt fields, or `None` when this PDU is not a DLR or
    /// carries no receipt.
    ///
    /// The format is not standardised across SMSCs, so this is best-effort —
    /// always keep `raw` as the source of truth. Where the text body and the
    /// optional parameters both say something, the text body wins and the
    /// parameters fill the gaps.
    pub fn receipt(&self) -> (r: Option<Receipt>)
        ensures
            r is Some == self.has_receipt(),
            r matches Some(x) ==> x.fills(
                text::lossy_text(self.message()),
                tlv::text_of(self.parameter(RECEIPTED_MESSAGE_ID)),
                tlv::one_octet(self.parameter(MESSAGE_STATE)),
            ),
    {
        if !self.is_dlr() {
            return None;
        }
        let id: Option<String> = self.receipted_message_id();
        let state: Option<u8> = self.message_state();
        let body: &Vec<u8> = self.body();
        receipt::combine(text::from_utf8_lossy(body.as_slice()), id, state)
    }

    // ── Answering ────────────────────────────────────────────────────────

    /// Build a reply for the dispatcher. `ESME_ROK` accepts; another status
    /// rejects. Pass `message_id` on success (`submit_sm` path).
    pub fn reply(&self, command_status: String, message_id: Option<String>) -> (r: Result<
        PduReply,
        ScriptError,
    >)
        ensures
            PduReply::is_new(r, command_status@, message_id),
    {
        PduReply::new(command_status, message_id)
    }

    /// Build a reply with optional parameters, which only the response to a
    /// `data_sm` can carry. Elsewhere they are refused rather than
    /// dropped.
    pub fn reply_with_tlvs(
        &self,
        command_status: String,
        message_id: Option<String>,
        tlvs: &Vec<(TlvKey, TlvValue)>,
    ) -> (r: Result<PduReply, ScriptError>)
        ensures
            match r {
                Ok(reply) => {
                    &&& reply.command_status.is_script_status()
                    &&& reply.command_status.spelling() == command_status@
                    &&& reply.message_id == message_id
                    &&& reply.message_state is None
                    &&& reply.final_date@.len() == 0
                    &&& reply.error_code == 0
                    &&& tlv::dict_tlvs(tlvs@) == Ok::<Seq<(u16, Seq<u8>)>, Fault>(
                        tlv::views(reply.tlvs@),
                    )
                    &&& self.command@ == "data_sm"@ || reply.tlvs@.len() == 0
                },
                Err(e) => e@ == if !status::names_a_status(command_status@) {
                    Fault::Value("unknown SMPP status: "@ + text::quoted(command_status@))
                } else if tlv::dict_tlvs(tlvs@) is Err {
                    tlv::dict_tlvs(tlvs@)->Err_0
                } else {
                    Fault::Value(
                        "tlvs= rides on data_sm_resp only, a "@ + self.command@
                            + " response has no optional parameters"@,
                    )
                },
            },
            r is Ok == (status::names_a_status(command_status@) && tlv::dict_tlvs(tlvs@) is Ok && (
            self.command@ == "data_sm"@ || tlvs@.len() == 0)),
    {
        let status: SmppStatus = match status::parse_smpp_status(command_status.as_str()) {
            Ok(status) => status,
            Err(e) => {
                return Err(e);
            },
        };
        let parameters: Vec<Tlv> = match tlv::tlvs_from_py(Some(tlvs)) {
            Ok(parameters) => parameters,
            Err(e) => {
                return Err(e);
            },
        };
        if parameters.len() > 0 && !text::same(self.command.as_str(), "data_sm") {
            let mut m: String = String::new();
            m.append("tlvs= rides on data_sm_resp only, a ");
            m.append(self.command.as_str());
            m.append(" response has no optional parameters");
            assert(m@ =~= "tlvs= rides on data_sm_resp only, a "@ + self.command@
                + " response has no optional parameters"@);
            proof {
                if tlvs@.len() > 0 {
                    tlv::what_a_script_sets_is_read_back(tlvs@, 0);
                } else {
                    assert(tlv::dict_tlvs(tlvs@) == Ok::<Seq<(u16, Seq<u8>)>, Fault>(Seq::empty()));
                    assert(tlv::views(parameters@).len() == parameters@.len());
                }
            }
            return Err(ScriptError::Value(m));
        }
        assert(tlv::views(parameters@).len() == parameters@.len());
        proof {
            if tlvs@.len() > 0 {
                tlv::what_a_script_sets_is_read_back(tlvs@, 0);
            }
        }
        Ok(
            PduReply {
                command_status: status,
                message_id,
                message_state: None,
                final_date: String::new(),
                error_code: 0,
                tlvs: parameters,
            },
        )
    }

    /// Build a successful `query_sm_resp` reply. `message_state` is the SMPP
    /// message-state code (1=ENROUTE, 2=DELIVERED, 3=EXPIRED, 4=DELETED,
    /// 5=UNDELIVERABLE, 6=ACCEPTED, 7=UNKNOWN, 8=REJECTED). `final_date` is the
    /// SMPP-format absolute time (or empty if not final), `error_code` the
    /// network error code. The id that is echoed defaults to the queried one.
    pub fn reply_query(
        &self,
        message_state: u8,
        message_id: Option<String>,
        final_date: String,
        error_code: u8,
    ) -> (r: PduReply)
        ensures
            r.command_status == SmppStatus::ESME_ROK,
            r.message_id == match message_id {
                Some(id) => Some(id),
                None => Some(self.message_id),
            },
            r.message_state == Some(message_state),
            r.final_date == final_date,
            r.error_code == error_code,
            r.tlvs@.len() == 0,
    {
        let id: String = match message_id {
            Some(id) => id,
            None => self.message_id.clone(),
        };
        PduReply {
            command_status: SmppStatus::ESME_ROK,
            message_id: Some(id),
            message_state: Some(message_state),
            final_date,
            error_code,
            tlvs: Vec::new(),
        }
    }

    /// How the PDU shows in a log.
    pub fn repr(&self) -> (out: String)
        ensures
            out@ == "Pdu(command="@ + self.command@ + ", source_addr="@ + self.source_addr@
                + ", destination_addr="@ + self.destination_addr@ + ", esm_class=0x"@
                + numbers::hex2(self.esm_class) + ", dcs=0x"@ + numbers::hex2(self.data_coding)
                + ", len="@ + numbers::decimal(self.sm_length as nat) + ")"@,
    {
        let mut out: String = String::new();
        out.append("Pdu(command=");
        out.append(self.command.as_str());
        out.append(", source_addr=");
        out.append(self.source_addr.as_str());
        out.append(", destination_addr=");
        out.append(self.destination_addr.as_str());
        out.append(", esm_class=0x");
        out.append(numbers::hex2_text(self.esm_class).as_str());
        out.append(", dcs=0x");
        out.append(numbers::hex2_text(self.data_coding).as_str());
        out.append(", len=");
        out.append(numbers::decimal_text(self.sm_length as u64).as_str());
        out.append(")");
        assert(out@ =~= "Pdu(command="@ + self.command@ + ", source_addr="@ + self.source_addr@
            + ", destination_addr="@ + self.destination_addr@ + ", esm_class=0x"@ + numbers::hex2(
            self.esm_class,
        ) + ", dcs=0x"@ + numbers::hex2(self.data_coding) + ", len="@ + numbers::decimal(
            self.sm_length as nat,
        ) + ")"@);
        out
    }
}

/// Payload for `@smpp.on_pdu("alert_notification")` — an SMSC telling us (on an
/// outbound bind) that a previously-unavailable MS is now reachable, so queued
/// MT can be flushed. `source_addr` is the MS, `esme_addr` the ESME the alert is
/// destined for, and `ms_availability_status` the availability state
/// (0=available, 1=denied, 2=unavailable) when present.
#[derive(Debug, Clone, Default)]
pub struct AlertNotification {
    pub source_addr_ton: u8,
    pub source_addr_npi: u8,
    pub source_addr: String,
    pub esme_addr: String,
    pub ms_availability_status: Option<u8>,
}

/// How an optional octet shows in a log.
pub open spec fn shown_octet(v: Option<u8>) -> Seq<char> {
    match v {
        Some(n) => "Some("@ + numbers::decimal(n as nat) + ")"@,
        None => "None"@,
    }
}

impl AlertNotification {
    /// What a handler sees of an `alert_notification`.
    pub fn from_alert(a: &AlertPdu) -> (r: AlertNotification)
        ensures
            r.source_addr_ton == a.source_addr_ton,
            r.source_addr_npi == a.source_addr_npi,
            r.source_addr == a.source_addr,
            r.esme_addr == a.esme_addr,
            r.ms_availability_status == a.ms_availability_status,
    {
        AlertNotification {
            source_addr_ton: a.source_addr_ton,
            source_addr_npi: a.source_addr_npi,
            source_addr: a.source_addr.clone(),
            esme_addr: a.esme_addr.clone(),
            ms_availability_status: a.ms_availability_status,
        }
    }

    /// The command, as a handler reads it.
    pub fn command(&self) -> (r: &'static str)
        ensures
            r@ == "alert_notification"@,
    {
        "alert_notification"
    }

    /// How the alert shows in a log.
    pub fn repr(&self) -> (out: String)
        ensures
            out@ == "AlertNotification(source_addr="@ + text::quoted(self.source_addr@)
                + ", esme_addr="@ + text::quoted(self.esme_addr@) + ", ms_availability_status="@
                + shown_octet(self.ms_availability_status) + ")"@,
    {
        let mut out: String = String::new();
        out.append("AlertNotification(source_addr=");
        out.append(text::to_quoted(self.source_addr.as_str()).as_str());
        out.append(", esme_addr=");
        out.append(text::to_quoted(self.esme_addr.as_str()).as_str());
        out.append(", ms_availability_status=");
        match self.ms_availability_status {
            Some(n) => {
                out.append("Some(");
                out.append(numbers::decimal_text(n as u64).as_str());
                out.append(")");
            },
            None => {
                out.append("None");
            },
        }
        out.append(")");
        assert(out@ =~= "AlertNotification(source_addr="@ + text::quoted(self.source_addr@)
            + ", esme_addr="@ + text::quoted(self.esme_addr@) + ", ms_availability_status="@
            + shown_octet(self.ms_availability_status) + ")"@);
        out
    }
}

// ── What is promised of a PDU ────────────────────────────────────────────

/// What a script sets as an integer under the name of a parameter is what the
/// shortcut of that name reads on the other side.
pub proof fn shortcuts_read_what_a_script_sets(
    p: Pdu,
    items: Seq<(TlvKey, TlvValue)>,
    i: int,
    name: String,
    n: u64,
)
    requires
        tlv::dict_tlvs(items) is Ok,
        tlv::views(p.tlvs@) == tlv::dict_tlvs(items)->Ok_0,
        0 <= i < items.len(),
        items[i].0 == TlvKey::Name(name),
        items[i].1 == TlvValue::Int(n),
    ensures
        name@ == "MESSAGE_STATE"@ ==> tlv::one_octet(p.parameter(MESSAGE_STATE)) == Some(n as u8)
            && n < 0x100,
        name@ == "SAR_TOTAL_SEGMENTS"@ ==> tlv::one_octet(p.parameter(SAR_TOTAL_SEGMENTS)) == Some(
            n as u8,
        ) && n < 0x100,
        name@ == "SAR_SEGMENT_SEQNUM"@ ==> tlv::one_octet(p.parameter(SAR_SEGMENT_SEQNUM)) == Some(
            n as u8,
        ) && n < 0x100,
        name@ == "MORE_MESSAGES_TO_SEND"@ ==> tlv::one_octet(p.parameter(MORE_MESSAGES_TO_SEND))
            == Some(n as u8) && n < 0x100,
        name@ == "USER_MESSAGE_REFERENCE"@ ==> tlv::two_octets(p.parameter(USER_MESSAGE_REFERENCE))
            == Some(n as u16) && n < 0x1_0000,
        name@ == "SAR_MSG_REF_NUM"@ ==> tlv::two_octets(p.parameter(SAR_MSG_REF_NUM)) == Some(
            n as u16,
        ) && n < 0x1_0000,
{
    tlv::what_a_script_sets_is_read_back(items, i);
    let tag = tlv::key_tag(items[i].0)->Ok_0;
    tlv::an_integer_takes_its_spec_width(tag, n);
    tlv::values_go_out_as_they_are(tag, p.short_message, n);
    tlv::these_parameters_take_one_octet();
    tlv::these_parameters_take_more_octets();
    let octets = p.parameter(tag)->0;
    tlv::numbers_are_read_from_their_octets(octets);
    if name@ == "MESSAGE_STATE"@ {
        named_as_it_is(MESSAGE_STATE, name@);
    }
    if name@ == "SAR_TOTAL_SEGMENTS"@ {
        named_as_it_is(SAR_TOTAL_SEGMENTS, name@);
    }
    if name@ == "SAR_SEGMENT_SEQNUM"@ {
        named_as_it_is(SAR_SEGMENT_SEQNUM, name@);
    }
    if name@ == "MORE_MESSAGES_TO_SEND"@ {
        named_as_it_is(MORE_MESSAGES_TO_SEND, name@);
    }
    if name@ == "USER_MESSAGE_REFERENCE"@ {
        named_as_it_is(USER_MESSAGE_REFERENCE, name@);
    }
    if name@ == "SAR_MSG_REF_NUM"@ {
        named_as_it_is(SAR_MSG_REF_NUM, name@);
    }
}

/// A text that a script sets as the id of a receipted message, and octets that it
/// sets as a payload, are what the shortcuts of those names read.
pub proof fn shortcuts_read_texts_and_octets(
    p: Pdu,
    items: Seq<(TlvKey, TlvValue)>,
    i: int,
    name: String,
    id: String,
    payload: Vec<u8>,
)
    requires
        tlv::dict_tlvs(items) is Ok,
        tlv::views(p.tlvs@) == tlv::dict_tlvs(items)->Ok_0,
        0 <= i < items.len(),
        items[i].0 == TlvKey::Name(name),
    ensures
        name@ == "RECEIPTED_MESSAGE_ID"@ && items[i].1 == TlvValue::Text(id) ==> tlv::text_of(
            p.parameter(RECEIPTED_MESSAGE_ID),
        ) == Some(id@),
        name@ == "MESSAGE_PAYLOAD"@ && items[i].1 == TlvValue::Bytes(payload) ==> p.parameter(
            MESSAGE_PAYLOAD,
        ) == Some(payload@) && p.message() == payload@,
        name@ == "NETWORK_ERROR_CODE"@ && items[i].1 == TlvValue::Bytes(payload) ==> p.parameter(
            NETWORK_ERROR_CODE,
        ) == Some(payload@),
{
    tlv::what_a_script_sets_is_read_back(items, i);
    tlv::these_parameters_are_no_integers();
    let tag = tlv::key_tag(items[i].0)->Ok_0;
    tlv::a_text_reads_back(tag, id);
    tlv::values_go_out_as_they_are(tag, payload, 0);
    if name@ == "RECEIPTED_MESSAGE_ID"@ {
        named_as_it_is(RECEIPTED_MESSAGE_ID, name@);
    }
    if name@ == "MESSAGE_PAYLOAD"@ {
        named_as_it_is(MESSAGE_PAYLOAD, name@);
    }
    if name@ == "NETWORK_ERROR_CODE"@ {
        named_as_it_is(NETWORK_ERROR_CODE, name@);
    }
}

/// The name of a tag, as it stands in the table, stands for the tag.
proof fn named_as_it_is(tag: u16, name: Seq<char>)
    requires
        tlv::name_of_tag(tag) == Some(name),
    ensures
        tlv::tag_of_name(name) == Some(tag),
{
    tlv::a_name_in_capitals_is_itself(tag);
    let none = Seq::<char>::empty();
    tlv::a_name_is_found_however_written(tag, name, none, none);
    assert(none + name + none =~= name);
}

/// The message is the payload where there is one, and the short message else.
pub proof fn a_payload_is_the_message(p: Pdu)
    ensures
        p.parameter(0x0424) matches Some(v) ==> p.message() == v,
        p.parameter(0x0424) is None ==> p.message() == p.short_message@,
        match p.parameter(0x0424) {
            Some(v) => exists|i: int|
                0 <= i < p.tlvs@.len() && (#[trigger] p.tlvs@[i]).tag == 0x0424 && p.tlvs@[i].value@
                    == v,
            None => forall|i: int| 0 <= i < p.tlvs@.len() ==> (#[trigger] p.tlvs@[i]).tag != 0x0424,
        },
{
    let list = tlv::views(p.tlvs@);
    tlv::the_first_of_a_tag_is_read(list, 0x0424);
    match p.parameter(0x0424) {
        Some(v) => {
            let i = choose|i: int|
                0 <= i < list.len() && #[trigger] list[i] == (0x0424u16, v) && forall|j: int|
                    0 <= j < i ==> (#[trigger] list[j]).0 != 0x0424;
            assert(p.tlvs@[i].tag == 0x0424 && p.tlvs@[i].value@ == v);
        },
        None => {
            assert forall|i: int| 0 <= i < p.tlvs@.len() implies (#[trigger] p.tlvs@[i]).tag
                != 0x0424 by {
                assert(list[i].0 == p.tlvs@[i].tag);
            }
        },
    }
}

/// A PDU has a receipt only where its class says that it is one, and where it
/// then has the id or the state of a message, or a body with a receipt in it.
pub proof fn only_a_delivery_receipt_has_a_receipt(p: Pdu)
    ensures
        p.esm_class & 0x04 == 0 ==> !p.has_receipt(),
        p.esm_class & 0x04 != 0 ==> (p.has_receipt() <==> receipt::is_receipt(
            text::lossy_text(p.message()),
        ) || tlv::text_of(p.parameter(0x001E)) is Some || tlv::one_octet(
            p.parameter(0x0427),
        ) is Some),
{
}

} // verus!
