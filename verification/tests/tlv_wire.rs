//! Inbound wire known-answer tests: every PDU is written out byte by byte,
//! decoded with the codec, and read through what a script sees.

use siphon_smpp::pdu::{AlertNotification, AlertPdu, DataSm, Pdu};
use siphon_smpp::tlv::{Tlv, TlvKey};
use smpp34::{alert_notification, data_sm, CommandHeader};

fn with_header(command_id: u32, sequence_number: u32, body: &[u8]) -> Vec<u8> {
    let mut pdu = Vec::with_capacity(16 + body.len());
    pdu.extend_from_slice(&((16 + body.len()) as u32).to_be_bytes());
    pdu.extend_from_slice(&command_id.to_be_bytes());
    pdu.extend_from_slice(&0u32.to_be_bytes());
    pdu.extend_from_slice(&sequence_number.to_be_bytes());
    pdu.extend_from_slice(body);
    pdu
}

fn tlv(tag: u16, value: &[u8]) -> Vec<u8> {
    let mut out = Vec::with_capacity(4 + value.len());
    out.extend_from_slice(&tag.to_be_bytes());
    out.extend_from_slice(&(value.len() as u16).to_be_bytes());
    out.extend_from_slice(value);
    out
}

fn data_sm_body_with(esm_class: u8, extra: &[u8]) -> Vec<u8> {
    let mut body = Vec::new();
    body.push(0x00);
    body.push(0x01);
    body.push(0x01);
    body.extend_from_slice(b"5550100\0");
    body.push(0x01);
    body.push(0x01);
    body.extend_from_slice(b"5550199\0");
    body.push(esm_class);
    body.push(0x01);
    body.push(0x00);
    body.extend_from_slice(extra);
    body
}

fn data_sm_body(extra: &[u8]) -> Vec<u8> {
    data_sm_body_with(0x00, extra)
}

fn decode_data_sm(pdu: &[u8]) -> DataSm {
    let header = CommandHeader::decode(pdu).expect("header decodes");
    let d = data_sm::decode(header, pdu).expect("data_sm decodes");
    DataSm {
        service_type: d.service_type,
        source_addr_ton: d.source_addr_ton,
        source_addr_npi: d.source_addr_npi,
        source_addr: d.source_addr,
        dest_addr_ton: d.dest_addr_ton,
        dest_addr_npi: d.dest_addr_npi,
        destination_addr: d.destination_addr,
        esm_class: d.esm_class,
        registered_delivery: d.registered_delivery,
        data_coding: d.data_coding,
        tlvs: d
            .tlvs
            .into_iter()
            .map(|t| Tlv { tag: t.tag, value: t.value })
            .collect(),
    }
}

fn decode_alert(pdu: &[u8]) -> AlertNotification {
    let header = CommandHeader::decode(pdu).expect("header decodes");
    let a = alert_notification::decode(header, pdu).expect("alert decodes");
    AlertNotification::from_alert(&AlertPdu {
        source_addr_ton: a.source_addr_ton,
        source_addr_npi: a.source_addr_npi,
        source_addr: a.source_addr,
        esme_addr_ton: a.esme_addr_ton,
        esme_addr_npi: a.esme_addr_npi,
        esme_addr: a.esme_addr,
        ms_availability_status: a.ms_availability_status,
    })
}

#[test]
fn inbound_data_sm_body_survives_as_message_payload() {
    let wire = with_header(0x0000_0103, 7, &data_sm_body(&tlv(0x0424, b"hello, world")));
    let pdu = Pdu::from_data(&decode_data_sm(&wire));

    assert_eq!(pdu.body(), b"hello, world");
    assert_eq!(pdu.message_payload().expect("payload"), b"hello, world");
    assert!(pdu.short_message.is_empty());
    assert_eq!(pdu.command, "data_sm");
    assert_eq!(pdu.source_addr, "5550100");
    assert_eq!(pdu.destination_addr, "5550199");
}

#[test]
fn inbound_data_sm_without_a_payload_has_an_empty_body() {
    let wire = with_header(0x0000_0103, 8, &data_sm_body(&[]));
    let pdu = Pdu::from_data(&decode_data_sm(&wire));
    assert!(pdu.body().is_empty());
    assert!(pdu.message_payload().is_none());
}

#[test]
fn inbound_data_sm_surfaces_every_optional_parameter() {
    let mut extra = tlv(0x0424, b"part two");
    extra.extend_from_slice(&tlv(0x020C, &[0x12, 0x34]));
    extra.extend_from_slice(&tlv(0x020E, &[0x03]));
    extra.extend_from_slice(&tlv(0x020F, &[0x02]));
    extra.extend_from_slice(&tlv(0x1400, &[0xAB]));

    let wire = with_header(0x0000_0103, 9, &data_sm_body(&extra));
    let pdu = Pdu::from_data(&decode_data_sm(&wire));
    assert_eq!(pdu.sar_msg_ref_num(), Some(0x1234));
    assert_eq!(pdu.sar_total_segments(), Some(3));
    assert_eq!(pdu.sar_segment_seqnum(), Some(2));

    let vendor = pdu.tlv(&TlvKey::Tag(0x1400)).expect("tlv()").expect("there");
    assert_eq!(vendor, &vec![0xAB]);
    let payload = pdu
        .tlv(&TlvKey::Name("MESSAGE_PAYLOAD".to_string()))
        .expect("tlv()")
        .expect("there");
    assert_eq!(payload, b"part two");
    assert!(pdu.tlv(&TlvKey::Tag(0x1401)).expect("tlv()").is_none());
    assert!(pdu.tlv(&TlvKey::Name("NOPE".to_string())).is_err());
    assert_eq!(pdu.tlv_dict().len(), 5);
}

#[test]
fn every_shortcut_reads_its_parameter() {
    let mut extra = tlv(0x0204, &[0x01, 0x02]);
    extra.extend_from_slice(&tlv(0x0426, &[0x01]));
    extra.extend_from_slice(&tlv(0x0423, &[0x03, 0x01, 0x00]));
    let wire = with_header(0x0000_0103, 9, &data_sm_body(&extra));
    let pdu = Pdu::from_data(&decode_data_sm(&wire));
    assert_eq!(pdu.user_message_reference(), Some(0x0102));
    assert_eq!(pdu.more_messages_to_send(), Some(1));
    assert_eq!(pdu.network_error_code(), Some((3, 256)));
    assert_eq!(pdu.message_state(), None);
    assert_eq!(pdu.receipted_message_id(), None);
}

#[test]
fn inbound_delivery_receipt_reads_the_spec_optional_parameters() {
    let mut extra = tlv(0x001E, b"0a1b2\0");
    extra.extend_from_slice(&tlv(0x0427, &[0x02]));

    let wire = with_header(0x0000_0103, 10, &data_sm_body_with(0x04, &extra));
    let pdu = Pdu::from_data(&decode_data_sm(&wire));
    assert!(pdu.is_dlr());
    assert_eq!(pdu.receipted_message_id().as_deref(), Some("0a1b2"));
    assert_eq!(pdu.message_state(), Some(2));

    let receipt = pdu.receipt().expect("receipt");
    assert_eq!(receipt.id.as_deref(), Some("0a1b2"));
    assert_eq!(receipt.stat.as_deref(), Some("DELIVRD"));
}

fn alert_body() -> Vec<u8> {
    let mut body = Vec::new();
    body.push(0x01);
    body.push(0x01);
    body.extend_from_slice(b"5550123\0");
    body.push(0x01);
    body.push(0x01);
    body.extend_from_slice(b"5550188\0");
    body
}

#[test]
fn inbound_alert_notification_decodes_from_the_right_offset() {
    let mut body = alert_body();
    body.extend_from_slice(&tlv(0x0422, &[0x00]));
    let alert = decode_alert(&with_header(0x0000_0102, 11, &body));
    assert_eq!(alert.source_addr, "5550123");
    assert_eq!(alert.esme_addr, "5550188");
    assert_eq!(alert.ms_availability_status, Some(0));
}

#[test]
fn inbound_alert_notification_accepts_the_pre_1_3_bare_octet() {
    let mut body = alert_body();
    body.push(0x02);
    let alert = decode_alert(&with_header(0x0000_0102, 12, &body));
    assert_eq!(alert.source_addr, "5550123");
    assert_eq!(alert.esme_addr, "5550188");
    assert_eq!(alert.ms_availability_status, Some(2));
}

#[test]
fn alert_notification_without_a_status_is_none() {
    let alert = decode_alert(&with_header(0x0000_0102, 13, &alert_body()));
    assert_eq!(alert.ms_availability_status, None);
}

#[test]
fn py_bytes_is_the_body_type() {
    let wire = with_header(0x0000_0103, 14, &data_sm_body(&tlv(0x0424, b"x")));
    let pdu = Pdu::from_data(&decode_data_sm(&wire));
    let body: &Vec<u8> = pdu.body();
    assert_eq!(body, b"x");
}
