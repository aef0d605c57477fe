use siphon_smpp::pdu::{AlertPdu, CancelSm, DataSm, DestAddress, Pdu, QuerySm, ReplaceSm, Sm};
use siphon_smpp::script::ScriptError;
use siphon_smpp::sends::{
    acknowledged, alert_to, build_data_sm, cancel_via, check_short_message, data_to, data_via,
    deliver_to, delivered, message_id_of_data_sm_resp, queried, query_via, replace_via,
    require_receiver, submit_multi_via, submit_via, submitted, PeerAnswer, QueryAnswer, SmppResp,
};
use siphon_smpp::status::SmppStatus;
use siphon_smpp::submit::submit_outcome;
use siphon_smpp::tlv::{Tlv, TlvKey, TlvValue};

fn build_pdu(short_message: &[u8], tlvs: Vec<Tlv>) -> Result<DataSm, ScriptError> {
    build_data_sm(
        String::new(),
        1,
        1,
        "5550100".into(),
        1,
        1,
        "5550199".into(),
        0,
        1,
        0,
        short_message.to_vec(),
        tlvs,
    )
}

fn build(short_message: &[u8], tlvs: Vec<Tlv>) -> Result<Vec<u8>, ScriptError> {
    Ok(build_pdu(short_message, tlvs)?.encode(0))
}

fn expected(tlv_bytes: &[u8]) -> Vec<u8> {
    let mut body = Vec::new();
    body.push(0x00);
    body.push(0x01);
    body.push(0x01);
    body.extend_from_slice(b"5550100\0");
    body.push(0x01);
    body.push(0x01);
    body.extend_from_slice(b"5550199\0");
    body.push(0x00);
    body.push(0x01);
    body.push(0x00);
    body.extend_from_slice(tlv_bytes);

    let mut pdu = Vec::new();
    pdu.extend_from_slice(&((16 + body.len()) as u32).to_be_bytes());
    pdu.extend_from_slice(&0x0000_0103u32.to_be_bytes());
    pdu.extend_from_slice(&0u32.to_be_bytes());
    pdu.extend_from_slice(&0u32.to_be_bytes());
    pdu.extend_from_slice(&body);
    pdu
}

#[test]
fn short_message_becomes_the_message_payload_tlv() {
    let got = build(b"hello", Vec::new()).expect("builds");
    assert_eq!(
        got,
        expected(&[0x04, 0x24, 0x00, 0x05, b'h', b'e', b'l', b'l', b'o'])
    );
}

#[test]
fn a_body_over_the_short_message_limit_still_fits() {
    let long = vec![b'x'; 300];
    let got = build(&long, Vec::new()).expect("builds");
    let mut tlv = vec![0x04, 0x24, 0x01, 0x2C];
    tlv.extend_from_slice(&long);
    assert_eq!(got, expected(&tlv));
}

#[test]
fn no_body_and_no_tlvs_encodes_no_optional_parameters() {
    assert_eq!(build(b"", Vec::new()).expect("builds"), expected(&[]));
}

#[test]
fn an_explicit_message_payload_is_carried_verbatim() {
    let tlvs = vec![Tlv { tag: 0x0424, value: b"hi".to_vec() }];
    let got = build(b"", tlvs).expect("builds");
    assert_eq!(got, expected(&[0x04, 0x24, 0x00, 0x02, b'h', b'i']));
}

#[test]
fn a_body_given_twice_is_rejected_rather_than_silently_halved() {
    let tlvs = vec![Tlv { tag: 0x0424, value: b"from tlv".to_vec() }];
    let err = build(b"from short_message", tlvs).expect_err("ambiguous");
    assert!(matches!(err, ScriptError::Value(_)));
    assert!(err.message().contains("not both"));
    assert_eq!(
        err.message(),
        "data_sm: pass the body either as short_message= or as tlvs={\"MESSAGE_PAYLOAD\": …}, not both"
    );
}

#[test]
fn short_message_limit_is_the_254_byte_spec_maximum() {
    assert!(check_short_message("submit_sm", 254, true).is_ok());
    let err = check_short_message("submit_sm", 255, true).expect_err("over the limit");
    assert!(matches!(err, ScriptError::Value(_)));
    assert!(err.message().contains("MESSAGE_PAYLOAD"));
    assert_eq!(
        err.message(),
        "submit_sm short_message is 255 bytes, over the SMPP 3.4 254-byte limit — send it as \
         tlvs={\"MESSAGE_PAYLOAD\": …} with short_message=b\"\" instead"
    );

    let err = check_short_message("replace_sm", 255, false).expect_err("over the limit");
    assert!(!err.message().contains("MESSAGE_PAYLOAD"));
    assert_eq!(
        err.message(),
        "replace_sm short_message is 255 bytes, over the SMPP 3.4 254-byte limit"
    );
}

#[test]
fn a_data_sm_carries_its_body_to_the_handler() {
    let vendor = vec![Tlv { tag: 0x1400, value: vec![7] }];
    let sent = build_pdu(b"over there", vendor).expect("builds");
    let seen = Pdu::from_data(&sent);
    assert_eq!(seen.body(), b"over there");
    assert!(seen.short_message.is_empty());
    assert_eq!(
        seen.tlv(&TlvKey::Tag(0x1400)).expect("a tag").map(|v| v.as_slice()),
        Some(&[7u8][..])
    );
}

#[test]
fn the_wire_image_decodes_to_the_same_parameters() {
    let tlvs = vec![Tlv { tag: 0x020C, value: vec![0x12, 0x34] }];
    let wire = build_pdu(b"hello", tlvs).expect("builds").encode(77);
    let header = smpp34::CommandHeader::decode(&wire).expect("header decodes");
    assert_eq!(header.sequence_number, 77);
    let back = smpp34::data_sm::decode(header, &wire).expect("decodes");
    assert_eq!(back.source_addr, "5550100");
    assert_eq!(back.destination_addr, "5550199");
    assert_eq!(back.registered_delivery, 1);
    let got: Vec<(u16, Vec<u8>)> = back.tlvs.into_iter().map(|t| (t.tag, t.value)).collect();
    assert_eq!(
        got,
        vec![(0x020C, vec![0x12, 0x34]), (0x0424, b"hello".to_vec())]
    );
}

fn make_sm(short_message: Vec<u8>) -> Sm {
    Sm {
        service_type: String::new(),
        source_addr_ton: 1,
        source_addr_npi: 1,
        source_addr: "5550100".into(),
        dest_addr_ton: 2,
        dest_addr_npi: 3,
        destination_addr: "5550199".into(),
        esm_class: 0,
        protocol_id: 0,
        priority_flag: 0,
        schedule_delivery_time: String::new(),
        validity_period: String::new(),
        registered_delivery: 1,
        replace_if_present_flag: 0,
        data_coding: 0,
        sm_default_msg_id: 0,
        sm_length: 0,
        short_message,
        tlvs: Vec::new(),
    }
}

fn not_started(e: ScriptError) {
    assert!(matches!(e, ScriptError::Runtime(_)));
    assert_eq!(
        e.message(),
        "siphon-smpp runtime not started — the SMPP task is not registered"
    );
}

#[test]
fn submit_via_sets_length_and_parameters() {
    let tlvs = vec![(TlvKey::Name("sar_msg_ref_num".into()), TlvValue::Int(42))];
    let out = submit_via(true, make_sm(b"hello".to_vec()), Some(&tlvs)).expect("ready");
    assert_eq!(out.sm_length, 5);
    assert_eq!(out.short_message, b"hello");
    assert_eq!((out.tlvs[0].tag, out.tlvs[0].value.clone()), (0x020C, vec![0, 42]));
    assert_eq!(out.destination_addr, "5550199");

    not_started(submit_via(false, make_sm(vec![0; 300]), None).unwrap_err());
    // The length is looked at before the parameters.
    let bad = vec![(TlvKey::Tag(-1), TlvValue::Int(1))];
    assert!(submit_via(true, make_sm(vec![0; 300]), Some(&bad))
        .unwrap_err()
        .message()
        .starts_with("submit_sm short_message is 300 bytes"));
    assert!(submit_via(true, make_sm(Vec::new()), Some(&bad)).is_err());
    assert!(deliver_to(true, make_sm(vec![0; 255]), None)
        .unwrap_err()
        .message()
        .starts_with("deliver_sm short_message is 255 bytes"));
    assert!(deliver_to(true, make_sm(vec![0; 254]), None).is_ok());
}

#[test]
fn submit_multi_via_limits_the_destinations() {
    let some = vec!["a".to_string(), "b".to_string()];
    let out = submit_multi_via(true, make_sm(b"x".to_vec()), some, None).expect("ready");
    match &out.dest_addresses[1] {
        DestAddress::Sme { dest_addr_ton, dest_addr_npi, destination_addr } => {
            assert_eq!((*dest_addr_ton, *dest_addr_npi), (2, 3));
            assert_eq!(destination_addr, "b");
        }
        other => panic!("{other:?}"),
    }
    let many = |n: usize| vec!["5550101".to_string(); n];
    assert!(submit_multi_via(true, make_sm(Vec::new()), many(254), None).is_ok());
    let err = submit_multi_via(true, make_sm(Vec::new()), many(255), None).unwrap_err();
    assert!(matches!(err, ScriptError::Value(_)));
    assert_eq!(
        err.message(),
        "submit_sm_multi addresses 255 destinations, over the SMPP 3.4 limit of 254"
    );
    // The message is looked at before the destinations.
    assert!(submit_multi_via(true, make_sm(vec![0; 255]), many(255), None)
        .unwrap_err()
        .message()
        .starts_with("submit_sm_multi short_message is 255 bytes"));
    not_started(submit_multi_via(false, make_sm(Vec::new()), many(1), None).unwrap_err());
}

fn make_data() -> DataSm {
    build_pdu(b"", Vec::new()).expect("builds")
}

#[test]
fn data_via_folds_any_length() {
    let out = data_via(true, make_data(), vec![1; 70000], None).expect("ready");
    assert_eq!(out.tlvs[0].value.len(), 70000);
    let both = vec![(TlvKey::Tag(0x0424), TlvValue::Bytes(vec![1]))];
    assert!(data_to(true, make_data(), vec![1], Some(&both)).is_err());
    assert!(data_to(true, make_data(), Vec::new(), Some(&both)).is_ok());
    not_started(data_via(false, make_data(), vec![1], Some(&both)).unwrap_err());
}

#[test]
fn management_helpers_only_need_a_running_task() {
    let cancel = || CancelSm {
        service_type: String::new(),
        message_id: "m".into(),
        source_addr_ton: 1,
        source_addr_npi: 1,
        source_addr: String::new(),
        dest_addr_ton: 1,
        dest_addr_npi: 1,
        destination_addr: String::new(),
    };
    assert_eq!(cancel_via(true, cancel()).expect("ready").message_id, "m");
    not_started(cancel_via(false, cancel()).unwrap_err());

    let query = || QuerySm {
        message_id: "q".into(),
        source_addr_ton: 1,
        source_addr_npi: 1,
        source_addr: String::new(),
    };
    assert_eq!(query_via(true, query()).expect("ready").message_id, "q");
    not_started(query_via(false, query()).unwrap_err());

    let replace = |n: usize| ReplaceSm {
        message_id: "r".into(),
        source_addr_ton: 1,
        source_addr_npi: 1,
        source_addr: String::new(),
        schedule_delivery_time: String::new(),
        validity_period: String::new(),
        registered_delivery: 0,
        sm_default_msg_id: 0,
        sm_length: 0,
        short_message: vec![0; n],
    };
    assert_eq!(replace_via(true, replace(254)).expect("ready").sm_length, 254);
    assert!(matches!(
        replace_via(true, replace(255)),
        Err(ScriptError::Value(_))
    ));
    not_started(replace_via(false, replace(255)).unwrap_err());

    let alert = || AlertPdu {
        source_addr_ton: 1,
        source_addr_npi: 1,
        source_addr: "a".into(),
        esme_addr_ton: 1,
        esme_addr_npi: 1,
        esme_addr: "b".into(),
        ms_availability_status: None,
    };
    assert_eq!(alert_to(true, alert()).expect("ready").esme_addr, "b");
    not_started(alert_to(false, alert()).unwrap_err());
}

#[test]
fn only_receivers_are_delivered_to() {
    assert!(require_receiver("s1", true, "deliver_sm").is_ok());
    let err = require_receiver("s1", false, "deliver_sm").unwrap_err();
    assert!(matches!(err, ScriptError::Runtime(_)));
    assert_eq!(
        err.message(),
        "esme session \"s1\" is not RX/TRX — cannot deliver_sm"
    );
}

fn answer(command_status: SmppStatus, id: Option<&str>) -> PeerAnswer {
    PeerAnswer { command_status, message_id: id.map(|s| s.to_string()) }
}

#[test]
fn answers_become_responses() {
    let ok = SmppStatus::ESME_ROK;
    let r = submitted("alpha", "submit_sm", Ok(answer(ok, Some("id-1")))).expect("ok");
    assert!(r.ok());
    assert_eq!(r.message_id, "id-1");
    assert_eq!(
        r.repr(),
        "SmppResp(command_status=\"ESME_ROK\", message_id=\"id-1\")"
    );
    let r = submitted("alpha", "submit_sm", Ok(answer(ok, None))).expect("ok");
    assert_eq!(r.message_id, "");
    let err = submitted("alpha", "submit_sm", Err(SmppStatus::ESME_RTHROTTLED)).unwrap_err();
    assert!(matches!(err, ScriptError::Runtime(_)));
    assert_eq!(
        err.message(),
        "bind \"alpha\" submit_sm failed: ESME_RTHROTTLED"
    );

    assert!(acknowledged("alpha", "cancel_sm", Ok(ok)).expect("ok").ok());
    assert_eq!(
        acknowledged("alpha", "cancel_sm", Err(SmppStatus::ESME_RCANCELFAIL))
            .unwrap_err()
            .message(),
        "bind \"alpha\" cancel_sm failed: ESME_RCANCELFAIL"
    );

    let answer = QueryAnswer {
        command_status: ok,
        message_id: "q".into(),
        message_state: 2,
        final_date: "2401".into(),
        error_code: 9,
    };
    let q = queried("alpha", Ok(answer)).expect("ok");
    assert!(q.ok());
    assert_eq!(
        q.repr(),
        "QueryResp(command_status=\"ESME_ROK\", message_id=\"q\", message_state=2, \
         final_date=\"2401\", error_code=9)"
    );
    assert_eq!(
        queried("alpha", Err(SmppStatus::ESME_RQUERYFAIL)).unwrap_err().message(),
        "bind \"alpha\" query_sm failed: ESME_RQUERYFAIL"
    );

    assert!(delivered("s1", "deliver_sm", Ok(ok)).expect("ok").ok());
    assert_eq!(
        delivered("s1", "deliver_sm", Err(SmppStatus::ESME_RX_T_APPN))
            .unwrap_err()
            .message(),
        "deliver_sm to session \"s1\" failed: ESME_RX_T_APPN"
    );
    assert!(SmppResp::ok_with(String::new()).ok());
}

#[test]
fn a_refusal_by_the_peer_is_a_response_that_is_not_ok() {
    let no = SmppStatus::ESME_RTHROTTLED;
    let r = submitted("alpha", "submit_sm", Ok(answer(no, None))).expect("answered");
    assert!(!r.ok());
    assert_eq!(r.command_status, "ESME_RTHROTTLED");
    assert!(!acknowledged("alpha", "cancel_sm", Ok(no)).expect("answered").ok());
    assert!(!delivered("s1", "deliver_sm", Ok(no)).expect("answered").ok());
    let q = QueryAnswer {
        command_status: SmppStatus::ESME_RQUERYFAIL,
        message_id: String::new(),
        message_state: 0,
        final_date: String::new(),
        error_code: 0,
    };
    assert!(!queried("alpha", Ok(q)).expect("answered").ok());
}

#[test]
fn a_data_sm_resp_gives_its_message_id() {
    let request = || {
        smpp34::data_sm::new(
            5,
            String::new(),
            1,
            1,
            "a".to_string(),
            1,
            1,
            "b".to_string(),
            0,
            0,
            0,
        )
    };
    let accepted = request().accept("id-é".to_string()).encode();
    assert_eq!(message_id_of_data_sm_resp(&accepted).as_deref(), Some("id-é"));
    // A refusal has parameters where an acceptance has its id.
    let refused = request()
        .reject(smpp34::SmppError::ESME_RSYSERR)
        .with_tlvs([smpp34::Tlv::new(0x0425, vec![1])])
        .encode();
    assert_eq!(message_id_of_data_sm_resp(&refused), None);
    assert_eq!(message_id_of_data_sm_resp(&vec![0; 16]), None);
    assert_eq!(message_id_of_data_sm_resp(&vec![0; 3]), None);
}

#[test]
fn the_first_submit_shape_answers_alike() {
    let ok = SmppStatus::ESME_ROK;
    let r = submit_outcome("alpha", Ok(answer(ok, Some("id")))).expect("ok");
    assert_eq!(
        r.repr(),
        "SubmitResp(command_status=\"ESME_ROK\", message_id=\"id\")"
    );
    assert_eq!(
        submit_outcome("alpha", Err(SmppStatus::ESME_RSYSERR)).unwrap_err().message(),
        "bind \"alpha\" submit_sm failed: ESME_RSYSERR"
    );
}
