use siphon_smpp::auth::{
    answer_bind, dispatch_bind, is_dispatched, Bind, BindAnswer, BindKind, BindResult, BindReturn,
};
use siphon_smpp::pdu::{
    AlertNotification, AlertPdu, CancelSm, DestAddress, Pdu, QuerySm, ReplaceSm, Sm, SubmitMulti,
};
use siphon_smpp::receipt::{state_text, Receipt, ReceiptValue};
use siphon_smpp::reply::PduReply;
use siphon_smpp::script::ScriptError;
use siphon_smpp::sessions::{Session, SourceKind};
use siphon_smpp::status::{parse_smpp_status, SmppStatus};
use siphon_smpp::tlv::{Tlv, TlvKey, TlvValue};

fn make_pdu(esm_class: u8) -> Pdu {
    Pdu {
        command: "submit_sm".into(),
        message_id: String::new(),
        service_type: String::new(),
        source_addr_ton: 1,
        source_addr_npi: 1,
        source_addr: "12345".into(),
        dest_addr_ton: 1,
        dest_addr_npi: 1,
        destination_addr: "67890".into(),
        esm_class,
        protocol_id: 0,
        priority_flag: 0,
        registered_delivery: 0,
        data_coding: 0,
        sm_length: 0,
        short_message: Vec::new(),
        destinations: Vec::new(),
        tlvs: Vec::new(),
    }
}

fn make_sm() -> Sm {
    Sm {
        service_type: "CMT".into(),
        source_addr_ton: 1,
        source_addr_npi: 2,
        source_addr: "15550100".into(),
        dest_addr_ton: 3,
        dest_addr_npi: 4,
        destination_addr: "15550199".into(),
        esm_class: 5,
        protocol_id: 6,
        priority_flag: 7,
        schedule_delivery_time: "later".into(),
        validity_period: "long".into(),
        registered_delivery: 8,
        replace_if_present_flag: 9,
        data_coding: 10,
        sm_default_msg_id: 11,
        sm_length: 2,
        short_message: b"hi".to_vec(),
        tlvs: vec![Tlv { tag: 0x0427, value: vec![2] }],
    }
}

#[test]
fn parse_smpp_status_known_values() {
    assert_eq!(parse_smpp_status("ESME_ROK").unwrap(), SmppStatus::ESME_ROK);
    assert_eq!(
        parse_smpp_status("ESME_RSUBMITFAIL").unwrap(),
        SmppStatus::ESME_RSUBMITFAIL
    );
    assert_eq!(
        parse_smpp_status("ESME_RINVDSTADR").unwrap(),
        SmppStatus::ESME_RINVDSTADR
    );
    assert_eq!(
        parse_smpp_status("ESME_RX_T_APPN").unwrap(),
        SmppStatus::ESME_RX_T_APPN
    );
}

#[test]
fn parse_smpp_status_unknown_is_value_error() {
    let err = parse_smpp_status("ESME_NOPE").unwrap_err();
    assert!(matches!(err, ScriptError::Value(_)));
    assert!(err.message().contains("unknown SMPP status"));
    assert_eq!(err.message(), "unknown SMPP status: \"ESME_NOPE\"");
    // Spelled exactly, and only what a script may name.
    assert!(parse_smpp_status("esme_rok").is_err());
    assert!(parse_smpp_status("ESME_RUNKNOWNERR").is_err());
}

#[test]
fn statuses_carry_the_codecs_numbers_and_names() {
    let mut known = 0;
    for code in 0..0x500u32 {
        let codec = smpp34::SmppError::from_command_status(code);
        match SmppStatus::from_code(code) {
            Some(status) => {
                known += 1;
                assert_eq!(codec as u32, code);
                assert_eq!(status.code(), code);
                assert_eq!(status.name(), format!("{codec:?}"));
                assert_eq!(status.is_ok(), code == 0);
                if let Ok(parsed) = parse_smpp_status(status.name()) {
                    assert_eq!(parsed, status);
                }
            }
            None => assert_eq!(codec, smpp34::SmppError::ESME_RUNKNOWNERR),
        }
    }
    assert_eq!(known, 48);
}

#[test]
fn pdu_reply_default_ok() {
    let r = PduReply::default_ok();
    assert_eq!(r.command_status, SmppStatus::ESME_ROK);
    assert!(r.message_id.is_none());
}

#[test]
fn pdu_reply_new_accept_with_message_id() {
    let r = PduReply::new("ESME_ROK".to_string(), Some("msg-123".to_string()))
        .expect("ESME_ROK is valid");
    assert_eq!(r.command_status, SmppStatus::ESME_ROK);
    assert_eq!(r.message_id.as_deref(), Some("msg-123"));
    assert_eq!(
        r.repr(),
        "PduReply(command_status=ESME_ROK, message_id=Some(\"msg-123\"))"
    );
}

#[test]
fn pdu_reply_new_reject_with_status() {
    let r =
        PduReply::new("ESME_RSUBMITFAIL".to_string(), None).expect("ESME_RSUBMITFAIL is valid");
    assert_eq!(r.command_status, SmppStatus::ESME_RSUBMITFAIL);
    assert!(r.message_id.is_none());
    assert_eq!(
        r.repr(),
        "PduReply(command_status=ESME_RSUBMITFAIL, message_id=None)"
    );
}

#[test]
fn pdu_reply_new_rejects_unknown_status() {
    assert!(PduReply::new("ESME_BOGUS".to_string(), None).is_err());
}

#[test]
fn pdu_reply_default_signature_is_rok() {
    let r = PduReply::new("ESME_ROK".to_string(), None).unwrap();
    assert_eq!(r.command_status, SmppStatus::ESME_ROK);
    assert!(r.message_id.is_none());
}

#[test]
fn pdu_reply_builds_via_pdu_reply_method() {
    let pdu = make_pdu(0x00);
    let ok = pdu
        .reply("ESME_ROK".to_string(), Some("abc".to_string()))
        .unwrap();
    assert_eq!(ok.command_status, SmppStatus::ESME_ROK);
    assert_eq!(ok.message_id.as_deref(), Some("abc"));
    let rej = pdu.reply("ESME_RINVDSTADR".to_string(), None).unwrap();
    assert_eq!(rej.command_status, SmppStatus::ESME_RINVDSTADR);
}

#[test]
fn reply_tlvs_ride_on_data_sm_only() {
    let tlvs = vec![(
        TlvKey::Name("DELIVERY_FAILURE_REASON".to_string()),
        TlvValue::Int(1),
    )];
    let mut data = make_pdu(0x00);
    data.command = "data_sm".into();
    let r = data
        .reply_with_tlvs("ESME_RX_P_APPN".to_string(), None, &tlvs)
        .unwrap();
    assert_eq!(r.command_status, SmppStatus::ESME_RX_P_APPN);
    assert_eq!(r.tlvs.len(), 1);
    assert_eq!((r.tlvs[0].tag, r.tlvs[0].value.clone()), (0x0425, vec![1]));

    let submit = make_pdu(0x00);
    let err = submit
        .reply_with_tlvs("ESME_ROK".to_string(), None, &tlvs)
        .unwrap_err();
    assert!(matches!(err, ScriptError::Value(_)));
    assert!(submit
        .reply_with_tlvs("ESME_ROK".to_string(), None, &Vec::new())
        .is_ok());
    // The status is looked at first, then the parameters.
    let bad = vec![(TlvKey::Tag(-1), TlvValue::Int(1))];
    assert!(submit
        .reply_with_tlvs("NOPE".to_string(), None, &bad)
        .unwrap_err()
        .message()
        .starts_with("unknown SMPP status"));
    assert!(submit
        .reply_with_tlvs("ESME_ROK".to_string(), None, &bad)
        .unwrap_err()
        .message()
        .starts_with("TLV tag -1"));
}

#[test]
fn pdu_reply_query_builds_query_reply() {
    let mut pdu = make_pdu(0x00);
    pdu.command = "query_sm".into();
    pdu.message_id = "msg-42".into();
    let r = pdu.reply_query(2, None, "2401011200".to_string(), 0);
    assert_eq!(r.command_status, SmppStatus::ESME_ROK);
    assert_eq!(r.message_state, Some(2));
    assert_eq!(r.message_id.as_deref(), Some("msg-42"));
    assert_eq!(r.final_date, "2401011200");
    let r2 = pdu.reply_query(7, Some("other".to_string()), String::new(), 9);
    assert_eq!(r2.message_id.as_deref(), Some("other"));
    assert_eq!(r2.error_code, 9);
}

#[test]
fn pdu_from_query_maps_fields() {
    let codec = smpp34::query_sm::new(1, "qid-7".to_string(), 1, 1, "15550101".to_string());
    let q = QuerySm {
        message_id: codec.message_id.clone(),
        source_addr_ton: codec.source_addr_ton,
        source_addr_npi: codec.source_addr_npi,
        source_addr: codec.source_addr.clone(),
    };
    let pdu = Pdu::from_query(&q);
    assert_eq!(pdu.command, "query_sm");
    assert_eq!(pdu.message_id, "qid-7");
    assert_eq!(pdu.source_addr, "15550101");
}

#[test]
fn pdu_from_submit_and_deliver_keep_every_parameter() {
    let sm = make_sm();
    for (pdu, command) in [
        (Pdu::from_submit(&sm), "submit_sm"),
        (Pdu::from_deliver(&sm), "deliver_sm"),
    ] {
        assert_eq!(pdu.command, command);
        assert_eq!(pdu.message_id, "");
        assert_eq!(pdu.service_type, "CMT");
        assert_eq!((pdu.source_addr_ton, pdu.source_addr_npi), (1, 2));
        assert_eq!(pdu.source_addr, "15550100");
        assert_eq!((pdu.dest_addr_ton, pdu.dest_addr_npi), (3, 4));
        assert_eq!(pdu.destination_addr, "15550199");
        assert_eq!((pdu.esm_class, pdu.protocol_id, pdu.priority_flag), (5, 6, 7));
        assert_eq!((pdu.registered_delivery, pdu.data_coding), (8, 10));
        assert_eq!(pdu.sm_length, 2);
        assert_eq!(pdu.short_message, b"hi");
        assert_eq!(pdu.message_state(), Some(2));
        assert_eq!(
            pdu.repr(),
            format!(
                "Pdu(command={command}, source_addr=15550100, destination_addr=15550199, \
                 esm_class=0x05, dcs=0x0a, len=2)"
            )
        );
    }
}

#[test]
fn pdu_from_submit_multi_lists_the_destinations() {
    let sm = make_sm();
    let multi = SubmitMulti {
        service_type: sm.service_type,
        source_addr_ton: sm.source_addr_ton,
        source_addr_npi: sm.source_addr_npi,
        source_addr: sm.source_addr,
        dest_addresses: vec![
            DestAddress::Sme {
                dest_addr_ton: 1,
                dest_addr_npi: 1,
                destination_addr: "15550101".into(),
            },
            DestAddress::DistributionList { dl_name: "friends".into() },
        ],
        esm_class: 0,
        protocol_id: 0,
        priority_flag: 0,
        schedule_delivery_time: String::new(),
        validity_period: String::new(),
        registered_delivery: 0,
        replace_if_present_flag: 0,
        data_coding: 0,
        sm_default_msg_id: 0,
        sm_length: 2,
        short_message: b"hi".to_vec(),
        tlvs: Vec::new(),
    };
    let pdu = Pdu::from_submit_multi(&multi);
    assert_eq!(pdu.command, "submit_sm_multi");
    assert_eq!(pdu.destinations, vec!["15550101", "friends"]);
    assert_eq!(pdu.destination_addr, "");
}

#[test]
fn pdu_from_cancel_and_replace_identify_the_message() {
    let c = Pdu::from_cancel(&CancelSm {
        service_type: "CMT".into(),
        message_id: "id-1".into(),
        source_addr_ton: 1,
        source_addr_npi: 1,
        source_addr: "a".into(),
        dest_addr_ton: 2,
        dest_addr_npi: 2,
        destination_addr: "b".into(),
    });
    assert_eq!((c.command.as_str(), c.message_id.as_str()), ("cancel_sm", "id-1"));
    assert_eq!((c.source_addr.as_str(), c.destination_addr.as_str()), ("a", "b"));

    let r = Pdu::from_replace(&ReplaceSm {
        message_id: "id-2".into(),
        source_addr_ton: 1,
        source_addr_npi: 1,
        source_addr: "a".into(),
        schedule_delivery_time: String::new(),
        validity_period: String::new(),
        registered_delivery: 1,
        sm_default_msg_id: 0,
        sm_length: 3,
        short_message: b"new".to_vec(),
    });
    assert_eq!((r.command.as_str(), r.message_id.as_str()), ("replace_sm", "id-2"));
    assert_eq!(r.short_message, b"new");
    assert_eq!((r.registered_delivery, r.sm_length), (1, 3));
}

#[test]
fn pdu_is_tpdu_reflects_udhi_bit() {
    assert!(make_pdu(0x40).is_tpdu());
    assert!(make_pdu(0xC0).is_tpdu());
    assert!(!make_pdu(0x00).is_tpdu());
    assert!(!make_pdu(0x01).is_tpdu());
}

#[test]
fn pdu_is_dlr_reflects_receipt_bit() {
    assert!(make_pdu(0x04).is_dlr());
    assert!(make_pdu(0x44).is_dlr());
    assert!(!make_pdu(0x00).is_dlr());
    assert!(!make_pdu(0x40).is_dlr());
}

#[test]
fn receipt_parses_canonical_form() {
    let body = b"id:0a1b2c3d sub:001 dlvrd:001 submit date:2401011200 \
                 done date:2401011201 stat:DELIVRD err:000 text:Hello world";
    let r = Receipt::parse(body).expect("a canonical receipt parses");
    assert_eq!(r.id.as_deref(), Some("0a1b2c3d"));
    assert_eq!(r.sub.as_deref(), Some("001"));
    assert_eq!(r.dlvrd.as_deref(), Some("001"));
    assert_eq!(r.submit_date.as_deref(), Some("2401011200"));
    assert_eq!(r.done_date.as_deref(), Some("2401011201"));
    assert_eq!(r.stat.as_deref(), Some("DELIVRD"));
    assert_eq!(r.err.as_deref(), Some("000"));
    assert_eq!(r.text.as_deref(), Some("Hello world"));
}

#[test]
fn receipt_tolerates_missing_keys() {
    let r = Receipt::parse(b"id:XYZ stat:EXPIRED").expect("minimal receipt parses");
    assert_eq!(r.id.as_deref(), Some("XYZ"));
    assert_eq!(r.stat.as_deref(), Some("EXPIRED"));
    assert!(r.sub.is_none());
    assert!(r.text.is_none());
}

#[test]
fn receipt_non_receipt_body_is_none() {
    assert!(Receipt::parse(b"hey are we still on for lunch?").is_none());
}

#[test]
fn receipt_text_runs_to_the_end_of_the_body() {
    let r = Receipt::parse(b"id:1 stat:DELIVRD text: see sub:7, id:9 ").expect("parses");
    assert_eq!(r.text.as_deref(), Some("see sub:7, id:9"));
    assert_eq!(r.id.as_deref(), Some("1"));
    assert_eq!(r.stat.as_deref(), Some("DELIVRD"));
}

#[test]
fn receipt_values_may_hold_colons() {
    let r = Receipt::parse(b"id:a:b stat:X:id:9 err:0").expect("parses");
    assert_eq!(r.id.as_deref(), Some("a:b"));
    assert_eq!(r.stat.as_deref(), Some("X:id:9"));
    assert_eq!(r.err.as_deref(), Some("0"));
}

#[test]
fn receipt_keys_stand_in_any_case_and_order() {
    let r = Receipt::parse("  STAT:\tUNDELIV  Done Date: 2401  ID: é ".as_bytes()).expect("parses");
    assert_eq!(r.stat.as_deref(), Some("UNDELIV"));
    assert_eq!(r.done_date.as_deref(), Some("2401"));
    assert_eq!(r.id.as_deref(), Some("é"));
    assert_eq!(r.raw, "  STAT:\tUNDELIV  Done Date: 2401  ID: é ");
    // The first of two wins, and the second ends nothing.
    let r = Receipt::parse(b"id:1 id:2 err:5").expect("parses");
    assert_eq!(r.id.as_deref(), Some("1 id:2"));
    assert_eq!(r.err.as_deref(), Some("5"));
    // A key with nothing behind it is empty.
    let r = Receipt::parse(b"id:stat:").expect("parses");
    assert_eq!((r.id.as_deref(), r.stat.as_deref()), (Some(""), Some("")));
}

#[test]
fn receipt_reads_what_is_not_utf8() {
    let r = Receipt::parse(b"id:\xFF1 stat:X").expect("parses");
    assert_eq!(r.id.as_deref(), Some("\u{FFFD}1"));
    assert_eq!(r.raw, "id:\u{FFFD}1 stat:X");
}

fn entry(d: &[(&'static str, ReceiptValue)], key: &str) -> Option<String> {
    d.iter().find(|(k, _)| *k == key).map(|(_, v)| match v {
        ReceiptValue::Text(s) => s.clone(),
        ReceiptValue::Int(n) => n.to_string(),
    })
}

#[test]
fn receipt_getter_only_fires_for_dlr() {
    let mut pdu = make_pdu(0x00);
    pdu.short_message = b"id:1 stat:DELIVRD".to_vec();
    assert!(pdu.receipt().is_none());

    let mut dlr = make_pdu(0x04);
    dlr.short_message = b"id:1 stat:DELIVRD err:000".to_vec();
    let d = dlr.receipt().expect("dlr with body yields a dict").fill_dict();
    assert_eq!(entry(&d, "id").as_deref(), Some("1"));
    assert_eq!(entry(&d, "stat").as_deref(), Some("DELIVRD"));
    let keys: Vec<&str> = d.iter().map(|(k, _)| *k).collect();
    assert_eq!(keys, vec!["id", "stat", "err", "raw"]);
}

#[test]
fn receipt_text_wins_and_parameters_fill_the_gaps() {
    let mut dlr = make_pdu(0x04);
    dlr.short_message = b"id:from-text err:001".to_vec();
    dlr.tlvs = vec![
        Tlv { tag: 0x001E, value: b"from-tlv\0".to_vec() },
        Tlv { tag: 0x0427, value: vec![5] },
    ];
    let r = dlr.receipt().expect("receipt");
    assert_eq!(r.id.as_deref(), Some("from-text"));
    assert_eq!(r.stat.as_deref(), Some("UNDELIV"));
    assert_eq!(r.message_state, Some(5));
    assert_eq!(entry(&r.fill_dict(), "message_state").as_deref(), Some("5"));

    // Parameters alone make a receipt; neither makes none.
    dlr.short_message = b"plain".to_vec();
    let r = dlr.receipt().expect("receipt");
    assert_eq!(r.id.as_deref(), Some("from-tlv"));
    assert_eq!(r.raw, "plain");
    dlr.tlvs = Vec::new();
    assert!(dlr.receipt().is_none());

    // The body is read wherever the peer put it.
    dlr.short_message = Vec::new();
    dlr.tlvs = vec![Tlv { tag: 0x0424, value: b"id:7".to_vec() }];
    assert_eq!(dlr.receipt().expect("receipt").id.as_deref(), Some("7"));
}

#[test]
fn message_states_have_status_words() {
    let words: Vec<Option<String>> = (0..=9).map(state_text).collect();
    let expected = [
        None,
        Some("ENROUTE"),
        Some("DELIVRD"),
        Some("EXPIRED"),
        Some("DELETED"),
        Some("UNDELIV"),
        Some("ACCEPTD"),
        Some("UNKNOWN"),
        Some("REJECTD"),
        None,
    ];
    assert_eq!(words.iter().map(|w| w.as_deref()).collect::<Vec<_>>(), expected);
}

fn make_bind() -> Bind {
    Bind {
        system_id: "esme1".into(),
        password: "pw".into(),
        client_addr: "203.0.113.5:5000".into(),
    }
}

#[test]
fn bind_accept_yields_accept_result() {
    let r = make_bind().accept();
    assert!(r.accept);
    assert_eq!(r.status, SmppStatus::ESME_ROK);
    assert_eq!(r.repr(), "BindResult(accept)");
}

#[test]
fn bind_reject_carries_status_and_reason() {
    let b = make_bind();
    let r = b
        .reject("ESME_RINVPASWD".to_string(), "bad password".to_string())
        .unwrap();
    assert!(!r.accept);
    assert_eq!(r.status, SmppStatus::ESME_RINVPASWD);
    assert_eq!(r.reason, "bad password");
    assert_eq!(
        r.repr(),
        "BindResult(reject, status=ESME_RINVPASWD, reason=\"bad password\")"
    );

    let d = b
        .reject("ESME_RBINDFAIL".to_string(), String::new())
        .unwrap();
    assert_eq!(d.status, SmppStatus::ESME_RBINDFAIL);
    assert_eq!(d.reason, "");
}

#[test]
fn bind_reject_unknown_status_errors() {
    let b = Bind {
        system_id: "x".into(),
        password: "y".into(),
        client_addr: "z".into(),
    };
    assert!(b.reject("ESME_BOGUS".to_string(), String::new()).is_err());
}

#[test]
fn bind_result_bool_reflects_accept() {
    let yes = BindResult {
        accept: true,
        status: SmppStatus::ESME_ROK,
        reason: String::new(),
    };
    let no = BindResult {
        accept: false,
        status: SmppStatus::ESME_RBINDFAIL,
        reason: "nope".into(),
    };
    assert!(yes.is_accepted());
    assert!(!no.is_accepted());
}

#[test]
fn a_bind_shows_without_its_password() {
    assert_eq!(
        make_bind().repr(),
        "Bind(system_id=\"esme1\", client_addr=\"203.0.113.5:5000\")"
    );
}

#[test]
fn binds_are_closed_unless_the_handler_says_yes() {
    let cases = [
        (BindReturn::NoHandler, "no @smpp.on_bind handler registered"),
        (
            BindReturn::ArgsFailed("e".into()),
            "building bind args failed: e",
        ),
        (BindReturn::Raised("boom".into()), "@smpp.on_bind raised: boom"),
        (BindReturn::Nothing, "handler returned None"),
        (
            BindReturn::Other(Some(false)),
            "handler returned a non-truthy value",
        ),
        (BindReturn::Other(None), "handler returned a non-truthy value"),
    ];
    for (returned, reason) in cases {
        let r = dispatch_bind(returned);
        assert!(!r.accept);
        assert_eq!(r.status, SmppStatus::ESME_RBINDFAIL);
        assert_eq!(r.reason, reason);
    }
    let yes = dispatch_bind(BindReturn::Other(Some(true)));
    assert!(yes.accept && yes.status == SmppStatus::ESME_ROK && yes.reason.is_empty());
    let rejected = make_bind()
        .reject("ESME_RINVSYSID".to_string(), "who?".to_string())
        .unwrap();
    let r = dispatch_bind(BindReturn::Result(rejected));
    assert!(!r.accept && r.status == SmppStatus::ESME_RINVSYSID && r.reason == "who?");
    assert!(dispatch_bind(BindReturn::Result(make_bind().accept())).accept);
}

#[test]
fn only_transceivers_are_asked_about() {
    let yes = make_bind().accept();
    let id = "esme1".to_string();
    assert!(is_dispatched(BindKind::Transceiver));
    for kind in [BindKind::Transmitter, BindKind::Receiver] {
        assert!(!is_dispatched(kind));
        assert!(matches!(
            answer_bind(kind, &yes, &id),
            BindAnswer::Reject(SmppStatus::ESME_RINVSYSID)
        ));
    }
    match answer_bind(BindKind::Transceiver, &yes, &id) {
        BindAnswer::Accept { system_id, interface_version } => {
            assert_eq!(system_id, "esme1");
            assert_eq!(interface_version, 0x34);
        }
        other => panic!("{other:?}"),
    }
    let no = make_bind()
        .reject("ESME_RINVPASWD".to_string(), String::new())
        .unwrap();
    assert!(matches!(
        answer_bind(BindKind::Transceiver, &no, &id),
        BindAnswer::Reject(SmppStatus::ESME_RINVPASWD)
    ));
}

#[test]
fn session_kind_renders_string() {
    let bind_sess = Session {
        kind: SourceKind::Bind,
        session_id: "s1".into(),
        system_id: "agg".into(),
        client_addr: "198.51.100.7:2775".into(),
    };
    assert_eq!(bind_sess.kind(), "bind");

    let esme_sess = Session {
        kind: SourceKind::EsmeServer,
        session_id: "s2".into(),
        system_id: "client".into(),
        client_addr: "198.51.100.8:1234".into(),
    };
    assert_eq!(esme_sess.kind(), "esme");
    assert_eq!(
        esme_sess.repr(),
        "Session(kind=esme, system_id=\"client\", session_id=\"s2\", \
         client_addr=\"198.51.100.8:1234\")"
    );
}

#[test]
fn alert_notification_shows_what_it_carries() {
    let a = AlertNotification::from_alert(&AlertPdu {
        source_addr_ton: 1,
        source_addr_npi: 2,
        source_addr: "5550123".into(),
        esme_addr_ton: 1,
        esme_addr_npi: 1,
        esme_addr: "5550188".into(),
        ms_availability_status: Some(2),
    });
    assert_eq!(a.command(), "alert_notification");
    assert_eq!((a.source_addr_ton, a.source_addr_npi), (1, 2));
    assert_eq!(
        a.repr(),
        "AlertNotification(source_addr=\"5550123\", esme_addr=\"5550188\", \
         ms_availability_status=Some(2))"
    );
}
