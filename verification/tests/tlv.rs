use siphon_smpp::script::ScriptError;
use siphon_smpp::tlv::{
    describe_tag, get_text, get_u16, get_u8, int_width, name_for_tag, tag_from_name, tag_from_py,
    tlvs_from_py, tlvs_to_py, value_to_bytes, Tlv, TlvKey, TlvValue,
};

fn encode(tag: &str, value: &TlvValue) -> Vec<u8> {
    let tag = tag_from_name(tag).expect("known tag");
    Tlv {
        tag,
        value: value_to_bytes(tag, value).expect("encodes"),
    }
    .encode()
}

#[test]
fn message_payload_bytes_encode_to_spec_layout() {
    let v = TlvValue::Bytes(b"hi".to_vec());
    assert_eq!(
        encode("MESSAGE_PAYLOAD", &v),
        vec![0x04, 0x24, 0x00, 0x02, 0x68, 0x69]
    );
}

#[test]
fn receipted_message_id_str_is_nul_terminated() {
    let v = TlvValue::Text("0a1b2".to_string());
    assert_eq!(
        encode("RECEIPTED_MESSAGE_ID", &v),
        vec![0x00, 0x1E, 0x00, 0x06, 0x30, 0x61, 0x31, 0x62, 0x32, 0x00]
    );
}

#[test]
fn integer_tags_use_their_spec_width_not_the_value() {
    let two = TlvValue::Int(2);
    assert_eq!(
        encode("MESSAGE_STATE", &two),
        vec![0x04, 0x27, 0x00, 0x01, 0x02]
    );
    assert_eq!(
        encode("SAR_MSG_REF_NUM", &two),
        vec![0x02, 0x0C, 0x00, 0x02, 0x00, 0x02]
    );
    assert_eq!(
        encode("QOS_TIME_TO_LIVE", &two),
        vec![0x00, 0x17, 0x00, 0x04, 0x00, 0x00, 0x00, 0x02]
    );
}

#[test]
fn sar_msg_ref_num_is_big_endian() {
    let v = TlvValue::Int(4660);
    assert_eq!(
        encode("SAR_MSG_REF_NUM", &v),
        vec![0x02, 0x0C, 0x00, 0x02, 0x12, 0x34]
    );
}

#[test]
fn tag_names_are_case_insensitive_and_accept_the_tlv_prefix() {
    assert_eq!(tag_from_name("MESSAGE_PAYLOAD"), Some(0x0424));
    assert_eq!(tag_from_name("message_payload"), Some(0x0424));
    assert_eq!(tag_from_name("TLV_MESSAGE_PAYLOAD"), Some(0x0424));
    assert_eq!(tag_from_name("  MESSAGE_STATE  "), Some(0x0427));
    assert_eq!(tag_from_name("NOPE"), None);
    assert_eq!(tag_from_name("TLV_TLV_MESSAGE_PAYLOAD"), None);
}

#[test]
fn every_int_width_tag_is_a_known_tag() {
    let mut seen = 0;
    for tag in 0..=u16::MAX {
        if let Some(width) = int_width(tag) {
            seen += 1;
            assert!(
                name_for_tag(tag).is_some(),
                "0x{tag:04X} missing from the table"
            );
            assert!(matches!(width, 1 | 2 | 4), "odd width {width}");
        }
    }
    assert_eq!(seen, 34);
}

#[test]
fn the_table_is_the_codecs_own() {
    let mut n = 0;
    for (name, tag) in smpp34::TlvTag::ALL {
        assert_eq!(tag_from_name(name), Some(*tag as u16));
        assert_eq!(name_for_tag(*tag as u16), Some(*name));
        n += 1;
    }
    assert_eq!(n, 44);
    assert_eq!((0..=u16::MAX).filter(|t| name_for_tag(*t).is_some()).count(), 44);
}

#[test]
fn unknown_tag_name_is_a_value_error() {
    let err = tag_from_py(&TlvKey::Name("NOT_A_TAG".to_string())).expect_err("unknown name");
    assert!(matches!(err, ScriptError::Value(_)));
    assert_eq!(
        err.message(),
        "unknown TLV name \"NOT_A_TAG\" — use an SMPP 3.4 optional-parameter \
         name (e.g. \"MESSAGE_PAYLOAD\") or a raw integer tag for a \
         vendor-specific parameter"
    );
}

#[test]
fn raw_integer_tags_pass_through_and_range_is_checked() {
    assert_eq!(tag_from_py(&TlvKey::Tag(0x1400)).expect("in range"), 0x1400);
    let err = tag_from_py(&TlvKey::Tag(70000)).expect_err("out of range rejected");
    assert!(matches!(err, ScriptError::Value(_)));
    assert_eq!(
        err.message(),
        "TLV tag 70000 out of range — a tag is a 16-bit unsigned integer"
    );
    let err = tag_from_py(&TlvKey::Tag(-1)).expect_err("negative rejected");
    assert_eq!(
        err.message(),
        "TLV tag -1 out of range — a tag is a 16-bit unsigned integer"
    );
    assert_eq!(tag_from_py(&TlvKey::Tag(65535)).expect("in range"), 65535);
}

#[test]
fn a_key_of_another_type_is_a_type_error() {
    let err = tag_from_py(&TlvKey::Other("float".to_string())).expect_err("float rejected");
    assert!(matches!(err, ScriptError::Type(_)));
    assert_eq!(
        err.message(),
        "TLV key must be a name or an integer tag, got float"
    );
    let err = tag_from_py(&TlvKey::Unreadable(3)).expect_err("kept");
    assert!(matches!(err, ScriptError::Pending(3)));
}

#[test]
fn non_integer_tag_rejects_an_int_value() {
    let v = TlvValue::Int(2);
    let err = value_to_bytes(0x0424, &v).expect_err("int rejected");
    assert!(matches!(err, ScriptError::Value(_)));
    assert!(err.message().starts_with("TLV MESSAGE_PAYLOAD (0x0424) is not an integer-typed"));
    let err = value_to_bytes(0x1400, &v).expect_err("int rejected");
    assert!(matches!(err, ScriptError::Value(_)));
    assert!(err.message().starts_with("TLV 0x1400 is not an integer-typed"));
}

#[test]
fn integer_value_must_fit_the_spec_width() {
    let err = value_to_bytes(0x0427, &TlvValue::Int(300)).expect_err("300 does not fit one octet");
    assert!(matches!(err, ScriptError::Value(_)));
    assert_eq!(
        err.message(),
        "TLV MESSAGE_STATE (0x0427) value 300 does not fit in its 1-octet spec width"
    );
    assert!(value_to_bytes(0x0427, &TlvValue::Int(256)).is_err());
    assert_eq!(value_to_bytes(0x0427, &TlvValue::Int(255)).unwrap(), vec![255]);
    assert!(value_to_bytes(0x0017, &TlvValue::Int(0x1_0000_0000)).is_err());
    assert_eq!(
        value_to_bytes(0x0017, &TlvValue::Int(0xFFFF_FFFE)).unwrap(),
        vec![255, 255, 255, 254]
    );
}

#[test]
fn unsupported_value_type_is_a_type_error() {
    let err = value_to_bytes(0x0424, &TlvValue::Other("list".to_string())).expect_err("list");
    assert!(matches!(err, ScriptError::Type(_)));
    assert_eq!(
        err.message(),
        "TLV MESSAGE_PAYLOAD (0x0424) value must be bytes, str or int, got list"
    );
    let err = value_to_bytes(0x0427, &TlvValue::NotUnsigned).expect_err("negative");
    assert_eq!(
        err.message(),
        "TLV MESSAGE_STATE (0x0427) value must be a non-negative integer"
    );
    assert!(matches!(
        value_to_bytes(0x0427, &TlvValue::Unreadable(9)),
        Err(ScriptError::Pending(9))
    ));
}

#[test]
fn duplicate_tags_are_rejected() {
    let d = vec![
        (TlvKey::Name("MESSAGE_STATE".to_string()), TlvValue::Int(2)),
        (TlvKey::Tag(0x0427), TlvValue::Bytes(b"\x02".to_vec())),
    ];
    let err = tlvs_from_py(Some(&d)).expect_err("same tag twice rejected");
    assert!(matches!(err, ScriptError::Value(_)));
    assert_eq!(err.message(), "TLV MESSAGE_STATE (0x0427) given twice");
}

#[test]
fn of_an_entry_the_key_is_looked_at_first() {
    // A tag that was there before is reported before the value is read.
    let d = vec![
        (TlvKey::Tag(0x1400), TlvValue::Bytes(vec![1])),
        (TlvKey::Tag(0x1400), TlvValue::Int(1)),
    ];
    assert_eq!(
        tlvs_from_py(Some(&d)).expect_err("twice").message(),
        "TLV 0x1400 given twice"
    );
    let d = vec![
        (TlvKey::Tag(0x1400), TlvValue::Int(1)),
        (TlvKey::Tag(-5), TlvValue::Int(1)),
    ];
    assert!(tlvs_from_py(Some(&d))
        .expect_err("first entry")
        .message()
        .starts_with("TLV 0x1400 is not"));
}

#[test]
fn round_trip_through_the_python_dict_shape() {
    let d = vec![
        (
            TlvKey::Name("MESSAGE_PAYLOAD".to_string()),
            TlvValue::Bytes(b"hi".to_vec()),
        ),
        (TlvKey::Tag(0x1400), TlvValue::Bytes(b"\x01".to_vec())),
    ];
    let tlvs = tlvs_from_py(Some(&d)).expect("converts");
    assert_eq!(tlvs.len(), 2);

    let back = tlvs_to_py(&tlvs);
    let payload = &back.iter().find(|t| t.tag == 0x0424).expect("present").value;
    assert_eq!(payload, b"hi");
    let vendor = &back.iter().find(|t| t.tag == 0x1400).expect("present").value;
    assert_eq!(vendor, b"\x01");
}

#[test]
fn a_repeated_tag_reads_as_its_last_value() {
    let wire = vec![
        Tlv { tag: 1, value: vec![1] },
        Tlv { tag: 2, value: vec![2] },
        Tlv { tag: 1, value: vec![3] },
    ];
    let dict: Vec<(u16, Vec<u8>)> = tlvs_to_py(&wire)
        .into_iter()
        .map(|t| (t.tag, t.value))
        .collect();
    assert_eq!(dict, vec![(1, vec![3]), (2, vec![2])]);
}

#[test]
fn no_tlvs_is_an_empty_list() {
    assert!(tlvs_from_py(None).expect("converts").is_empty());
}

#[test]
fn typed_reads_want_the_right_length() {
    let tlvs = vec![
        Tlv { tag: 0x0427, value: vec![2] },
        Tlv { tag: 0x020C, value: vec![0x12, 0x34] },
        Tlv { tag: 0x001E, value: b"0a1b2\0".to_vec() },
        Tlv { tag: 0x001D, value: vec![0xFF, 0xFE] },
        Tlv { tag: 0x0381, value: b"no nul".to_vec() },
    ];
    assert_eq!(get_u8(&tlvs, 0x0427), Some(2));
    assert_eq!(get_u8(&tlvs, 0x020C), None);
    assert_eq!(get_u16(&tlvs, 0x020C), Some(0x1234));
    assert_eq!(get_u16(&tlvs, 0x0427), None);
    assert_eq!(get_u8(&tlvs, 0x9999), None);
    assert_eq!(get_text(&tlvs, 0x001E).as_deref(), Some("0a1b2"));
    assert_eq!(get_text(&tlvs, 0x001D), None);
    assert_eq!(get_text(&tlvs, 0x0381).as_deref(), Some("no nul"));
}

#[test]
fn tags_are_described_by_name_and_number() {
    assert_eq!(describe_tag(0x0424), "MESSAGE_PAYLOAD (0x0424)");
    assert_eq!(describe_tag(0x1400), "0x1400");
    assert_eq!(describe_tag(0xAB0F), "0xAB0F");
}

#[test]
fn non_ascii_text_is_sent_as_utf8() {
    assert_eq!(
        value_to_bytes(0x001E, &TlvValue::Text("é€".to_string())).unwrap(),
        vec![0xC3, 0xA9, 0xE2, 0x82, 0xAC, 0x00]
    );
}
