//! Optional parameters (TLVs) between the script and the codec.
//!
//! Scripts address optional parameters with a dict, keyed by name or by a
//! raw 16-bit tag for vendor-defined ones. The names come straight from the
//! codec's own table, so a name that works here is exactly a tag that the codec
//! knows.
//!
//! **Integer values take their width from the parameter, never from the value.**
//! `message_state` is one octet and `sar_msg_ref_num` is two whatever integer is
//! handed in; a tag that isn't integer-typed rejects an integer outright rather
//! than guessing a width and putting a malformed TLV on the wire.
use crate::numbers;
use crate::script::{Fault, ScriptError};
use crate::text;
use vstd::prelude::*;
use vstd::utf8::*;

verus! {

/// An optional parameter.
#[derive(Debug, Clone)]
pub struct Tlv {
    pub tag: u16,
    pub value: Vec<u8>,
}

impl View for Tlv {
    type V = (u16, Seq<u8>);

    open spec fn view(&self) -> (u16, Seq<u8>) {
        (self.tag, self.value@)
    }
}

/// The tags and values of a list of optional parameters.
pub open spec fn views(tlvs: Seq<Tlv>) -> Seq<(u16, Seq<u8>)> {
    tlvs.map_values(|t: Tlv| t@)
}

/// A key of a script's `tlvs={…}`, or the argument of `pdu.tlv(…)`.
#[derive(Debug)]
pub enum TlvKey {
    /// A `str`: the name of a parameter.
    Name(String),
    /// An `int`: the raw tag.
    Tag(i64),
    /// A value of another type, whose name this is.
    Other(String),
    /// Reading the key raised; the caller keeps the exception under this number.
    Unreadable(usize),
}

/// A value of a script's `tlvs={…}`.
#[derive(Debug)]
pub enum TlvValue {
    /// `bytes` or `bytearray`.
    Bytes(Vec<u8>),
    /// A `str`.
    Text(String),
    /// An `int` or a `bool` that is not negative and fits in 64 bits.
    Int(u64),
    /// Any other `int`.
    NotUnsigned,
    /// A value of another type, whose name this is.
    Other(String),
    /// Reading the value raised; the caller keeps the exception under this
    /// number.
    Unreadable(usize),
}

// ── The standard parameters ──────────────────────────────────────────────

/// The optional parameters of SMPP 3.4: name and tag.
#[verifier::opaque]
pub open spec fn standard_tags() -> Seq<(Seq<char>, u16)> {
    seq![
        ("DEST_ADDR_SUBUNIT"@, 0x0005),
        ("DEST_NETWORK_TYPE"@, 0x0006),
        ("DEST_BEARER_TYPE"@, 0x0007),
        ("DEST_TELEMATICS_ID"@, 0x0008),
        ("SOURCE_ADDR_SUBUNIT"@, 0x000D),
        ("SOURCE_NETWORK_TYPE"@, 0x000E),
        ("SOURCE_BEARER_TYPE"@, 0x000F),
        ("SOURCE_TELEMATICS_ID"@, 0x0010),
        ("QOS_TIME_TO_LIVE"@, 0x0017),
        ("PAYLOAD_TYPE"@, 0x0019),
        ("ADDITIONAL_STATUS_INFO_TEXT"@, 0x001D),
        ("RECEIPTED_MESSAGE_ID"@, 0x001E),
        ("MS_MSG_WAIT_FACILITIES"@, 0x0030),
        ("PRIVACY_INDICATOR"@, 0x0201),
        ("SOURCE_SUBADDRESS"@, 0x0202),
        ("DEST_SUBADDRESS"@, 0x0203),
        ("USER_MESSAGE_REFERENCE"@, 0x0204),
        ("USER_RESPONSE_CODE"@, 0x0205),
        ("SOURCE_PORT"@, 0x020A),
        ("DESTINATION_PORT"@, 0x020B),
        ("SAR_MSG_REF_NUM"@, 0x020C),
        ("LANGUAGE_INDICATOR"@, 0x020D),
        ("SAR_TOTAL_SEGMENTS"@, 0x020E),
        ("SAR_SEGMENT_SEQNUM"@, 0x020F),
        ("SC_INTERFACE_VERSION"@, 0x0210),
        ("CALLBACK_NUM_PRES_IND"@, 0x0302),
        ("CALLBACK_NUM_ATAG"@, 0x0303),
        ("NUMBER_OF_MESSAGES"@, 0x0304),
        ("CALLBACK_NUM"@, 0x0381),
        ("DPF_RESULT"@, 0x0420),
        ("SET_DPF"@, 0x0421),
        ("MS_AVAILABILITY_STATUS"@, 0x0422),
        ("NETWORK_ERROR_CODE"@, 0x0423),
        ("MESSAGE_PAYLOAD"@, 0x0424),
        ("DELIVERY_FAILURE_REASON"@, 0x0425),
        ("MORE_MESSAGES_TO_SEND"@, 0x0426),
        ("MESSAGE_STATE"@, 0x0427),
        ("USSD_SERVICE_OP"@, 0x0501),
        ("DISPLAY_TIME"@, 0x1201),
        ("SMS_SIGNAL"@, 0x1203),
        ("MS_VALIDITY"@, 0x1204),
        ("ALERT_ON_MESSAGE_DELIVERY"@, 0x130C),
        ("ITS_REPLY_TYPE"@, 0x1380),
        ("ITS_SESSION_INFO"@, 0x1383),
    ]
}

/// Whether `entry` is entry `i` of the table of optional parameters.
pub open spec fn is_entry(i: int, entry: Option<(&'static str, u16)>) -> bool {
    match entry {
        Some((name, tag)) => 0 <= i < standard_tags().len() && standard_tags()[i] == (name@, tag),
        None => i >= standard_tags().len(),
    }
}

/// Entry `i` of smpp34's `TlvTag::ALL`: the name and the tag of an optional
/// parameter, in the order of [`standard_tags`], and nothing past the end.
#[verifier::external_body]
fn codec_tag(i: usize) -> (r: Option<(&'static str, u16)>)
    ensures
        is_entry(i as int, r),
{
    match smpp34::TlvTag::ALL.get(i) {
        Some((name, tag)) => Some((*name, *tag as u16)),
        None => None,
    }
}

/// The tag of the first parameter from entry `i` on that is called `name`.
pub open spec fn tag_called(name: Seq<char>, i: int) -> Option<u16>
    decreases standard_tags().len() - i,
{
    if i < 0 || i >= standard_tags().len() {
        None
    } else if standard_tags()[i].0 == name {
        Some(standard_tags()[i].1)
    } else {
        tag_called(name, i + 1)
    }
}

/// The name of the first parameter from entry `i` on that has the tag `tag`.
pub open spec fn name_with_tag(tag: u16, i: int) -> Option<Seq<char>>
    decreases standard_tags().len() - i,
{
    if i < 0 || i >= standard_tags().len() {
        None
    } else if standard_tags()[i].1 == tag {
        Some(standard_tags()[i].0)
    } else {
        name_with_tag(tag, i + 1)
    }
}

/// A name as it is looked up: without white space at the ends, in capitals, and
/// without the prefix `TLV_`.
pub open spec fn canonical(name: Seq<char>) -> Seq<char> {
    let upper = text::trimmed(name).map_values(|c: char| text::ascii_upper(c));
    if text::stands_at(upper, "TLV_"@, 0) {
        upper.skip(4)
    } else {
        upper
    }
}

/// The tag of a spec name.
pub open spec fn tag_of_name(name: Seq<char>) -> Option<u16> {
    tag_called(canonical(name), 0)
}

/// The name of a tag.
pub open spec fn name_of_tag(tag: u16) -> Option<Seq<char>> {
    name_with_tag(tag, 0)
}

/// The octets that an integer-typed parameter takes on the wire, or
/// nothing where the parameter isn't one: octet strings, C-octet strings and
/// `alert_on_message_delivery`, which carries no value at all.
pub open spec fn spec_width(tag: u16) -> Option<usize> {
    match tag {
        0x0005 | 0x0006 | 0x0007 | 0x000D | 0x000E | 0x000F | 0x0010 | 0x0019 | 0x0030 | 0x0201
        | 0x0205 | 0x020D | 0x020E | 0x020F | 0x0210 | 0x0302 | 0x0304 | 0x0420 | 0x0421 | 0x0422
        | 0x0425 | 0x0426 | 0x0427 | 0x0501 | 0x1201 | 0x1204 | 0x1380 => Some(1),
        0x0008 | 0x0204 | 0x020A | 0x020B | 0x020C | 0x1203 => Some(2),
        0x0017 => Some(4),
        _ => None,
    }
}

/// Spec width for an integer-typed tag, or `None` when the tag isn't one.
pub fn int_width(tag: u16) -> (r: Option<usize>)
    ensures
        r == spec_width(tag),
{
    match tag {
        0x0005 | 0x0006 | 0x0007 | 0x000D | 0x000E | 0x000F | 0x0010 | 0x0019 | 0x0030 | 0x0201
        | 0x0205 | 0x020D | 0x020E | 0x020F | 0x0210 | 0x0302 | 0x0304 | 0x0420 | 0x0421 | 0x0422
        | 0x0425 | 0x0426 | 0x0427 | 0x0501 | 0x1201 | 0x1204 | 0x1380 => Some(1),
        0x0008 | 0x0204 | 0x020A | 0x020B | 0x020C | 0x1203 => Some(2),
        0x0017 => Some(4),
        _ => None,
    }
}

/// A name as it is looked up.
fn canonical_name(name: &str) -> (out: String)
    ensures
        out@ == canonical(name@),
{
    let trimmed: String = text::trim(name);
    let chars: Vec<char> = text::chars_of(trimmed.as_str());
    let mut upper: Vec<char> = Vec::new();
    let mut i: usize = 0;
    while i < chars.len()
        invariant
            i <= chars@.len(),
            upper@ == chars@.take(i as int).map_values(|c: char| text::ascii_upper(c)),
        decreases chars@.len() - i,
    {
        upper.push(chars[i].to_ascii_uppercase());
        i = i + 1;
        assert(upper@ =~= chars@.take(i as int).map_values(|c: char| text::ascii_upper(c)));
    }
    assert(chars@.take(i as int) =~= chars@);
    let prefix: Vec<char> = text::chars_of("TLV_");
    proof {
        reveal_strlit("TLV_");
    }
    let n: usize = upper.len();
    if text::is_at(&upper, &prefix, 0) {
        text::string_of(&upper, 4, n)
    } else {
        let out: String = text::string_of(&upper, 0, n);
        assert(out@ =~= upper@);
        out
    }
}

/// Resolve a spec name to its tag. Case-insensitive, and an optional `TLV_`
/// prefix is accepted.
pub fn tag_from_name(name: &str) -> (r: Option<u16>)
    ensures
        r == tag_of_name(name@),
{
    let wanted: String = canonical_name(name);
    proof {
        table_is_finite();
    }
    let mut i: usize = 0;
    loop
        invariant
            i <= standard_tags().len() <= 44,
            wanted@ == canonical(name@),
            tag_of_name(name@) == tag_called(wanted@, i as int),
        decreases standard_tags().len() - i,
    {
        match codec_tag(i) {
            None => {
                return None;
            },
            Some((n, tag)) => {
                if text::same(n, wanted.as_str()) {
                    return Some(tag);
                }
            },
        }
        i = i + 1;
    }
}

/// The name for a tag, when it is one of the standard ones.
pub fn name_for_tag(tag: u16) -> (r: Option<&'static str>)
    ensures
        match r {
            Some(name) => name_of_tag(tag) == Some(name@),
            None => name_of_tag(tag) is None,
        },
{
    proof {
        table_is_finite();
    }
    let mut i: usize = 0;
    loop
        invariant
            i <= standard_tags().len() <= 44,
            name_of_tag(tag) == name_with_tag(tag, i as int),
        decreases standard_tags().len() - i,
    {
        match codec_tag(i) {
            None => {
                return None;
            },
            Some((name, t)) => {
                if t == tag {
                    return Some(name);
                }
            },
        }
        i = i + 1;
    }
}

// ── From the script ──────────────────────────────────────────────────────

/// `MESSAGE_PAYLOAD (0x0424)` / `0x1400` — for error messages.
pub open spec fn described(tag: u16) -> Seq<char> {
    match name_of_tag(tag) {
        Some(name) => name + " (0x"@ + numbers::hex4(tag) + ")"@,
        None => "0x"@ + numbers::hex4(tag),
    }
}

/// `MESSAGE_PAYLOAD (0x0424)` / `0x1400` — for error messages.
pub fn describe_tag(tag: u16) -> (out: String)
    ensures
        out@ == described(tag),
{
    let mut out: String = String::new();
    match name_for_tag(tag) {
        Some(name) => {
            out.append(name);
            out.append(" (0x");
            out.append(numbers::hex4_text(tag).as_str());
            out.append(")");
        },
        None => {
            out.append("0x");
            out.append(numbers::hex4_text(tag).as_str());
        },
    }
    assert(out@ =~= described(tag));
    out
}

/// The tag that a key stands for, or why it stands for none.
pub open spec fn key_tag(key: TlvKey) -> Result<u16, Fault> {
    match key {
        TlvKey::Name(name) => match tag_of_name(name@) {
            Some(tag) => Ok(tag),
            None => Err(
                Fault::Value(
                    "unknown TLV name "@ + text::quoted(name@)
                        + " — use an SMPP 3.4 optional-parameter name (e.g. \"MESSAGE_PAYLOAD\") or a raw integer tag for a vendor-specific parameter"@,
                ),
            ),
        },
        TlvKey::Tag(raw) => if 0 <= raw <= 0xFFFF {
            Ok(raw as u16)
        } else {
            Err(
                Fault::Value(
                    "TLV tag "@ + numbers::signed_decimal(raw as int)
                        + " out of range — a tag is a 16-bit unsigned integer"@,
                ),
            )
        },
        TlvKey::Other(name) => Err(
            Fault::Type("TLV key must be a name or an integer tag, got "@ + name@),
        ),
        TlvKey::Unreadable(n) => Err(Fault::Pending(n)),
    }
}

/// A dict key — spec name (`"MESSAGE_PAYLOAD"`) or raw tag (`0x1400`).
pub fn tag_from_py(key: &TlvKey) -> (r: Result<u16, ScriptError>)
    ensures
        match r {
            Ok(tag) => key_tag(*key) == Ok::<u16, Fault>(tag),
            Err(e) => key_tag(*key) == Err::<u16, Fault>(e@),
        },
{
    let mut m: String = String::new();
    match key {
        TlvKey::Name(name) => {
            match tag_from_name(name.as_str()) {
                Some(tag) => Ok(tag),
                None => {
                    m.append("unknown TLV name ");
                    m.append(text::to_quoted(name.as_str()).as_str());
                    m.append(
                        " — use an SMPP 3.4 optional-parameter name (e.g. \"MESSAGE_PAYLOAD\") or a raw integer tag for a vendor-specific parameter",
                    );
                    assert(key_tag(*key)->Err_0->Value_0 =~= m@);
                    Err(ScriptError::Value(m))
                },
            }
        },
        TlvKey::Tag(raw) => {
            if 0 <= *raw && *raw <= 0xFFFF {
                Ok(*raw as u16)
            } else {
                m.append("TLV tag ");
                m.append(numbers::signed_decimal_text(*raw).as_str());
                m.append(" out of range — a tag is a 16-bit unsigned integer");
                assert(key_tag(*key)->Err_0->Value_0 =~= m@);
                Err(ScriptError::Value(m))
            }
        },
        TlvKey::Other(name) => {
            m.append("TLV key must be a name or an integer tag, got ");
            m.append(name.as_str());
            assert(key_tag(*key)->Err_0->Type_0 =~= m@);
            Err(ScriptError::Type(m))
        },
        TlvKey::Unreadable(n) => Err(ScriptError::Pending(*n)),
    }
}

/// `n` in `width` octets, most significant first.
pub open spec fn big_endian(n: nat, width: nat) -> Seq<u8>
    decreases width,
{
    if width == 0 {
        Seq::empty()
    } else {
        big_endian(n / 256, (width - 1) as nat).push((n % 256) as u8)
    }
}

/// The number that octets stand for, most significant first.
pub open spec fn big_endian_value(bytes: Seq<u8>) -> nat
    decreases bytes.len(),
{
    if bytes.len() == 0 {
        0
    } else {
        big_endian_value(bytes.drop_last()) * 256 + bytes.last() as nat
    }
}

/// How many numbers fit in `width` octets.
pub open spec fn octet_range(width: nat) -> nat
    decreases width,
{
    if width == 0 {
        1
    } else {
        256 * octet_range((width - 1) as nat)
    }
}

/// A number that fits reads back from its octets, and takes just as many as it
/// is given.
pub proof fn big_endian_reads_back(n: nat, width: nat)
    requires
        n < octet_range(width),
    ensures
        big_endian(n, width).len() == width,
        big_endian_value(big_endian(n, width)) == n,
    decreases width,
{
    if width > 0 {
        big_endian_reads_back(n / 256, (width - 1) as nat);
        assert(big_endian(n, width).drop_last() =~= big_endian(n / 256, (width - 1) as nat));
    }
}

/// The octets that a script value puts on the wire under a tag, or why it puts
/// none.
pub open spec fn value_octets(tag: u16, value: TlvValue) -> Result<Seq<u8>, Fault> {
    match value {
        TlvValue::Bytes(b) => Ok(b@),
        TlvValue::Text(s) => Ok(encode_utf8(s@).push(0)),
        TlvValue::Int(n) => match spec_width(tag) {
            None => Err(
                Fault::Value(
                    "TLV "@ + described(tag)
                        + " is not an integer-typed optional parameter — pass bytes (or a str for a C-octet-string parameter) so the encoding is explicit"@,
                ),
            ),
            Some(width) => if n < octet_range(width as nat) {
                Ok(big_endian(n as nat, width as nat))
            } else {
                Err(
                    Fault::Value(
                        "TLV "@ + described(tag) + " value "@ + numbers::decimal(n as nat)
                            + " does not fit in its "@ + numbers::decimal(width as nat)
                            + "-octet spec width"@,
                    ),
                )
            },
        },
        TlvValue::NotUnsigned => Err(
            Fault::Value("TLV "@ + described(tag) + " value must be a non-negative integer"@),
        ),
        TlvValue::Other(name) => Err(
            Fault::Type("TLV "@ + described(tag) + " value must be bytes, str or int, got "@ + name@),
        ),
        TlvValue::Unreadable(n) => Err(Fault::Pending(n)),
    }
}

/// `n` in `width` octets.
fn octets_of(n: u64, width: usize) -> (out: Vec<u8>)
    ensures
        out@ == big_endian(n as nat, width as nat),
    decreases width,
{
    if width == 0 {
        Vec::new()
    } else {
        let mut out: Vec<u8> = octets_of(n / 256, width - 1);
        out.push((n % 256) as u8);
        out
    }
}

/// A dict value. `bytes`/`bytearray` go on the wire verbatim, `str` becomes a
/// NUL-terminated C-Octet-String (what `receipted_message_id` and
/// friends require), and `int` is encoded at the tag's fixed width.
pub fn value_to_bytes(tag: u16, value: &TlvValue) -> (r: Result<Vec<u8>, ScriptError>)
    ensures
        match r {
            Ok(b) => value_octets(tag, *value) == Ok::<Seq<u8>, Fault>(b@),
            Err(e) => value_octets(tag, *value) == Err::<Seq<u8>, Fault>(e@),
        },
{
    let mut m: String = String::new();
    match value {
        TlvValue::Bytes(b) => Ok(copy_octets(b)),
        TlvValue::Text(s) => {
            let mut bytes: Vec<u8> = s.as_str().as_bytes_vec();
            bytes.push(0);
            Ok(bytes)
        },
        TlvValue::Int(n) => {
            match int_width(tag) {
                None => {
                    m.append("TLV ");
                    m.append(describe_tag(tag).as_str());
                    m.append(
                        " is not an integer-typed optional parameter — pass bytes (or a str for a C-octet-string parameter) so the encoding is explicit",
                    );
                    assert(value_octets(tag, *value)->Err_0->Value_0 =~= m@);
                    Err(ScriptError::Value(m))
                },
                Some(width) => {
                    proof {
                        reveal_with_fuel(octet_range, 5);
                    }
                    let limit: u64 = if width == 1 {
                        0x100
                    } else if width == 2 {
                        0x1_0000
                    } else {
                        0x1_0000_0000
                    };
                    assert(limit as nat == octet_range(width as nat));
                    if *n < limit {
                        Ok(octets_of(*n, width))
                    } else {
                        m.append("TLV ");
                        m.append(describe_tag(tag).as_str());
                        m.append(" value ");
                        m.append(numbers::decimal_text(*n).as_str());
                        m.append(" does not fit in its ");
                        m.append(numbers::decimal_text(width as u64).as_str());
                        m.append("-octet spec width");
                        assert(value_octets(tag, *value)->Err_0->Value_0 =~= m@);
                        Err(ScriptError::Value(m))
                    }
                },
            }
        },
        TlvValue::NotUnsigned => {
            m.append("TLV ");
            m.append(describe_tag(tag).as_str());
            m.append(" value must be a non-negative integer");
            assert(value_octets(tag, *value)->Err_0->Value_0 =~= m@);
            Err(ScriptError::Value(m))
        },
        TlvValue::Other(name) => {
            m.append("TLV ");
            m.append(describe_tag(tag).as_str());
            m.append(" value must be bytes, str or int, got ");
            m.append(name.as_str());
            assert(value_octets(tag, *value)->Err_0->Type_0 =~= m@);
            Err(ScriptError::Type(m))
        },
        TlvValue::Unreadable(n) => Err(ScriptError::Pending(*n)),
    }
}

/// A copy of `b`.
pub fn copy_octets(b: &Vec<u8>) -> (out: Vec<u8>)
    ensures
        out@ == b@,
{
    let out: Vec<u8> = b.clone();
    assert(out@ =~= b@);
    out
}

/// Whether some parameter of the list has the tag `tag`.
pub open spec fn has_tag(tlvs: Seq<(u16, Seq<u8>)>, tag: u16) -> bool {
    exists|i: int| 0 <= i < tlvs.len() && (#[trigger] tlvs[i]).0 == tag
}

/// The optional parameters that a script's dict stands for, in its order, or
/// the first thing that is wrong with it: of each entry the key is looked at
/// first, then whether its tag was there before, then the value.
pub open spec fn dict_tlvs(items: Seq<(TlvKey, TlvValue)>) -> Result<Seq<(u16, Seq<u8>)>, Fault>
    decreases items.len(),
{
    if items.len() == 0 {
        Ok(Seq::empty())
    } else {
        match dict_tlvs(items.drop_last()) {
            Err(f) => Err(f),
            Ok(tlvs) => match key_tag(items.last().0) {
                Err(f) => Err(f),
                Ok(tag) => if has_tag(tlvs, tag) {
                    Err(Fault::Value("TLV "@ + described(tag) + " given twice"@))
                } else {
                    match value_octets(tag, items.last().1) {
                        Err(f) => Err(f),
                        Ok(value) => Ok(tlvs.push((tag, value))),
                    }
                },
            },
        }
    }
}

proof fn dict_fault_settles(items: Seq<(TlvKey, TlvValue)>, n: int)
    requires
        0 <= n <= items.len(),
        dict_tlvs(items.take(n)) is Err,
    ensures
        dict_tlvs(items) == dict_tlvs(items.take(n)),
    decreases items.len() - n,
{
    if n < items.len() {
        assert(items.take(n + 1).drop_last() =~= items.take(n));
        dict_fault_settles(items, n + 1);
    } else {
        assert(items.take(n) =~= items);
    }
}

/// Whether some parameter of the list has the tag `tag`.
fn contains_tag(tlvs: &Vec<Tlv>, tag: u16) -> (r: bool)
    ensures
        r == has_tag(views(tlvs@), tag),
{
    let mut i: usize = 0;
    while i < tlvs.len()
        invariant
            i <= tlvs@.len(),
            forall|j: int| 0 <= j < i ==> (#[trigger] views(tlvs@)[j]).0 != tag,
        decreases tlvs@.len() - i,
    {
        if tlvs[i].tag == tag {
            assert(views(tlvs@)[i as int].0 == tag);
            return true;
        }
        i = i + 1;
    }
    false
}

/// Convert a script's `tlvs={...}` into the codec's list.
///
/// Two keys resolving to the same tag (say `"MESSAGE_STATE"` and `0x0427`) is
/// an error: the dict cannot express which one wins and putting both on the
/// wire is malformed.
pub fn tlvs_from_py(dict: Option<&Vec<(TlvKey, TlvValue)>>) -> (r: Result<Vec<Tlv>, ScriptError>)
    ensures
        match dict {
            None => r matches Ok(tlvs) && tlvs@.len() == 0,
            Some(items) => match r {
                Ok(tlvs) => dict_tlvs(items@) == Ok::<Seq<(u16, Seq<u8>)>, Fault>(views(tlvs@)),
                Err(e) => dict_tlvs(items@) == Err::<Seq<(u16, Seq<u8>)>, Fault>(e@),
            },
        },
{
    let items: &Vec<(TlvKey, TlvValue)> = match dict {
        Some(items) => items,
        None => {
            return Ok(Vec::new());
        },
    };
    let mut out: Vec<Tlv> = Vec::new();
    let mut i: usize = 0;
    assert(views(out@) =~= Seq::empty());
    while i < items.len()
        invariant
            i <= items@.len(),
            dict == Some(items),
            dict_tlvs(items@.take(i as int)) == Ok::<Seq<(u16, Seq<u8>)>, Fault>(views(out@)),
        decreases items@.len() - i,
    {
        assert(items@.take(i + 1).drop_last() =~= items@.take(i as int));
        assert(items@.take(i + 1).last() == items@[i as int]);
        let tag: u16 = match tag_from_py(&items[i].0) {
            Ok(tag) => tag,
            Err(e) => {
                proof {
                    dict_fault_settles(items@, i + 1);
                }
                return Err(e);
            },
        };
        if contains_tag(&out, tag) {
            let mut m: String = String::new();
            m.append("TLV ");
            m.append(describe_tag(tag).as_str());
            m.append(" given twice");
            proof {
                dict_fault_settles(items@, i + 1);
                assert(m@ =~= "TLV "@ + described(tag) + " given twice"@);
            }
            return Err(ScriptError::Value(m));
        }
        let value: Vec<u8> = match value_to_bytes(tag, &items[i].1) {
            Ok(value) => value,
            Err(e) => {
                proof {
                    dict_fault_settles(items@, i + 1);
                }
                return Err(e);
            },
        };
        let ghost was = out@;
        let tlv: Tlv = Tlv { tag, value };
        let ghost added = tlv@;
        out.push(tlv);
        assert(views(out@) =~= views(was).push(added));
        i = i + 1;
    }
    assert(items@.take(i as int) =~= items@);
    Ok(out)
}

// ── To the script ────────────────────────────────────────────────────────

/// A dict with `value` under `tag`: in the place of what was there, or else at
/// the end.
pub open spec fn dict_set(
    dict: Seq<(u16, Seq<u8>)>,
    tag: u16,
    value: Seq<u8>,
) -> Seq<(u16, Seq<u8>)>
    decreases dict.len(),
{
    if dict.len() == 0 {
        seq![(tag, value)]
    } else if dict[0].0 == tag {
        seq![(tag, value)] + dict.skip(1)
    } else {
        seq![dict[0]] + dict_set(dict.skip(1), tag, value)
    }
}

/// The dict of a list of optional parameters: each tag once, where it first
/// stands, with the value that stands last.
pub open spec fn tlv_dict(tlvs: Seq<(u16, Seq<u8>)>) -> Seq<(u16, Seq<u8>)>
    decreases tlvs.len(),
{
    if tlvs.len() == 0 {
        Seq::empty()
    } else {
        dict_set(tlv_dict(tlvs.drop_last()), tlvs.last().0, tlvs.last().1)
    }
}

/// Setting at the first position of a tag, or at the end where it has none.
proof fn dict_set_at(dict: Seq<(u16, Seq<u8>)>, tag: u16, value: Seq<u8>, k: int)
    requires
        0 <= k <= dict.len(),
        forall|j: int| 0 <= j < k ==> (#[trigger] dict[j]).0 != tag,
        k < dict.len() ==> dict[k].0 == tag,
    ensures
        dict_set(dict, tag, value) == if k < dict.len() {
            dict.update(k, (tag, value))
        } else {
            dict.push((tag, value))
        },
    decreases dict.len(),
{
    if dict.len() == 0 {
        assert(dict.push((tag, value)) =~= seq![(tag, value)]);
    } else if k == 0 {
        assert(dict.update(0, (tag, value)) =~= seq![(tag, value)] + dict.skip(1));
    } else {
        let rest = dict.skip(1);
        assert forall|j: int| 0 <= j < k - 1 implies (#[trigger] rest[j]).0 != tag by {
            assert(rest[j] == dict[j + 1]);
        }
        dict_set_at(rest, tag, value, k - 1);
        if k < dict.len() {
            assert(dict.update(k, (tag, value)) =~= seq![dict[0]] + rest.update(k - 1, (tag, value)));
        } else {
            assert(dict.push((tag, value)) =~= seq![dict[0]] + rest.push((tag, value)));
        }
    }
}

/// Surface decoded optional parameters to a script as `{tag: bytes}`.
///
/// Keyed by the raw tag rather than the name so vendor-specific parameters —
/// which have no name — read the same way as the standard ones.
pub fn tlvs_to_py(tlvs: &Vec<Tlv>) -> (dict: Vec<Tlv>)
    ensures
        views(dict@) == tlv_dict(views(tlvs@)),
{
    let mut dict: Vec<Tlv> = Vec::new();
    let mut i: usize = 0;
    assert(views(dict@) =~= Seq::empty());
    while i < tlvs.len()
        invariant
            i <= tlvs@.len(),
            views(dict@) == tlv_dict(views(tlvs@).take(i as int)),
        decreases tlvs@.len() - i,
    {
        let ghost all = views(tlvs@);
        assert(all.take(i + 1).drop_last() =~= all.take(i as int));
        assert(all.take(i + 1).last() == all[i as int]);
        let tag: u16 = tlvs[i].tag;
        let value: Vec<u8> = copy_octets(&tlvs[i].value);
        let mut k: usize = 0;
        while k < dict.len() && dict[k].tag != tag
            invariant
                k <= dict@.len(),
                forall|j: int| 0 <= j < k ==> (#[trigger] views(dict@)[j]).0 != tag,
            decreases dict@.len() - k,
        {
            k = k + 1;
        }
        let ghost was = dict@;
        let tlv: Tlv = Tlv { tag, value };
        let ghost set = tlv@;
        proof {
            dict_set_at(views(was), tag, value@, k as int);
        }
        if k < dict.len() {
            dict.set(k, tlv);
            assert(views(dict@) =~= views(was).update(k as int, set));
        } else {
            dict.push(tlv);
            assert(views(dict@) =~= views(was).push(set));
        }
        i = i + 1;
    }
    assert(views(tlvs@).take(i as int) =~= views(tlvs@));
    dict
}

/// The value of the first parameter with the tag `tag`.
pub open spec fn first_value(tlvs: Seq<(u16, Seq<u8>)>, tag: u16) -> Option<Seq<u8>>
    decreases tlvs.len(),
{
    if tlvs.len() == 0 {
        None
    } else if tlvs[0].0 == tag {
        Some(tlvs[0].1)
    } else {
        first_value(tlvs.skip(1), tag)
    }
}

/// The value of the first parameter with the tag `tag`.
pub fn get_tlv(tlvs: &Vec<Tlv>, tag: u16) -> (r: Option<&Vec<u8>>)
    ensures
        match r {
            Some(v) => first_value(views(tlvs@), tag) == Some(v@),
            None => first_value(views(tlvs@), tag) is None,
        },
{
    let ghost all = views(tlvs@);
    let mut i: usize = 0;
    assert(all.skip(0) =~= all);
    while i < tlvs.len()
        invariant
            i <= tlvs@.len(),
            all == views(tlvs@),
            first_value(all, tag) == first_value(all.skip(i as int), tag),
        decreases tlvs@.len() - i,
    {
        assert(all.skip(i as int)[0] == tlvs@[i as int]@);
        if tlvs[i].tag == tag {
            return Some(&tlvs[i].value);
        }
        assert(all.skip(i as int).skip(1) =~= all.skip(i + 1));
        i = i + 1;
    }
    None
}

/// The number in a value of one octet.
pub open spec fn one_octet(value: Option<Seq<u8>>) -> Option<u8> {
    match value {
        Some(v) => if v.len() == 1 {
            Some(v[0])
        } else {
            None
        },
        None => None,
    }
}

/// The number in a value of two octets, most significant first.
pub open spec fn two_octets(value: Option<Seq<u8>>) -> Option<u16> {
    match value {
        Some(v) => if v.len() == 2 {
            Some((v[0] * 256 + v[1]) as u16)
        } else {
            None
        },
        None => None,
    }
}

/// The first one-octet parameter with the tag `tag`.
pub fn get_u8(tlvs: &Vec<Tlv>, tag: u16) -> (r: Option<u8>)
    ensures
        r == one_octet(first_value(views(tlvs@), tag)),
{
    match get_tlv(tlvs, tag) {
        Some(v) => if v.len() == 1 {
            Some(v[0])
        } else {
            None
        },
        None => None,
    }
}

/// The first two-octet parameter with the tag `tag`.
pub fn get_u16(tlvs: &Vec<Tlv>, tag: u16) -> (r: Option<u16>)
    ensures
        r == two_octets(first_value(views(tlvs@), tag)),
{
    match get_tlv(tlvs, tag) {
        Some(v) => if v.len() == 2 {
            Some((v[0] as u16) * 256 + (v[1] as u16))
        } else {
            None
        },
        None => None,
    }
}

/// The text of a C-octet-string: what stands before its closing NUL, where that
/// is UTF-8. A NUL that is missing is not missed.
pub open spec fn c_octet_text(value: Seq<u8>) -> Option<Seq<char>> {
    let body = if value.len() > 0 && value.last() == 0 {
        value.drop_last()
    } else {
        value
    };
    if valid_utf8(body) {
        Some(decode_utf8(body))
    } else {
        None
    }
}

/// smpp34's `Tlv::as_string`: one trailing NUL is dropped, and the rest is read
/// as UTF-8; nothing where it is not UTF-8.
#[verifier::external_body]
fn codec_text(value: Vec<u8>) -> (r: Option<String>)
    ensures
        match r {
            Some(s) => c_octet_text(value@) == Some(s@),
            None => c_octet_text(value@) is None,
        },
{
    smpp34::Tlv::new(0, value).as_string()
}

/// The text of the first parameter with the tag `tag`.
pub open spec fn text_of(value: Option<Seq<u8>>) -> Option<Seq<char>> {
    match value {
        Some(v) => c_octet_text(v),
        None => None,
    }
}

/// The text of the first C-octet-string parameter with the tag `tag`.
pub fn get_text(tlvs: &Vec<Tlv>, tag: u16) -> (r: Option<String>)
    ensures
        match r {
            Some(s) => text_of(first_value(views(tlvs@), tag)) == Some(s@),
            None => text_of(first_value(views(tlvs@), tag)) is None,
        },
{
    match get_tlv(tlvs, tag) {
        Some(v) => codec_text(copy_octets(v)),
        None => None,
    }
}

// ── On the wire ──────────────────────────────────────────────────────────

/// A parameter on the wire: tag, length and value. The length field
/// has two octets and keeps the low bits of a length that does not fit.
pub open spec fn tlv_wire(tlv: (u16, Seq<u8>)) -> Seq<u8> {
    big_endian(tlv.0 as nat, 2) + big_endian(tlv.1.len() % 0x1_0000, 2) + tlv.1
}

/// smpp34's `Tlv::encode`: two octets of tag, two of length, the value.
#[verifier::external_body]
fn codec_wire(tag: u16, value: Vec<u8>) -> (r: Vec<u8>)
    ensures
        r@ == tlv_wire((tag, value@)),
{
    smpp34::Tlv::new(tag, value).encode()
}

impl Tlv {
    /// The parameter on the wire.
    pub fn encode(&self) -> (r: Vec<u8>)
        ensures
            r@ == tlv_wire(self@),
    {
        codec_wire(self.tag, copy_octets(&self.value))
    }
}

// ── What is promised of the names ────────────────────────────────────────

proof fn table_is_finite()
    ensures
        standard_tags().len() == 44,
{
    reveal(standard_tags);
}

/// What tells the names apart: the length, and the second-last and the
/// sixth-last character.
spec fn mark(name: Seq<char>) -> int {
    (name.len() * 0x100 + name[name.len() - 2] as int) * 0x100 + name[name.len() - 6] as int
}

/// The entry whose name has the mark `m`.
spec fn entry_marked(m: int) -> int {
    if m == 0x114955 {
        0
    } else if m == 0x11504B {
        1
    } else if m == 0x105052 {
        2
    } else if m == 0x124949 {
        3
    } else if m == 0x134955 {
        4
    } else if m == 0x13504B {
        5
    } else if m == 0x125052 {
        6
    } else if m == 0x144949 {
        7
    } else if m == 0x10564F {
        8
    } else if m == 0xC5044 {
        9
    } else if m == 0x1B584F {
        10
    } else if m == 0x144941 {
        11
    } else if m == 0x16454C {
        12
    } else if m == 0x114F49 {
        13
    } else if m == 0x115344 {
        14
    } else if m == 0xF5344 {
        15
    } else if m == 0x164345 {
        16
    } else if m == 0x124445 {
        17
    } else if m == 0xB5245 {
        18
    } else if m == 0x10524E {
        19
    } else if m == 0xF5545 {
        20
    } else if m == 0x124F49 {
        21
    } else if m == 0x125447 {
        22
    } else if m == 0x125553 {
        23
    } else if m == 0x144F45 {
        24
    } else if m == 0x154E45 {
        25
    } else if m == 0x11414D {
        26
    } else if m == 0x124553 {
        27
    } else if m == 0xC5543 {
        28
    } else if m == 0xA4C52 {
        29
    } else if m == 0x75045 {
        30
    } else if m == 0x165553 {
        31
    } else if m == 0x124452 {
        32
    } else if m == 0xF4141 {
        33
    } else if m == 0x174F52 {
        34
    } else if m == 0x154E4F {
        35
    } else if m == 0xD545F {
        36
    } else if m == 0xF4F49 {
        37
    } else if m == 0xC4D59 {
        38
    } else if m == 0xA4153 {
        39
    } else if m == 0xB544C {
        40
    } else if m == 0x19524C {
        41
    } else if m == 0xE5059 {
        42
    } else {
        43
    }
}

/// The entry whose tag is `tag`.
spec fn entry_tagged(tag: u16) -> int {
    if tag == 0x0005 {
        0
    } else if tag == 0x0006 {
        1
    } else if tag == 0x0007 {
        2
    } else if tag == 0x0008 {
        3
    } else if tag == 0x000D {
        4
    } else if tag == 0x000E {
        5
    } else if tag == 0x000F {
        6
    } else if tag == 0x0010 {
        7
    } else if tag == 0x0017 {
        8
    } else if tag == 0x0019 {
        9
    } else if tag == 0x001D {
        10
    } else if tag == 0x001E {
        11
    } else if tag == 0x0030 {
        12
    } else if tag == 0x0201 {
        13
    } else if tag == 0x0202 {
        14
    } else if tag == 0x0203 {
        15
    } else if tag == 0x0204 {
        16
    } else if tag == 0x0205 {
        17
    } else if tag == 0x020A {
        18
    } else if tag == 0x020B {
        19
    } else if tag == 0x020C {
        20
    } else if tag == 0x020D {
        21
    } else if tag == 0x020E {
        22
    } else if tag == 0x020F {
        23
    } else if tag == 0x0210 {
        24
    } else if tag == 0x0302 {
        25
    } else if tag == 0x0303 {
        26
    } else if tag == 0x0304 {
        27
    } else if tag == 0x0381 {
        28
    } else if tag == 0x0420 {
        29
    } else if tag == 0x0421 {
        30
    } else if tag == 0x0422 {
        31
    } else if tag == 0x0423 {
        32
    } else if tag == 0x0424 {
        33
    } else if tag == 0x0425 {
        34
    } else if tag == 0x0426 {
        35
    } else if tag == 0x0427 {
        36
    } else if tag == 0x0501 {
        37
    } else if tag == 0x1201 {
        38
    } else if tag == 0x1203 {
        39
    } else if tag == 0x1204 {
        40
    } else if tag == 0x130C {
        41
    } else if tag == 0x1380 {
        42
    } else {
        43
    }
}

proof fn entry_tells(i: int)
    requires
        0 <= i < standard_tags().len(),
    ensures
        entry_marked(mark(standard_tags()[i].0)) == i,
        entry_tagged(standard_tags()[i].1) == i,
{
    reveal(standard_tags);
    if i == 0 {
        reveal_strlit("DEST_ADDR_SUBUNIT");
    } else if i == 1 {
        reveal_strlit("DEST_NETWORK_TYPE");
    } else if i == 2 {
        reveal_strlit("DEST_BEARER_TYPE");
    } else if i == 3 {
        reveal_strlit("DEST_TELEMATICS_ID");
    } else if i == 4 {
        reveal_strlit("SOURCE_ADDR_SUBUNIT");
    } else if i == 5 {
        reveal_strlit("SOURCE_NETWORK_TYPE");
    } else if i == 6 {
        reveal_strlit("SOURCE_BEARER_TYPE");
    } else if i == 7 {
        reveal_strlit("SOURCE_TELEMATICS_ID");
    } else if i == 8 {
        reveal_strlit("QOS_TIME_TO_LIVE");
    } else if i == 9 {
        reveal_strlit("PAYLOAD_TYPE");
    } else if i == 10 {
        reveal_strlit("ADDITIONAL_STATUS_INFO_TEXT");
    } else if i == 11 {
        reveal_strlit("RECEIPTED_MESSAGE_ID");
    } else if i == 12 {
        reveal_strlit("MS_MSG_WAIT_FACILITIES");
    } else if i == 13 {
        reveal_strlit("PRIVACY_INDICATOR");
    } else if i == 14 {
        reveal_strlit("SOURCE_SUBADDRESS");
    } else if i == 15 {
        reveal_strlit("DEST_SUBADDRESS");
    } else if i == 16 {
        reveal_strlit("USER_MESSAGE_REFERENCE");
    } else if i == 17 {
        reveal_strlit("USER_RESPONSE_CODE");
    } else if i == 18 {
        reveal_strlit("SOURCE_PORT");
    } else if i == 19 {
        reveal_strlit("DESTINATION_PORT");
    } else if i == 20 {
        reveal_strlit("SAR_MSG_REF_NUM");
    } else if i == 21 {
        reveal_strlit("LANGUAGE_INDICATOR");
    } else if i == 22 {
        reveal_strlit("SAR_TOTAL_SEGMENTS");
    } else if i == 23 {
        reveal_strlit("SAR_SEGMENT_SEQNUM");
    } else if i == 24 {
        reveal_strlit("SC_INTERFACE_VERSION");
    } else if i == 25 {
        reveal_strlit("CALLBACK_NUM_PRES_IND");
    } else if i == 26 {
        reveal_strlit("CALLBACK_NUM_ATAG");
    } else if i == 27 {
        reveal_strlit("NUMBER_OF_MESSAGES");
    } else if i == 28 {
        reveal_strlit("CALLBACK_NUM");
    } else if i == 29 {
        reveal_strlit("DPF_RESULT");
    } else if i == 30 {
        reveal_strlit("SET_DPF");
    } else if i == 31 {
        reveal_strlit("MS_AVAILABILITY_STATUS");
    } else if i == 32 {
        reveal_strlit("NETWORK_ERROR_CODE");
    } else if i == 33 {
        reveal_strlit("MESSAGE_PAYLOAD");
    } else if i == 34 {
        reveal_strlit("DELIVERY_FAILURE_REASON");
    } else if i == 35 {
        reveal_strlit("MORE_MESSAGES_TO_SEND");
    } else if i == 36 {
        reveal_strlit("MESSAGE_STATE");
    } else if i == 37 {
        reveal_strlit("USSD_SERVICE_OP");
    } else if i == 38 {
        reveal_strlit("DISPLAY_TIME");
    } else if i == 39 {
        reveal_strlit("SMS_SIGNAL");
    } else if i == 40 {
        reveal_strlit("MS_VALIDITY");
    } else if i == 41 {
        reveal_strlit("ALERT_ON_MESSAGE_DELIVERY");
    } else if i == 42 {
        reveal_strlit("ITS_REPLY_TYPE");
    } else if i == 43 {
        reveal_strlit("ITS_SESSION_INFO");
    }
}

/// Looking up the name of entry `i`, or its tag, finds entry `i`.
proof fn entry_is_found(i: int, from: int)
    requires
        0 <= from <= i < standard_tags().len(),
    ensures
        tag_called(standard_tags()[i].0, from) == Some(standard_tags()[i].1),
        name_with_tag(standard_tags()[i].1, from) == Some(standard_tags()[i].0),
    decreases i - from,
{
    entry_tells(i);
    entry_tells(from);
    if from < i {
        entry_is_found(i, from + 1);
    }
}

/// What a lookup finds stands in the table.
proof fn found_is_an_entry(name: Seq<char>, tag: u16, from: int)
    requires
        0 <= from,
    ensures
        tag_called(name, from) matches Some(t) ==> standard_tags().contains((name, t)),
        name_with_tag(tag, from) matches Some(n) ==> standard_tags().contains((n, tag)),
    decreases standard_tags().len() - from,
{
    if from < standard_tags().len() {
        assert(standard_tags().contains(standard_tags()[from]));
        found_is_an_entry(name, tag, from + 1);
    }
}

/// A standard tag is found again by its name, and a name in capitals by its
/// tag.
pub proof fn names_and_tags_are_inverse(name: Seq<char>, tag: u16)
    ensures
        name_of_tag(tag) matches Some(n) ==> tag_called(n, 0) == Some(tag),
        tag_called(name, 0) matches Some(t) ==> name_of_tag(t) == Some(name),
{
    found_is_an_entry(name, tag, 0);
    if let Some(n) = name_of_tag(tag) {
        let i = choose|i: int| 0 <= i < standard_tags().len() && standard_tags()[i] == (n, tag);
        entry_is_found(i, 0);
    }
    if let Some(t) = tag_called(name, 0) {
        let i = choose|i: int| 0 <= i < standard_tags().len() && standard_tags()[i] == (name, t);
        entry_is_found(i, 0);
    }
}

/// Whether a character can stand in a spec name: a capital or an underscore.
spec fn is_name_char(c: char) -> bool {
    'A' <= c <= 'Z' || c == '_'
}

proof fn entry_is_plain(i: int)
    requires
        0 <= i < standard_tags().len(),
    ensures
        standard_tags()[i].0.len() > 4,
        forall|k: int|
            0 <= k < standard_tags()[i].0.len() ==> is_name_char(#[trigger] standard_tags()[i].0[k]),
        standard_tags()[i].0[0] != 'T',
{
    reveal(standard_tags);
    if i == 0 {
        reveal_strlit("DEST_ADDR_SUBUNIT");
    } else if i == 1 {
        reveal_strlit("DEST_NETWORK_TYPE");
    } else if i == 2 {
        reveal_strlit("DEST_BEARER_TYPE");
    } else if i == 3 {
        reveal_strlit("DEST_TELEMATICS_ID");
    } else if i == 4 {
        reveal_strlit("SOURCE_ADDR_SUBUNIT");
    } else if i == 5 {
        reveal_strlit("SOURCE_NETWORK_TYPE");
    } else if i == 6 {
        reveal_strlit("SOURCE_BEARER_TYPE");
    } else if i == 7 {
        reveal_strlit("SOURCE_TELEMATICS_ID");
    } else if i == 8 {
        reveal_strlit("QOS_TIME_TO_LIVE");
    } else if i == 9 {
        reveal_strlit("PAYLOAD_TYPE");
    } else if i == 10 {
        reveal_strlit("ADDITIONAL_STATUS_INFO_TEXT");
    } else if i == 11 {
        reveal_strlit("RECEIPTED_MESSAGE_ID");
    } else if i == 12 {
        reveal_strlit("MS_MSG_WAIT_FACILITIES");
    } else if i == 13 {
        reveal_strlit("PRIVACY_INDICATOR");
    } else if i == 14 {
        reveal_strlit("SOURCE_SUBADDRESS");
    } else if i == 15 {
        reveal_strlit("DEST_SUBADDRESS");
    } else if i == 16 {
        reveal_strlit("USER_MESSAGE_REFERENCE");
    } else if i == 17 {
        reveal_strlit("USER_RESPONSE_CODE");
    } else if i == 18 {
        reveal_strlit("SOURCE_PORT");
    } else if i == 19 {
        reveal_strlit("DESTINATION_PORT");
    } else if i == 20 {
        reveal_strlit("SAR_MSG_REF_NUM");
    } else if i == 21 {
        reveal_strlit("LANGUAGE_INDICATOR");
    } else if i == 22 {
        reveal_strlit("SAR_TOTAL_SEGMENTS");
    } else if i == 23 {
        reveal_strlit("SAR_SEGMENT_SEQNUM");
    } else if i == 24 {
        reveal_strlit("SC_INTERFACE_VERSION");
    } else if i == 25 {
        reveal_strlit("CALLBACK_NUM_PRES_IND");
    } else if i == 26 {
        reveal_strlit("CALLBACK_NUM_ATAG");
    } else if i == 27 {
        reveal_strlit("NUMBER_OF_MESSAGES");
    } else if i == 28 {
        reveal_strlit("CALLBACK_NUM");
    } else if i == 29 {
        reveal_strlit("DPF_RESULT");
    } else if i == 30 {
        reveal_strlit("SET_DPF");
    } else if i == 31 {
        reveal_strlit("MS_AVAILABILITY_STATUS");
    } else if i == 32 {
        reveal_strlit("NETWORK_ERROR_CODE");
    } else if i == 33 {
        reveal_strlit("MESSAGE_PAYLOAD");
    } else if i == 34 {
        reveal_strlit("DELIVERY_FAILURE_REASON");
    } else if i == 35 {
        reveal_strlit("MORE_MESSAGES_TO_SEND");
    } else if i == 36 {
        reveal_strlit("MESSAGE_STATE");
    } else if i == 37 {
        reveal_strlit("USSD_SERVICE_OP");
    } else if i == 38 {
        reveal_strlit("DISPLAY_TIME");
    } else if i == 39 {
        reveal_strlit("SMS_SIGNAL");
    } else if i == 40 {
        reveal_strlit("MS_VALIDITY");
    } else if i == 41 {
        reveal_strlit("ALERT_ON_MESSAGE_DELIVERY");
    } else if i == 42 {
        reveal_strlit("ITS_REPLY_TYPE");
    } else if i == 43 {
        reveal_strlit("ITS_SESSION_INFO");
    }
}

/// The name of a standard tag is found in whatever case it is written, with
/// white space around it, and with the prefix `TLV_`.
pub proof fn a_name_is_found_however_written(
    tag: u16,
    written: Seq<char>,
    pre: Seq<char>,
    post: Seq<char>,
)
    requires
        name_of_tag(tag) == Some(written.map_values(|c: char| text::ascii_upper(c))),
        forall|i: int| 0 <= i < pre.len() ==> text::is_space(#[trigger] pre[i]),
        forall|i: int| 0 <= i < post.len() ==> text::is_space(#[trigger] post[i]),
    ensures
        tag_of_name(pre + written + post) == Some(tag),
        tag_of_name(pre + ("TLV_"@ + written) + post) == Some(tag),
{
    let up = |c: char| text::ascii_upper(c);
    let name = written.map_values(up);
    found_is_an_entry(name, tag, 0);
    let i = choose|i: int| 0 <= i < standard_tags().len() && standard_tags()[i] == (name, tag);
    entry_is_found(i, 0);
    entry_is_plain(i);
    assert forall|k: int| 0 <= k < written.len() implies !text::is_space(#[trigger] written[k]) by {
        assert(is_name_char(standard_tags()[i].0[k]));
        assert(name[k] == text::ascii_upper(written[k]));
    }
    text::trimming_keeps_what_is_inside(pre, written, post);
    reveal_strlit("TLV_");
    assert(!text::stands_at(name, "TLV_"@, 0)) by {
        if text::stands_at(name, "TLV_"@, 0) {
            assert(name.subrange(0, 4)[0] == name[0]);
            assert("TLV_"@[0] == 'T');
        }
    }
    let long = "TLV_"@ + written;
    assert(long[0] == 'T');
    assert(long.last() == written.last());
    text::trimming_keeps_what_is_inside(pre, long, post);
    let upper = long.map_values(up);
    assert(upper.subrange(0, 4) =~= "TLV_"@);
    assert(upper.skip(4) =~= name);
}

/// Every integer-typed tag is a standard one, and its width is one, two or four
/// octets.
pub proof fn integer_tags_are_standard(tag: u16)
    requires
        spec_width(tag) is Some,
    ensures
        name_of_tag(tag) is Some,
        spec_width(tag) == Some(1usize) || spec_width(tag) == Some(2usize) || spec_width(tag)
            == Some(4usize),
{
    let i = entry_tagged(tag);
    assert(0 <= i < standard_tags().len() && standard_tags()[i].1 == tag) by {
        reveal(standard_tags);
    }
    entry_is_found(i, 0);
}

// ── What is promised of the values ───────────────────────────────────────

/// Whether no two parameters of the list have the same tag.
pub open spec fn tags_are_distinct(tlvs: Seq<(u16, Seq<u8>)>) -> bool {
    forall|i: int, j: int|
        0 <= i < j < tlvs.len() ==> (#[trigger] tlvs[i]).0 != (#[trigger] tlvs[j]).0
}

/// Of parameters with distinct tags each is the first with its tag.
proof fn distinct_is_found(tlvs: Seq<(u16, Seq<u8>)>, i: int)
    requires
        tags_are_distinct(tlvs),
        0 <= i < tlvs.len(),
    ensures
        first_value(tlvs, tlvs[i].0) == Some(tlvs[i].1),
    decreases tlvs.len(),
{
    if i > 0 {
        let rest = tlvs.skip(1);
        assert forall|a: int, b: int| 0 <= a < b < rest.len() implies (#[trigger] rest[a]).0 != (
        #[trigger] rest[b]).0 by {
            assert(rest[a] == tlvs[a + 1]);
            assert(rest[b] == tlvs[b + 1]);
        }
        distinct_is_found(rest, i - 1);
    }
}

/// What a script's dict is turned into holds each tag once, and under the tag of
/// each key the octets of its value.
pub proof fn what_a_script_sets_is_read_back(items: Seq<(TlvKey, TlvValue)>, i: int)
    requires
        dict_tlvs(items) is Ok,
        0 <= i < items.len(),
    ensures
        tags_are_distinct(dict_tlvs(items)->Ok_0),
        dict_tlvs(items)->Ok_0.len() == items.len(),
        key_tag(items[i].0) is Ok,
        value_octets(key_tag(items[i].0)->Ok_0, items[i].1) == Ok::<Seq<u8>, Fault>(
            first_value(dict_tlvs(items)->Ok_0, key_tag(items[i].0)->Ok_0)->Some_0,
        ),
        first_value(dict_tlvs(items)->Ok_0, key_tag(items[i].0)->Ok_0) is Some,
{
    dict_entries(items, i);
    distinct_is_found(dict_tlvs(items)->Ok_0, i);
}

proof fn dict_entries(items: Seq<(TlvKey, TlvValue)>, i: int)
    requires
        dict_tlvs(items) is Ok,
        0 <= i < items.len(),
    ensures
        tags_are_distinct(dict_tlvs(items)->Ok_0),
        dict_tlvs(items)->Ok_0.len() == items.len(),
        key_tag(items[i].0) == Ok::<u16, Fault>(dict_tlvs(items)->Ok_0[i].0),
        value_octets(dict_tlvs(items)->Ok_0[i].0, items[i].1) == Ok::<Seq<u8>, Fault>(
            dict_tlvs(items)->Ok_0[i].1,
        ),
    decreases items.len(),
{
    let shorter = items.drop_last();
    if shorter.len() == 0 {
        assert(dict_tlvs(shorter) == Ok::<Seq<(u16, Seq<u8>)>, Fault>(Seq::empty()));
    } else {
        dict_entries(shorter, if i < shorter.len() { i } else { 0 });
    }
}

/// Parameters with distinct tags are their own dict, so a dict that goes to the
/// wire and back is the same dict.
pub proof fn distinct_parameters_survive_the_dict(tlvs: Seq<(u16, Seq<u8>)>)
    requires
        tags_are_distinct(tlvs),
    ensures
        tlv_dict(tlvs) == tlvs,
    decreases tlvs.len(),
{
    if tlvs.len() > 0 {
        let shorter = tlvs.drop_last();
        distinct_parameters_survive_the_dict(shorter);
        assert forall|j: int| 0 <= j < shorter.len() implies (#[trigger] shorter[j]).0
            != tlvs.last().0 by {
            assert(tlvs[j].0 != tlvs[tlvs.len() - 1].0);
        }
        dict_set_at(shorter, tlvs.last().0, tlvs.last().1, shorter.len() as int);
        assert(shorter.push((tlvs.last().0, tlvs.last().1)) =~= tlvs);
    } else {
        assert(tlvs =~= Seq::empty());
    }
}

/// The dict of whatever arrives holds each tag once.
pub proof fn a_dict_holds_each_tag_once(tlvs: Seq<(u16, Seq<u8>)>)
    ensures
        tags_are_distinct(tlv_dict(tlvs)),
    decreases tlvs.len(),
{
    if tlvs.len() > 0 {
        a_dict_holds_each_tag_once(tlvs.drop_last());
        let dict = tlv_dict(tlvs.drop_last());
        let tag = tlvs.last().0;
        let k = position_of(dict, tag, 0);
        position_is_first(dict, tag, 0);
        dict_set_at(dict, tag, tlvs.last().1, k);
    }
}

spec fn position_of(dict: Seq<(u16, Seq<u8>)>, tag: u16, from: int) -> int
    decreases dict.len() - from,
{
    if from < 0 || from >= dict.len() || dict[from].0 == tag {
        from
    } else {
        position_of(dict, tag, from + 1)
    }
}

proof fn position_is_first(dict: Seq<(u16, Seq<u8>)>, tag: u16, from: int)
    requires
        0 <= from <= dict.len(),
    ensures
        from <= position_of(dict, tag, from) <= dict.len(),
        forall|j: int| from <= j < position_of(dict, tag, from) ==> (#[trigger] dict[j]).0 != tag,
        position_of(dict, tag, from) < dict.len() ==> dict[position_of(dict, tag, from)].0 == tag,
    decreases dict.len() - from,
{
    if from < dict.len() && dict[from].0 != tag {
        position_is_first(dict, tag, from + 1);
    }
}

/// An integer takes just the octets of its tag's fixed width, whatever its value,
/// and reads back from them.
pub proof fn an_integer_takes_its_spec_width(tag: u16, n: u64)
    requires
        value_octets(tag, TlvValue::Int(n)) is Ok,
    ensures
        spec_width(tag) matches Some(width) && ({
            let octets = value_octets(tag, TlvValue::Int(n))->Ok_0;
            &&& octets.len() == width
            &&& big_endian_value(octets) == n
            &&& width == 1 ==> one_octet(Some(octets)) == Some(n as u8)
            &&& width == 2 ==> two_octets(Some(octets)) == Some(n as u16)
        }),
{
    let width = spec_width(tag)->Some_0;
    big_endian_reads_back(n as nat, width as nat);
    reveal_with_fuel(big_endian, 3);
    reveal_with_fuel(octet_range, 3);
}

/// A text reads back from the C-octet-string that it is put on the wire as.
pub proof fn a_text_reads_back(tag: u16, s: String)
    ensures
        value_octets(tag, TlvValue::Text(s)) is Ok,
        c_octet_text(value_octets(tag, TlvValue::Text(s))->Ok_0) == Some(s@),
{
    broadcast use {encode_utf8_valid_utf8, encode_utf8_decode_utf8};

    let octets = encode_utf8(s@).push(0);
    assert(octets.drop_last() =~= encode_utf8(s@));
}

// ── What is promised of single parameters ────────────────────────────────

/// The integers of one octet, by the names that SMPP 3.4 gives them.
pub proof fn these_parameters_take_one_octet()
    ensures
        name_of_tag(0x0005) == Some("DEST_ADDR_SUBUNIT"@) && tag_called("DEST_ADDR_SUBUNIT"@, 0) == Some(0x0005u16) && spec_width(
            0x0005,
        ) == Some(1usize),
        name_of_tag(0x0006) == Some("DEST_NETWORK_TYPE"@) && tag_called("DEST_NETWORK_TYPE"@, 0) == Some(0x0006u16) && spec_width(
            0x0006,
        ) == Some(1usize),
        name_of_tag(0x0007) == Some("DEST_BEARER_TYPE"@) && tag_called("DEST_BEARER_TYPE"@, 0) == Some(0x0007u16) && spec_width(
            0x0007,
        ) == Some(1usize),
        name_of_tag(0x000D) == Some("SOURCE_ADDR_SUBUNIT"@) && tag_called("SOURCE_ADDR_SUBUNIT"@, 0) == Some(0x000Du16) && spec_width(
            0x000D,
        ) == Some(1usize),
        name_of_tag(0x000E) == Some("SOURCE_NETWORK_TYPE"@) && tag_called("SOURCE_NETWORK_TYPE"@, 0) == Some(0x000Eu16) && spec_width(
            0x000E,
        ) == Some(1usize),
        name_of_tag(0x000F) == Some("SOURCE_BEARER_TYPE"@) && tag_called("SOURCE_BEARER_TYPE"@, 0) == Some(0x000Fu16) && spec_width(
            0x000F,
        ) == Some(1usize),
        name_of_tag(0x0010) == Some("SOURCE_TELEMATICS_ID"@) && tag_called("SOURCE_TELEMATICS_ID"@, 0) == Some(0x0010u16) && spec_width(
            0x0010,
        ) == Some(1usize),
        name_of_tag(0x0019) == Some("PAYLOAD_TYPE"@) && tag_called("PAYLOAD_TYPE"@, 0) == Some(0x0019u16) && spec_width(
            0x0019,
        ) == Some(1usize),
        name_of_tag(0x0030) == Some("MS_MSG_WAIT_FACILITIES"@) && tag_called("MS_MSG_WAIT_FACILITIES"@, 0) == Some(0x0030u16) && spec_width(
            0x0030,
        ) == Some(1usize),
        name_of_tag(0x0201) == Some("PRIVACY_INDICATOR"@) && tag_called("PRIVACY_INDICATOR"@, 0) == Some(0x0201u16) && spec_width(
            0x0201,
        ) == Some(1usize),
        name_of_tag(0x0205) == Some("USER_RESPONSE_CODE"@) && tag_called("USER_RESPONSE_CODE"@, 0) == Some(0x0205u16) && spec_width(
            0x0205,
        ) == Some(1usize),
        name_of_tag(0x020D) == Some("LANGUAGE_INDICATOR"@) && tag_called("LANGUAGE_INDICATOR"@, 0) == Some(0x020Du16) && spec_width(
            0x020D,
        ) == Some(1usize),
        name_of_tag(0x020E) == Some("SAR_TOTAL_SEGMENTS"@) && tag_called("SAR_TOTAL_SEGMENTS"@, 0) == Some(0x020Eu16) && spec_width(
            0x020E,
        ) == Some(1usize),
        name_of_tag(0x020F) == Some("SAR_SEGMENT_SEQNUM"@) && tag_called("SAR_SEGMENT_SEQNUM"@, 0) == Some(0x020Fu16) && spec_width(
            0x020F,
        ) == Some(1usize),
        name_of_tag(0x0210) == Some("SC_INTERFACE_VERSION"@) && tag_called("SC_INTERFACE_VERSION"@, 0) == Some(0x0210u16) && spec_width(
            0x0210,
        ) == Some(1usize),
        name_of_tag(0x0302) == Some("CALLBACK_NUM_PRES_IND"@) && tag_called("CALLBACK_NUM_PRES_IND"@, 0) == Some(0x0302u16) && spec_width(
            0x0302,
        ) == Some(1usize),
        name_of_tag(0x0304) == Some("NUMBER_OF_MESSAGES"@) && tag_called("NUMBER_OF_MESSAGES"@, 0) == Some(0x0304u16) && spec_width(
            0x0304,
        ) == Some(1usize),
        name_of_tag(0x0420) == Some("DPF_RESULT"@) && tag_called("DPF_RESULT"@, 0) == Some(0x0420u16) && spec_width(
            0x0420,
        ) == Some(1usize),
        name_of_tag(0x0421) == Some("SET_DPF"@) && tag_called("SET_DPF"@, 0) == Some(0x0421u16) && spec_width(
            0x0421,
        ) == Some(1usize),
        name_of_tag(0x0422) == Some("MS_AVAILABILITY_STATUS"@) && tag_called("MS_AVAILABILITY_STATUS"@, 0) == Some(0x0422u16) && spec_width(
            0x0422,
        ) == Some(1usize),
        name_of_tag(0x0425) == Some("DELIVERY_FAILURE_REASON"@) && tag_called("DELIVERY_FAILURE_REASON"@, 0) == Some(0x0425u16) && spec_width(
            0x0425,
        ) == Some(1usize),
        name_of_tag(0x0426) == Some("MORE_MESSAGES_TO_SEND"@) && tag_called("MORE_MESSAGES_TO_SEND"@, 0) == Some(0x0426u16) && spec_width(
            0x0426,
        ) == Some(1usize),
        name_of_tag(0x0427) == Some("MESSAGE_STATE"@) && tag_called("MESSAGE_STATE"@, 0) == Some(0x0427u16) && spec_width(
            0x0427,
        ) == Some(1usize),
        name_of_tag(0x0501) == Some("USSD_SERVICE_OP"@) && tag_called("USSD_SERVICE_OP"@, 0) == Some(0x0501u16) && spec_width(
            0x0501,
        ) == Some(1usize),
        name_of_tag(0x1201) == Some("DISPLAY_TIME"@) && tag_called("DISPLAY_TIME"@, 0) == Some(0x1201u16) && spec_width(
            0x1201,
        ) == Some(1usize),
        name_of_tag(0x1204) == Some("MS_VALIDITY"@) && tag_called("MS_VALIDITY"@, 0) == Some(0x1204u16) && spec_width(
            0x1204,
        ) == Some(1usize),
        name_of_tag(0x1380) == Some("ITS_REPLY_TYPE"@) && tag_called("ITS_REPLY_TYPE"@, 0) == Some(0x1380u16) && spec_width(
            0x1380,
        ) == Some(1usize),
{
    reveal(standard_tags);
    entry_is_found(0, 0);
    entry_is_found(1, 0);
    entry_is_found(2, 0);
    entry_is_found(4, 0);
    entry_is_found(5, 0);
    entry_is_found(6, 0);
    entry_is_found(7, 0);
    entry_is_found(9, 0);
    entry_is_found(12, 0);
    entry_is_found(13, 0);
    entry_is_found(17, 0);
    entry_is_found(21, 0);
    entry_is_found(22, 0);
    entry_is_found(23, 0);
    entry_is_found(24, 0);
    entry_is_found(25, 0);
    entry_is_found(27, 0);
    entry_is_found(29, 0);
    entry_is_found(30, 0);
    entry_is_found(31, 0);
    entry_is_found(34, 0);
    entry_is_found(35, 0);
    entry_is_found(36, 0);
    entry_is_found(37, 0);
    entry_is_found(38, 0);
    entry_is_found(40, 0);
    entry_is_found(42, 0);
}

/// The integers of two octets and of four, by the names that SMPP 3.4 gives them.
pub proof fn these_parameters_take_more_octets()
    ensures
        name_of_tag(0x0008) == Some("DEST_TELEMATICS_ID"@) && tag_called("DEST_TELEMATICS_ID"@, 0) == Some(0x0008u16) && spec_width(
            0x0008,
        ) == Some(2usize),
        name_of_tag(0x0017) == Some("QOS_TIME_TO_LIVE"@) && tag_called("QOS_TIME_TO_LIVE"@, 0) == Some(0x0017u16) && spec_width(
            0x0017,
        ) == Some(4usize),
        name_of_tag(0x0204) == Some("USER_MESSAGE_REFERENCE"@) && tag_called("USER_MESSAGE_REFERENCE"@, 0) == Some(0x0204u16) && spec_width(
            0x0204,
        ) == Some(2usize),
        name_of_tag(0x020A) == Some("SOURCE_PORT"@) && tag_called("SOURCE_PORT"@, 0) == Some(0x020Au16) && spec_width(
            0x020A,
        ) == Some(2usize),
        name_of_tag(0x020B) == Some("DESTINATION_PORT"@) && tag_called("DESTINATION_PORT"@, 0) == Some(0x020Bu16) && spec_width(
            0x020B,
        ) == Some(2usize),
        name_of_tag(0x020C) == Some("SAR_MSG_REF_NUM"@) && tag_called("SAR_MSG_REF_NUM"@, 0) == Some(0x020Cu16) && spec_width(
            0x020C,
        ) == Some(2usize),
        name_of_tag(0x1203) == Some("SMS_SIGNAL"@) && tag_called("SMS_SIGNAL"@, 0) == Some(0x1203u16) && spec_width(
            0x1203,
        ) == Some(2usize),
{
    reveal(standard_tags);
    entry_is_found(3, 0);
    entry_is_found(8, 0);
    entry_is_found(16, 0);
    entry_is_found(18, 0);
    entry_is_found(19, 0);
    entry_is_found(20, 0);
    entry_is_found(39, 0);
}

/// The parameters that are octet strings or carry nothing, so that no integer can be
/// put into them.
pub proof fn these_parameters_are_no_integers()
    ensures
        name_of_tag(0x001D) == Some("ADDITIONAL_STATUS_INFO_TEXT"@) && tag_called("ADDITIONAL_STATUS_INFO_TEXT"@, 0) == Some(0x001Du16) && spec_width(
            0x001D,
        ) == None::<usize>,
        name_of_tag(0x001E) == Some("RECEIPTED_MESSAGE_ID"@) && tag_called("RECEIPTED_MESSAGE_ID"@, 0) == Some(0x001Eu16) && spec_width(
            0x001E,
        ) == None::<usize>,
        name_of_tag(0x0202) == Some("SOURCE_SUBADDRESS"@) && tag_called("SOURCE_SUBADDRESS"@, 0) == Some(0x0202u16) && spec_width(
            0x0202,
        ) == None::<usize>,
        name_of_tag(0x0203) == Some("DEST_SUBADDRESS"@) && tag_called("DEST_SUBADDRESS"@, 0) == Some(0x0203u16) && spec_width(
            0x0203,
        ) == None::<usize>,
        name_of_tag(0x0303) == Some("CALLBACK_NUM_ATAG"@) && tag_called("CALLBACK_NUM_ATAG"@, 0) == Some(0x0303u16) && spec_width(
            0x0303,
        ) == None::<usize>,
        name_of_tag(0x0381) == Some("CALLBACK_NUM"@) && tag_called("CALLBACK_NUM"@, 0) == Some(0x0381u16) && spec_width(
            0x0381,
        ) == None::<usize>,
        name_of_tag(0x0423) == Some("NETWORK_ERROR_CODE"@) && tag_called("NETWORK_ERROR_CODE"@, 0) == Some(0x0423u16) && spec_width(
            0x0423,
        ) == None::<usize>,
        name_of_tag(0x0424) == Some("MESSAGE_PAYLOAD"@) && tag_called("MESSAGE_PAYLOAD"@, 0) == Some(0x0424u16) && spec_width(
            0x0424,
        ) == None::<usize>,
        name_of_tag(0x130C) == Some("ALERT_ON_MESSAGE_DELIVERY"@) && tag_called("ALERT_ON_MESSAGE_DELIVERY"@, 0) == Some(0x130Cu16) && spec_width(
            0x130C,
        ) == None::<usize>,
        name_of_tag(0x1383) == Some("ITS_SESSION_INFO"@) && tag_called("ITS_SESSION_INFO"@, 0) == Some(0x1383u16) && spec_width(
            0x1383,
        ) == None::<usize>,
{
    reveal(standard_tags);
    entry_is_found(10, 0);
    entry_is_found(11, 0);
    entry_is_found(14, 0);
    entry_is_found(15, 0);
    entry_is_found(26, 0);
    entry_is_found(28, 0);
    entry_is_found(32, 0);
    entry_is_found(33, 0);
    entry_is_found(41, 0);
    entry_is_found(43, 0);
}

/// Whether `s` is `inner` with nothing but white space around it.
pub open spec fn is_padded(s: Seq<char>, inner: Seq<char>) -> bool {
    exists|from: int|
        0 <= from && from + inner.len() <= s.len() && #[trigger] s.subrange(
            from,
            from + inner.len(),
        ) == inner && (forall|i: int| 0 <= i < from ==> text::is_space(#[trigger] s[i])) && (
        forall|i: int| from + inner.len() <= i < s.len() ==> text::is_space(#[trigger] s[i]))
}

/// A name stands for a tag only where it is the name of that tag, letter by
/// letter but for the case, with the prefix `TLV_` or without, and with nothing
/// but white space around it.
pub proof fn no_other_name_is_taken_for_a_tag(s: Seq<char>)
    requires
        tag_of_name(s) is Some,
    ensures
        ({
            let name = name_of_tag(tag_of_name(s)->0);
            &&& name is Some
            &&& exists|inner: Seq<char>|
                #[trigger] is_padded(s, inner) && ({
                    ||| inner.map_values(|c: char| text::ascii_upper(c)) == name->0
                    ||| inner.map_values(|c: char| text::ascii_upper(c)) == "TLV_"@ + name->0
                })
        }),
{
    names_and_tags_are_inverse(canonical(s), tag_of_name(s)->0);
    let inner = text::trimmed(s);
    let (from, to) = text::trimming_takes_white_space_only(s);
    assert(s.subrange(from, from + inner.len()) == inner);
    assert(is_padded(s, inner));
    let upper = inner.map_values(|c: char| text::ascii_upper(c));
    if text::stands_at(upper, "TLV_"@, 0) {
        reveal_strlit("TLV_");
        assert("TLV_"@ + upper.skip(4) =~= upper) by {
            assert(upper.subrange(0, 4) == "TLV_"@);
            assert(upper =~= upper.subrange(0, 4) + upper.skip(4));
        }
    }
}

/// A raw tag stands for itself where it has sixteen bits, and else for none; what
/// is neither a name nor a number stands for none.
pub proof fn a_raw_tag_stands_for_itself(raw: i64, name: String, n: usize)
    ensures
        key_tag(TlvKey::Tag(raw)) is Ok <==> 0 <= raw <= 0xFFFF,
        0 <= raw <= 0xFFFF ==> key_tag(TlvKey::Tag(raw))->Ok_0 == raw,
        key_tag(TlvKey::Name(name)) is Ok <==> tag_of_name(name@) is Some,
        tag_of_name(name@) matches Some(tag) ==> key_tag(TlvKey::Name(name)) == Ok::<u16, Fault>(
            tag,
        ),
        key_tag(TlvKey::Other(name)) matches Err(f) && f is Type,
        key_tag(TlvKey::Unreadable(n)) == Err::<u16, Fault>(Fault::Pending(n)),
{
}

/// Octets go out as they are, under whatever tag. An integer goes out where it
/// fits into the octets of its parameter, most significant octet first, and is
/// refused else, as is every integer under a tag that takes none.
pub proof fn values_go_out_as_they_are(tag: u16, b: Vec<u8>, n: u64)
    ensures
        value_octets(tag, TlvValue::Bytes(b)) == Ok::<Seq<u8>, Fault>(b@),
        value_octets(tag, TlvValue::NotUnsigned) is Err,
        value_octets(tag, TlvValue::Int(n)) is Ok <==> ({
            ||| spec_width(tag) == Some(1usize) && n < 0x100
            ||| spec_width(tag) == Some(2usize) && n < 0x1_0000
            ||| spec_width(tag) == Some(4usize) && n < 0x1_0000_0000
        }),
        value_octets(tag, TlvValue::Int(n)) matches Ok(o) ==> ({
            ||| o.len() == 1 && o[0] == n
            ||| o.len() == 2 && o[0] * 0x100 + o[1] == n
            ||| o.len() == 4 && o[0] * 0x100_0000 + o[1] * 0x1_0000 + o[2] * 0x100 + o[3] == n
        }),
{
    reveal_with_fuel(octet_range, 5);
    reveal_with_fuel(big_endian, 5);
    if spec_width(tag) is Some {
        integer_tags_are_standard(tag);
    }
    if value_octets(tag, TlvValue::Int(n)) is Ok {
        let o = value_octets(tag, TlvValue::Int(n))->Ok_0;
        let m = n as nat;
        if spec_width(tag) == Some(4usize) {
            assert(o[3] as nat == m % 256 && o[2] as nat == m / 256 % 256 && o[1] as nat == m / 256
                / 256 % 256 && o[0] as nat == m / 256 / 256 / 256 % 256);
        }
    }
}

/// Of several parameters with one tag the first is read; of none, nothing.
pub proof fn the_first_of_a_tag_is_read(tlvs: Seq<(u16, Seq<u8>)>, tag: u16)
    ensures
        match first_value(tlvs, tag) {
            Some(v) => exists|i: int|
                0 <= i < tlvs.len() && #[trigger] tlvs[i] == (tag, v) && forall|j: int|
                    0 <= j < i ==> (#[trigger] tlvs[j]).0 != tag,
            None => forall|j: int| 0 <= j < tlvs.len() ==> (#[trigger] tlvs[j]).0 != tag,
        },
    decreases tlvs.len(),
{
    if tlvs.len() > 0 {
        if tlvs[0].0 == tag {
            assert(tlvs[0] == (tag, tlvs[0].1));
        } else {
            let rest = tlvs.skip(1);
            the_first_of_a_tag_is_read(rest, tag);
            match first_value(rest, tag) {
                Some(v) => {
                    let i = choose|i: int|
                        0 <= i < rest.len() && #[trigger] rest[i] == (tag, v) && forall|j: int|
                            0 <= j < i ==> (#[trigger] rest[j]).0 != tag;
                    assert(tlvs[i + 1] == (tag, v));
                    assert forall|j: int| 0 <= j < i + 1 implies (#[trigger] tlvs[j]).0 != tag by {
                        if j > 0 {
                            assert(rest[j - 1] == tlvs[j]);
                        }
                    }
                },
                None => {
                    assert forall|j: int| 0 <= j < tlvs.len() implies (#[trigger] tlvs[j]).0
                        != tag by {
                        if j > 0 {
                            assert(rest[j - 1] == tlvs[j]);
                        }
                    }
                },
            }
        }
    }
}

/// A value is read as a number of one octet or of two where it has just as many,
/// most significant octet first.
pub proof fn numbers_are_read_from_their_octets(v: Seq<u8>)
    ensures
        one_octet(Some(v)) is Some <==> v.len() == 1,
        v.len() == 1 ==> one_octet(Some(v)) == Some(v[0]),
        two_octets(Some(v)) is Some <==> v.len() == 2,
        v.len() == 2 ==> two_octets(Some(v))->0 == v[0] * 0x100 + v[1],
        one_octet(None) is None,
        two_octets(None) is None,
{
}

/// What a script's dict is turned into stands in the order of the dict: entry by
/// entry the tag of the key and the octets of the value.
pub proof fn a_dict_goes_out_in_its_order(items: Seq<(TlvKey, TlvValue)>, i: int)
    requires
        dict_tlvs(items) is Ok,
        0 <= i < items.len(),
    ensures
        dict_tlvs(items)->Ok_0.len() == items.len(),
        key_tag(items[i].0) == Ok::<u16, Fault>(dict_tlvs(items)->Ok_0[i].0),
        value_octets(dict_tlvs(items)->Ok_0[i].0, items[i].1) == Ok::<Seq<u8>, Fault>(
            dict_tlvs(items)->Ok_0[i].1,
        ),
{
    dict_entries(items, i);
}

/// A dict is refused only for a fault: where every key stands for a tag, no two
/// for the same one, and every value can be put under its tag, it goes out.
pub proof fn a_dict_without_a_fault_goes_out(items: Seq<(TlvKey, TlvValue)>)
    requires
        forall|i: int|
            0 <= i < items.len() ==> key_tag((#[trigger] items[i]).0) is Ok && value_octets(
                key_tag(items[i].0)->Ok_0,
                items[i].1,
            ) is Ok,
        forall|i: int, j: int|
            0 <= i < j < items.len() ==> key_tag((#[trigger] items[i]).0) != key_tag(
                (#[trigger] items[j]).0,
            ),
    ensures
        dict_tlvs(items) is Ok,
    decreases items.len(),
{
    if items.len() > 0 {
        let shorter = items.drop_last();
        assert forall|i: int| 0 <= i < shorter.len() implies key_tag((#[trigger] shorter[i]).0) is Ok
            && value_octets(key_tag(shorter[i].0)->Ok_0, shorter[i].1) is Ok by {
            assert(shorter[i] == items[i]);
        }
        assert forall|i: int, j: int| 0 <= i < j < shorter.len() implies key_tag(
            (#[trigger] shorter[i]).0,
        ) != key_tag((#[trigger] shorter[j]).0) by {
            assert(shorter[i] == items[i] && shorter[j] == items[j]);
        }
        a_dict_without_a_fault_goes_out(shorter);
        let last = items[items.len() - 1];
        let tlvs = dict_tlvs(shorter)->Ok_0;
        let tag = key_tag(last.0)->Ok_0;
        if has_tag(tlvs, tag) {
            let k = choose|k: int| 0 <= k < tlvs.len() && (#[trigger] tlvs[k]).0 == tag;
            if shorter.len() > 0 {
                dict_entries(shorter, 0);
                dict_entries(shorter, k);
                assert(items[k] == shorter[k]);
            } else {
                assert(tlvs.len() == 0);
            }
        }
    }
}

/// A dict with two keys for one tag is refused: neither of the two is dropped
/// silently.
pub proof fn a_tag_given_twice_is_refused(items: Seq<(TlvKey, TlvValue)>, i: int, j: int)
    requires
        0 <= i < j < items.len(),
        key_tag(items[i].0) == key_tag(items[j].0),
    ensures
        dict_tlvs(items) is Err,
{
    if dict_tlvs(items) is Ok {
        dict_entries(items, i);
        dict_entries(items, j);
    }
}

/// Of parameters that arrive with one tag the dict holds the value that stands
/// last.
pub proof fn a_dict_holds_the_last_value(tlvs: Seq<(u16, Seq<u8>)>, i: int)
    requires
        0 <= i < tlvs.len(),
        forall|j: int| i < j < tlvs.len() ==> (#[trigger] tlvs[j]).0 != tlvs[i].0,
    ensures
        first_value(tlv_dict(tlvs), tlvs[i].0) == Some(tlvs[i].1),
    decreases tlvs.len(),
{
    let shorter = tlvs.drop_last();
    let dict = tlv_dict(shorter);
    let last = tlvs.last();
    let tag = tlvs[i].0;
    if i < shorter.len() {
        assert forall|j: int| i < j < shorter.len() implies (#[trigger] shorter[j]).0
            != shorter[i].0 by {
            assert(shorter[j] == tlvs[j]);
        }
        a_dict_holds_the_last_value(shorter, i);
        assert(tlvs[tlvs.len() - 1].0 != tag);
    }
    set_is_read(dict, last.0, last.1, tag);
}

proof fn set_is_read(dict: Seq<(u16, Seq<u8>)>, tag: u16, value: Seq<u8>, read: u16)
    ensures
        first_value(dict_set(dict, tag, value), read) == if read == tag {
            Some(value)
        } else {
            first_value(dict, read)
        },
    decreases dict.len(),
{
    let out = dict_set(dict, tag, value);
    if dict.len() > 0 {
        let rest = dict.skip(1);
        if dict[0].0 == tag {
            assert(out.skip(1) =~= rest);
        } else {
            set_is_read(rest, tag, value, read);
            assert(out.skip(1) =~= dict_set(rest, tag, value));
        }
    } else {
        assert(out.skip(1) =~= Seq::empty());
        assert(first_value(Seq::empty(), read) is None);
    }
}

/// The dict of what arrives holds no tag that did not arrive.
pub proof fn a_dict_holds_nothing_else(tlvs: Seq<(u16, Seq<u8>)>, tag: u16)
    requires
        forall|j: int| 0 <= j < tlvs.len() ==> (#[trigger] tlvs[j]).0 != tag,
    ensures
        first_value(tlv_dict(tlvs), tag) is None,
    decreases tlvs.len(),
{
    if tlvs.len() > 0 {
        let shorter = tlvs.drop_last();
        assert forall|j: int| 0 <= j < shorter.len() implies (#[trigger] shorter[j]).0 != tag by {
            assert(shorter[j] == tlvs[j]);
        }
        a_dict_holds_nothing_else(shorter, tag);
        assert(tlvs[tlvs.len() - 1].0 != tag);
        set_is_read(tlv_dict(shorter), tlvs.last().0, tlvs.last().1, tag);
    }
}

/// A name in the table is in capitals already.
pub proof fn a_name_in_capitals_is_itself(tag: u16)
    requires
        name_of_tag(tag) is Some,
    ensures
        name_of_tag(tag)->0.map_values(|c: char| text::ascii_upper(c)) == name_of_tag(tag)->0,
{
    let name = name_of_tag(tag)->0;
    found_is_an_entry(name, tag, 0);
    let i = choose|i: int| 0 <= i < standard_tags().len() && standard_tags()[i] == (name, tag);
    entry_is_plain(i);
    assert forall|k: int| 0 <= k < name.len() implies text::ascii_upper(#[trigger] name[k])
        == name[k] by {
        assert(is_name_char(standard_tags()[i].0[k]));
    }
    assert(name.map_values(|c: char| text::ascii_upper(c)) =~= name);
}

} // verus!
