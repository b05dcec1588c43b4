use fix_engine::dictionary::DataType;
use fix_engine::dictionary::FixTag;
use fix_engine::intmap::IntMap;
use fix_engine::message_converter::fix_message_rows;
use fix_engine::message_converter::fixmap2fixmsg;
use fix_engine::message_converter::fixmsg2msgtype;
use fix_engine::message_converter::msgtype2fixmsg;
use fix_engine::message_validator::FixMessage;
use fix_engine::payload::FixMsgTag;
use fix_engine::strmap::StrMap;

fn setup_fix_tag_map() -> IntMap<FixTag> {
    let mut fix_tag_map = IntMap::new();
    let mut enums = StrMap::new();
    enums.insert("LOGON".to_string(), "A".to_string());
    fix_tag_map.insert(
        35,
        FixTag::new("35".to_string(), "MsgType".to_string(), DataType::String, Some(enums)),
    );
    fix_tag_map.insert(
        49,
        FixTag::new("49".to_string(), "SenderCompID".to_string(), DataType::String, None),
    );
    fix_tag_map.insert(
        56,
        FixTag::new("56".to_string(), "TargetCompID".to_string(), DataType::String, None),
    );
    fix_tag_map
}

#[test]
fn test_fix_tag() {
    let fix_tag = FixTag::new(
        "35".to_string(),
        "MsgType".to_string(),
        DataType::String,
        Some(StrMap::new()),
    );

    assert_eq!(fix_tag.number, "35");
    assert_eq!(fix_tag.name, "MsgType");
    assert_eq!(fix_tag.data_type(), &DataType::String);
}

#[test]
fn test_msgtype2fixmsg() {
    let mut fix_tag_map: StrMap<FixTag> = StrMap::new();
    let mut enums = StrMap::new();
    enums.insert("LOGON".to_string(), "A".to_string());
    fix_tag_map.insert(
        "MsgType".to_string(),
        FixTag::new("35".to_string(), "MsgType".to_string(), DataType::String, Some(enums)),
    );
    fix_tag_map.insert(
        "EncryptMethod".to_string(),
        FixTag::new("98".to_string(), "EncryptMethod".to_string(), DataType::String, None),
    );
    fix_tag_map.insert(
        "HeartBtInt".to_string(),
        FixTag::new("108".to_string(), "HeartBtInt".to_string(), DataType::String, None),
    );
    fix_tag_map.insert(
        "ResetSeqNumFlag".to_string(),
        FixTag::new("141".to_string(), "ResetSeqNumFlag".to_string(), DataType::String, None),
    );

    let mut msg_map: StrMap<StrMap<String>> = StrMap::new();
    let mut logon_map: StrMap<String> = StrMap::new();
    logon_map.insert("MsgType".to_string(), "LOGON".to_string());
    logon_map.insert("EncryptMethod".to_string(), "0".to_string());
    logon_map.insert("HeartBtInt".to_string(), "10".to_string());
    logon_map.insert("ResetSeqNumFlag".to_string(), "N".to_string());
    msg_map.insert("Logon".to_string(), logon_map);

    let fix_msg = msgtype2fixmsg("Logon".to_string(), &msg_map, &fix_tag_map, None, 1);

    println!("FIX message: {}", fix_msg);

    assert!(fix_msg.starts_with("35=A|"));
    assert!(fix_msg.contains("98=0|"));
    assert!(fix_msg.contains("108=10|"));
    assert!(fix_msg.contains("141=N|"));
    assert!(fix_msg.contains("10="));
}

#[test]
fn test_msgtype2fixmsg_with_override() {
    let mut fix_tag_map: StrMap<FixTag> = StrMap::new();
    let mut enums = StrMap::new();
    enums.insert("LOGON".to_string(), "A".to_string());
    fix_tag_map.insert(
        "MsgType".to_string(),
        FixTag::new("35".to_string(), "MsgType".to_string(), DataType::String, Some(enums)),
    );
    fix_tag_map.insert(
        "TargetCompID,".to_string(),
        FixTag::new("56".to_string(), "TargetCompID".to_string(), DataType::String, None),
    );
    fix_tag_map.insert(
        "EncryptMethod".to_string(),
        FixTag::new("98".to_string(), "EncryptMethod".to_string(), DataType::String, None),
    );
    fix_tag_map.insert(
        "HeartBtInt".to_string(),
        FixTag::new("108".to_string(), "HeartBtInt".to_string(), DataType::String, None),
    );
    fix_tag_map.insert(
        "ResetSeqNumFlag".to_string(),
        FixTag::new("141".to_string(), "ResetSeqNumFlag".to_string(), DataType::String, None),
    );

    let mut msg_map: StrMap<StrMap<String>> = StrMap::new();
    let mut logon_map: StrMap<String> = StrMap::new();
    logon_map.insert("MsgType".to_string(), "Logon".to_string());
    logon_map.insert("TargetCompID".to_string(), "XYZ".to_string());
    logon_map.insert("EncryptMethod".to_string(), "0".to_string());
    logon_map.insert("HeartBtInt".to_string(), "10".to_string());
    logon_map.insert("ResetSeqNumFlag".to_string(), "N".to_string());
    msg_map.insert("Logon".to_string(), logon_map);

    let mut override_map: StrMap<String> = StrMap::new();
    override_map.insert("TargetCompID".to_string(), "OVERRIDE_XYZ".to_string());

    let fix_msg = msgtype2fixmsg(
        "Logon".to_string(),
        &msg_map,
        &fix_tag_map,
        Some(&override_map),
        1,
    );

    println!("FIX message: {}", fix_msg);

    assert!(fix_msg.starts_with("35=A|"));
    assert!(fix_msg.contains("98=0|"));
    assert!(fix_msg.contains("108=10|"));
    assert!(fix_msg.contains("141=N|"));
    assert!(fix_msg.contains("10="));
}

#[test]
fn test_fixmsg2msgtype() {
    let fix_tag_map = setup_fix_tag_map();
    let fixmsg = "35=A|49=SENDER123|56=TARGET123";

    let result = fixmsg2msgtype(fixmsg, &fix_tag_map);
    assert!(result.is_ok());

    let (msgtype, msg_map) = result.unwrap();
    assert_eq!(msgtype, "A");
    assert_eq!(msg_map.get("MsgType").unwrap(), "A");
    assert_eq!(msg_map.get("SenderCompID").unwrap(), "SENDER123");
    assert_eq!(msg_map.get("TargetCompID").unwrap(), "TARGET123");
}

#[test]
fn test_fixmap2fixmsg() {
    let mut fix_tag_map: StrMap<FixTag> = StrMap::new();
    let mut enums = StrMap::new();
    enums.insert("LOGON".to_string(), "A".to_string());
    fix_tag_map.insert(
        "MsgType".to_string(),
        FixTag::new("35".to_string(), "MsgType".to_string(), DataType::String, Some(enums)),
    );
    fix_tag_map.insert(
        "SenderCompID".to_string(),
        FixTag::new("49".to_string(), "SenderCompID".to_string(), DataType::String, None),
    );
    fix_tag_map.insert(
        "TargetCompID".to_string(),
        FixTag::new("56".to_string(), "TargetCompID".to_string(), DataType::String, None),
    );

    let mut msg_map: StrMap<String> = StrMap::new();
    msg_map.insert("MsgType".to_string(), "LOGON".to_string());
    msg_map.insert("SenderCompID".to_string(), "TEST_SENDER".to_string());
    msg_map.insert("TargetCompID".to_string(), "TEST_TARGET".to_string());

    let fix_msg = fixmap2fixmsg(&msg_map, &fix_tag_map, 1);

    assert!(fix_msg.starts_with("35=A|"));
    assert!(fix_msg.contains("49=TEST_SENDER|"));
    assert!(fix_msg.contains("56=TEST_TARGET|"));
    assert!(fix_msg.contains("10="));
}

fn checksum_of(prefix: &str) -> u32 {
    let soh = prefix.replace('|', "\x01");
    let mut sum: u32 = 0;
    for b in soh.as_bytes() {
        sum = (sum + *b as u32) % 256;
    }
    sum
}

#[test]
fn test_checksum_matches_byte_sum() {
    let mut fix_tag_map: StrMap<FixTag> = StrMap::new();
    fix_tag_map.insert(
        "SenderCompID".to_string(),
        FixTag::new("49".to_string(), "SenderCompID".to_string(), DataType::String, None),
    );
    fix_tag_map.insert(
        "TargetCompID".to_string(),
        FixTag::new("56".to_string(), "TargetCompID".to_string(), DataType::String, None),
    );
    let mut msg_map: StrMap<String> = StrMap::new();
    msg_map.insert("SenderCompID".to_string(), "AAA".to_string());
    msg_map.insert("TargetCompID".to_string(), "BBB".to_string());
    let fix_msg = fixmap2fixmsg(&msg_map, &fix_tag_map, 1);
    // The trailer has the shape |10=NNN| with NNN the sum of all bytes
    // before it (in SOH form) modulo 256.
    let at = fix_msg.rfind("|10=").unwrap();
    let prefix = &fix_msg[..at];
    let digits = &fix_msg[at + 4..at + 7];
    let expected = checksum_of(prefix);
    assert_eq!(digits.parse::<u32>().unwrap(), expected);
    assert_eq!(fix_msg, format!("49=AAA|56=BBB|10={:03}|", expected));
}

#[test]
fn test_body_length_counts_octets() {
    let mut fix_tag_map: StrMap<FixTag> = StrMap::new();
    fix_tag_map.insert(
        "BeginString".to_string(),
        FixTag::new("8".to_string(), "BeginString".to_string(), DataType::String, None),
    );
    fix_tag_map.insert(
        "BodyLength".to_string(),
        FixTag::new("9".to_string(), "BodyLength".to_string(), DataType::Int, None),
    );
    fix_tag_map.insert(
        "SenderCompID".to_string(),
        FixTag::new("49".to_string(), "SenderCompID".to_string(), DataType::String, None),
    );
    let mut msg_map: StrMap<String> = StrMap::new();
    msg_map.insert("BeginString".to_string(), "FIX.4.2".to_string());
    msg_map.insert("BodyLength".to_string(), String::new());
    msg_map.insert("SenderCompID".to_string(), "ENGINE".to_string());
    let fix_msg = fixmap2fixmsg(&msg_map, &fix_tag_map, 1);
    // BodyLength covers "49=ENGINE" plus its separator: 10 octets.
    assert!(fix_msg.starts_with("8=FIX.4.2|9=10|49=ENGINE|10="));
    let between = "49=ENGINE|";
    assert_eq!(between.len(), 10);
}

#[test]
fn test_round_trip_template_fields() {
    // Encoding a template and decoding the result gives the merged fields
    // back, with MsgSeqNum stamped and SendingTime freshly generated.
    let mut name_map: StrMap<FixTag> = StrMap::new();
    let mut enums = StrMap::new();
    enums.insert("LOGON".to_string(), "A".to_string());
    name_map.insert(
        "MsgType".to_string(),
        FixTag::new("35".to_string(), "MsgType".to_string(), DataType::String, Some(enums)),
    );
    name_map.insert(
        "MsgSeqNum".to_string(),
        FixTag::new("34".to_string(), "MsgSeqNum".to_string(), DataType::Int, None),
    );
    name_map.insert(
        "SenderCompID".to_string(),
        FixTag::new("49".to_string(), "SenderCompID".to_string(), DataType::String, None),
    );
    name_map.insert(
        "SendingTime".to_string(),
        FixTag::new("52".to_string(), "SendingTime".to_string(), DataType::String, None),
    );
    name_map.insert(
        "HeartBtInt".to_string(),
        FixTag::new("108".to_string(), "HeartBtInt".to_string(), DataType::String, None),
    );

    let mut number_map: IntMap<FixTag> = IntMap::new();
    let mut dec_enums = StrMap::new();
    dec_enums.insert("A".to_string(), "LOGON".to_string());
    number_map.insert(
        35,
        FixTag::new("35".to_string(), "MsgType".to_string(), DataType::String, Some(dec_enums)),
    );
    number_map.insert(
        34,
        FixTag::new("34".to_string(), "MsgSeqNum".to_string(), DataType::Int, None),
    );
    number_map.insert(
        49,
        FixTag::new("49".to_string(), "SenderCompID".to_string(), DataType::String, None),
    );
    number_map.insert(
        52,
        FixTag::new("52".to_string(), "SendingTime".to_string(), DataType::String, None),
    );
    number_map.insert(
        108,
        FixTag::new("108".to_string(), "HeartBtInt".to_string(), DataType::String, None),
    );
    number_map.insert(
        10,
        FixTag::new("10".to_string(), "CheckSum".to_string(), DataType::String, None),
    );

    let mut templates: StrMap<StrMap<String>> = StrMap::new();
    let mut logon: StrMap<String> = StrMap::new();
    logon.insert("MsgType".to_string(), "LOGON".to_string());
    logon.insert("MsgSeqNum".to_string(), String::new());
    logon.insert("SenderCompID".to_string(), "ENGINE".to_string());
    logon.insert("SendingTime".to_string(), String::new());
    logon.insert("HeartBtInt".to_string(), "30".to_string());
    templates.insert("Logon".to_string(), logon);

    let mut overrides: StrMap<String> = StrMap::new();
    overrides.insert("HeartBtInt".to_string(), "15".to_string());

    let encoded = msgtype2fixmsg("Logon".to_string(), &templates, &name_map, Some(&overrides), 7);
    let (name, fields) = fixmsg2msgtype(&encoded, &number_map).unwrap();

    assert_eq!(name, "LOGON");
    assert_eq!(fields.get("MsgType").unwrap(), "LOGON");
    assert_eq!(fields.get("MsgSeqNum").unwrap(), "7");
    assert_eq!(fields.get("SenderCompID").unwrap(), "ENGINE");
    assert_eq!(fields.get("HeartBtInt").unwrap(), "15");
    // SendingTime is stamped with the wall clock: YYYYMMDD-HH:MM:SS.mmm.
    let st = fields.get("SendingTime").unwrap();
    assert_eq!(st.len(), 21);
    assert_eq!(&st[8..9], "-");
    assert_eq!(&st[17..18], ".");
    assert!(st[0..8].chars().all(|c| c.is_ascii_digit()));
}

#[test]
fn test_decode_unknown_and_invalid_tags() {
    let fix_tag_map = setup_fix_tag_map();
    let (t1, m1) = fixmsg2msgtype("999=zzz", &fix_tag_map).unwrap();
    assert_eq!(t1, "UnknownTag");
    assert_eq!(m1.get("Unknown tag").unwrap(), "zzz");
    let (t2, m2) = fixmsg2msgtype("abc=1", &fix_tag_map).unwrap();
    assert_eq!(t2, "InvalidTagNumber");
    assert_eq!(m2.get("Invalid tag number").unwrap(), "1");
}

#[test]
fn test_fix_message_rows() {
    let fix_tag_map = setup_fix_tag_map();
    let rows = fix_message_rows("35=A|49=SENDER123|bad|zz=1|999=q", &fix_tag_map);
    assert_eq!(rows.len(), 4);
    assert_eq!(rows[0], ("MsgType".to_string(), "35".to_string(), "A".to_string(), String::new()));
    assert_eq!(
        rows[1],
        (
            "SenderCompID".to_string(),
            "49".to_string(),
            "SENDER123".to_string(),
            String::new()
        )
    );
    assert_eq!(
        rows[2],
        ("Invalid tag number".to_string(), "zz".to_string(), "1".to_string(), String::new())
    );
    assert_eq!(
        rows[3],
        ("Unknown tag".to_string(), "999".to_string(), "q".to_string(), String::new())
    );
}

#[test]
fn test_overflowing_body_length_rejected() {
    let raw = "8=FIX.4.2|9=99999999999999999999999999|35=D|10=000|";
    let message = FixMessage::parse(raw).unwrap();
    let required = vec!["8".to_string()];
    let valid = vec!["D".to_string()];
    let mut types: StrMap<FixMsgTag> = StrMap::new();
    types.insert(
        "D".to_string(),
        FixMsgTag {
            msgcat: "app".to_string(),
            msgname: "NEW_ORDER_SINGLE".to_string(),
            field: Some(StrMap::new()),
        },
    );
    assert!(!message.validate(&required, &valid, &types));
}
