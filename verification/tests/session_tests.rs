use fix_engine::config::enable_cmd_line;
use fix_engine::config::get_connection_details;
use fix_engine::config::get_order_store;
use fix_engine::config::get_sequence_store;
use fix_engine::config::is_initiator;
use fix_engine::config::update_heart_bt_int;
use fix_engine::config::update_reconnect_interval;
use fix_engine::dictionary::DataType;
use fix_engine::dictionary::FixTag;
use fix_engine::intmap::IntMap;
use fix_engine::message_handling::MessageMap;
use fix_engine::message_handling::SessionContext;
use fix_engine::message_handling::check_interval;
use fix_engine::message_handling::perform_task;
use fix_engine::message_handling::prepare_logon;
use fix_engine::message_handling::process_fix_message;
use fix_engine::orderstore::OrderStore;
use fix_engine::payload::FixMsgTag;
use fix_engine::sequence::SequenceNumberStore;
use fix_engine::strmap::StrMap;

fn cfg(entries: &[(&str, &[(&str, &str)])]) -> StrMap<StrMap<String>> {
    let mut m: StrMap<StrMap<String>> = StrMap::new();
    for (section, kvs) in entries {
        let mut s: StrMap<String> = StrMap::new();
        for (k, v) in *kvs {
            s.insert(k.to_string(), v.to_string());
        }
        m.insert(section.to_string(), s);
    }
    m
}

#[test]
fn test_update_reconnect_interval() {
    let config = cfg(&[("session", &[("reconnect_interval", "45")])]);
    let mut ctx = SessionContext::new(true, 0);
    assert_eq!(ctx.reconnect_interval, 30);
    update_reconnect_interval(&config, &mut ctx).unwrap();
    assert_eq!(ctx.reconnect_interval, 45);
}

#[test]
fn test_update_reconnect_interval_default() {
    let config = cfg(&[("session", &[])]);
    let mut ctx = SessionContext::new(true, 0);
    update_reconnect_interval(&config, &mut ctx).unwrap();
    assert_eq!(ctx.reconnect_interval, 30);
}

#[test]
fn test_update_heart_bt_int_default() {
    let config = cfg(&[("session", &[])]);
    let mut ctx = SessionContext::new(true, 0);
    update_heart_bt_int(&config, &mut ctx).unwrap();
    assert_eq!(ctx.heart_bt_int, 15);
}

#[test]
fn test_get_sequence_store() {
    let config = cfg(&[("session", &[("sequence_store", "sequence.txt")])]);
    let path = get_sequence_store(&config).unwrap();
    assert_eq!(path, "sequence.txt");
}

#[test]
fn test_get_order_store() {
    let config = cfg(&[("session", &[("order_store", "order.txt")])]);
    let path = get_order_store(&config).unwrap();
    assert_eq!(path, "order.txt");
}

#[test]
fn test_get_connection_details_initiator() {
    let config = cfg(
        &[
            (
                "session",
                &[("socket_connect_host", "127.0.0.1"), ("socket_connect_port", "8080")],
            ),
        ],
    );
    let (host, port) = get_connection_details(&config, true).unwrap();
    assert_eq!(host, "127.0.0.1");
    assert_eq!(port, 8080);
}

#[test]
fn test_get_connection_details_acceptor() {
    let config = cfg(
        &[
            (
                "session",
                &[("socket_accept_address", "192.168.0.1"), ("socket_accept_port", "9090")],
            ),
        ],
    );
    let (host, port) = get_connection_details(&config, false).unwrap();
    assert_eq!(host, "192.168.0.1");
    assert_eq!(port, 9090);
}

#[test]
fn test_is_initiator_true() {
    let config = cfg(&[("default", &[("connection_type", "initiator")])]);
    assert!(is_initiator(&config));
}

#[test]
fn test_is_initiator_false() {
    let config = cfg(&[("default", &[("connection_type", "acceptor")])]);
    assert!(!is_initiator(&config));
}

#[test]
fn test_enable_cmd_line_true() {
    let config = cfg(&[("default", &[("enable_cmd_line", "true")])]);
    assert!(enable_cmd_line(&config));
}

#[test]
fn test_enable_cmd_line_false() {
    let config = cfg(&[("default", &[("enable_cmd_line", "false")])]);
    assert!(!enable_cmd_line(&config));
}

fn tag(number: &str, name: &str, enums: &[(&str, &str)]) -> FixTag {
    let enum_values = if enums.is_empty() {
        None
    } else {
        let mut m: StrMap<String> = StrMap::new();
        for (k, v) in enums {
            m.insert(k.to_string(), v.to_string());
        }
        Some(m)
    };
    FixTag::new(number.to_string(), name.to_string(), DataType::String, enum_values)
}

const TYPE_ENUM: &[(&str, &str)] = &[
    ("A", "LOGON"),
    ("0", "HEARTBEAT"),
    ("1", "TEST_REQUEST"),
    ("2", "RESEND_REQUEST"),
    ("4", "SEQUENCE_RESET"),
    ("5", "LOGOUT"),
    ("8", "EXECUTION_REPORT"),
    ("D", "NEW_ORDER_SINGLE"),
    ("F", "ORDER_CANCEL_REQUEST"),
    ("G", "ORDER_CANCEL_REPLACE_REQUEST"),
    ("9", "ORDER_CANCEL_REJECT"),
    ("j", "BUSINESS_MESSAGE_REJECT"),
];

const TAG_DEFS: &[(&str, &str)] = &[
    ("8", "BeginString"),
    ("9", "BodyLength"),
    ("34", "MsgSeqNum"),
    ("49", "SenderCompID"),
    ("56", "TargetCompID"),
    ("52", "SendingTime"),
    ("98", "EncryptMethod"),
    ("108", "HeartBtInt"),
    ("141", "ResetSeqNumFlag"),
    ("7", "BeginSeqNo"),
    ("16", "EndSeqNo"),
    ("36", "NewSeqNo"),
    ("58", "Text"),
    ("10", "CheckSum"),
    ("11", "ClOrdID"),
    ("41", "OrigClOrdID"),
    ("55", "Symbol"),
    ("54", "Side"),
    ("38", "OrderQty"),
    ("44", "Price"),
    ("40", "OrdType"),
    ("60", "TransactTime"),
    ("37", "OrderID"),
    ("17", "ExecID"),
    ("150", "ExecType"),
    ("39", "OrdStatus"),
    ("20", "ExecTransType"),
    ("32", "LastShares"),
    ("31", "LastPx"),
    ("151", "LeavesQty"),
    ("14", "CumQty"),
    ("6", "AvgPx"),
    ("1", "Account"),
];

fn template(fields: &[(&str, &str)]) -> StrMap<String> {
    let mut m: StrMap<String> = StrMap::new();
    for (k, v) in fields {
        m.insert(k.to_string(), v.to_string());
    }
    m
}

fn test_maps() -> MessageMap {
    let mut fix_tag_number_map: IntMap<FixTag> = IntMap::new();
    let mut fix_tag_name_map: StrMap<FixTag> = StrMap::new();
    for (num, name) in TAG_DEFS {
        fix_tag_number_map.insert(num.parse().unwrap(), tag(num, name, &[]));
        fix_tag_name_map.insert(name.to_string(), tag(num, name, &[]));
    }
    // MsgType carries the type enum: code to name for decoding, upper-case
    // name to code for encoding.
    fix_tag_number_map.insert(35, tag("35", "MsgType", TYPE_ENUM));
    let enc_enum: Vec<(&str, &str)> = TYPE_ENUM.iter().map(|(c, n)| (*n, *c)).collect();
    fix_tag_name_map.insert("MsgType".to_string(), tag("35", "MsgType", &enc_enum));

    let header = &[
        ("BeginString", "FIX.4.2"),
        ("BodyLength", ""),
        ("MsgType", ""),
        ("MsgSeqNum", ""),
        ("SenderCompID", "ENGINE"),
        ("TargetCompID", "VENUE"),
        ("SendingTime", ""),
    ];
    let with_header = |extra: &[(&str, &str)], mt: &str| -> StrMap<String> {
        let mut m = template(header);
        m.insert("MsgType".to_string(), mt.to_string());
        for (k, v) in extra {
            m.insert(k.to_string(), v.to_string());
        }
        m
    };

    let mut admin_msg: StrMap<StrMap<String>> = StrMap::new();
    admin_msg.insert(
        "Logon".to_string(),
        with_header(&[("EncryptMethod", "0"), ("HeartBtInt", "30")], "LOGON"),
    );
    admin_msg.insert("Heartbeat".to_string(), with_header(&[], "HEARTBEAT"));
    admin_msg.insert(
        "Resend_Request".to_string(),
        with_header(&[("BeginSeqNo", "1"), ("EndSeqNo", "0")], "RESEND_REQUEST"),
    );
    admin_msg.insert(
        "Sequence_Reset".to_string(),
        with_header(&[("NewSeqNo", "1")], "SEQUENCE_RESET"),
    );
    admin_msg.insert("Logout".to_string(), with_header(&[("Text", "")], "LOGOUT"));

    let mut app_msg: StrMap<StrMap<String>> = StrMap::new();
    app_msg.insert("Execution_Report".to_string(), with_header(&[], "EXECUTION_REPORT"));
    app_msg.insert("Order_Cancel_Reject".to_string(), with_header(&[], "ORDER_CANCEL_REJECT"));
    app_msg.insert(
        "Business_Message_Reject".to_string(),
        with_header(&[], "BUSINESS_MESSAGE_REJECT"),
    );

    let mut msgnumber_fields_map: StrMap<FixMsgTag> = StrMap::new();
    for (code, name) in TYPE_ENUM {
        msgnumber_fields_map.insert(
            code.to_string(),
            FixMsgTag {
                msgcat: "app".to_string(),
                msgname: name.to_string(),
                field: Some(StrMap::new()),
            },
        );
    }

    MessageMap {
        fix_header: template(header),
        fix_tag_number_map,
        admin_msg_list: vec![
            "LOGON".to_string(),
            "LOGOUT".to_string(),
            "HEARTBEAT".to_string(),
            "TEST_REQUEST".to_string(),
            "RESEND_REQUEST".to_string(),
            "SEQUENCE_RESET".to_string(),
            "REJECT".to_string(),
        ],
        admin_msg,
        app_msg,
        fix_tag_name_map,
        msgname_fields_map: StrMap::new(),
        msgnumber_fields_map,
        valid_msg_types: TYPE_ENUM.iter().map(|(c, _)| c.to_string()).collect(),
        required_fields: vec!["8".to_string(), "9".to_string(), "35".to_string()],
    }
}

fn wire(msg: &str) -> String {
    msg.replace('|', "\x01")
}

fn unwire(msg: &str) -> String {
    msg.replace('\x01', "|")
}

#[test]
fn test_s1_logon_exchange() {
    let maps = test_maps();
    let mut ctx = SessionContext::new(true, 1000);
    let mut seq = SequenceNumberStore::new();
    let mut orders = OrderStore::new();

    let logon = prepare_logon(&maps.admin_msg, &maps.fix_tag_name_map, &mut seq, &mut ctx);
    let logon_text = unwire(&logon);
    assert!(logon_text.starts_with("8=FIX.4.2|"));
    assert!(logon_text.contains("35=A|"));
    assert!(logon_text.contains("34=1|"));
    assert!(logon_text.contains("49=ENGINE|"));
    assert!(logon_text.contains("56=VENUE|"));
    assert!(logon_text.contains("98=0|"));
    assert!(ctx.sent_logon);
    assert_eq!(seq.get_outgoing(), 2);

    let peer = wire("8=FIX.4.2|9=60|35=A|34=1|49=VENUE|56=ENGINE|98=0|108=30|10=000|");
    let outcome = process_fix_message(&peer, &maps, &mut ctx, &mut seq, &mut orders, 1001);
    assert!(!outcome.fatal);
    assert!(outcome.outbound.is_none());
    assert!(ctx.is_logged_on);
    assert!(ctx.received_logon);
    assert_eq!(seq.get_incoming(), 2);
    assert_eq!(seq.get_outgoing(), 2);
}

#[test]
fn test_s2_heartbeat_under_idle() {
    let maps = test_maps();
    let mut ctx = SessionContext::new(true, 1000);
    ctx.heart_bt_int = 1;
    ctx.received_logon = true;
    let mut seq = SequenceNumberStore::new();

    assert!(!check_interval(&ctx, 1000));
    assert!(check_interval(&ctx, 1002));

    let hb = perform_task(&maps.admin_msg, &maps.fix_tag_name_map, &mut seq, &mut ctx, 1002);
    let hb_text = unwire(&hb);
    assert!(hb_text.contains("35=0|"));
    assert_eq!(seq.get_outgoing(), 2);
    assert_eq!(ctx.last_sent_time.load(), 1002);
    assert!(!check_interval(&ctx, 1002));
}

#[test]
fn test_s3_resend_request_on_gap() {
    let maps = test_maps();
    let mut ctx = SessionContext::new(false, 1000);
    let mut seq = SequenceNumberStore::new();
    seq.set_incoming(5);
    let mut orders = OrderStore::new();

    let msg = wire("8=FIX.4.2|9=40|35=D|34=8|49=VENUE|56=ENGINE|10=000|");
    let outcome = process_fix_message(&msg, &maps, &mut ctx, &mut seq, &mut orders, 1001);
    assert!(!outcome.fatal);
    let out = unwire(&outcome.outbound.unwrap());
    assert!(out.contains("35=2|"));
    assert!(out.contains("7=5|"));
    assert!(out.contains("16=0|"));
    // Incoming is not advanced on a gap.
    assert_eq!(seq.get_incoming(), 5);
}

#[test]
fn test_s4_sequence_reset() {
    let maps = test_maps();
    let mut ctx = SessionContext::new(false, 1000);
    let mut seq = SequenceNumberStore::new();
    seq.set_incoming(7);
    let mut orders = OrderStore::new();

    let msg = wire("8=FIX.4.2|9=30|35=4|34=7|36=10|10=000|");
    let outcome = process_fix_message(&msg, &maps, &mut ctx, &mut seq, &mut orders, 1001);
    assert!(!outcome.fatal);
    assert_eq!(seq.get_outgoing(), 10);
}

#[test]
fn test_s5_new_order_single_execution_report() {
    let maps = test_maps();
    let mut ctx = SessionContext::new(false, 1000);
    let mut seq = SequenceNumberStore::new();
    let mut orders = OrderStore::new();

    let msg = wire(
        "8=FIX.4.2|9=80|35=D|34=1|11=100|55=XYZ|54=1|38=10|44=25|40=2|60=20240101-00:00:00|10=000|",
    );
    let outcome = process_fix_message(&msg, &maps, &mut ctx, &mut seq, &mut orders, 1001);
    assert!(!outcome.fatal);
    let stored = orders.get_order(100).unwrap();
    assert_eq!(stored.ordstatus, "New");
    assert_eq!(stored.symbol, "XYZ");
    let out = unwire(&outcome.outbound.unwrap());
    assert!(out.contains("35=8|"));
    assert!(out.contains("150=0|"));
    assert!(out.contains("39=0|"));
    assert_eq!(seq.get_incoming(), 2);
    assert_eq!(seq.get_outgoing(), 2);
}

#[test]
fn test_s6_malformed_order_rejected() {
    let maps = test_maps();
    let mut ctx = SessionContext::new(false, 1000);
    let mut seq = SequenceNumberStore::new();
    let mut orders = OrderStore::new();

    let msg = wire("8=FIX.4.2|9=60|35=D|34=1|55=XYZ|54=1|38=10|44=25|40=2|60=t|10=000|");
    let outcome = process_fix_message(&msg, &maps, &mut ctx, &mut seq, &mut orders, 1001);
    assert!(!outcome.fatal);
    let out = unwire(&outcome.outbound.unwrap());
    assert!(out.contains("35=8|"));
    assert!(out.contains("150=8|"));
    assert!(out.contains("39=8|"));
    assert_eq!(orders.count(), 0);
}

#[test]
fn test_sequence_too_low_logs_out() {
    let maps = test_maps();
    let mut ctx = SessionContext::new(false, 1000);
    let mut seq = SequenceNumberStore::new();
    seq.set_incoming(5);
    let mut orders = OrderStore::new();

    let msg = wire("8=FIX.4.2|9=40|35=D|34=3|49=VENUE|56=ENGINE|10=000|");
    let outcome = process_fix_message(&msg, &maps, &mut ctx, &mut seq, &mut orders, 1001);
    assert!(outcome.fatal);
    let out = unwire(&outcome.outbound.unwrap());
    assert!(out.contains("35=5|"));
    assert!(out.contains("58=MsgSeqNum too low, expecting 5 but received 3!!|"));
    assert_eq!(seq.get_incoming(), 5);
}

#[test]
fn test_dropped_when_validation_fails() {
    let maps = test_maps();
    let mut ctx = SessionContext::new(false, 1000);
    let mut seq = SequenceNumberStore::new();
    let mut orders = OrderStore::new();

    // Unknown MsgType code: validation drops the message entirely.
    let msg = wire("8=FIX.4.2|9=40|35=Z|34=1|10=000|");
    let outcome = process_fix_message(&msg, &maps, &mut ctx, &mut seq, &mut orders, 1001);
    assert!(!outcome.fatal);
    assert!(outcome.outbound.is_none());
    assert_eq!(seq.get_incoming(), 1);
}

#[test]
fn test_heartbeat_reply_to_heartbeat() {
    let maps = test_maps();
    let mut ctx = SessionContext::new(false, 1000);
    let mut seq = SequenceNumberStore::new();
    let mut orders = OrderStore::new();

    let msg = wire("8=FIX.4.2|9=20|35=0|34=1|10=000|");
    let outcome = process_fix_message(&msg, &maps, &mut ctx, &mut seq, &mut orders, 1001);
    let out = unwire(&outcome.outbound.unwrap());
    assert!(out.contains("35=0|"));
    assert_eq!(seq.get_incoming(), 2);
    assert_eq!(seq.get_outgoing(), 2);
    assert_eq!(ctx.last_sent_time.load(), 1001);
}

#[test]
fn test_sequence_reset_reply_to_resend_request() {
    let maps = test_maps();
    let mut ctx = SessionContext::new(false, 1000);
    let mut seq = SequenceNumberStore::new();
    seq.set_incoming(4);
    let mut orders = OrderStore::new();

    let msg = wire("8=FIX.4.2|9=30|35=2|34=4|7=2|16=0|10=000|");
    let outcome = process_fix_message(&msg, &maps, &mut ctx, &mut seq, &mut orders, 1001);
    let out = unwire(&outcome.outbound.unwrap());
    assert!(out.contains("35=4|"));
    // NewSeqNo carries the advanced incoming expectation.
    assert!(out.contains("36=5|"));
}

#[test]
fn test_cancel_replace_marks_order_replaced() {
    let maps = test_maps();
    let mut ctx = SessionContext::new(false, 1000);
    let mut seq = SequenceNumberStore::new();
    let mut orders = OrderStore::new();

    let nos = wire(
        "8=FIX.4.2|9=80|35=D|34=1|11=100|55=XYZ|54=1|38=10|44=25|40=2|60=20240101-00:00:00|10=000|",
    );
    let _ = process_fix_message(&nos, &maps, &mut ctx, &mut seq, &mut orders, 1001);
    assert_eq!(orders.get_order(100).unwrap().ordstatus, "New");

    let ocrr = wire(
        "8=FIX.4.2|9=90|35=G|34=2|41=100|11=101|55=XYZ|54=1|38=20|44=26|40=2|60=20240101-00:00:01|10=000|",
    );
    let outcome = process_fix_message(&ocrr, &maps, &mut ctx, &mut seq, &mut orders, 1002);
    let out = unwire(&outcome.outbound.unwrap());
    assert!(out.contains("150=5|"));
    assert!(out.contains("39=5|"));
    // The order stays under the original id, with the new ClOrdID recorded.
    let order = orders.get_order(100).unwrap();
    assert_eq!(order.ordstatus, "Replaced");
    assert_eq!(order.quantity, 20);
    assert_eq!(order.id, 101);
    assert!(orders.get_order(101).is_none());
}

#[test]
fn test_cancel_with_distinct_ids() {
    let maps = test_maps();
    let mut ctx = SessionContext::new(false, 1000);
    let mut seq = SequenceNumberStore::new();
    let mut orders = OrderStore::new();

    let nos = wire(
        "8=FIX.4.2|9=80|35=D|34=1|11=42|55=XYZ|54=1|38=10|44=25|40=2|60=20240101-00:00:00|10=000|",
    );
    let _ = process_fix_message(&nos, &maps, &mut ctx, &mut seq, &mut orders, 1001);
    assert_eq!(orders.get_order(42).unwrap().ordstatus, "New");

    let cancel = wire(
        "8=FIX.4.2|9=90|35=F|34=2|41=42|11=43|55=XYZ|54=1|38=10|44=25|40=2|60=20240101-00:00:01|10=000|",
    );
    let outcome = process_fix_message(&cancel, &maps, &mut ctx, &mut seq, &mut orders, 1002);
    let out = unwire(&outcome.outbound.unwrap());
    assert!(out.contains("150=4|"));
    assert!(out.contains("39=4|"));
    // The order named by OrigClOrdID is the one canceled.
    let order = orders.get_order(42).unwrap();
    assert_eq!(order.ordstatus, "Canceled");
    assert_eq!(order.id, 43);
    assert!(orders.get_order(43).is_none());
    assert_eq!(orders.count(), 1);
}

#[test]
fn test_unknown_business_type_rejected() {
    let maps = test_maps();
    let mut ctx = SessionContext::new(false, 1000);
    let mut seq = SequenceNumberStore::new();
    let mut orders = OrderStore::new();

    // ExecutionReport handling is unimplemented upstream traffic for an
    // acceptor; a business reject names the unsupported type.
    let msg = wire("8=FIX.4.2|9=20|35=j|34=1|10=000|");
    let outcome = process_fix_message(&msg, &maps, &mut ctx, &mut seq, &mut orders, 1001);
    let out = unwire(&outcome.outbound.unwrap());
    assert!(out.contains("35=j|"));
}

#[test]
fn test_initiator_ignores_application_messages() {
    let maps = test_maps();
    let mut ctx = SessionContext::new(true, 1000);
    let mut seq = SequenceNumberStore::new();
    let mut orders = OrderStore::new();

    let msg = wire(
        "8=FIX.4.2|9=80|35=D|34=1|11=100|55=XYZ|54=1|38=10|44=25|40=2|60=20240101-00:00:00|10=000|",
    );
    let outcome = process_fix_message(&msg, &maps, &mut ctx, &mut seq, &mut orders, 1001);
    assert!(outcome.outbound.is_none());
    // The order is still recorded; only the reply is suppressed.
    assert_eq!(orders.get_order(100).unwrap().ordstatus, "New");
}
