use fix_engine::dictionary::FixError;
use fix_engine::dictionary::XmlEvent;
use fix_engine::message_validator::FixMessage;
use fix_engine::payload::FixMsgTag;
use fix_engine::payload::handle_special_tag;
use fix_engine::payload::parse_field;
use fix_engine::payload::parse_fix_payload_xml;
use fix_engine::payload::parse_message;
use fix_engine::dictionary::parse_value_enum;
use fix_engine::dictionary::FixTag;
use fix_engine::strmap::StrMap;

fn create_test_msgtype_map() -> StrMap<FixMsgTag> {
    let mut msgtype_fields_map: StrMap<FixMsgTag> = StrMap::new();

    let mut order_msg_fields: StrMap<String> = StrMap::new();
    order_msg_fields.insert("11".to_string(), "ClOrdID".to_string());
    order_msg_fields.insert("55".to_string(), "Symbol".to_string());
    let fix_msg_tag = FixMsgTag {
        msgname: "Order".to_string(),
        msgcat: "app".to_string(),
        field: Some(order_msg_fields),
    };

    msgtype_fields_map.insert("D".to_string(), fix_msg_tag);

    msgtype_fields_map
}

#[test]
fn test_parse_valid_fix_message() {
    let raw_message = "8=FIX.4.4|9=65|35=D|11=12345|55=ABC|10=123|";
    let parsed = FixMessage::parse(raw_message);

    assert!(parsed.is_ok());
    let message = parsed.unwrap();

    assert_eq!(message.fields.get("8").unwrap(), "FIX.4.4");
    assert_eq!(message.fields.get("9").unwrap(), "65");
    assert_eq!(message.fields.get("35").unwrap(), "D");
    assert_eq!(message.fields.get("11").unwrap(), "12345");
    assert_eq!(message.fields.get("55").unwrap(), "ABC");
    assert_eq!(message.fields.get("10").unwrap(), "123");
}

#[test]
fn test_parse_invalid_field_format() {
    let raw_message = "8=FIX.4.4|9=65|35D|11=12345|";
    let parsed = FixMessage::parse(raw_message);

    assert!(parsed.is_err());
    assert_eq!(parsed.unwrap_err(), "Invalid field format");
}

#[test]
fn test_parse_empty_message() {
    let raw_message = "";
    let parsed = FixMessage::parse(raw_message);

    assert!(parsed.is_ok());
    let message = parsed.unwrap();

    assert!(message.fields.len() == 0);
}

#[test]
fn test_validate_fix_message_success() {
    let raw_message = "8=FIX.4.4|9=65|35=D|11=12345|55=ABC|10=123|";
    let message = FixMessage::parse(raw_message).unwrap();

    let required_fields = vec!["8".to_string(), "9".to_string(), "35".to_string()];
    let valid_msg_types = vec!["D".to_string()];
    let msgtype_map = create_test_msgtype_map();

    let is_valid = message.validate(&required_fields, &valid_msg_types, &msgtype_map);
    assert!(is_valid);
}

#[test]
fn test_validate_missing_required_field() {
    let raw_message = "8=FIX.4.4|9=65|35=D|55=ABC|10=123|";
    let message = FixMessage::parse(raw_message).unwrap();

    let required_fields = vec!["8".to_string(), "9".to_string(), "35".to_string()];
    let msgtype_map = create_test_msgtype_map();
    let valid_msg_types = vec!["D".to_string()];

    let is_valid = message.validate(&required_fields, &valid_msg_types, &msgtype_map);
    assert!(!is_valid);
}

#[test]
fn test_validate_invalid_msg_type() {
    let raw_message = "8=FIX.4.4|9=65|35=Z|11=12345|55=ABC|10=123|";
    let message = FixMessage::parse(raw_message).unwrap();

    let required_fields = vec!["8".to_string(), "9".to_string(), "35".to_string()];
    let msgtype_map = create_test_msgtype_map();
    let valid_msg_types = vec!["D".to_string()];

    let is_valid = message.validate(&required_fields, &valid_msg_types, &msgtype_map);
    assert!(!is_valid);
}

#[test]
fn test_validate_missing_msgtype_definition() {
    let raw_message = "8=FIX.4.4|9=65|35=C|11=12345|55=ABC|10=123|";
    let message = FixMessage::parse(raw_message).unwrap();

    let required_fields = vec!["8".to_string(), "9".to_string(), "35".to_string()];
    let msgtype_map = create_test_msgtype_map();
    let valid_msg_types = vec!["C".to_string()];

    let is_valid = message.validate(&required_fields, &valid_msg_types, &msgtype_map);
    assert!(!is_valid);
}

#[test]
fn test_validate_invalid_body_length() {
    let raw_message = "8=FIX.4.4|9=abc|35=D|11=12345|55=ABC|10=123|";
    let message = FixMessage::parse(raw_message).unwrap();

    let required_fields = vec!["8".to_string(), "9".to_string(), "35".to_string()];
    let msgtype_map = create_test_msgtype_map();
    let valid_msg_types = vec!["D".to_string()];

    let is_valid = message.validate(&required_fields, &valid_msg_types, &msgtype_map);
    assert!(!is_valid);
}

#[test]
fn test_validate_missing_msgtype_field() {
    let raw_message = "8=FIX.4.4|9=65|11=12345|55=ABC|10=123|";
    let message = FixMessage::parse(raw_message).unwrap();

    let required_fields = vec!["8".to_string(), "9".to_string(), "35".to_string()];
    let msgtype_map = create_test_msgtype_map();
    let valid_msg_types = vec!["D".to_string()];

    let is_valid = message.validate(&required_fields, &valid_msg_types, &msgtype_map);
    assert!(!is_valid);
}

#[test]
fn test_parse_message_success() {
    let attrs = vec![
        ("name".to_string(), Some("Order".to_string())),
        ("msgtype".to_string(), Some("D".to_string())),
        ("msgcat".to_string(), Some("app".to_string())),
    ];

    let result = parse_message(&attrs);
    assert!(result.is_ok());

    let (msgname, msgtype, msgcat) = result.unwrap();
    assert_eq!(msgname, "Order");
    assert_eq!(msgtype, "D");
    assert_eq!(msgcat, "app");
}

#[test]
fn test_parse_message_missing_attributes() {
    let attrs: Vec<(String, Option<String>)> = Vec::new();

    let result = parse_message(&attrs);
    assert!(result.is_err());

    if let FixError::ParseError(err) = result.unwrap_err() {
        assert_eq!(err, "Incomplete message attributes".to_string());
    } else {
        panic!("Expected FixError::ParseError");
    }
}

#[test]
fn test_parse_field_success() {
    let attrs = vec![
        ("name".to_string(), Some("ClOrdID".to_string())),
        ("required".to_string(), Some("Y".to_string())),
    ];

    let result = parse_field(&attrs);
    assert!(result.is_ok());

    let (field_name, required) = result.unwrap();
    assert_eq!(field_name, "ClOrdID");
    assert_eq!(required, "Y");
}

#[test]
fn test_parse_field_missing_attributes() {
    let attrs: Vec<(String, Option<String>)> = Vec::new();

    let result = parse_field(&attrs);
    assert!(result.is_err());

    if let FixError::ParseError(err) = result.unwrap_err() {
        assert_eq!(err, "Incomplete field attributes".to_string());
    } else {
        panic!("Expected FixError::ParseError");
    }
}

#[test]
fn test_parse_value_enum_valid() {
    let attrs = vec![
        ("enum".to_string(), Some("1".to_string())),
        ("description".to_string(), Some("Test Description".to_string())),
    ];

    let result = parse_value_enum(&attrs);
    assert!(result.is_ok());
    let (enum_data, description) = result.unwrap();
    assert_eq!(enum_data, "1");
    assert_eq!(description, "Test Description");
}

#[test]
fn test_parse_value_enum_missing_attributes() {
    let attrs = vec![("enum".to_string(), Some("1".to_string()))];

    let result = parse_value_enum(&attrs);
    assert!(result.is_err());
    let err = result.unwrap_err();
    match err {
        FixError::ParseError(msg) => {
            assert_eq!(msg, "Incomplete enum attributes");
        },
        _ => panic!("Unexpected error type"),
    }
}

#[test]
fn test_parse_value_enum_invalid_utf8() {
    // An attribute whose bytes were not valid text arrives without a value.
    let attrs = vec![
        ("enum".to_string(), None),
        ("description".to_string(), Some("Test Description".to_string())),
    ];

    let result = parse_value_enum(&attrs);
    assert!(result.is_err());
    let err = result.unwrap_err();
    match err {
        FixError::ParseError(msg) => assert_eq!(msg, "Error parsing UTF-8 string"),
        _ => panic!("Unexpected error type"),
    }
}

#[test]
fn test_handle_special_tag() {
    let mut fixname_map: StrMap<FixMsgTag> = StrMap::new();
    let mut fixnumber_map: StrMap<FixMsgTag> = StrMap::new();
    let mut current_msg_name = String::new();
    let mut current_msg_type = String::new();

    handle_special_tag(
        "HEADER".to_string(),
        "<".to_string(),
        "header".to_string(),
        &mut fixname_map,
        &mut fixnumber_map,
        &mut current_msg_name,
        &mut current_msg_type,
    );

    assert!(fixname_map.has_key("HEADER"));
    let fix_msg_tag = fixname_map.get("HEADER").unwrap();
    assert_eq!(fix_msg_tag.msgname, "HEADER");
    assert_eq!(fix_msg_tag.msgcat, "header");
    assert!(fix_msg_tag.field.is_none());

    assert!(fixnumber_map.has_key("<"));
    let fix_msg_tag = fixnumber_map.get("<").unwrap();
    assert_eq!(fix_msg_tag.msgname, "HEADER");
    assert_eq!(fix_msg_tag.msgcat, "header");
    assert!(fix_msg_tag.field.is_none());

    assert_eq!(current_msg_name, "HEADER");
    assert_eq!(current_msg_type, "<");
}

#[test]
fn test_parse_fix_payload_xml_file_not_found() {
    // A missing payload document yields no events and empty dictionaries.
    let events: Vec<XmlEvent> = Vec::new();
    let msgtype_name_map: StrMap<String> = StrMap::new();
    let fix_tagname_number_map: StrMap<FixTag> = StrMap::new();

    let result = parse_fix_payload_xml(&events, &msgtype_name_map, &fix_tagname_number_map);

    assert!(result.is_ok());
    let (fixname_map, fixnumber_map) = result.unwrap();
    assert!(fixname_map.len() == 0);
    assert!(fixnumber_map.len() == 0);
}

#[test]
fn test_parse_fix_payload_xml_success() {
    let events = vec![
        XmlEvent::Open {
            name: "message".to_string(),
            attrs: vec![
                ("name".to_string(), Some("TestMessage".to_string())),
                ("msgtype".to_string(), Some("T".to_string())),
                ("msgcat".to_string(), Some("app".to_string())),
            ],
        },
        XmlEvent::Closed {
            name: "field".to_string(),
            attrs: vec![
                ("name".to_string(), Some("Field1".to_string())),
                ("required".to_string(), Some("Y".to_string())),
            ],
        },
        XmlEvent::Closed {
            name: "field".to_string(),
            attrs: vec![
                ("name".to_string(), Some("Field2".to_string())),
                ("required".to_string(), Some("N".to_string())),
            ],
        },
        XmlEvent::Close { name: "message".to_string() },
    ];

    let mut msgtype_name_map: StrMap<String> = StrMap::new();
    msgtype_name_map.insert("T".to_string(), "TestMessage".to_string());

    let fix_tagname_number_map: StrMap<FixTag> = StrMap::new();

    let result = parse_fix_payload_xml(&events, &msgtype_name_map, &fix_tagname_number_map);

    assert!(result.is_ok());

    let (fixname_map, fixnumber_map) = result.unwrap();
    assert!(fixname_map.has_key("TestMessage"));
    let tag = fixname_map.get("TestMessage").unwrap();
    assert_eq!(tag.msgname, "TestMessage");
    assert_eq!(tag.msgcat, "app");
    assert!(tag.field.is_some());

    let fields = tag.field.as_ref().unwrap();
    assert!(fields.has_key("Field1"));
    assert_eq!(fields.get("Field1").unwrap(), "Y");
    assert!(!fields.has_key("Field2"));

    assert!(fixnumber_map.has_key("T"));
}
