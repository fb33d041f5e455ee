use satellite_bridge::common::StringOrStr;
use satellite_bridge::companion::{AddDevice, Brightness, Command, DeviceMsg, KeyState, Versions};
use satellite_bridge::keyvalue::ParseError;
use satellite_bridge::satellite::command_data;

#[test]
fn test_pong_command() {
    const DATA: &str = "PONG";
    let command = Command::parse(DATA).unwrap();
    assert_eq!(command, Command::Pong);
}

#[test]
fn lib_test_pong_command() {
    const DATA: &str = "PONG";
    let command = Command::parse(DATA).unwrap();
    assert_eq!(command, Command::Pong);
}

#[test]
fn test_begin() {
    const DATA: &str = "BEGIN CompanionVersion=3.99.0+6259-develop-a48ec073 ApiVersion=1.5.1";
    let command = Command::parse(DATA).unwrap();
    assert_eq!(
        command,
        Command::Begin(Versions {
            companion_version: "3.99.0+6259-develop-a48ec073".into(),
            api_version: "1.5.1".into()
        })
    );
}

#[test]
fn lib_test_begin() {
    const DATA: &str = "BEGIN CompanionVersion=3.99.0+6259-develop-a48ec073 ApiVersion=1.5.1";
    let command = Command::parse(DATA).unwrap();
    assert_eq!(
        command,
        Command::Begin(Versions {
            companion_version: "3.99.0+6259-develop-a48ec073".into(),
            api_version: "1.5.1".into()
        })
    );
}

#[test]
fn test_adddevice() {
    const DATA: &str = "ADD-DEVICE OK DEVICEID=\"JohnAughey\"";
    let command = Command::parse(DATA).unwrap();
    assert_eq!(
        command,
        Command::AddDevice(AddDevice { success: true, device_id: "JohnAughey".into() })
    );
}

#[test]
fn lib_test_adddevice() {
    const DATA: &str = "ADD-DEVICE OK DEVICEID=\"JohnAughey\"";
    let command = Command::parse(DATA).unwrap();
    assert_eq!(
        command,
        Command::AddDevice(AddDevice { success: true, device_id: "JohnAughey".into() })
    );
}

#[test]
fn test_keystate() {
    const DATA: &str =
        "KEY-STATE DEVICEID=JohnAughey KEY=14 TYPE=BUTTON  BITMAP=rawdata PRESSED={true,false}";
    let command = Command::parse(DATA).unwrap();
    assert_eq!(
        command,
        Command::KeyState(KeyState {
            device: "JohnAughey".into(),
            key: 14,
            button_type: "BUTTON".into(),
            bitmap_base64: "rawdata".into(),
            pressed: false
        })
    );
}

#[test]
fn lib_test_keystate() {
    const DATA: &str =
        "KEY-STATE DEVICEID=JohnAughey KEY=14 TYPE=BUTTON  BITMAP=rawdata PRESSED={true,false}";
    let command = Command::parse(DATA).unwrap();
    assert_eq!(
        command,
        Command::KeyState(KeyState {
            device: "JohnAughey".into(),
            key: 14,
            button_type: "BUTTON".into(),
            bitmap_base64: "rawdata".into(),
            pressed: false
        })
    );
}

#[test]
fn test_add_device_command() {
    const DATA: &str = "ADD-DEVICE OK DEVICEID=\"JohnAughey\"";
    let command = Command::parse(DATA).unwrap();
    assert_eq!(
        command,
        Command::AddDevice(AddDevice { success: true, device_id: "JohnAughey".into() })
    );

    const DATA_ERR: &str = "ADD-DEVICE Err DEVICEID=\"JohnAughey\"";
    let command = Command::parse(DATA_ERR).unwrap();
    assert_eq!(
        command,
        Command::AddDevice(AddDevice { success: false, device_id: "JohnAughey".into() })
    );
}

#[test]
fn lib_test_add_device_command() {
    const DATA: &str = "ADD-DEVICE OK DEVICEID=\"JohnAughey\"";
    let command = Command::parse(DATA).unwrap();
    assert_eq!(
        command,
        Command::AddDevice(AddDevice { success: true, device_id: "JohnAughey".into() })
    );

    const DATA_ERR: &str = "ADD-DEVICE Err DEVICEID=\"JohnAughey\"";
    let command = Command::parse(DATA_ERR).unwrap();
    assert_eq!(
        command,
        Command::AddDevice(AddDevice { success: false, device_id: "JohnAughey".into() })
    );
}

#[test]
fn unexpected_field_fails_and_without_it_the_line_is_read() {
    assert_eq!(
        Command::parse("BEGIN CompanionVersion=1.0 ApiVersion=1.0 EXTRA=x"),
        Err(ParseError::UnexpectedFields)
    );
    assert_eq!(
        Command::parse("BEGIN CompanionVersion=1.0 ApiVersion=1.0"),
        Ok(Command::Begin(Versions { companion_version: "1.0".into(), api_version: "1.0".into() }))
    );
}

#[test]
fn unknown_command_is_not_an_error() {
    assert_eq!(Command::parse("FROB X=1"), Ok(Command::Unknown("FROB")));
    assert_eq!(Command::parse("FROB"), Ok(Command::Unknown("FROB")));
}

#[test]
fn unknown_command_with_malformed_fields_is_an_error() {
    assert_eq!(Command::parse("FROB X"), Err(ParseError::MissingEquals));
    assert_eq!(Command::parse("FROB X=\"open"), Err(ParseError::UnterminatedQuote));
}

#[test]
fn empty_command_word_is_an_error() {
    assert_eq!(Command::parse(""), Err(ParseError::EmptyCommand));
    assert_eq!(Command::parse("   "), Err(ParseError::EmptyCommand));
    assert_eq!(Command::parse(" PONG"), Err(ParseError::EmptyCommand));
}

#[test]
fn command_word_ends_at_whitespace() {
    assert_eq!(Command::parse("PONG\n"), Ok(Command::Pong));
    assert_eq!(Command::parse("PONG\r\n"), Ok(Command::Pong));
    assert_eq!(
        Command::parse("BRIGHTNESS\tDEVICEID=d VALUE=50\n"),
        Ok(Command::Brightness(Brightness { device: "d".into(), brightness: 50 }))
    );
}

#[test]
fn key_press_keeps_the_rest_of_the_line() {
    assert_eq!(
        Command::parse("KEY-PRESS DEVICEID=d KEY=3 PRESSED=1"),
        Ok(Command::KeyPress(" DEVICEID=d KEY=3 PRESSED=1"))
    );
    assert_eq!(Command::parse("KEY-ROTATE"), Ok(Command::KeyRotate("")));
}

#[test]
fn field_order_does_not_matter() {
    assert_eq!(
        Command::parse("KEY-STATE PRESSED=true BITMAP=abc TYPE=BUTTON KEY=7 DEVICEID=\"my deck\""),
        Ok(Command::KeyState(KeyState {
            device: "my deck".into(),
            key: 7,
            button_type: "BUTTON".into(),
            bitmap_base64: "abc".into(),
            pressed: true
        }))
    );
}

#[test]
fn missing_fields_are_errors() {
    assert_eq!(Command::parse("BEGIN ApiVersion=1"), Err(ParseError::MissingField));
    assert_eq!(Command::parse("BEGIN CompanionVersion=1"), Err(ParseError::MissingField));
    assert_eq!(Command::parse("BRIGHTNESS DEVICEID=d"), Err(ParseError::MissingField));
    assert_eq!(Command::parse("KEY-STATE DEVICEID=d KEY=1 TYPE=B BITMAP=x"), Err(ParseError::MissingField));
    assert_eq!(Command::parse("ADD-DEVICE OK"), Err(ParseError::MissingField));
}

#[test]
fn add_device_needs_its_status() {
    assert_eq!(Command::parse("ADD-DEVICE"), Err(ParseError::MissingStatus));
    assert_eq!(Command::parse("ADD-DEVICE   "), Err(ParseError::MissingStatus));
}

#[test]
fn numbers_must_fit() {
    assert_eq!(Command::parse("BRIGHTNESS DEVICEID=d VALUE=256"), Err(ParseError::InvalidNumber));
    assert_eq!(Command::parse("BRIGHTNESS DEVICEID=d VALUE=ten"), Err(ParseError::InvalidNumber));
    assert_eq!(Command::parse("BRIGHTNESS DEVICEID=d VALUE="), Err(ParseError::InvalidNumber));
    assert_eq!(
        Command::parse("KEY-STATE DEVICEID=d KEY=-1 TYPE=B BITMAP=x PRESSED=true"),
        Err(ParseError::InvalidNumber)
    );
    assert_eq!(
        Command::parse("BRIGHTNESS DEVICEID=d VALUE=255"),
        Ok(Command::Brightness(Brightness { device: "d".into(), brightness: 255 }))
    );
}

#[test]
fn first_failing_field_decides_the_error() {
    assert_eq!(Command::parse("KEY-STATE DEVICEID=d KEY=x"), Err(ParseError::InvalidNumber));
    assert_eq!(Command::parse("KEY-STATE KEY=x"), Err(ParseError::MissingField));
    assert_eq!(
        Command::parse("KEY-STATE DEVICEID=d KEY=1 TYPE=B BITMAP=x PRESSED=true MORE=1"),
        Err(ParseError::UnexpectedFields)
    );
}

#[test]
fn pressed_is_true_only_for_the_word_true() {
    for (text, expected) in [("true", true), ("TRUE", false), ("1", false), ("\"true\"", true), ("true1", false)] {
        let line = format!("KEY-STATE DEVICEID=d KEY=1 TYPE=B BITMAP=x PRESSED={}", text);
        match Command::parse(&line).unwrap() {
            Command::KeyState(k) => assert_eq!(k.pressed, expected, "{}", text),
            other => panic!("{:?}", other),
        }
    }
}

#[test]
fn bitmap_decodes_base64_without_padding() {
    let key = |text: &'static str| KeyState {
        device: "d".into(),
        key: 0,
        button_type: "BUTTON".into(),
        bitmap_base64: text.into(),
        pressed: false,
    };
    assert_eq!(key("AAEC").bitmap().unwrap(), vec![0u8, 1, 2]);
    assert_eq!(key("/w").bitmap().unwrap(), vec![255u8]);
    assert_eq!(key("").bitmap().unwrap(), Vec::<u8>::new());
    assert!(key("/w==").bitmap().is_err());
    assert!(key("not base64!").bitmap().is_err());
}

#[test]
fn device_msg_writes_the_registration() {
    let msg = DeviceMsg {
        device_id: "JohnAughey".to_string(),
        product_name: "Satellite StreamDeck: plus".to_string(),
        keys_total: 8,
        keys_per_row: 4,
        resolution: 120,
    };
    assert_eq!(
        msg.device_msg(),
        "DEVICEID=JohnAughey PRODUCT_NAME=\"Satellite StreamDeck: plus\" KEYS_TOTAL=8, KEYS_PER_ROW=4 BITMAPS=120 COLORS=0 TEXT=0"
    );
}

#[test]
fn satellite_device_msg_asks_for_bitmaps_of_120() {
    let msg = satellite_bridge::satellite::DeviceMsg {
        device_id: "id".to_string(),
        product_name: "name".to_string(),
        keys_total: 4294967295,
        keys_per_row: 0,
    };
    assert_eq!(
        msg.device_msg(),
        "DEVICEID=id PRODUCT_NAME=\"name\" KEYS_TOTAL=4294967295, KEYS_PER_ROW=0 BITMAPS=120 COLORS=0 TEXT=0"
    );
}

#[test]
fn command_data_splits_at_the_first_space() {
    assert_eq!(command_data("KEY-PRESS a b"), Some(("KEY-PRESS", "a b")));
    assert_eq!(command_data("PONG "), Some(("PONG", "")));
    assert_eq!(command_data(" x"), Some(("", "x")));
    assert_eq!(command_data("PONG"), None);
    assert_eq!(command_data(""), None);
}

#[test]
fn lines_without_backslash_are_read_without_copies() {
    match Command::parse("KEY-STATE DEVICEID=\"my deck\" KEY=1 TYPE=BUTTON BITMAP=abc PRESSED=true").unwrap() {
        Command::KeyState(k) => {
            assert!(matches!(k.device, StringOrStr::Str(_)));
            assert!(matches!(k.button_type, StringOrStr::Str(_)));
            assert!(matches!(k.bitmap_base64, StringOrStr::Str(_)));
        }
        other => panic!("{:?}", other),
    }
    match Command::parse("BEGIN CompanionVersion=\"3.\\\"x\\\"\" ApiVersion=1").unwrap() {
        Command::Begin(v) => {
            assert!(matches!(v.companion_version, StringOrStr::String(_)));
            assert_eq!(v.companion_version.as_str(), "3.\"x\"");
            assert!(matches!(v.api_version, StringOrStr::Str(_)));
        }
        other => panic!("{:?}", other),
    }
}
