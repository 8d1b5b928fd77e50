//! The operator console: tokenizing, parameter parsing, and rendering.

use mission_control::a3_modules::A3Module;
use mission_control::config::{Configuration, Property, Value};
use mission_control::schema::ValueType;
use mission_control::text;
use mission_control::user_session::{
    format_config_report, format_module_line, parse_params, tokenize, ParamsOutcome, Spec,
};

#[test]
fn test_tokenize_plain_and_quoted() {
    assert_eq!(tokenize("list"), vec!["list"]);
    assert_eq!(tokenize("ping 5 true"), vec!["ping", "5", "true"]);
    assert_eq!(tokenize("  rename  3   name "), vec!["rename", "3", "name"]);
    assert_eq!(tokenize("rename 3 \"Lead Voice\""), vec!["rename", "3", "Lead Voice"]);
    assert_eq!(tokenize("rename 3 'it\"s'"), vec!["rename", "3", "it\"s"]);
    assert_eq!(tokenize(""), Vec::<String>::new());
    assert_eq!(tokenize("   "), Vec::<String>::new());
}

#[test]
fn test_number_tokens() {
    assert_eq!(text::parse_number_token("17"), Some(17));
    assert_eq!(text::parse_number_token(" 0x2345 "), Some(0x2345));
    assert_eq!(text::parse_number_token("0xdeadbeef"), Some(0xdeadbeef));
    assert_eq!(text::parse_number_token("4294967295"), Some(u32::MAX));
    assert_eq!(text::parse_number_token("4294967296"), None);
    assert_eq!(text::parse_number_token("0x"), None);
    assert_eq!(text::parse_number_token("7f"), None);
    assert_eq!(text::parse_number_token(""), None);
}

#[test]
fn test_number_rendering() {
    assert_eq!(text::to_dec_string(0), "0");
    assert_eq!(text::to_dec_string(9045), "9045");
    assert_eq!(text::to_hex_string(0x2345, 4), "2345");
    assert_eq!(text::to_hex_string(0x1acebeef, 8), "1acebeef");
    assert_eq!(text::to_hex_string(2, 2), "02");
    assert_eq!(text::bool_to_string(true), "true");
    assert_eq!(text::bool_to_string(false), "false");
}

#[test]
fn test_render_text_escapes() {
    assert_eq!(text::render_text_string(b"hello"), "hello");
    assert_eq!(text::render_text_string(&[0xff, 0x41]), "\\xffA");
    // A stray continuation byte escapes; a whole scalar decodes.
    assert_eq!(text::render_text_string(&[0xa9]), "\\xa9");
    assert_eq!(text::render_text_string(&[0xc3, 0xa9]), "\u{e9}");
    // An overlong two-byte encoding of '/' is refused byte by byte.
    assert_eq!(text::render_text_string(&[0xc0, 0xaf]), "\\xc0\\xaf");
    // A surrogate encoded as three bytes is refused.
    assert_eq!(text::render_text_string(&[0xed, 0xa0, 0x80]), "\\xed\\xa0\\x80");
    // Four-byte scalars decode.
    assert_eq!(text::render_text_string(&[0xf0, 0x9f, 0x98, 0x80]), "\u{1f600}");
}

#[test]
fn test_spec_parsing() {
    let id = Spec::u8("id", true);
    assert!(matches!(id.parse(&"5".to_string()), Ok(Value::U8(5))));
    assert!(matches!(id.parse(&"0x10".to_string()), Ok(Value::U8(16))));
    assert!(id.parse(&"256".to_string()).is_err());
    assert!(id.parse(&"x".to_string()).is_err());

    let half = Spec::u16("value", true);
    assert!(matches!(half.parse(&"0x2345".to_string()), Ok(Value::U16(0x2345))));
    assert!(half.parse(&"65536".to_string()).is_err());

    let uid = Spec::u32("uid", true);
    assert!(matches!(
        uid.parse(&"0xdeadbeef".to_string()),
        Ok(Value::U32(0xdeadbeef))
    ));

    let name = Spec::str("name", true);
    match name.parse(&" Lead ".to_string()) {
        Ok(Value::Text(t)) => assert_eq!(t, "Lead"),
        _ => panic!("unexpected parse result"),
    }

    let visual = Spec::bool("visual", false);
    assert!(matches!(visual.parse(&"true".to_string()), Ok(Value::Boolean(true))));
    assert!(matches!(visual.parse(&"false".to_string()), Ok(Value::Boolean(false))));
    assert!(visual.parse(&"yes".to_string()).is_err());
}

#[test]
fn test_parse_params_outcomes() {
    let specs = vec![Spec::u8("id", true), Spec::bool("visual", false)];

    let tokens = vec!["ping".to_string(), "9".to_string()];
    match parse_params(&tokens, &specs) {
        ParamsOutcome::Params { values } => {
            assert_eq!(values.len(), 1);
            assert!(matches!(values[0], Value::U8(9)));
        }
        _ => panic!("expected parsed parameters"),
    }

    let tokens = vec!["ping".to_string(), "9".to_string(), "true".to_string()];
    match parse_params(&tokens, &specs) {
        ParamsOutcome::Params { values } => {
            assert_eq!(values.len(), 2);
            assert!(matches!(values[1], Value::Boolean(true)));
        }
        _ => panic!("expected parsed parameters"),
    }

    // The required id is missing: the command's usage is asked for.
    let tokens = vec!["ping".to_string()];
    assert!(matches!(parse_params(&tokens, &specs), ParamsOutcome::Usage));

    // A malformed parameter names itself.
    let tokens = vec!["ping".to_string(), "banana".to_string()];
    match parse_params(&tokens, &specs) {
        ParamsOutcome::Invalid { name } => assert_eq!(name, "id"),
        _ => panic!("expected an invalid parameter"),
    }
}

#[test]
fn test_module_listing_line() {
    let bare = A3Module {
        uid: 0xdeadbeef,
        id: 1,
        name: None,
        module_type: None,
        module_type_id: None,
    };
    assert_eq!(format_module_line(&bare), "uid=deadbeef id=01");

    let named = A3Module {
        uid: 0x1acebeef,
        id: 3,
        name: Some("Lead".to_string()),
        module_type: Some("test-module".to_string()),
        module_type_id: Some(0x2345),
    };
    assert_eq!(
        format_module_line(&named),
        "uid=1acebeef id=03 type=test-module name=Lead"
    );
}

#[test]
fn test_config_report_alignment() {
    let props = vec![
        Property { id: 0, length: 4, data: vec![0x1a, 0xce, 0xbe, 0xef] },
        Property { id: 2, length: 6, data: b"module".to_vec() },
    ];
    let config = Configuration::new(props);
    let report = format_config_report(&config);
    assert_eq!(
        report,
        "\r\n  module_uid : 1acebeef\r\n  name       : module\r\n"
    );
}

#[test]
fn test_value_type_rendering() {
    assert_eq!(ValueType::U8.to_string(&Value::U8(7)), "7");
    assert_eq!(ValueType::U16.to_hex(&Value::U16(0x2345)), "2345");
    assert_eq!(ValueType::U32.to_string(&Value::U32(90000)), "90000");
    assert_eq!(ValueType::Boolean.to_string(&Value::Boolean(true)), "true");
    assert_eq!(ValueType::Text.to_hex(&Value::Text("abc".to_string())), "abc");
    assert_eq!(
        ValueType::VectorU8.to_string(&Value::VectorU8(vec![1, 2, 30])),
        "1, 2, 30"
    );
    assert_eq!(
        ValueType::VectorU8.to_hex(&Value::VectorU8(vec![1, 2, 30])),
        "01, 02, 1e"
    );
    assert_eq!(
        ValueType::VectorU16.to_hex(&Value::VectorU16(vec![0x102, 0x3040])),
        "0102, 3040"
    );
    assert_eq!(
        ValueType::VectorU16.to_string(&Value::VectorU16(vec![5, 6])),
        "5, 6"
    );
}

#[test]
fn test_usage_line() {
    let specs = vec![Spec::u8("id", true), Spec::bool("visual", false)];
    assert_eq!(
        mission_control::user_session::format_usage("ping", &specs),
        "Usage ping <id> [visual]\r\n"
    );
}

#[test]
fn test_trim_and_split() {
    assert_eq!(text::trim("  a b  "), "a b");
    assert_eq!(text::trim(""), "");
    assert_eq!(text::trim(" \t\r\n"), "");
    assert_eq!(text::split_commas("1,2,3"), vec!["1", "2", "3"]);
    assert_eq!(text::split_commas("1, 2"), vec!["1", " 2"]);
    assert_eq!(text::split_commas(""), vec![""]);
    assert_eq!(text::split_commas("a,"), vec!["a", ""]);
}
