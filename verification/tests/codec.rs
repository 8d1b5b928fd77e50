//! The property codec: field and chunk decoding, encoding, and the
//! round trip between them.

use std::collections::BTreeMap;

use mission_control::config::{ChunkBuilder, Configuration, DataFieldBuilder, Property, Value};
use mission_control::config::PropertyEncoder;
use mission_control::schema::{ModuleDef, ModuleDesc, PropertyDef, ValueType};

#[test]
fn test_parse_single_field_segment() {
    let data = b"\x02\x05hello";
    let mut builder = DataFieldBuilder::new();
    let result = builder.data(data, 7, 0).unwrap();
    assert_eq!(result, (true, 7));
    let data_field = builder.build().unwrap();
    assert_eq!(data_field.id, 2);
    assert_eq!(data_field.data.as_slice(), b"hello");
    assert_eq!(data_field.get_attribute().unwrap().name, "name".to_string());
    let Value::Text(value) = data_field.get_value().unwrap() else {
        panic!("unexpected value type");
    };
    assert_eq!(value, "hello".to_string());
}

#[test]
fn test_parse_two_field_segments() {
    let data1 = b"\x02\x02hi\x03\x05h";
    let data2 = b"ello\0\0\0";
    let mut builder1 = DataFieldBuilder::new();
    let result = builder1.data(data1, 7, 0).unwrap();
    assert_eq!(result, (true, 4));
    let mut builder2 = DataFieldBuilder::new();
    let result2 = builder2.data(data1, 7, 4).unwrap();
    assert_eq!(result2, (false, 7));
    let result3 = builder2.data(data2, 4, 0).unwrap();
    assert_eq!(result3, (true, 4));
    let data_field1 = builder1.build().unwrap();
    assert_eq!(data_field1.data.as_slice(), b"hi");

    let Value::Text(value1) = data_field1.get_value().unwrap() else {
        panic!("unexpected value type");
    };
    assert_eq!(value1, "hi".to_string());

    let data_field2 = builder2.build().unwrap();
    assert_eq!(data_field2.data.as_slice(), b"hello");
    assert!(data_field2.get_value().is_none());
    let Value::Text(value2) = data_field2.get_value_with_type(&ValueType::Text).unwrap() else {
        panic!("unexpected value type");
    };
    assert_eq!(value2, "hello".to_string());
}

#[test]
fn test_parse_chunk() {
    let data1 = b"\x02\x02\x02hi\x03\x05";
    let data2 = b"hello\0\0";
    let mut builder = ChunkBuilder::new();
    assert!(!builder.data(data1, 7).unwrap());
    assert!(builder.data(data2, 5).unwrap());
    let chunk = builder.build().unwrap();
    assert_eq!(chunk[0].data.as_slice(), b"hi");
    assert_eq!(chunk[1].data.as_slice(), b"hello");

    let Value::Text(value0) = chunk[0].get_value().unwrap() else {
        panic!("unexpected value type");
    };
    assert_eq!(value0, "hi".to_string());

    assert!(chunk[1].get_value().is_none());
    let Value::Text(value1) = chunk[1].get_value_with_type(&ValueType::Text).unwrap() else {
        panic!("unexpected value type");
    };
    assert_eq!(value1, "hello".to_string());
}

#[test]
fn test_parse_single_field_using_chunk_builder() {
    let data = b"\x02\x05hello";
    let mut builder = ChunkBuilder::for_single_field();
    let result = builder.data(data, 7).unwrap();
    assert!(result);
    let data_fields = builder.build().unwrap();
    assert_eq!(data_fields.len(), 1);
    let data_field = &data_fields[0];
    assert_eq!(data_field.id, 2);
    assert_eq!(data_field.data.as_slice(), b"hello");
    assert_eq!(data_field.get_attribute().unwrap().name, "name".to_string());
    let Value::Text(value) = data_field.get_value().unwrap() else {
        panic!("unexpected value type");
    };
    assert_eq!(value, "hello".to_string());
}

/// The schema rows the configuration tests read under: the test module
/// type with a plain count property and an enumerated one.
fn test_schema() -> BTreeMap<u16, ModuleDef> {
    let desc = ModuleDesc {
        module_type: 0x2345,
        module_type_name: "test-module".to_string(),
        properties: vec![
            Some(PropertyDef {
                id: 3,
                name: "num_voices".to_string(),
                value_type: ValueType::U8,
                enum_names: None,
                read_only: None,
            }),
            Some(PropertyDef {
                id: 4,
                name: "key_assign_mode".to_string(),
                value_type: ValueType::U8,
                enum_names: Some(vec![
                    "DUOPHONIC".to_string(),
                    "UNISON".to_string(),
                    "POLYPHONIC".to_string(),
                ]),
                read_only: None,
            }),
        ],
    };
    let mut schema = BTreeMap::new();
    schema.insert(0x2345, ModuleDef::from_desc(desc));
    schema
}

#[test]
fn test_load_config() {
    let data: [&[u8]; 4] = [
        b"\x05\x00\x04\x1a\xce\xbe\xef",
        b"\x01\x02\x23\x45\x02\x06m",
        b"odule\x03\x01",
        b"\x02\x04\x01\x01\0\0\0",
    ];

    let schema = test_schema();

    let mut builder = ChunkBuilder::new();
    let mut index = 0;
    loop {
        match builder.data(data[index], 7) {
            Ok(is_done) => {
                if is_done {
                    let properties = builder.build().unwrap();
                    let config = Configuration::with_schema(properties, &schema);
                    assert_eq!(config.module_type, 0x2345);
                    assert_eq!(config.module_type_name.as_str(), "test-module");
                    assert_eq!(config.len(), 5);
                    assert_eq!(config.prop_name(0), "module_uid");
                    assert_eq!(config.prop_value_as_string(0), "1acebeef");
                    assert_eq!(config.prop_name(1), "module_type");
                    assert_eq!(config.prop_value_as_string(1), "2345");
                    assert_eq!(config.prop_name(2), "name");
                    assert_eq!(config.prop_value_as_string(2), "module");
                    assert_eq!(config.prop_name(3), "num_voices");
                    assert_eq!(config.prop_value_as_string(3), "02");
                    assert_eq!(config.prop_name(4), "key_assign_mode");
                    assert_eq!(config.prop_value_as_string(4), "UNISON");
                    break;
                }
            }
            Err(e) => {
                panic!("Data parsing failed: {:?}", e);
            }
        }
        index += 1;
    }
}

/// Encoding a property list and feeding the bytes back through the
/// chunk decoder restores the list, whatever the window sizes.
#[test]
fn test_encode_decode_round_trip() {
    let props = vec![
        Property { id: 0, length: 4, data: vec![0xde, 0xad, 0xbe, 0xef] },
        Property { id: 2, length: 5, data: b"hello".to_vec() },
        Property { id: 7, length: 0, data: vec![] },
    ];

    // The canonical serialization, window size 8.
    let mut encoder = PropertyEncoder::new(&props);
    let mut stream: Vec<u8> = Vec::new();
    while !encoder.is_done() {
        let mut buf = vec![0u8; 8];
        let w = encoder.flush(&mut buf);
        assert!(w > 0);
        stream.extend_from_slice(&buf[..w]);
    }
    assert_eq!(
        stream,
        vec![3, 0, 4, 0xde, 0xad, 0xbe, 0xef, 2, 5, b'h', b'e', b'l', b'l', b'o', 7, 0]
    );

    // The same bytes under a different partition come out identical.
    let mut encoder2 = PropertyEncoder::new(&props);
    let mut stream2: Vec<u8> = Vec::new();
    for size in [1usize, 3, 2, 8, 8, 8, 8] {
        if encoder2.is_done() {
            break;
        }
        let mut buf = vec![0u8; size];
        let w = encoder2.flush(&mut buf);
        stream2.extend_from_slice(&buf[..w]);
    }
    assert_eq!(stream, stream2);

    // Decoding under a third partition restores the properties.
    let mut builder = ChunkBuilder::new();
    let mut fed = 0;
    let mut done = false;
    while fed < stream.len() {
        let take = std::cmp::min(5, stream.len() - fed);
        let window = &stream[fed..fed + take];
        done = builder.data(window, take).unwrap();
        fed += take;
    }
    assert!(done);
    let decoded = builder.build().unwrap();
    assert_eq!(decoded.len(), 3);
    for (a, b) in decoded.iter().zip(props.iter()) {
        assert_eq!(a.id, b.id);
        assert_eq!(a.length, b.length);
        assert_eq!(a.data, b.data);
    }
}

/// A chunk of zero fields is one byte long and decodes as complete.
#[test]
fn test_empty_chunk() {
    let props: Vec<Property> = vec![];
    let mut encoder = PropertyEncoder::new(&props);
    let mut buf = vec![0u8; 8];
    let w = encoder.flush(&mut buf);
    assert_eq!(w, 1);
    assert_eq!(buf[0], 0);
    assert!(encoder.is_done());

    let mut builder = ChunkBuilder::new();
    assert!(builder.data(&buf[..1], 1).unwrap());
    let decoded = builder.build().unwrap();
    assert!(decoded.is_empty());
}

/// Feeding a finished builder is refused, as is building twice.
#[test]
fn test_builder_overflow_and_reuse() {
    let data = b"\x01\x02\x01x\0\0\0";
    let mut builder = ChunkBuilder::new();
    assert!(builder.data(data, 5).unwrap());
    assert!(builder.data(data, 5).is_err());
    let chunk = builder.build().unwrap();
    assert_eq!(chunk.len(), 1);
    assert_eq!(chunk[0].id, 2);
    assert_eq!(chunk[0].data.as_slice(), b"x");
    assert!(builder.build().is_err());
}

/// Fixed-width values are read big-endian; short data is a type error,
/// not a panic.
#[test]
fn test_value_interpretation() {
    let p = Property { id: 9, length: 4, data: vec![0x12, 0x34, 0x56, 0x78] };
    let Value::U32(v) = p.get_value_with_type(&ValueType::U32).unwrap() else {
        panic!("unexpected value type");
    };
    assert_eq!(v, 0x12345678);
    let Value::U16(v16) = p.get_value_with_type(&ValueType::U16).unwrap() else {
        panic!("unexpected value type");
    };
    assert_eq!(v16, 0x1234);

    let short = Property { id: 9, length: 1, data: vec![0xff] };
    assert!(short.get_value_with_type(&ValueType::U32).is_err());
    assert!(short.get_value_with_type(&ValueType::U16).is_err());

    let odd = Property { id: 9, length: 3, data: vec![1, 2, 3] };
    assert!(odd.get_value_with_type(&ValueType::VectorU16).is_err());
    let even = Property { id: 9, length: 4, data: vec![0x01, 0x02, 0x03, 0x04] };
    let Value::VectorU16(vs) = even.get_value_with_type(&ValueType::VectorU16).unwrap() else {
        panic!("unexpected value type");
    };
    assert_eq!(vs, vec![0x0102, 0x0304]);

    let b = Property { id: 9, length: 1, data: vec![0] };
    let Value::Boolean(flag) = b.get_value_with_type(&ValueType::Boolean).unwrap() else {
        panic!("unexpected value type");
    };
    assert!(!flag);
}

/// The wrong accessor on a decoded value reports a type error.
#[test]
fn test_value_accessor_mismatch() {
    let v = Value::U8(7);
    assert_eq!(v.as_u8().unwrap(), 7);
    assert!(v.as_u16().is_err());
    assert!(v.as_u32().is_err());
    assert!(v.as_bool().is_err());
    assert!(v.as_text().is_err());
    assert!(v.as_vec_u8().is_err());
    assert!(v.as_vec_u16().is_err());
}

/// Bytes that are not UTF-8 render with byte escapes instead of
/// panicking.
#[test]
fn test_lossy_text_rendering() {
    let p = Property { id: 2, length: 3, data: vec![b'a', 0xff, b'b'] };
    let Value::Text(s) = p.get_value_with_type(&ValueType::Text).unwrap() else {
        panic!("unexpected value type");
    };
    assert_eq!(s, "a\\xffb");

    // A two-byte scalar decodes as itself.
    let q = Property { id: 2, length: 2, data: vec![0xc3, 0xa9] };
    let Value::Text(t) = q.get_value_with_type(&ValueType::Text).unwrap() else {
        panic!("unexpected value type");
    };
    assert_eq!(t, "\u{e9}");
}

/// The largest sizes round-trip: a 255-byte value and a 255-field
/// chunk; one byte more is refused at the type border.
#[test]
fn test_largest_sizes() {
    // A single property with the largest value.
    let big = Property { id: 2, length: 255, data: vec![0xab; 255] };
    let props = vec![big];
    let mut encoder = PropertyEncoder::new(&props);
    let mut stream: Vec<u8> = Vec::new();
    while !encoder.is_done() {
        let mut buf = vec![0u8; 8];
        let w = encoder.flush(&mut buf);
        stream.extend_from_slice(&buf[..w]);
    }
    assert_eq!(stream.len(), 1 + 2 + 255);
    let mut builder = ChunkBuilder::new();
    let mut fed = 0;
    let mut done = false;
    while fed < stream.len() {
        let take = std::cmp::min(8, stream.len() - fed);
        done = builder.data(&stream[fed..fed + take], take).unwrap();
        fed += take;
    }
    assert!(done);
    let decoded = builder.build().unwrap();
    assert_eq!(decoded[0].data.len(), 255);

    // The most fields a chunk can announce.
    let many: Vec<Property> = (0..255u16)
        .map(|k| Property { id: k as u8, length: 0, data: vec![] })
        .collect();
    let mut encoder = PropertyEncoder::new(&many);
    let mut stream: Vec<u8> = Vec::new();
    while !encoder.is_done() {
        let mut buf = vec![0u8; 7];
        let w = encoder.flush(&mut buf);
        stream.extend_from_slice(&buf[..w]);
    }
    assert_eq!(stream.len(), 1 + 2 * 255);
    let mut builder = ChunkBuilder::new();
    let mut fed = 0;
    let mut done = false;
    while fed < stream.len() {
        let take = std::cmp::min(6, stream.len() - fed);
        done = builder.data(&stream[fed..fed + take], take).unwrap();
        fed += take;
    }
    assert!(done);
    assert_eq!(builder.build().unwrap().len(), 255);

    // A name one byte past the length field's range is refused.
    let long = "x".repeat(256);
    assert!(Property::text(2, &long).is_none());
    let fits = "x".repeat(255);
    let p = Property::text(2, &fits).unwrap();
    assert_eq!(p.length, 255);
}

/// Operator-typed values become wire bytes under their schema type.
#[test]
fn test_property_from_string() {
    let p = Property::from_string(3, "7", &ValueType::U8).unwrap();
    assert_eq!((p.id, p.length, p.data.as_slice()), (3, 1, &[7u8][..]));

    let p = Property::from_string(3, "0x2345", &ValueType::U16).unwrap();
    assert_eq!(p.data, vec![0x23, 0x45]);

    let p = Property::from_string(0, "0xdeadbeef", &ValueType::U32).unwrap();
    assert_eq!(p.data, vec![0xde, 0xad, 0xbe, 0xef]);

    let p = Property::from_string(5, "true", &ValueType::Boolean).unwrap();
    assert_eq!(p.data, vec![1]);

    let p = Property::from_string(2, "Lead", &ValueType::Text).unwrap();
    assert_eq!(p.data.as_slice(), b"Lead");

    let p = Property::from_string(6, "1, 2, 0xff", &ValueType::VectorU8).unwrap();
    assert_eq!(p.data, vec![1, 2, 0xff]);
    assert_eq!(p.length, 3);

    let p = Property::from_string(6, "0x0102, 3", &ValueType::VectorU16).unwrap();
    assert_eq!(p.data, vec![0x01, 0x02, 0x00, 0x03]);

    let e = Property::from_string(3, "256", &ValueType::U8).unwrap_err();
    assert!(matches!(
        e.error_type,
        mission_control::error::ErrorType::A3InvalidValue
    ));
    assert!(Property::from_string(3, "7f", &ValueType::U8).is_err());
    assert!(Property::from_string(5, "yes", &ValueType::Boolean).is_err());
    assert!(Property::from_string(6, "1,,2", &ValueType::VectorU8).is_err());
}
