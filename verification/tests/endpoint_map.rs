use cyberbeast::endpoint_map::{parse_endpoint_id, select_endpoint, SpecId};
use cyberbeast::json::Json;
use cyberbeast::{
    decode_value, Access, EndpointEntry, EndpointKind, EndpointMap, ErrorKind, MotorError,
    ParamValue, ValueType,
};

/// Mirrors the real descriptor shape: nested objects use `members`, functions use `inputs` /
/// `outputs`, and only values carry an `access` field.
const DESCRIPTOR: &str = r#"[
        {
            "name": "odrv",
            "id": 1000,
            "type": "object",
            "members": [
                {"name": "error", "id": 1, "type": "uint8", "access": "rw"},
                {"name": "vbus_voltage", "id": 2, "type": "float", "access": "r"}
            ],
            "outputs": [
                {"name": "save_configuration", "id": 63, "type": "function"}
            ]
        },
        {
            "name": "axis0",
            "id": 14,
            "type": "object",
            "members": [
                {"name": "current_state", "id": 142, "type": "uint8", "access": "r"},
                {"name": "motor", "id": 20, "type": "object", "members": [
                    {"name": "config", "id": 21, "type": "object", "members": [
                        {"name": "gear_ratio", "id": 242, "type": "float", "access": "rw"},
                        {"name": "gear_teeth", "id": 408, "type": "uint16", "access": "rw"}
                    ]}
                ]},
                {"name": "ref", "id": 400, "type": "endpoint_ref", "access": "r"}
            ]
        }
    ]"#;

fn map() -> EndpointMap {
    EndpointMap::parse(DESCRIPTOR)
        .expect("fixture is valid json")
        .with_metadata(DESCRIPTOR.len() as u32, 0x3F82)
}

fn text_of(err: MotorError) -> String {
    err.message().to_string()
}

#[test]
fn parse_builds_dotted_paths_and_lookups() {
    let map = map();

    assert_eq!(map.total_len(), DESCRIPTOR.len() as u32);
    assert_eq!(map.version_crc(), 0x3F82);
    assert_eq!(map.json_text(), DESCRIPTOR);

    let paths: Vec<&str> = map.entries().iter().map(|e| e.path.as_str()).collect();
    assert_eq!(
        paths,
        vec![
            "odrv",
            "odrv.error",
            "odrv.vbus_voltage",
            "odrv.save_configuration",
            "axis0",
            "axis0.current_state",
            "axis0.motor",
            "axis0.motor.config",
            "axis0.motor.config.gear_ratio",
            "axis0.motor.config.gear_teeth",
            "axis0.ref",
        ]
    );

    let gear = map.get(242).expect("id 242 is in the map");
    assert_eq!(gear.path, "axis0.motor.config.gear_ratio");
    assert_eq!(gear.raw_type, "float");
    assert_eq!(gear.value_type(), Some(ValueType::F32));
    assert_eq!(gear.access, Access::ReadWrite);

    let save = map.get(63).expect("id 63 is in the map");
    assert_eq!(save.kind, EndpointKind::Function);
    assert_eq!(save.access, Access::Unknown);
    assert_eq!(save.value_type(), None);
    assert_eq!(map.get(0xFFF).map(|e| e.path.as_str()), None);
}

#[test]
fn value_count_ignores_functions_and_references() {
    let map = map();
    // 9 values out of 11 entries (one function, one endpoint_ref).
    assert_eq!(map.len(), 11);
    assert_eq!(map.value_count(), 9);
}

#[test]
fn find_matches_case_insensitive_substrings_in_document_order() {
    let map = map();

    let gears = map.find("GEAR");
    let names: Vec<&str> = gears.iter().map(|e| e.path.as_str()).collect();
    assert_eq!(
        names,
        vec![
            "axis0.motor.config.gear_ratio",
            "axis0.motor.config.gear_teeth"
        ]
    );
    assert!(map.find("nothing_like_this").is_empty());
}

#[test]
fn resolve_reports_out_of_range_ids() {
    let map = map();

    let too_big = text_of(map.resolve("70000").unwrap_err());
    assert!(
        too_big.contains("does not fit in a 16-bit endpoint id"),
        "{too_big}"
    );
    assert!(!too_big.contains("65535"), "{too_big}");
}

#[test]
fn resolve_accepts_ids_paths_segments_and_substrings() {
    let map = map();

    assert_eq!(
        map.resolve("0x00F2").unwrap().path,
        "axis0.motor.config.gear_ratio"
    );
    assert_eq!(
        map.resolve("242").unwrap().path,
        "axis0.motor.config.gear_ratio"
    );
    assert_eq!(
        map.resolve("axis0.motor.config.gear_ratio")
            .unwrap()
            .endpoint_id,
        242
    );
    assert_eq!(map.resolve("current_state").unwrap().endpoint_id, 142);
    assert_eq!(map.resolve("  vbus_voltage  ").unwrap().endpoint_id, 2);
}

#[test]
fn resolve_reports_unknown_and_ambiguous_endpoints() {
    let map = map();

    let unknown = text_of(map.resolve("does_not_exist").unwrap_err());
    assert!(unknown.contains("no endpoint matches"), "{unknown}");

    let out_of_map = text_of(map.resolve("0x0151").unwrap_err());
    assert!(
        out_of_map.contains("not in the device's endpoint map"),
        "{out_of_map}"
    );
    assert!(out_of_map.contains("11 entries"), "{out_of_map}");

    // "gear_" matches two paths in the same way, so neither is an exact segment.
    let ambiguous = text_of(map.resolve("gear_").unwrap_err());
    assert!(ambiguous.contains("ambiguous"), "{ambiguous}");
    assert!(ambiguous.contains("0x00F2"), "{ambiguous}");
}

#[test]
fn parse_rejects_invalid_json() {
    let err = text_of(EndpointMap::parse("{not json").unwrap_err());
    assert!(err.contains("not valid JSON"), "{err}");
}

#[test]
fn decode_value_handles_every_declared_width() {
    assert_eq!(
        decode_value(&[0x00, 0x00, 0xF8, 0x40], ValueType::F32).unwrap(),
        ParamValue::F32(7.75f32.to_bits())
    );
    assert_eq!(
        decode_value(&[0x2A], ValueType::U8).unwrap(),
        ParamValue::U8(42)
    );
    assert_eq!(
        decode_value(&[0xFF], ValueType::I8).unwrap(),
        ParamValue::I8(-1)
    );
    assert_eq!(
        decode_value(&[0x34, 0x12], ValueType::U16).unwrap(),
        ParamValue::U16(0x1234)
    );
    assert_eq!(
        decode_value(&[0x00, 0x40, 0x00, 0x00], ValueType::U32).unwrap(),
        ParamValue::U32(16384)
    );
    assert_eq!(
        decode_value(&[0xFF, 0xFF, 0xFF, 0xFF], ValueType::I32).unwrap(),
        ParamValue::I32(-1)
    );
    assert_eq!(
        decode_value(
            &[0xEF, 0xCD, 0xAB, 0x89, 0x67, 0x45, 0x23, 0x01],
            ValueType::U64
        )
        .unwrap(),
        ParamValue::U64(0x0123_4567_89AB_CDEF)
    );
    assert_eq!(
        decode_value(&[0xFF; 8], ValueType::I64).unwrap(),
        ParamValue::I64(-1)
    );
    assert_eq!(
        decode_value(&[1], ValueType::Bool).unwrap(),
        ParamValue::Bool(true)
    );
    assert_eq!(
        decode_value(&[0], ValueType::Bool).unwrap(),
        ParamValue::Bool(false)
    );
    assert_eq!(
        decode_value(&[1, 0, 0, 0], ValueType::Bool).unwrap(),
        ParamValue::Bool(true)
    );
}

#[test]
fn decode_value_reports_a_width_mismatch_as_a_protocol_error() {
    let err = decode_value(&[0x00, 0x40], ValueType::F32).unwrap_err();
    assert_eq!(err.kind(), ErrorKind::Protocol);
    let err = text_of(err);
    assert!(err.contains("declared float (4 byte(s))"), "{err}");
    assert!(err.contains("returned 2 byte(s)"), "{err}");

    let bool_err = text_of(decode_value(&[1, 2, 3], ValueType::Bool).unwrap_err());
    assert!(bool_err.contains("declared bool"), "{bool_err}");
}

#[test]
fn param_value_display_and_numeric_accessors() {
    let float = 7.75f32;
    assert_eq!(
        ParamValue::F32(float.to_bits()).to_text(&format!("{float}")),
        "7.75"
    );
    assert_eq!(ParamValue::U32(16384).to_text(""), "16384");
    assert_eq!(ParamValue::Bool(false).to_text(""), "false");
    assert_eq!(ParamValue::U32(40).as_f32(), None);
    assert_eq!(
        ParamValue::F32(float.to_bits()).as_f32().map(f32::from_bits),
        Some(7.75)
    );
}

#[test]
fn repeated_ids_keep_the_first_occurrence() {
    // The device nests objects whose ids can repeat (`odrv` / `odrv.error`); the first
    // document-order occurrence wins, and both paths stay searchable.
    let map = EndpointMap::parse(
        r#"[{"name":"odrv","id":1,"type":"object","members":[
                 {"name":"error","id":1,"type":"uint8","access":"rw"}]}]"#,
    )
    .unwrap();

    assert_eq!(map.len(), 2);
    assert_eq!(map.get(1).unwrap().path, "odrv");
    assert_eq!(map.resolve("odrv.error").unwrap().endpoint_id, 1);
}

#[test]
fn summary_names_counts_length_and_version() {
    let map = map();
    assert_eq!(
        map.summary(),
        format!(
            "11 endpoints (9 values), {} bytes, VersionCRC=0x3F82",
            DESCRIPTOR.len()
        )
    );
    assert_eq!(
        EndpointMap::default().summary(),
        "0 endpoints (0 values), 0 bytes, VersionCRC=0x0000"
    );
    assert!(EndpointMap::default().is_empty());
}

#[test]
fn resolve_messages_are_exact() {
    let map = map();
    assert_eq!(
        text_of(map.resolve("   ").unwrap_err()),
        "endpoint id/name is empty"
    );
    assert_eq!(
        text_of(map.resolve("0x0151").unwrap_err()),
        "endpoint 0x0151 (337) is not in the device's endpoint map (11 entries, VersionCRC=0x3F82)"
    );
    assert_eq!(
        text_of(map.resolve("0x10000").unwrap_err()),
        "\"0x10000\" does not fit in a 16-bit endpoint id"
    );
    assert_eq!(
        text_of(map.resolve("nope").unwrap_err()),
        "no endpoint matches \"nope\" in the device's endpoint map (11 entries); \
         use `find-endpoint --name <substring>` to search it"
    );
    assert_eq!(
        text_of(map.resolve("gear_").unwrap_err()),
        "\"gear_\" is ambiguous: 2 endpoints match (0x00F2 axis0.motor.config.gear_ratio, \
         0x0198 axis0.motor.config.gear_teeth)"
    );
}

#[test]
fn resolve_ignores_case_and_prefers_paths_over_segments() {
    let map = EndpointMap::parse(
        r#"[{"name":"a","id":1,"type":"object","members":[
                {"name":"Pos","id":2,"type":"float","access":"rw"}]},
            {"name":"pos","id":3,"type":"uint8","access":"r"},
            {"name":"b","id":4,"type":"object","members":[
                {"name":"speed","id":5,"type":"float"},
                {"name":"deep","id":6,"type":"object","members":[
                    {"name":"speed","id":7,"type":"float"}]}]}]"#,
    )
    .unwrap();
    // An exact path wins over the last segment of another path.
    assert_eq!(map.resolve("POS").unwrap().endpoint_id, 3);
    assert_eq!(map.resolve("A.POS").unwrap().endpoint_id, 2);
    // Two equal last segments are ambiguous, although more paths contain the text.
    assert!(text_of(map.resolve("Speed").unwrap_err()).contains("2 endpoints match"));
    // A unique substring is enough.
    assert_eq!(map.resolve("eep.sp").unwrap().endpoint_id, 7);
}

#[test]
fn ambiguous_lists_stop_after_eight() {
    let items: Vec<String> = (0..10)
        .map(|i| format!(r#"{{"name":"item{i}","id":{},"type":"uint8"}}"#, 100 + i))
        .collect();
    let map = EndpointMap::parse(&format!("[{}]", items.join(","))).unwrap();
    let message = text_of(map.resolve("item").unwrap_err());
    assert!(message.starts_with("\"item\" is ambiguous: 10 endpoints match (0x0064 item0, "));
    assert!(message.ends_with("0x006B item7, ...)"), "{message}");
}

#[test]
fn walk_keeps_unknown_kinds_and_skips_wide_ids() {
    let map = EndpointMap::parse(
        r#"{"name":"root","x":{"id":65536,"type":"float"},
            "y":{"id":65535,"type":"vector","access":"w"},
            "z":[{"name":"j","id":9,"type":"json"},{"id":"7"},{"id":-1},{"id":1.5}]}"#,
    )
    .unwrap();
    assert_eq!(map.len(), 2);
    let other = map.get(65535).unwrap();
    assert_eq!(other.path, "root");
    assert_eq!(other.kind, EndpointKind::Other);
    assert_eq!(other.raw_type, "vector");
    assert_eq!(other.access, Access::Unknown);
    assert_eq!(map.get(9).unwrap().path, "root.j");
    assert_eq!(map.get(9).unwrap().kind, EndpointKind::Json);
    // An unknown kind still counts as a value, a blob does not.
    assert_eq!(map.value_count(), 1);
}

#[test]
fn documents_keep_the_order_of_their_fields() {
    let map = EndpointMap::parse(
        r#"{"zz":{"name":"z","id":1},"aa":{"name":"a","id":2},"mm":{"name":"m","id":3}}"#,
    )
    .unwrap();
    let ids: Vec<u16> = map.entries().iter().map(|e| e.endpoint_id).collect();
    assert_eq!(ids, vec![1, 2, 3]);
}

#[test]
fn endpoint_ids_parse_as_documented() {
    assert_eq!(parse_endpoint_id("0x00F7"), SpecId::Id(247));
    assert_eq!(parse_endpoint_id("0XfF"), SpecId::Id(255));
    assert_eq!(parse_endpoint_id("247"), SpecId::Id(247));
    assert_eq!(parse_endpoint_id("000000000000000000001"), SpecId::Id(1));
    assert_eq!(parse_endpoint_id("65535"), SpecId::Id(65535));
    assert_eq!(parse_endpoint_id("65536"), SpecId::OutOfRange);
    assert_eq!(
        parse_endpoint_id("99999999999999999999999999999999"),
        SpecId::OutOfRange
    );
    assert_eq!(parse_endpoint_id("0x"), SpecId::NotAnId);
    assert_eq!(parse_endpoint_id(""), SpecId::NotAnId);
    assert_eq!(parse_endpoint_id("12a"), SpecId::NotAnId);
    assert_eq!(parse_endpoint_id("+5"), SpecId::NotAnId);
    assert_eq!(parse_endpoint_id("gear_ratio"), SpecId::NotAnId);
}

#[test]
fn selection_works_on_plain_names() {
    let entry = |path: &str, id: u16| EndpointEntry {
        path: path.to_string(),
        endpoint_id: id,
        raw_type: "float".to_string(),
        kind: EndpointKind::Value(ValueType::F32),
        access: Access::ReadOnly,
    };
    let entries = vec![entry("A.x", 1), entry("B.x", 2), entry("B.y", 3)];
    let names = vec!["a.x".to_string(), "b.x".to_string(), "b.y".to_string()];
    assert_eq!(select_endpoint(&entries, &names, "b.x", "b.x", "b.x").unwrap(), 1);
    assert_eq!(select_endpoint(&entries, &names, "y", "y", "y").unwrap(), 2);
    assert_eq!(select_endpoint(&entries, &names, "a.", "a.", "a.").unwrap(), 0);
    assert_eq!(
        text_of(select_endpoint(&entries, &names, "x", "x", "x").unwrap_err()),
        "\"x\" is ambiguous: 2 endpoints match (0x0001 A.x, 0x0002 B.x)"
    );
}

#[test]
fn json_trees_hold_what_the_walk_needs() {
    match Json::parse(r#"{"a":[1,"two",null,2.5],"b":true}"#).unwrap() {
        Json::Object(fields) => {
            assert_eq!(fields.len(), 2);
            assert_eq!(fields[0].0, "a");
            match &fields[0].1 {
                Json::Array(items) => {
                    assert!(matches!(items[0], Json::Number(1)));
                    assert!(matches!(&items[1], Json::Text(s) if s == "two"));
                    assert!(matches!(items[2], Json::Other));
                    assert!(matches!(items[3], Json::Other));
                }
                other => panic!("{other:?}"),
            }
            assert!(matches!(fields[1].1, Json::Other));
        }
        other => panic!("{other:?}"),
    }
    assert!(Json::parse("[1,").is_err());
    let map = EndpointMap::from_tree(&Json::Array(vec![]), "[]");
    assert!(map.is_empty());
    assert_eq!(map.json_text(), "[]");
}

#[test]
fn labels_name_their_kind_again() {
    for access in [Access::ReadOnly, Access::ReadWrite, Access::Unknown] {
        assert_eq!(Access::from_raw(Some(access.label())), access);
    }
    assert_eq!(Access::from_raw(None), Access::Unknown);
    assert_eq!(Access::ReadOnly.label(), "r");
    assert_eq!(Access::Unknown.label(), "-");
    for value_type in [
        ValueType::F32,
        ValueType::F64,
        ValueType::U8,
        ValueType::U16,
        ValueType::U32,
        ValueType::U64,
        ValueType::I8,
        ValueType::I16,
        ValueType::I32,
        ValueType::I64,
        ValueType::Bool,
    ] {
        assert_eq!(ValueType::from_raw(value_type.label()), Some(value_type));
    }
    assert_eq!(ValueType::from_raw("float32"), Some(ValueType::F32));
    assert_eq!(ValueType::from_raw("double"), Some(ValueType::F64));
    assert_eq!(ValueType::from_raw("object"), None);
    let entry = map().get(242).unwrap().clone();
    assert_eq!(entry.path, "axis0.motor.config.gear_ratio");
    let map = map().with_metadata(431, 0x3F82);
    let copy = map.clone();
    assert_eq!(copy.summary(), map.summary());
    assert_eq!(copy.json_text(), map.json_text());
    assert_eq!(copy.resolve("GEAR_RATIO").unwrap().endpoint_id, 242);
}
