use cyberbeast::cli::{
    check_confirmed, check_keep_alive, check_preflight, check_scan_range, check_write_request,
    find_write_target, get_endpoint_spec, mode_commands, param_timeout_ms, parse_hex_bytes,
    parse_mode, parse_param_value, plan_session, preflight_endpoints, preflight_values,
    resolve_endpoint, torque_option, write_verdict, Args, Mode,
};
use cyberbeast::report::hex_bytes;
use cyberbeast::{EndpointMap, MsgType, ParamValue, ValueType};

fn args_of(pairs: &[(&str, &str)]) -> Args {
    let mut args = Args::new();
    for (key, value) in pairs {
        args.insert((*key).to_string(), (*value).to_string());
    }
    args
}

#[test]
fn get_endpoint_spec_accepts_ids_and_names() {
    // The spec stays a string: the device's table decides whether it is a name.
    assert_eq!(
        get_endpoint_spec(&args_of(&[("endpoint", "0x00F2")])).expect("id"),
        "0x00F2"
    );
    // `--param-id` is the Python CLI spelling of the same option.
    assert_eq!(
        get_endpoint_spec(&args_of(&[("param-id", "gear_ratio")])).expect("name"),
        "gear_ratio"
    );

    let err = get_endpoint_spec(&args_of(&[])).expect_err("missing endpoint");
    assert!(err.contains("--endpoint <id|name>"), "{err}");
}

#[test]
fn options_keep_their_last_value() {
    let args = args_of(&[("kp", "1"), ("endpoint", "a"), ("kp", "2"), ("param-id", "b")]);
    assert_eq!(args.get("kp"), Some("2"));
    assert_eq!(args.get("kd"), None);
    assert!(args.contains_key("param-id"));
    assert_eq!(get_endpoint_spec(&args).unwrap(), "a");
    assert_eq!(torque_option(&args), "torque");
    assert_eq!(torque_option(&args_of(&[("tau", "1")])), "tau");
}

fn table() -> EndpointMap {
    EndpointMap::parse(
        r#"[{"name":"axis0","id":14,"type":"object","members":[
            {"name":"gear_ratio","id":242,"type":"float","access":"rw"},
            {"name":"save","id":63,"type":"function"}]}]"#,
    )
    .unwrap()
}

#[test]
fn endpoints_resolve_with_and_without_a_table() {
    let map = table();
    assert_eq!(resolve_endpoint(Some(&map), "GEAR_RATIO"), Ok(242));
    assert_eq!(resolve_endpoint(None, "0x00F2"), Ok(242));
    assert_eq!(
        resolve_endpoint(None, "gear_ratio"),
        Err(
            "\"gear_ratio\" is not a numeric endpoint id and the device's endpoint table is not \
             loaded (--no-endpoint-map?); use an id such as 0x00F2"
                .to_string()
        )
    );
    assert_eq!(
        resolve_endpoint(Some(&map), "").unwrap_err(),
        "endpoint id/name is empty"
    );
}

#[test]
fn hex_bytes_and_back() {
    assert_eq!(hex_bytes(&[]), "");
    assert_eq!(hex_bytes(&[0x08]), "08");
    assert_eq!(hex_bytes(&[0x08, 0x00, 0xAF]), "08 00 AF");
    for bytes in [vec![0u8], vec![8, 0, 0, 0], (0..=255).collect::<Vec<u8>>()] {
        assert_eq!(parse_hex_bytes(&hex_bytes(&bytes)), Ok(bytes));
    }
    assert_eq!(parse_hex_bytes("08,00_0a\tfF"), Ok(vec![8, 0, 10, 255]));
    // Any separators, and either case.
    for text in ["08000AFF", "08,00,0A,FF", "08,00,0a,ff", "08000aff", "08 00 0a ff"] {
        assert_eq!(parse_hex_bytes(text), Ok(vec![8, 0, 10, 255]), "{text}");
    }
    // A sign is no digit.
    assert_eq!(
        parse_hex_bytes("+8"),
        Err("--raw-bytes +8: +8 is not a hex byte".to_string())
    );
    assert_eq!(
        parse_hex_bytes("+F"),
        Err("--raw-bytes +F: +F is not a hex byte".to_string())
    );
    assert_eq!(
        parse_hex_bytes(""),
        Err("--raw-bytes  must be whole bytes, e.g. 08 00 00 00".to_string())
    );
    let whole = "08 00 AF";
    for at in [0, 1, 3, 4, 6, 7] {
        let mut text = whole.to_string();
        text.remove(at);
        assert_eq!(
            parse_hex_bytes(&text),
            Err(format!(
                "--raw-bytes {text} must be whole bytes, e.g. 08 00 00 00"
            ))
        );
    }
    assert_eq!(
        parse_hex_bytes("080"),
        Err("--raw-bytes 080 must be whole bytes, e.g. 08 00 00 00".to_string())
    );
    assert_eq!(
        parse_hex_bytes(" , "),
        Err("--raw-bytes  ,  must be whole bytes, e.g. 08 00 00 00".to_string())
    );
    assert_eq!(
        parse_hex_bytes("08zz"),
        Err("--raw-bytes 08zz: zz is not a hex byte".to_string())
    );
    assert_eq!(
        parse_hex_bytes("-1"),
        Err("--raw-bytes -1: -1 is not a hex byte".to_string())
    );
    assert_eq!(
        parse_hex_bytes("é"),
        Err("--raw-bytes é: é is not a hex byte".to_string())
    );
    // Half a character is no text at all: the message is that of the decoder.
    let message = parse_hex_bytes("aé0").unwrap_err();
    assert_eq!(
        message,
        std::str::from_utf8(&[b'a', 0xC3]).unwrap_err().to_string()
    );
}

#[test]
fn values_parse_into_the_declared_type() {
    let parse = |text: &str, declared| parse_param_value(text, declared, None);
    assert_eq!(parse(" 8 ", ValueType::U8), Ok(ParamValue::U8(8)));
    assert_eq!(parse("+255", ValueType::U8), Ok(ParamValue::U8(255)));
    assert_eq!(
        parse("256", ValueType::U8),
        Err("--value 256 is not a valid uint8".to_string())
    );
    assert_eq!(
        parse("-0", ValueType::U16),
        Err("--value -0 is not a valid uint16".to_string())
    );
    assert_eq!(parse("65535", ValueType::U16), Ok(ParamValue::U16(65535)));
    assert_eq!(
        parse("4294967295", ValueType::U32),
        Ok(ParamValue::U32(u32::MAX))
    );
    assert_eq!(
        parse("18446744073709551615", ValueType::U64),
        Ok(ParamValue::U64(u64::MAX))
    );
    assert!(parse("18446744073709551616", ValueType::U64).is_err());
    assert!(parse("999999999999999999999999999999999999999999", ValueType::U64).is_err());
    assert_eq!(parse("-128", ValueType::I8), Ok(ParamValue::I8(-128)));
    assert!(parse("128", ValueType::I8).is_err());
    assert_eq!(parse("-32768", ValueType::I16), Ok(ParamValue::I16(i16::MIN)));
    assert_eq!(
        parse("-2147483648", ValueType::I32),
        Ok(ParamValue::I32(i32::MIN))
    );
    assert_eq!(
        parse("-9223372036854775808", ValueType::I64),
        Ok(ParamValue::I64(i64::MIN))
    );
    assert!(parse("9223372036854775808", ValueType::I64).is_err());
    assert!(parse("", ValueType::I64).is_err());
    assert!(parse("-", ValueType::I64).is_err());
    assert!(parse("1.0", ValueType::U8).is_err());
    assert_eq!(parse("TRUE", ValueType::Bool), Ok(ParamValue::Bool(true)));
    assert_eq!(parse("1", ValueType::Bool), Ok(ParamValue::Bool(true)));
    assert_eq!(parse(" False", ValueType::Bool), Ok(ParamValue::Bool(false)));
    assert_eq!(parse("0", ValueType::Bool), Ok(ParamValue::Bool(false)));
    assert_eq!(
        parse("yes", ValueType::Bool),
        Err("--value yes is not a valid bool (true/false/1/0)".to_string())
    );
    assert_eq!(
        parse("x", ValueType::F32),
        Err("--value x is not a valid float".to_string())
    );
    assert_eq!(
        parse("x", ValueType::F64),
        Err("--value x is not a valid float64".to_string())
    );
    assert_eq!(
        parse_param_value("7.75", ValueType::F32, Some(u64::from(7.75f32.to_bits()))),
        Ok(ParamValue::F32(7.75f32.to_bits()))
    );
    assert_eq!(
        parse_param_value("7.75", ValueType::F64, Some(7.75f64.to_bits())),
        Ok(ParamValue::F64(7.75f64.to_bits()))
    );
}

#[test]
fn modes_have_their_gates() {
    assert_eq!(parse_mode("clear-fault"), Ok(Mode::ClearError));
    assert_eq!(parse_mode("keep-alive"), Ok(Mode::KeepAlive));
    assert_eq!(parse_mode("reset"), Ok(Mode::Reset));
    assert!(parse_mode("dance")
        .unwrap_err()
        .starts_with("unknown mode: dance. Supported: scan, status,"));

    assert!(plan_session(Mode::Status, false).load_map);
    assert!(!plan_session(Mode::Status, false).warm_up);
    assert!(plan_session(Mode::Mit, true).warm_up);
    for mode in [Mode::Reset, Mode::Monitor, Mode::Scan] {
        for no_map in [false, true] {
            assert!(!plan_session(mode, no_map).load_map);
            assert!(!plan_session(mode, no_map).warm_up);
        }
    }
    assert!(!plan_session(Mode::Estop, true).warm_up);
    // Stopping the axis on exit would undo the start that `enable` has just sent.
    for mode in [Mode::Enable, Mode::Scan, Mode::Status, Mode::Monitor, Mode::Reset] {
        assert!(!plan_session(mode, false).stop_on_exit);
    }
    for mode in [Mode::Mit, Mode::Disable, Mode::Estop, Mode::ReadParam, Mode::KeepAlive] {
        assert!(plan_session(mode, false).stop_on_exit);
    }

    assert!(check_confirmed(Mode::Reset, false).is_err());
    assert!(check_confirmed(Mode::Reset, true).is_ok());
    assert_eq!(
        check_confirmed(Mode::SetZero, false).unwrap_err(),
        "set-zero changes the mechanical zero reference; re-run with --yes to confirm"
    );
    assert!(check_confirmed(Mode::Status, false).is_ok());

    assert_eq!(
        check_scan_range(5, 4).unwrap_err(),
        "--end-id 0x04 is below --start-id 0x05"
    );
    assert!(check_scan_range(5, 5).is_ok());
    assert_eq!(
        check_keep_alive(0).unwrap_err(),
        "--keep-alive-ms must be greater than 0"
    );
    assert!(check_keep_alive(1).is_ok());
    assert_eq!(param_timeout_ms(50), 200);
    assert_eq!(param_timeout_ms(500), 500);
}

#[test]
fn writes_need_endpoint_value_and_confirmation() {
    assert!(check_write_request(&args_of(&[("value", "1"), ("yes", "1")]))
        .unwrap_err()
        .contains("--endpoint <id|name>"));
    assert!(check_write_request(&args_of(&[("endpoint", "x"), ("yes", "1")]))
        .unwrap_err()
        .starts_with("--value <number|true|false>"));
    assert_eq!(
        check_write_request(&args_of(&[("endpoint", "x"), ("raw-bytes", "08")])).unwrap_err(),
        "write-param changes device configuration; re-run with --yes to confirm"
    );
    assert_eq!(
        check_write_request(&args_of(&[("endpoint", "x"), ("value", "1"), ("yes", "1")])),
        Ok("x".to_string())
    );

    let map = table();
    assert_eq!(find_write_target(Some(&map), 242), Ok(ValueType::F32));
    assert_eq!(
        find_write_target(Some(&map), 63).unwrap_err(),
        "endpoint 0x003F (axis0.save) is declared \"function\" and cannot be written"
    );
    assert_eq!(
        find_write_target(Some(&map), 1).unwrap_err(),
        "endpoint 0x0001 is not in the device's endpoint table"
    );
    assert!(find_write_target(None, 242)
        .unwrap_err()
        .contains("drop --no-endpoint-map"));
}

#[test]
fn read_backs_decide_the_verdict() {
    let verdict = |path: &str, requested, read_back| {
        write_verdict(0x8F, path, requested, "", read_back, "")
    };
    assert_eq!(
        verdict("a.b", ParamValue::U8(8), Some(ParamValue::U8(8))),
        Ok("  verified: the device reports the requested value".to_string())
    );
    assert_eq!(
        verdict("a.b", ParamValue::U8(8), Some(ParamValue::U8(1))),
        Err("read-back mismatch on endpoint 0x008F: requested 8, device reports 1".to_string())
    );
    assert_eq!(
        verdict(
            "axis0.requested_state",
            ParamValue::U8(8),
            Some(ParamValue::U8(0))
        ),
        Ok(
            "  note: the device consumed this write before it could be read back (it reports 0); \
             check its effect through axis0.current_state"
                .to_string()
        )
    );
    assert_eq!(
        verdict("a.b", ParamValue::U8(8), None),
        Err(
            "endpoint 0x008F write was acknowledged but could not be read back; treat it as \
             unverified"
                .to_string()
        )
    );
    // Floats are compared as numbers.
    let zero = ParamValue::F32(0.0f32.to_bits());
    let minus_zero = ParamValue::F32((-0.0f32).to_bits());
    let nan = ParamValue::F32(f32::NAN.to_bits());
    assert!(verdict("a.b", zero, Some(minus_zero)).is_ok());
    assert!(verdict("a.b", nan, Some(nan)).is_err());
}

#[test]
fn control_loops_check_the_device_first() {
    assert_eq!(check_preflight(5, Some(0), Some(0)), Ok(None));
    assert_eq!(check_preflight(5, None, None), Ok(None));
    assert!(check_preflight(800, Some(500), Some(0))
        .unwrap_err()
        .contains("--loop-ms 800 is not below can.config.break_timeout (500 ms)"));
    assert!(check_preflight(500, Some(500), None).is_err());
    assert!(check_preflight(499, Some(500), None).unwrap().is_some());
    let latched = check_preflight(5, Some(0), Some(0x0010_0000)).unwrap_err();
    assert!(
        latched.starts_with("axis0.error is 0x00100000 (CAN_BUS_FAILED):"),
        "{latched}"
    );
    assert!(check_preflight(5, None, Some(0x8000_0005))
        .unwrap_err()
        .contains("(bit 0, bit 2, bit 31)"));
}

#[test]
fn the_values_checked_first_come_from_the_table() {
    let map = EndpointMap::parse(
        r#"[{"name":"can","id":0,"type":"object","members":[{"name":"config","id":1,"type":"object","members":[{"name":"break_timeout","id":7,"type":"uint32","access":"rw"}]}]},{"name":"axis0","id":2,"type":"object","members":[{"name":"error","id":9,"type":"uint32","access":"rw"}]}]"#,
    )
    .unwrap();
    assert_eq!(preflight_endpoints(Some(&map)), (Some(7), Some(9)));
    assert_eq!(preflight_endpoints(None), (None, None));
    let bare = EndpointMap::parse(
        r#"[{"name":"axis0","id":2,"type":"object","members":[{"name":"error","id":9,"type":"uint32","access":"rw"}]}]"#,
    )
    .unwrap();
    assert_eq!(preflight_endpoints(Some(&bare)), (None, Some(9)));

    // Any unsigned width is a number to check; nothing else is.
    assert_eq!(
        preflight_values(Some(ParamValue::U32(500)), Some(ParamValue::U64(0x40))),
        (Some(500), Some(0x40))
    );
    assert_eq!(
        preflight_values(Some(ParamValue::U16(65535)), Some(ParamValue::U8(3))),
        (Some(65535), Some(3))
    );
    assert_eq!(
        preflight_values(None, Some(ParamValue::Bool(true))),
        (None, None)
    );
    let (break_timeout, axis_error) =
        preflight_values(Some(ParamValue::U32(500)), Some(ParamValue::U32(0)));
    assert!(check_preflight(500, break_timeout, axis_error).is_err());
}

#[test]
fn modes_send_their_messages_only() {
    assert_eq!(
        mode_commands(Mode::Mit),
        vec![MsgType::StartMotor, MsgType::MitControl, MsgType::StopMotor]
    );
    assert_eq!(mode_commands(Mode::Enable), vec![MsgType::StartMotor]);
    assert_eq!(mode_commands(Mode::Disable), vec![MsgType::StopMotor]);
    assert_eq!(mode_commands(Mode::Estop), vec![MsgType::Estop]);
    assert_eq!(mode_commands(Mode::Reset), vec![MsgType::ResetDevice]);
    assert_eq!(mode_commands(Mode::ClearError), vec![MsgType::ClearErrors]);
    assert_eq!(mode_commands(Mode::SetZero), vec![MsgType::SetZero]);
    assert_eq!(
        mode_commands(Mode::WriteParam),
        vec![MsgType::ParamRead, MsgType::ParamWrite, MsgType::ParamRead]
    );
    assert_eq!(
        mode_commands(Mode::Status),
        vec![
            MsgType::QueryStatus,
            MsgType::QueryPosVel,
            MsgType::QueryDeviceInfo
        ]
    );
    for mode in [Mode::Monitor, Mode::FindEndpoint, Mode::EndpointMap] {
        assert!(mode_commands(mode).is_empty());
    }
}
