use pozor_dom::telemetry::{parse_telemetry, telemetry_json, DeviceTelemetry};

fn sample() -> DeviceTelemetry {
    DeviceTelemetry {
        device_id: String::from("sensor-001"),
        channel: String::from("BLE"),
        temperature: String::from("25.5"),
        humidity: String::from("70.0"),
        signal_strength: -60,
        timestamp: String::from("2024-01-01T12:00:00Z"),
    }
}

#[test]
fn unit_test_json_serialization() {
    let telemetry = sample();

    let json_str = telemetry_json(&telemetry);
    assert!(json_str.contains("sensor-001"));
    assert!(json_str.contains("BLE"));
    assert!(json_str.contains("25.5"));

    let deserialized = parse_telemetry(&json_str).unwrap();
    assert_eq!(deserialized.device_id, telemetry.device_id);
    assert_eq!(deserialized.channel, telemetry.channel);
    assert_eq!(deserialized.temperature, telemetry.temperature);
    assert_eq!(deserialized.humidity, telemetry.humidity);
    assert_eq!(deserialized.signal_strength, telemetry.signal_strength);
    assert_eq!(deserialized.timestamp, telemetry.timestamp);
}

#[test]
fn serializer_exact_output() {
    let t = DeviceTelemetry {
        device_id: String::from("dev-1"),
        channel: String::from("WiFi"),
        temperature: String::from("21.00"),
        humidity: String::from("55.00"),
        signal_strength: -45,
        timestamp: String::from("2024-01-01T00:00:00Z"),
    };
    assert_eq!(
        telemetry_json(&t),
        "{\"device_id\":\"dev-1\",\"channel\":\"WiFi\",\"temperature\":\"21.00\",\
         \"humidity\":\"55.00\",\"signal_strength\":-45,\
         \"timestamp\":\"2024-01-01T00:00:00Z\"}"
    );
}

#[test]
fn white_box_test_device_telemetry_validation() {
    let valid = "{\"device_id\":\"valid-device-001\",\"channel\":\"WiFi\",\
                 \"temperature\":\"23.5\",\"humidity\":\"65.0\",\
                 \"signal_strength\":-50,\"timestamp\":\"2024-01-01T00:00:00Z\"}";
    let telemetry = parse_telemetry(valid);
    assert!(telemetry.is_some(), "Valid telemetry should parse successfully");

    let telemetry = telemetry.unwrap();
    assert_eq!(telemetry.device_id, "valid-device-001");
    assert_eq!(telemetry.channel, "WiFi");
    assert_eq!(telemetry.temperature, "23.5");

    let invalid = "{\"channel\":\"WiFi\",\"temperature\":\"23.5\",\"humidity\":\"65.0\",\
                   \"signal_strength\":-50,\"timestamp\":\"2024-01-01T00:00:00Z\"}";
    assert!(
        parse_telemetry(invalid).is_none(),
        "Invalid telemetry (missing device_id) should fail to parse"
    );
}

#[test]
fn parser_accepts_whitespace_and_any_field_order() {
    let s = " { \"timestamp\" : \"t\" , \"signal_strength\" : 0 , \"humidity\" : \"h\" ,\
             \"temperature\" : \"c\" , \"channel\" : \"BLE\" , \"device_id\" : \"d\" } ";
    let t = parse_telemetry(s).unwrap();
    assert_eq!(t.device_id, "d");
    assert_eq!(t.signal_strength, 0);
}

#[test]
fn parser_rejects_malformed_frames() {
    assert!(parse_telemetry("").is_none());
    assert!(parse_telemetry("not json at all").is_none());
    assert!(parse_telemetry("{\"device_id\":\"x\"").is_none());
    assert!(parse_telemetry("{\"device_id\":}").is_none());
    assert!(parse_telemetry("[1,2,3]").is_none());
    // Trailing garbage after the object is rejected.
    assert!(parse_telemetry("{\"device_id\":\"x\"} extra").is_none());
    // A wrongly typed field is rejected.
    let wrong = "{\"device_id\":7,\"channel\":\"WiFi\",\"temperature\":\"1\",\
                 \"humidity\":\"2\",\"signal_strength\":-50,\"timestamp\":\"t\"}";
    assert!(parse_telemetry(wrong).is_none());
}

#[test]
fn parser_handles_escapes_and_integer_bounds() {
    let esc = "{\"device_id\":\"a\\\"b\\\\c\",\"channel\":\"W\",\"temperature\":\"1\",\
               \"humidity\":\"2\",\"signal_strength\":-2147483648,\"timestamp\":\"t\"}";
    let t = parse_telemetry(esc).unwrap();
    assert_eq!(t.device_id, "a\"b\\c");
    assert_eq!(t.signal_strength, -2147483648);

    let over = "{\"device_id\":\"a\",\"channel\":\"W\",\"temperature\":\"1\",\
                \"humidity\":\"2\",\"signal_strength\":2147483648,\"timestamp\":\"t\"}";
    assert!(parse_telemetry(over).is_none(), "out-of-range integers are rejected");

    let max = "{\"device_id\":\"a\",\"channel\":\"W\",\"temperature\":\"1\",\
               \"humidity\":\"2\",\"signal_strength\":2147483647,\"timestamp\":\"t\"}";
    assert_eq!(parse_telemetry(max).unwrap().signal_strength, 2147483647);
}
