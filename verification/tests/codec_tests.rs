use cloud_rider_gateway::codec::{decode_message, encode_message};
use cloud_rider_gateway::domain::{BatteryStatus, CloudRiderMessage, GlobalPosition, Heartbeat};

fn sample_position() -> CloudRiderMessage {
    CloudRiderMessage::GlobalPosition(GlobalPosition {
        lat: 473397000,
        lon: 85550000,
        alt: 500000,
        relative_alt: 100000,
        vx: 10,
        vy: 0,
        vz: -5,
    })
}

#[test]
fn heartbeat_encodes_to_expected_text() {
    let m = CloudRiderMessage::Heartbeat(Heartbeat {
        timestamp: String::from("2024-05-01T12:00:00+00:00"),
    });
    assert_eq!(
        encode_message(&m),
        "{\"type\":\"Heartbeat\",\"payload\":{\"timestamp\":\"2024-05-01T12:00:00+00:00\"}}"
    );
}

#[test]
fn position_encodes_to_expected_text() {
    assert_eq!(
        encode_message(&sample_position()),
        "{\"type\":\"GlobalPosition\",\"payload\":{\"lat\":473397000,\"lon\":85550000,\"alt\":500000,\"relative_alt\":100000,\"vx\":10,\"vy\":0,\"vz\":-5}}"
    );
}

#[test]
fn battery_encodes_to_expected_text() {
    let m = CloudRiderMessage::BatteryStatus(BatteryStatus {
        remaining_percent: -1,
        temperature_c: 2150,
        current_battery_ma: -300,
    });
    assert_eq!(
        encode_message(&m),
        "{\"type\":\"BatteryStatus\",\"payload\":{\"remaining_percent\":-1,\"temperature_c\":2150,\"current_battery_ma\":-300}}"
    );
}

#[test]
fn error_encodes_with_escapes() {
    let m = CloudRiderMessage::Error(String::from("bad \"frame\" \\ lost\n"));
    assert_eq!(
        encode_message(&m),
        "{\"type\":\"Error\",\"payload\":\"bad \\\"frame\\\" \\\\ lost\\u000a\"}"
    );
}

#[test]
fn round_trip_recovers_each_variant() {
    let messages = vec![
        CloudRiderMessage::Heartbeat(Heartbeat {
            timestamp: String::from("2024-05-01T12:00:00+00:00"),
        }),
        sample_position(),
        CloudRiderMessage::GlobalPosition(GlobalPosition {
            lat: -2147483648,
            lon: 2147483647,
            alt: 0,
            relative_alt: -1,
            vx: -32768,
            vy: 32767,
            vz: 0,
        }),
        CloudRiderMessage::BatteryStatus(BatteryStatus {
            remaining_percent: -128,
            temperature_c: -32768,
            current_battery_ma: 32767,
        }),
        CloudRiderMessage::Error(String::from("with \"quotes\", back\\slash, tab\t and null\u{0}")),
        CloudRiderMessage::Error(String::new()),
    ];
    for m in messages {
        let text = encode_message(&m);
        assert_eq!(decode_message(&text), Some(m));
    }
}

#[test]
fn decoder_rejects_malformed_frames() {
    // wrong tag
    assert_eq!(decode_message("{\"type\":\"Position\",\"payload\":{}}"), None);
    // trailing garbage
    assert_eq!(
        decode_message("{\"type\":\"Heartbeat\",\"payload\":{\"timestamp\":\"t\"}} "),
        None
    );
    // truncated
    assert_eq!(decode_message("{\"type\":\"Heartbeat\",\"payload\":{\"timestamp\":\"t"), None);
    // field out of the wire type's range
    assert_eq!(
        decode_message(
            "{\"type\":\"BatteryStatus\",\"payload\":{\"remaining_percent\":200,\"temperature_c\":0,\"current_battery_ma\":0}}"
        ),
        None
    );
    // a magnitude far past any field range
    assert_eq!(
        decode_message(
            "{\"type\":\"GlobalPosition\",\"payload\":{\"lat\":99999999999999999999,\"lon\":0,\"alt\":0,\"relative_alt\":0,\"vx\":0,\"vy\":0,\"vz\":0}}"
        ),
        None
    );
    // negative zero is not canonical
    assert_eq!(
        decode_message(
            "{\"type\":\"GlobalPosition\",\"payload\":{\"lat\":-0,\"lon\":0,\"alt\":0,\"relative_alt\":0,\"vx\":0,\"vy\":0,\"vz\":0}}"
        ),
        None
    );
    // empty input
    assert_eq!(decode_message(""), None);
}

#[test]
fn encoded_frames_are_valid_json() {
    let m = sample_position();
    let value: serde_json::Value = serde_json::from_str(&encode_message(&m)).unwrap();
    assert_eq!(value["type"], serde_json::Value::String(String::from("GlobalPosition")));
    assert_eq!(value["payload"]["lat"], serde_json::Value::from(473397000i64));
    assert_eq!(value["payload"]["vz"], serde_json::Value::from(-5i64));

    let e = CloudRiderMessage::Error(String::from("bad \"frame\"\n"));
    let value: serde_json::Value = serde_json::from_str(&encode_message(&e)).unwrap();
    assert_eq!(value["type"], serde_json::Value::String(String::from("Error")));
    assert_eq!(
        value["payload"],
        serde_json::Value::String(String::from("bad \"frame\"\n"))
    );
}

#[test]
fn round_trip_keeps_non_ascii_text() {
    let m = CloudRiderMessage::Error(String::from("h\u{e9}llo \u{2603} \u{1f680}"));
    let text = encode_message(&m);
    assert_eq!(decode_message(&text), Some(m));
}

#[test]
fn decoder_accepts_only_canonical_escapes() {
    // lowercase \u000a is the canonical control escape and decodes
    assert_eq!(
        decode_message("{\"type\":\"Error\",\"payload\":\"a\\u000ab\"}"),
        Some(CloudRiderMessage::Error(String::from("a\nb")))
    );
    // uppercase hex is not canonical
    assert_eq!(
        decode_message("{\"type\":\"Error\",\"payload\":\"a\\u000Ab\"}"),
        None
    );
    // a raw control character inside a string is not canonical
    assert_eq!(
        decode_message("{\"type\":\"Error\",\"payload\":\"a\nb\"}"),
        None
    );
    // a \u escape above the control range is not canonical
    assert_eq!(
        decode_message("{\"type\":\"Error\",\"payload\":\"a\\u0041b\"}"),
        None
    );
}
