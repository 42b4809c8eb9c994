use barrier_gate::protocol::{
    format_sensor_report, parse_sensor_data, parse_u64_bytes, push_decimal, trim_bytes,
    SensorState,
};

#[test]
fn parses_sensor_reports() {
    assert_eq!(parse_sensor_data(b"Sensor 2: Occupied"), Some((2, SensorState::Occupied)));
    assert_eq!(
        parse_sensor_data(b"  Sensor 4 :  Not Occupied\n"),
        Some((4, SensorState::NotOccupied))
    );
    assert_eq!(parse_sensor_data(b"Sensor +3:Occupied"), Some((3, SensorState::Occupied)));
}

#[test]
fn malformed_reports_give_nothing() {
    assert_eq!(parse_sensor_data(b"Sensor x: Occupied"), None);
    assert_eq!(parse_sensor_data(b"garbage"), None);
    assert_eq!(parse_sensor_data(b""), None);
    assert_eq!(parse_sensor_data(b"Sensor 1: Free"), None);
    assert_eq!(parse_sensor_data(b"Sensor : Occupied"), None);
    assert_eq!(parse_sensor_data(b"Sensor  1: Occupied"), None);
    assert_eq!(parse_sensor_data(b"Sensor1: Occupied"), None);
    assert_eq!(parse_sensor_data(b"Sensor -1: Occupied"), None);
    assert_eq!(parse_sensor_data(b"Sensor 1: Occupied: x"), None);
    assert_eq!(parse_sensor_data(b"Sensor 18446744073709551616: Occupied"), None);
}

#[test]
fn largest_channel_number() {
    assert_eq!(
        parse_sensor_data(b"Sensor 18446744073709551615: Occupied"),
        Some((u64::MAX, SensorState::Occupied))
    );
}

#[test]
fn number_parsing() {
    assert_eq!(parse_u64_bytes(b"0"), Some(0));
    assert_eq!(parse_u64_bytes(b"+42"), Some(42));
    assert_eq!(parse_u64_bytes(b"007"), Some(7));
    assert_eq!(parse_u64_bytes(b"+"), None);
    assert_eq!(parse_u64_bytes(b""), None);
    assert_eq!(parse_u64_bytes(b"1 2"), None);
    assert_eq!(parse_u64_bytes(b"99999999999999999999"), None);
}

#[test]
fn trimming() {
    assert_eq!(trim_bytes(b" \t\r\n\x0b\x0cab c \n"), b"ab c".to_vec());
    assert_eq!(trim_bytes(b"   "), Vec::<u8>::new());
}

#[test]
fn formats_reports() {
    assert_eq!(format_sensor_report(1, SensorState::Occupied), b"Sensor 1: Occupied".to_vec());
    assert_eq!(
        format_sensor_report(12, SensorState::NotOccupied),
        b"Sensor 12: Not Occupied".to_vec()
    );
    let mut out = Vec::new();
    push_decimal(&mut out, 0);
    push_decimal(&mut out, u64::MAX);
    assert_eq!(out, b"018446744073709551615".to_vec());
}

#[test]
fn formatted_reports_parse_back() {
    for &n in [0u64, 1, 4, 10, 987654321, u64::MAX].iter() {
        for &st in [SensorState::Occupied, SensorState::NotOccupied].iter() {
            assert_eq!(parse_sensor_data(&format_sensor_report(n, st)), Some((n, st)));
        }
    }
}
