use sensor_central::dataserver::{datasets, Dataserver, Line};
use sensor_central::reading::{Button, Press, Sensor, SensorValue};

const KEY: u64 = 0x0123_4567_89AB_CDEF;

/// The desk climate set: record id 3, the installation key, then raws
/// 1234 (13 bits), 5678 (14 bits), 99999 (19 bits) packed contiguously.
const EXPECTED_BLOB: [u8; 16] = [
    3, 0, 239, 205, 171, 137, 103, 69, 35, 1, 210, 196, 197, 250, 52, 12,
];

#[test]
fn three_slot_line_emits_only_on_the_third_fill() {
    let mut server = Dataserver::new(KEY, datasets());
    assert!(server.handle(&SensorValue::Numeric(Sensor::Temperature, 1234)).is_none());
    assert!(server.handle(&SensorValue::Numeric(Sensor::Humidity, 5678)).is_none());
    let blob = server
        .handle(&SensorValue::Numeric(Sensor::Pressure, 99999))
        .expect("third slot completes the line");
    assert_eq!(blob, EXPECTED_BLOB.to_vec());
}

#[test]
fn slots_clear_after_a_flush_and_the_cycle_repeats() {
    let mut server = Dataserver::new(KEY, datasets());
    for _ in 0..2 {
        assert!(server.handle(&SensorValue::Numeric(Sensor::Temperature, 1234)).is_none());
        assert!(server.handle(&SensorValue::Numeric(Sensor::Humidity, 5678)).is_none());
        let blob = server.handle(&SensorValue::Numeric(Sensor::Pressure, 99999)).unwrap();
        assert_eq!(blob, EXPECTED_BLOB.to_vec());
    }
}

#[test]
fn refilling_a_slot_before_completion_keeps_the_latest_value() {
    let mut server = Dataserver::new(KEY, datasets());
    assert!(server.handle(&SensorValue::Numeric(Sensor::Temperature, 1)).is_none());
    assert!(server.handle(&SensorValue::Numeric(Sensor::Temperature, 1234)).is_none());
    assert!(server.handle(&SensorValue::Numeric(Sensor::Humidity, 5678)).is_none());
    let blob = server.handle(&SensorValue::Numeric(Sensor::Pressure, 99999)).unwrap();
    assert_eq!(blob, EXPECTED_BLOB.to_vec());
}

#[test]
fn unrouted_readings_change_nothing() {
    let mut server = Dataserver::new(KEY, datasets());
    let press = SensorValue::ButtonPress(Press { button: Button::DeskMid, duration: 100 });
    assert!(server.handle(&press).is_none());
    // A kind no data set lists is silently ignored by this destination.
    assert!(server.handle(&SensorValue::Flag(Sensor::MovementShower, true)).is_none());
    // The climate line still needs all three of its own readings.
    assert!(server.handle(&SensorValue::Numeric(Sensor::Temperature, 1234)).is_none());
    assert!(server.handle(&SensorValue::Numeric(Sensor::Humidity, 5678)).is_none());
    assert!(server.handle(&SensorValue::Numeric(Sensor::Pressure, 99999)).is_some());
}

#[test]
fn oversized_raw_values_are_truncated_to_the_field_width() {
    let mut server = Dataserver::new(KEY, datasets());
    // 13-bit temperature slot: anything past 8191 stores as 8191.
    server.handle(&SensorValue::Numeric(Sensor::Temperature, 100_000));
    server.handle(&SensorValue::Numeric(Sensor::Humidity, 0));
    let blob = server.handle(&SensorValue::Numeric(Sensor::Pressure, 0)).unwrap();
    // Temperature bits 80..93 all set, everything after zero.
    assert_eq!(blob[10], 0xFF);
    assert_eq!(blob[11], 0x1F);
    assert_eq!(&blob[12..], &[0, 0, 0, 0]);
}

#[test]
fn each_set_feeds_its_own_line() {
    let mut server = Dataserver::new(KEY, datasets());
    assert!(server.handle(&SensorValue::Numeric(Sensor::TestSine, 10)).is_none());
    let blob = server.handle(&SensorValue::Numeric(Sensor::TestTriangle, 20)).unwrap();
    // Set id 4, then the key, then 10 in 14 bits and 20 in 10 bits.
    assert_eq!(&blob[0..2], &[4, 0]);
    assert_eq!(&blob[2..10], &KEY.to_le_bytes());
    assert_eq!(blob.len(), 13);
    assert_eq!(&blob[10..], &[10, 0, 5]);
}

#[test]
fn lines_start_empty_and_report_completion_exactly() {
    let sets = datasets();
    let fields = sets[2].fields.clone();
    let mut line = Line::new(3, KEY, fields);
    assert!(!line.is_complete());
    line.values[0] = Some(1);
    line.values[1] = Some(2);
    assert!(!line.is_complete());
    line.values[2] = Some(3);
    assert!(line.is_complete());
    let blob = line.encode();
    assert_eq!(blob.len(), 16);
    assert!(line.values.iter().all(|v| v.is_none()));
}
