use sensor_central::buttons::{button_from_offset, debounced_press, edge_step, press_from,
    LineState, DEBOUNCE_NANOS};
use sensor_central::mux::NotifyStreams;
use sensor_central::reading::{Button, Press, Sensor, SensorValue};

fn table_with_three_devices() -> NotifyStreams {
    let mut streams = NotifyStreams::new();
    streams.add(0, &vec![10], &vec![3]);
    streams.add(1, &vec![11, 12], &vec![3, 3]);
    streams.add(2, &vec![13], &vec![2]);
    streams
}

#[test]
fn add_appends_one_entry_per_source_in_order() {
    let streams = table_with_three_devices();
    assert_eq!(streams.len(), 4);
    let handles: Vec<i32> = (0..streams.len()).map(|i| streams.get(i).handle).collect();
    assert_eq!(handles, vec![10, 11, 12, 13]);
    assert_eq!(streams.get(1).device, 1);
    assert_eq!(streams.get(1).source, 0);
    assert_eq!(streams.get(2).device, 1);
    assert_eq!(streams.get(2).source, 1);
    assert_eq!(streams.get(3).byte_len, 2);
}

#[test]
fn removing_a_middle_group_leaves_the_others_aligned() {
    let mut streams = table_with_three_devices();
    streams.remove(1);
    assert_eq!(streams.len(), 2);
    let first = streams.get(0);
    assert_eq!((first.handle, first.device, first.source, first.byte_len), (10, 0, 0, 3));
    let second = streams.get(1);
    assert_eq!((second.handle, second.device, second.source, second.byte_len), (13, 2, 0, 2));
}

#[test]
fn removing_an_absent_device_changes_nothing() {
    let mut streams = table_with_three_devices();
    streams.remove(9);
    assert_eq!(streams.len(), 4);
    assert_eq!(streams.get(0).handle, 10);
    assert_eq!(streams.get(3).handle, 13);
}

#[test]
fn kind_keys_depend_on_the_tag_alone() {
    let a = SensorValue::Numeric(Sensor::Temperature, 1);
    let b = SensorValue::Numeric(Sensor::Temperature, 999);
    assert_eq!(a.to_key(), b.to_key());
    let c = SensorValue::Flag(Sensor::Temperature, true);
    assert_eq!(a.to_key(), c.to_key());

    let short = SensorValue::ButtonPress(Press { button: Button::DeskTop, duration: 1 });
    let long = SensorValue::ButtonPress(Press { button: Button::DeskTop, duration: 9999 });
    assert_eq!(short.to_key(), long.to_key());
}

#[test]
fn kind_keys_of_distinct_kinds_differ() {
    let sensors = [
        Sensor::Temperature,
        Sensor::Humidity,
        Sensor::Pressure,
        Sensor::TestSine,
        Sensor::TestTriangle,
        Sensor::TestSine2,
        Sensor::TestTriangle2,
        Sensor::BathroomTemp,
        Sensor::BathroomHum,
        Sensor::MovementShower,
        Sensor::MovementToilet,
    ];
    let buttons = [
        Button::LampLeft,
        Button::LampMid,
        Button::LampRight,
        Button::DeskLeftMost,
        Button::DeskLeft,
        Button::DeskRight,
        Button::DeskRightMost,
        Button::DeskTop,
        Button::DeskMid,
        Button::DeskBottom,
    ];
    let mut keys: Vec<u64> = sensors
        .iter()
        .map(|s| SensorValue::Numeric(*s, 0).to_key())
        .chain(buttons.iter().map(|b| {
            SensorValue::ButtonPress(Press { button: *b, duration: 0 }).to_key()
        }))
        .collect();
    let n = keys.len();
    keys.sort();
    keys.dedup();
    assert_eq!(keys.len(), n, "two kinds share a key");
}

#[test]
fn offsets_map_to_their_buttons() {
    assert_eq!(button_from_offset(16), Some(Button::LampLeft));
    assert_eq!(button_from_offset(27), Some(Button::DeskTop));
    assert_eq!(button_from_offset(17), Some(Button::DeskRightMost));
    assert_eq!(button_from_offset(5), None);
    let press = press_from(22, 70_000_000).unwrap();
    assert_eq!(press.button, Button::DeskMid);
    assert_eq!(press.duration, 70_000_000u64 as u16);
    assert_eq!(press_from(5, 1000), None);
}

#[test]
fn edges_pair_up_into_held_durations() {
    let mut line = LineState::start();
    assert_eq!(edge_step(&mut line, 1, 1_000), None);
    assert!(line.high);
    // A repeated high level is not a new edge.
    assert_eq!(edge_step(&mut line, 1, 2_000), None);
    assert_eq!(edge_step(&mut line, 0, 51_000), Some(50_000));
    assert!(!line.high);
    // A repeated low level reports nothing either.
    assert_eq!(edge_step(&mut line, 0, 60_000), None);
}

#[test]
fn bounces_are_debounced_and_real_presses_pass() {
    assert_eq!(debounced_press(22, DEBOUNCE_NANOS), None);
    assert_eq!(debounced_press(22, 5_000_000), None);
    let press = debounced_press(22, DEBOUNCE_NANOS + 1).unwrap();
    assert_eq!(press.button, Button::DeskMid);
    assert_eq!(debounced_press(5, 1_000_000_000), None);
}
