//! Sensor readings and their kind keys.
//!
//! A reading is one measurement with a kind tag and a payload.  Numeric
//! payloads are carried as the raw quantized field value (the unsigned
//! integer the codec reads or writes); turning that into engineering units
//! is a scale-and-offset step that happens outside this crate.  A *kind
//! key* names the slot a reading feeds in a downstream record; it depends
//! on the tag alone, never on the payload.

use vstd::prelude::*;

verus! {

/// Kind tag of a non-button measurement.
#[derive(Clone, Copy, PartialEq, Eq, Structural, Debug)]
pub enum Sensor {
    Temperature,
    Humidity,
    Pressure,
    TestSine,
    TestTriangle,
    TestSine2,
    TestTriangle2,
    BathroomTemp,
    BathroomHum,
    MovementShower,
    MovementToilet,
}

/// A physical button of the installation.
#[derive(Clone, Copy, PartialEq, Eq, Structural, Debug)]
pub enum Button {
    LampLeft,
    LampMid,
    LampRight,
    DeskLeftMost,
    DeskLeft,
    DeskRight,
    DeskRightMost,
    DeskTop,
    DeskMid,
    DeskBottom,
}

/// One button press: which button, and for how long it was held.
#[derive(Clone, Copy, PartialEq, Eq, Structural, Debug)]
pub struct Press {
    pub button: Button,
    /// Held duration; the wire format stores it truncated to 16 bits.
    pub duration: u16,
}

/// One sensor measurement: a kind tag with its payload.
#[derive(Clone, Copy, PartialEq, Eq, Structural, Debug)]
pub enum SensorValue {
    /// A named button was pressed.
    ButtonPress(Press),
    /// A numeric measurement, as the raw quantized field value.
    Numeric(Sensor, u32),
    /// A boolean measurement.
    Flag(Sensor, bool),
}

/// The identity a kind key captures: the tag of a reading without its
/// payload.  For button presses the button is part of the tag, the held
/// duration is the payload.
#[derive(Clone, Copy, PartialEq, Eq, Structural, Debug)]
pub enum SensorKind {
    Button(Button),
    Sensor(Sensor),
}

/// Distinct small number of each `Sensor` variant.
pub open spec fn spec_sensor_ord(s: Sensor) -> u64 {
    match s {
        Sensor::Temperature => 0,
        Sensor::Humidity => 1,
        Sensor::Pressure => 2,
        Sensor::TestSine => 3,
        Sensor::TestTriangle => 4,
        Sensor::TestSine2 => 5,
        Sensor::TestTriangle2 => 6,
        Sensor::BathroomTemp => 7,
        Sensor::BathroomHum => 8,
        Sensor::MovementShower => 9,
        Sensor::MovementToilet => 10,
    }
}

/// Distinct small number of each `Button` variant.
pub open spec fn spec_button_ord(b: Button) -> u64 {
    match b {
        Button::LampLeft => 0,
        Button::LampMid => 1,
        Button::LampRight => 2,
        Button::DeskLeftMost => 3,
        Button::DeskLeft => 4,
        Button::DeskRight => 5,
        Button::DeskRightMost => 6,
        Button::DeskTop => 7,
        Button::DeskMid => 8,
        Button::DeskBottom => 9,
    }
}

/// Kind tag of a reading, payload discarded.
pub open spec fn spec_kind(v: SensorValue) -> SensorKind {
    match v {
        SensorValue::ButtonPress(p) => SensorKind::Button(p.button),
        SensorValue::Numeric(s, _) => SensorKind::Sensor(s),
        SensorValue::Flag(s, _) => SensorKind::Sensor(s),
    }
}

/// The kind key of a reading: sensors take the low key range, buttons a
/// disjoint higher one.
pub open spec fn spec_to_key(v: SensorValue) -> u64 {
    match spec_kind(v) {
        SensorKind::Sensor(s) => spec_sensor_ord(s),
        SensorKind::Button(b) => (32 + spec_button_ord(b)) as u64,
    }
}

impl Sensor {
    /// Exec twin of `spec_sensor_ord`.
    pub fn ord(&self) -> (r: u64)
        ensures
            r == spec_sensor_ord(*self),
    {
        match self {
            Sensor::Temperature => 0,
            Sensor::Humidity => 1,
            Sensor::Pressure => 2,
            Sensor::TestSine => 3,
            Sensor::TestTriangle => 4,
            Sensor::TestSine2 => 5,
            Sensor::TestTriangle2 => 6,
            Sensor::BathroomTemp => 7,
            Sensor::BathroomHum => 8,
            Sensor::MovementShower => 9,
            Sensor::MovementToilet => 10,
        }
    }
}

impl Button {
    /// Exec twin of `spec_button_ord`.
    pub fn ord(&self) -> (r: u64)
        ensures
            r == spec_button_ord(*self),
    {
        match self {
            Button::LampLeft => 0,
            Button::LampMid => 1,
            Button::LampRight => 2,
            Button::DeskLeftMost => 3,
            Button::DeskLeft => 4,
            Button::DeskRight => 5,
            Button::DeskRightMost => 6,
            Button::DeskTop => 7,
            Button::DeskMid => 8,
            Button::DeskBottom => 9,
        }
    }
}

impl SensorValue {
    /// Kind key of this reading: every reading with the same tag gets the
    /// same key regardless of its payload.
    pub fn to_key(&self) -> (r: u64)
        ensures
            r == spec_to_key(*self),
    {
        match self {
            SensorValue::ButtonPress(p) => 32 + p.button.ord(),
            SensorValue::Numeric(s, _) => s.ord(),
            SensorValue::Flag(s, _) => s.ord(),
        }
    }
}

/// Law: kind keys identify kinds.  Two readings carry the same key exactly
/// when their tags agree, whatever their payloads; in particular the kind
/// keys of the distinct kinds inside one record are pairwise distinct.
pub proof fn lemma_key_identifies_kind(a: SensorValue, b: SensorValue)
    ensures
        spec_to_key(a) == spec_to_key(b) <==> spec_kind(a) == spec_kind(b),
{
}

} // verus!
