//! Record-layout catalog and payload decoding.
//!
//! Static, read-only configuration: which peripherals exist, which
//! notification sources each one advertises, how the bytes of every source
//! are laid out as fields, and which reading kind each field produces.  A
//! *static* layout is a fixed field list read unconditionally; a *dynamic*
//! layout is a self-describing stream of `(field id, payload)` entries
//! terminated by the all-ones sentinel id or by the end of the frame.
//!
//! Scale and offset constants are carried as IEEE 754 single-precision bit
//! patterns (`f32::to_bits` form); the decimal reading stands beside each.

use vstd::prelude::*;
use crate::codec::Field;
use crate::codec::FieldKind;
use crate::codec::bits_value;
use crate::codec::decode_bits;
use crate::reading::Sensor;
use crate::reading::SensorValue;
use vstd::arithmetic::power2::lemma2_to64;

verus! {

/// Field id that terminates a dynamic frame: the all-ones byte.
pub const SENTINEL_ID: u8 = 0xFF;

/// Byte length read for every dynamic-layout notification frame.
pub const DYNAMIC_FRAME_BYTES: usize = 3;

/// A malformed dynamic frame.
#[derive(Clone, Copy, PartialEq, Eq, Structural, Debug)]
pub enum DecodeError {
    /// An entry named a field id outside the source's field table.
    UnknownFieldId(u8),
    /// An entry's payload runs past the end of the frame.
    TruncatedEntry,
}

/// One notification source: its characteristic, its field layout and the
/// reading kind each field produces.
pub struct Info {
    pub uuid: &'static str,
    pub fields: Vec<Field>,
    pub sensorval: Vec<Sensor>,
}

/// The reading produced by one decoded field.
pub open spec fn spec_reading_of(field: Field, kind: Sensor, raw: nat) -> SensorValue {
    match field.kind {
        FieldKind::Numeric { .. } => SensorValue::Numeric(kind, raw as u32),
        FieldKind::Flag => SensorValue::Flag(kind, raw == 1),
    }
}

impl Info {
    /// Bytes covering the last static field, rounded up to a whole byte.
    pub open spec fn spec_byte_len(self) -> int {
        (self.fields@.last().spec_end() + 7) / 8
    }

    /// Every field has a reading kind, and the fields fit the frame that
    /// `spec_byte_len` sizes.
    pub open spec fn static_wf(self) -> bool {
        &&& self.fields@.len() == self.sensorval@.len()
        &&& self.fields@.len() > 0
        &&& self.fields@.last().spec_end() < 0x1000_0000
        &&& forall|i: int| 0 <= i < self.fields@.len() ==> (#[trigger] self.fields@[i]).wf()
        &&& forall|i: int|
            0 <= i < self.fields@.len() ==> (#[trigger] self.fields@[i]).spec_end()
                <= self.spec_byte_len() * 8
        &&& forall|i: int, j: int|
            0 <= i < self.fields@.len() && 0 <= j < self.fields@.len() && i != j ==> ((
            #[trigger] self.fields@[i]).spec_end() <= (#[trigger] self.fields@[j]).offset
                || self.fields@[j].spec_end() <= self.fields@[i].offset)
    }

    /// Every field has a reading kind and a usable width; configured
    /// offsets are ignored, a dynamic entry's payload sits right after its
    /// id tag.
    pub open spec fn dynamic_wf(self) -> bool {
        &&& self.fields@.len() == self.sensorval@.len()
        &&& self.fields@.len() <= 254
        &&& forall|i: int| 0 <= i < self.fields@.len() ==> (#[trigger] self.fields@[i]).wf()
    }
}

/// Readings of a static frame: field `i` decoded at its configured offset,
/// tagged with kind `i`.
pub open spec fn spec_static_readings(bytes: Seq<u8>, fields: Seq<Field>, kinds: Seq<Sensor>) -> Seq<
    SensorValue,
> {
    Seq::new(fields.len(), |i: int| spec_reading_of(fields[i], kinds[i], bits_value(bytes, fields[i].offset as int, fields[i].length as nat)))
}

/// Decodes a static frame: every configured field in order.
pub fn process_static(info: &Info, buffer: &[u8]) -> (r: Vec<SensorValue>)
    requires
        info.static_wf(),
        info.spec_byte_len() * 8 <= buffer@.len() * 8,
        buffer@.len() * 8 <= u32::MAX,
    ensures
        r@ == spec_static_readings(buffer@, info.fields@, info.sensorval@),
{
    let mut out: Vec<SensorValue> = Vec::new();
    let n = info.fields.len();
    let mut i: usize = 0;
    while i < n
        invariant
            info.static_wf(),
            info.spec_byte_len() * 8 <= buffer@.len() * 8,
            buffer@.len() * 8 <= u32::MAX,
            n == info.fields@.len(),
            i <= n,
            out@.len() == i,
            forall|k: int|
                0 <= k < i ==> out@[k] == spec_static_readings(
                    buffer@,
                    info.fields@,
                    info.sensorval@,
                )[k],
        decreases n - i,
    {
        let field = info.fields[i];
        let kind = info.sensorval[i];
        let raw = decode_bits(buffer, field.offset, field.length);
        let value = match field.kind {
            FieldKind::Numeric { .. } => SensorValue::Numeric(kind, raw),
            FieldKind::Flag => SensorValue::Flag(kind, raw == 1),
        };
        out.push(value);
        i = i + 1;
    }
    proof {
        assert(out@ =~= spec_static_readings(buffer@, info.fields@, info.sensorval@));
    }
    out
}

/// Readings of a dynamic frame from bit `cursor` on.  An entry is an 8-bit
/// field id followed immediately by that field's payload; the frame ends at
/// the sentinel id, or cleanly at a tail too short to hold another id.  An
/// id outside the table or a payload past the end of the frame is a
/// malformed frame.
pub open spec fn spec_dynamic_readings(
    bytes: Seq<u8>,
    fields: Seq<Field>,
    kinds: Seq<Sensor>,
    cursor: int,
) -> Result<Seq<SensorValue>, DecodeError>
    decreases bytes.len() * 8 - cursor,
    when 0 <= cursor && forall|i: int| 0 <= i < fields.len() ==> (#[trigger] fields[i]).wf()
{
    if cursor + 8 > bytes.len() * 8 {
        Ok(Seq::empty())
    } else {
        let id = bits_value(bytes, cursor, 8);
        if id == SENTINEL_ID {
            Ok(Seq::empty())
        } else if id >= fields.len() {
            Err(DecodeError::UnknownFieldId(id as u8))
        } else {
            let field = fields[id as int];
            if cursor + 8 + field.length > bytes.len() * 8 {
                Err(DecodeError::TruncatedEntry)
            } else {
                let payload = bits_value(bytes, cursor + 8, field.length as nat);
                match spec_dynamic_readings(bytes, fields, kinds, cursor + 8 + field.length) {
                    Ok(rest) => Ok(
                        seq![spec_reading_of(field, kinds[id as int], payload)] + rest,
                    ),
                    Err(e) => Err(e),
                }
            }
        }
    }
}

/// Decodes a dynamic frame from bit 0: entries in order until the sentinel
/// id or the end of the frame; a malformed entry fails the whole frame.
pub fn process_dynamic(info: &Info, buffer: &[u8]) -> (r: Result<Vec<SensorValue>, DecodeError>)
    requires
        info.dynamic_wf(),
        buffer@.len() < 0x1000_0000,
    ensures
        ({
            let model = spec_dynamic_readings(buffer@, info.fields@, info.sensorval@, 0);
            match r {
                Ok(v) => model == Ok::<Seq<SensorValue>, DecodeError>(v@),
                Err(e) => model == Err::<Seq<SensorValue>, DecodeError>(e),
            }
        }),
{
    let ghost fields = info.fields@;
    let ghost kinds = info.sensorval@;
    let bit_len = buffer.len() * 8;
    let mut out: Vec<SensorValue> = Vec::new();
    let mut cursor: usize = 0;
    loop
        invariant
            info.dynamic_wf(),
            fields == info.fields@,
            kinds == info.sensorval@,
            buffer@.len() < 0x1000_0000,
            bit_len == buffer@.len() * 8,
            cursor <= bit_len,
            ({
                let total = spec_dynamic_readings(buffer@, fields, kinds, 0);
                let tail = spec_dynamic_readings(buffer@, fields, kinds, cursor as int);
                match tail {
                    Ok(rest) => total == Ok::<Seq<SensorValue>, DecodeError>(out@ + rest),
                    Err(_) => total == tail,
                }
            }),
        ensures
            spec_dynamic_readings(buffer@, fields, kinds, 0) == Ok::<Seq<SensorValue>, DecodeError>(
                out@,
            ),
        decreases bit_len - cursor,
    {
        if cursor + 8 > bit_len {
            proof {
                let tail = spec_dynamic_readings(buffer@, fields, kinds, cursor as int);
                assert(tail == Ok::<Seq<SensorValue>, DecodeError>(Seq::empty()));
                assert(out@ + Seq::<SensorValue>::empty() =~= out@);
            }
            break;
        }
        let id = decode_bits(buffer, cursor, 8);
        proof {
            lemma2_to64();
        }
        if id == SENTINEL_ID as u32 {
            proof {
                let tail = spec_dynamic_readings(buffer@, fields, kinds, cursor as int);
                assert(tail == Ok::<Seq<SensorValue>, DecodeError>(Seq::empty()));
                assert(out@ + Seq::<SensorValue>::empty() =~= out@);
            }
            break;
        }
        if id >= info.fields.len() as u32 {
            return Err(DecodeError::UnknownFieldId(id as u8));
        }
        let field = info.fields[id as usize];
        let kind = info.sensorval[id as usize];
        if cursor + 8 + field.length > bit_len {
            return Err(DecodeError::TruncatedEntry);
        }
        let payload = decode_bits(buffer, cursor + 8, field.length);
        let value = match field.kind {
            FieldKind::Numeric { .. } => SensorValue::Numeric(kind, payload),
            FieldKind::Flag => SensorValue::Flag(kind, payload == 1),
        };
        let ghost c0 = cursor as int;
        let ghost out0 = out@;
        out.push(value);
        cursor = cursor + 8 + field.length;
        proof {
            let t0 = spec_dynamic_readings(buffer@, fields, kinds, c0);
            let t1 = spec_dynamic_readings(buffer@, fields, kinds, cursor as int);
            match t1 {
                Ok(rest) => {
                    assert(t0 == Ok::<Seq<SensorValue>, DecodeError>(seq![value] + rest));
                    assert(out@ + rest =~= out0 + (seq![value] + rest));
                },
                Err(_) => {
                    assert(t0 == t1);
                },
            }
        }
    }
    Ok(out)
}

/// A notification source together with how its frames are laid out.
pub enum UuidInfo {
    /// Fixed field list read unconditionally at configured offsets.
    Static(Info),
    /// Self-describing tag-plus-payload stream, sentinel-terminated.
    Dynamic(Info),
}

impl UuidInfo {
    /// The source's configuration is usable.
    pub open spec fn wf(self) -> bool {
        match self {
            UuidInfo::Static(info) => info.static_wf(),
            UuidInfo::Dynamic(info) => info.dynamic_wf(),
        }
    }

    /// Bytes to read for one notification of this source.
    pub open spec fn spec_byte_len(self) -> int {
        match self {
            UuidInfo::Static(info) => info.spec_byte_len(),
            UuidInfo::Dynamic(_) => DYNAMIC_FRAME_BYTES as int,
        }
    }

    /// The readings a frame of this source decodes to.
    pub open spec fn spec_process(self, bytes: Seq<u8>) -> Result<Seq<SensorValue>, DecodeError> {
        match self {
            UuidInfo::Static(info) => Ok(
                spec_static_readings(bytes, info.fields@, info.sensorval@),
            ),
            UuidInfo::Dynamic(info) => spec_dynamic_readings(bytes, info.fields@, info.sensorval@, 0),
        }
    }

    /// Characteristic UUID of this source.
    pub fn uuid(&self) -> (r: &str)
        ensures
            r@ == match self {
                UuidInfo::Static(info) => info.uuid@,
                UuidInfo::Dynamic(info) => info.uuid@,
            },
    {
        match self {
            UuidInfo::Static(info) => info.uuid,
            UuidInfo::Dynamic(info) => info.uuid,
        }
    }

    /// How many bytes one notification of this source carries: static
    /// layouts cover their last field, dynamic layouts use the fixed
    /// maximum frame size.
    pub fn byte_len(&self) -> (r: usize)
        requires
            self.wf(),
        ensures
            r == self.spec_byte_len(),
    {
        match self {
            UuidInfo::Static(info) => {
                let last = info.fields[info.fields.len() - 1];
                (last.offset + last.length + 7) / 8
            },
            UuidInfo::Dynamic(_) => DYNAMIC_FRAME_BYTES,
        }
    }

    /// Decodes one frame of this source into its readings.
    pub fn process(&self, buffer: &[u8]) -> (r: Result<Vec<SensorValue>, DecodeError>)
        requires
            self.wf(),
            self.spec_byte_len() <= buffer@.len(),
            buffer@.len() < 0x1000_0000,
        ensures
            ({
                let model = self.spec_process(buffer@);
                match r {
                    Ok(v) => model == Ok::<Seq<SensorValue>, DecodeError>(v@),
                    Err(e) => model == Err::<Seq<SensorValue>, DecodeError>(e),
                }
            }),
    {
        match self {
            UuidInfo::Static(info) => Ok(process_static(info, buffer)),
            UuidInfo::Dynamic(info) => process_dynamic(info, buffer),
        }
    }
}

/// One peripheral: its Bluetooth address and its notification sources.
pub struct DeviceInfo {
    pub adress: &'static str,
    pub values: Vec<UuidInfo>,
}

impl DeviceInfo {
    /// Every source of the peripheral is usable.
    pub open spec fn wf(self) -> bool {
        &&& self.values@.len() > 0
        &&& forall|i: int| 0 <= i < self.values@.len() ==> (#[trigger] self.values@[i]).wf()
    }
}

/// Two fields of the reliability test set: a 14-bit sine sample and a
/// 10-bit triangle sample.
pub fn reliability_test_fields() -> (r: Vec<Field>)
    ensures
        r@.len() == 2,
        r@[0] == (Field {
            offset: 0,
            length: 14,
            // scale 1.0, add -5000.0
            kind: FieldKind::Numeric { scale_bits: 0x3F80_0000, add_bits: 0xC59C_4000 },
        }),
        r@[1] == (Field {
            offset: 14,
            length: 10,
            // scale 0.05, add -10.0
            kind: FieldKind::Numeric { scale_bits: 0x3D4C_CCCD, add_bits: 0xC120_0000 },
        }),
{
    let mut fields: Vec<Field> = Vec::new();
    fields.push(
        Field {
            offset: 0,
            length: 14,
            kind: FieldKind::Numeric { scale_bits: 0x3F80_0000, add_bits: 0xC59C_4000 },
        },
    );
    fields.push(
        Field {
            offset: 14,
            length: 10,
            kind: FieldKind::Numeric { scale_bits: 0x3D4C_CCCD, add_bits: 0xC120_0000 },
        },
    );
    fields
}

/// The configured peripherals: the two reliability-test beacons and the
/// bathroom climate sensor with its movement-sensor side channel.
pub fn sensors() -> (r: Vec<DeviceInfo>)
    ensures
        r@.len() == 3,
        forall|i: int| 0 <= i < r@.len() ==> (#[trigger] r@[i]).wf(),
        r@[0].adress@ == "0A:0A:0A:0A:0A:0A"@,
        r@[1].adress@ == "EC:71:25:75:9F:DD"@,
        r@[2].adress@ == "E2:62:7F:7C:AD:86"@,
        r@[0].values@.len() == 1,
        r@[1].values@.len() == 1,
        r@[2].values@.len() == 2,
        r@[0].values@[0] is Static,
        r@[1].values@[0] is Static,
        r@[2].values@[0] is Static,
        r@[2].values@[1] is Dynamic,
{
    let mut devices: Vec<DeviceInfo> = Vec::new();

    // Reliability-test beacon.
    let fields = reliability_test_fields();
    let mut kinds: Vec<Sensor> = Vec::new();
    kinds.push(Sensor::TestSine);
    kinds.push(Sensor::TestTriangle);
    let info = Info { uuid: "93700001-1bb7-1599-985b-f5e7dc991483", fields, sensorval: kinds };
    proof {
        assert(info.static_wf());
    }
    let mut values: Vec<UuidInfo> = Vec::new();
    values.push(UuidInfo::Static(info));
    devices.push(DeviceInfo { adress: "0A:0A:0A:0A:0A:0A", values });

    // Second reliability-test beacon.
    let fields = reliability_test_fields();
    let mut kinds: Vec<Sensor> = Vec::new();
    kinds.push(Sensor::TestSine2);
    kinds.push(Sensor::TestTriangle2);
    let info = Info { uuid: "93700001-1bb7-1599-985b-f5e7dc991483", fields, sensorval: kinds };
    proof {
        assert(info.static_wf());
    }
    let mut values: Vec<UuidInfo> = Vec::new();
    values.push(UuidInfo::Static(info));
    devices.push(DeviceInfo { adress: "EC:71:25:75:9F:DD", values });

    // Bathroom sensor: temperature and humidity, plus movement reports on
    // a dynamic side channel.
    let mut fields: Vec<Field> = Vec::new();
    fields.push(
        Field {
            offset: 0,
            length: 10,
            // scale 0.1, add -20.0
            kind: FieldKind::Numeric { scale_bits: 0x3DCC_CCCD, add_bits: 0xC1A0_0000 },
        },
    );
    fields.push(
        Field {
            offset: 10,
            length: 10,
            // scale 0.1, add 0.0
            kind: FieldKind::Numeric { scale_bits: 0x3DCC_CCCD, add_bits: 0x0000_0000 },
        },
    );
    let mut kinds: Vec<Sensor> = Vec::new();
    kinds.push(Sensor::BathroomTemp);
    kinds.push(Sensor::BathroomHum);
    let climate = Info { uuid: "93700001-1bb7-1599-985b-f5e7dc991483", fields, sensorval: kinds };
    proof {
        assert(climate.static_wf());
    }

    let mut fields: Vec<Field> = Vec::new();
    fields.push(Field { offset: 0, length: 1, kind: FieldKind::Flag });
    fields.push(Field { offset: 1, length: 1, kind: FieldKind::Flag });
    let mut kinds: Vec<Sensor> = Vec::new();
    kinds.push(Sensor::MovementShower);
    kinds.push(Sensor::MovementToilet);
    let movement = Info { uuid: "93700002-1bb7-1599-985b-f5e7dc991483", fields, sensorval: kinds };
    proof {
        assert(movement.dynamic_wf());
    }

    let mut values: Vec<UuidInfo> = Vec::new();
    values.push(UuidInfo::Static(climate));
    values.push(UuidInfo::Dynamic(movement));
    devices.push(DeviceInfo { adress: "E2:62:7F:7C:AD:86", values });

    devices
}

} // verus!

