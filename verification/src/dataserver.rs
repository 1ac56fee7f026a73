//! Aggregation and dispatch of readings into fixed binary records.
//!
//! Each configured data set owns a long-lived `Line`: one optional slot per
//! field.  Readings are routed to their slot by kind key; the moment the
//! last empty slot fills, the line serializes to a length-fixed blob —
//! record id as 16 little-endian bits, installation key as 64, then the
//! packed field bits — and every slot clears, ready for the next cycle.
//! An incomplete line emits nothing, however long it waits.  Delivering
//! the blob over HTTP happens outside.

use vstd::prelude::*;
use vstd::arithmetic::power2::pow2;
use vstd::arithmetic::power2::lemma2_to64;
use crate::codec::Field;
use crate::codec::bits_value;
use crate::codec::encode_bits;
use crate::codec::clamp_to_width;
use crate::codec::max_raw;
use crate::codec::lemma_bits_value_concat;
use crate::codec::lemma_bits_value_congruent;
use crate::reading::Sensor;
use crate::reading::SensorValue;
use crate::reading::spec_to_key;
use crate::catalog::reliability_test_fields;

verus! {

/// A usable record layout for one line: at least one field, every field
/// usable, all fields inside the payload that covers the last one, and no
/// two fields overlapping.
pub open spec fn line_fields_wf(fields: Seq<Field>) -> bool {
    &&& fields.len() > 0
    &&& fields.last().spec_end() < 0x1000_0000
    &&& forall|i: int| 0 <= i < fields.len() ==> (#[trigger] fields[i]).wf()
    &&& forall|i: int|
        0 <= i < fields.len() ==> (#[trigger] fields[i]).spec_end() <= spec_payload_bytes(fields)
            * 8
    &&& forall|i: int, j: int|
        0 <= i < fields.len() && 0 <= j < fields.len() && i != j ==> ((#[trigger] fields[i]).spec_end()
            <= (#[trigger] fields[j]).offset || fields[j].spec_end() <= fields[i].offset)
}

/// Payload bytes of a line: the last field's end rounded up to whole bytes.
pub open spec fn spec_payload_bytes(fields: Seq<Field>) -> int {
    (fields.last().spec_end() + 7) / 8
}

/// The raw value a slot holds, zero while the slot is empty.
pub open spec fn spec_slot_raw(values: Seq<Option<u32>>, i: int) -> nat {
    match values[i] {
        Some(v) => v as nat,
        None => 0,
    }
}

/// Every slot of the line holds a value.
pub open spec fn spec_line_complete(values: Seq<Option<u32>>) -> bool {
    forall|i: int| 0 <= i < values.len() ==> (#[trigger] values[i]) is Some
}

/// The dataserver wire format: 16 bits of record id, 64 bits of
/// installation key, then each field's bits at its configured offset
/// within the payload that starts at byte 10.
pub open spec fn spec_encoded_line(
    id: u16,
    key: u64,
    fields: Seq<Field>,
    values: Seq<Option<u32>>,
    blob: Seq<u8>,
) -> bool {
    &&& blob.len() == 10 + spec_payload_bytes(fields)
    &&& bits_value(blob, 0, 16) == id
    &&& bits_value(blob, 16, 64) == key
    &&& forall|i: int|
        0 <= i < fields.len() ==> bits_value(
            blob,
            80 + (#[trigger] fields[i]).offset,
            fields[i].length as nat,
        ) == spec_slot_raw(values, i)
}

/// One aggregation record in progress.
pub struct Line {
    pub id: u16,
    pub key: u64,
    pub values: Vec<Option<u32>>,
    pub fields: Vec<Field>,
}

impl Line {
    /// One slot per field, and every filled slot fits its field.
    pub open spec fn wf(self) -> bool {
        &&& line_fields_wf(self.fields@)
        &&& self.values@.len() == self.fields@.len()
        &&& forall|i: int|
            0 <= i < self.values@.len() ==> ((#[trigger] self.values@[i]) matches Some(v) ==> v
                < pow2(self.fields@[i].length as nat))
    }

    /// A fresh line for one data set: every slot empty.
    pub fn new(id: u16, key: u64, fields: Vec<Field>) -> (r: Line)
        requires
            line_fields_wf(fields@),
        ensures
            r.id == id,
            r.key == key,
            r.fields@ == fields@,
            r.values@.len() == fields@.len(),
            forall|i: int| 0 <= i < r.values@.len() ==> (#[trigger] r.values@[i]) is None,
            r.wf(),
    {
        let mut values: Vec<Option<u32>> = Vec::new();
        let n = fields.len();
        let mut i: usize = 0;
        while i < n
            invariant
                i <= n,
                values@.len() == i,
                forall|k: int| 0 <= k < i ==> (#[trigger] values@[k]) is None,
            decreases n - i,
        {
            values.push(None);
            i = i + 1;
        }
        Line { id, key, values, fields }
    }

    /// Whether every slot holds a value.
    pub fn is_complete(&self) -> (r: bool)
        ensures
            r == spec_line_complete(self.values@),
    {
        let n = self.values.len();
        let mut i: usize = 0;
        while i < n
            invariant
                n == self.values@.len(),
                i <= n,
                forall|k: int| 0 <= k < i ==> (#[trigger] self.values@[k]) is Some,
            decreases n - i,
        {
            if self.values[i].is_none() {
                return false;
            }
            i = i + 1;
        }
        true
    }

    /// Serializes the complete line to its wire blob and clears every slot.
    pub fn encode(&mut self) -> (r: Vec<u8>)
        requires
            old(self).wf(),
            spec_line_complete(old(self).values@),
        ensures
            final(self).id == old(self).id,
            final(self).key == old(self).key,
            final(self).fields@ == old(self).fields@,
            final(self).values@.len() == old(self).values@.len(),
            forall|i: int|
                0 <= i < final(self).values@.len() ==> (#[trigger] final(self).values@[i]) is None,
            final(self).wf(),
            spec_encoded_line(old(self).id, old(self).key, old(self).fields@, old(self).values@, r@),
    {
        let ghost fields = self.fields@;
        let ghost values0 = self.values@;
        let last = self.fields[self.fields.len() - 1];
        let payload_bytes = (last.offset + last.length + 7) / 8;
        let total = 10 + payload_bytes;

        let mut blob: Vec<u8> = Vec::new();
        let mut k: usize = 0;
        while k < total
            invariant
                k <= total,
                blob@.len() == k,
            decreases total - k,
        {
            blob.push(0);
            k = k + 1;
        }
        proof {
            lemma2_to64();
        }

        // Header: record id, then the installation key as two 32-bit halves.
        encode_bits(&mut blob, 0, 16, self.id as u32);
        let low: u32 = #[verifier::truncate] (self.key as u32);
        let high: u32 = (self.key >> 32u64) as u32;
        proof {
            let key = self.key;
            assert((key >> 32u64) <= 0xFFFF_FFFFu64) by (bit_vector);
            assert(((#[verifier::truncate] (key as u32)) as u64) + 0x1_0000_0000u64 * (((key
                >> 32u64) as u32) as u64) == key) by (bit_vector);
        }
        let ghost blob1 = blob@;
        encode_bits(&mut blob, 16, 32, low);
        proof {
            lemma_bits_value_congruent(blob@, blob1, 0, 16);
        }
        let ghost blob2 = blob@;
        encode_bits(&mut blob, 48, 32, high);
        proof {
            lemma_bits_value_congruent(blob@, blob2, 0, 16);
            lemma_bits_value_congruent(blob@, blob2, 16, 32);
        }

        // Payload: every field's stored value at its configured offset.
        let n = self.fields.len();
        let mut i: usize = 0;
        while i < n
            invariant
                self.wf(),
                spec_line_complete(self.values@),
                fields == self.fields@,
                values0 == self.values@,
                n == fields.len(),
                i <= n,
                total == 10 + spec_payload_bytes(fields),
                blob@.len() == total,
                blob@.len() * 8 <= u32::MAX,
                bits_value(blob@, 0, 16) == self.id,
                bits_value(blob@, 16, 32) == low,
                bits_value(blob@, 48, 32) == high,
                forall|j: int|
                    0 <= j < i ==> bits_value(
                        blob@,
                        80 + (#[trigger] fields[j]).offset,
                        fields[j].length as nat,
                    ) == spec_slot_raw(values0, j),
            decreases n - i,
        {
            let field = self.fields[i];
            let value = match self.values[i] {
                Some(v) => v,
                None => 0,
            };
            let ghost pre = blob@;
            encode_bits(&mut blob, 80 + field.offset, field.length, value);
            proof {
                lemma_bits_value_congruent(blob@, pre, 0, 16);
                lemma_bits_value_congruent(blob@, pre, 16, 32);
                lemma_bits_value_congruent(blob@, pre, 48, 32);
                assert forall|j: int| 0 <= j < i implies bits_value(
                    blob@,
                    80 + (#[trigger] fields[j]).offset,
                    fields[j].length as nat,
                ) == spec_slot_raw(values0, j) by {
                    lemma_bits_value_congruent(
                        blob@,
                        pre,
                        80 + fields[j].offset,
                        fields[j].length as nat,
                    );
                }
            }
            i = i + 1;
        }

        // Clear every slot for the next cycle.
        let mut i: usize = 0;
        while i < n
            invariant
                n == self.values@.len(),
                i <= n,
                self.id == old(self).id,
                self.key == old(self).key,
                self.fields@ == fields,
                forall|k2: int| 0 <= k2 < i ==> (#[trigger] self.values@[k2]) is None,
            decreases n - i,
        {
            self.values.set(i, None);
            i = i + 1;
        }

        proof {
            lemma_bits_value_concat(blob@, 16, 32, 32);
            lemma2_to64();
        }
        blob
    }
}

/// One configured data set: its record id, field layout, and the reading
/// kind feeding each slot (given as a template reading; only its tag
/// matters).
pub struct DataSet {
    pub set_id: u16,
    pub fields: Vec<Field>,
    pub from: Vec<SensorValue>,
}

impl DataSet {
    /// A usable set: one template per field, a usable layout, and pairwise
    /// distinct kind keys so no two slots alias.
    pub open spec fn wf(self) -> bool {
        &&& line_fields_wf(self.fields@)
        &&& self.from@.len() == self.fields@.len()
        &&& forall|i: int, j: int|
            0 <= i < self.from@.len() && 0 <= j < self.from@.len() && i != j ==> spec_to_key(
                #[trigger] self.from@[i],
            ) != spec_to_key(#[trigger] self.from@[j])
    }
}

/// The configured data sets: the two reliability-test sets and the desk
/// climate set.
pub fn datasets() -> (r: Vec<DataSet>)
    ensures
        r@.len() == 3,
        forall|i: int| 0 <= i < r@.len() ==> (#[trigger] r@[i]).wf(),
        r@[0].set_id == 5 && r@[0].fields@.len() == 2,
        r@[1].set_id == 4 && r@[1].fields@.len() == 2,
        r@[2].set_id == 3 && r@[2].fields@.len() == 3,
{
    let mut sets: Vec<DataSet> = Vec::new();

    let fields = reliability_test_fields();
    let mut from: Vec<SensorValue> = Vec::new();
    from.push(SensorValue::Numeric(Sensor::TestSine2, 0));
    from.push(SensorValue::Numeric(Sensor::TestTriangle2, 0));
    let set = DataSet { set_id: 5, fields, from };
    proof {
        assert(set.wf());
    }
    sets.push(set);

    let fields = reliability_test_fields();
    let mut from: Vec<SensorValue> = Vec::new();
    from.push(SensorValue::Numeric(Sensor::TestSine, 0));
    from.push(SensorValue::Numeric(Sensor::TestTriangle, 0));
    let set = DataSet { set_id: 4, fields, from };
    proof {
        assert(set.wf());
    }
    sets.push(set);

    // Desk climate sensors.
    let mut fields: Vec<Field> = Vec::new();
    fields.push(
        Field {
            offset: 0,
            length: 13,
            // scale 0.01, add -20.0
            kind: crate::codec::FieldKind::Numeric { scale_bits: 0x3C23_D70A, add_bits: 0xC1A0_0000 },
        },
    );
    fields.push(
        Field {
            offset: 13,
            length: 14,
            // scale 0.008, add 0.0
            kind: crate::codec::FieldKind::Numeric { scale_bits: 0x3C03_126F, add_bits: 0x0000_0000 },
        },
    );
    fields.push(
        Field {
            offset: 27,
            length: 19,
            // scale 0.18, add 30000.0
            kind: crate::codec::FieldKind::Numeric { scale_bits: 0x3E38_51EC, add_bits: 0x46EA_6000 },
        },
    );
    let mut from: Vec<SensorValue> = Vec::new();
    from.push(SensorValue::Numeric(Sensor::Temperature, 0));
    from.push(SensorValue::Numeric(Sensor::Humidity, 0));
    from.push(SensorValue::Numeric(Sensor::Pressure, 0));
    let set = DataSet { set_id: 3, fields, from };
    proof {
        assert(set.wf());
    }
    sets.push(set);

    sets
}

/// The raw value a reading contributes to a record slot.  Button presses
/// feed no dataserver record.
pub open spec fn spec_slot_value(v: SensorValue) -> Option<u32> {
    match v {
        SensorValue::ButtonPress(_) => None,
        SensorValue::Numeric(_, raw) => Some(raw),
        SensorValue::Flag(_, b) => Some(
            if b {
                1
            } else {
                0
            },
        ),
    }
}

/// Exec twin of `spec_slot_value`.
pub fn slot_value(v: &SensorValue) -> (r: Option<u32>)
    ensures
        r == spec_slot_value(*v),
{
    match v {
        SensorValue::ButtonPress(_) => None,
        SensorValue::Numeric(_, raw) => Some(*raw),
        SensorValue::Flag(_, b) => Some(
            if *b {
                1
            } else {
                0
            },
        ),
    }
}

/// First routing entry with the given kind key, scanning from position `i`.
pub open spec fn spec_lookup_from(
    entries: Seq<(u64, usize, usize)>,
    key: u64,
    i: int,
) -> Option<(usize, usize)>
    decreases entries.len() - i,
    when 0 <= i <= entries.len()
{
    if i >= entries.len() {
        None
    } else if entries[i].0 == key {
        Some((entries[i].1, entries[i].2))
    } else {
        spec_lookup_from(entries, key, i + 1)
    }
}

/// The routing table a set list defines: for each set in order, one entry
/// per slot mapping its kind key to (line index, slot index).
pub open spec fn spec_set_entries(li: int, set: DataSet) -> Seq<(u64, usize, usize)> {
    Seq::new(set.from@.len(), |j: int| (spec_to_key(set.from@[j]), li as usize, j as usize))
}

/// Routing entries of the first `n` sets.
pub open spec fn spec_routing(sets: Seq<DataSet>, n: int) -> Seq<(u64, usize, usize)>
    decreases n,
    when 0 <= n <= sets.len()
{
    if n == 0 {
        Seq::empty()
    } else {
        spec_routing(sets, n - 1) + spec_set_entries(n - 1, sets[n - 1])
    }
}

/// The aggregator: one line per data set and the static reverse index from
/// kind key to slot.
pub struct Dataserver {
    pub key: u64,
    pub lines: Vec<Line>,
    pub to_line: Vec<(u64, usize, usize)>,
}

impl Dataserver {
    /// Every routing entry points at a real slot, and every line is usable.
    pub open spec fn wf(self) -> bool {
        &&& forall|k: int| 0 <= k < self.lines@.len() ==> (#[trigger] self.lines@[k]).wf()
        &&& forall|k: int|
            0 <= k < self.to_line@.len() ==> (#[trigger] self.to_line@[k]).1 < self.lines@.len()
                && self.to_line@[k].2 < self.lines@[self.to_line@[k].1 as int].values@.len()
    }

    /// Where a reading with this kind key is routed, if anywhere.
    pub open spec fn spec_lookup(self, key: u64) -> Option<(usize, usize)> {
        spec_lookup_from(self.to_line@, key, 0)
    }

    /// Builds the aggregator for the given data sets: one empty line per
    /// set, carrying the installation key, and the routing table mapping
    /// each set's kind keys to its slots.
    pub fn new(key: u64, sets: Vec<DataSet>) -> (r: Dataserver)
        requires
            forall|i: int| 0 <= i < sets@.len() ==> (#[trigger] sets@[i]).wf(),
        ensures
            r.key == key,
            r.lines@.len() == sets@.len(),
            forall|i: int|
                0 <= i < sets@.len() ==> {
                    let line = #[trigger] r.lines@[i];
                    &&& line.id == sets@[i].set_id
                    &&& line.key == key
                    &&& line.fields@ == sets@[i].fields@
                    &&& line.values@.len() == sets@[i].fields@.len()
                    &&& forall|j: int| 0 <= j < line.values@.len() ==> (#[trigger] line.values@[j]) is None
                },
            r.to_line@ == spec_routing(sets@, sets@.len() as int),
            r.wf(),
    {
        let n = sets.len();
        let mut lines: Vec<Line> = Vec::new();
        let mut to_line: Vec<(u64, usize, usize)> = Vec::new();
        let mut i: usize = 0;
        while i < n
            invariant
                n == sets@.len(),
                forall|k: int| 0 <= k < sets@.len() ==> (#[trigger] sets@[k]).wf(),
                i <= n,
                lines@.len() == i,
                forall|k: int|
                    0 <= k < i ==> {
                        let line = #[trigger] lines@[k];
                        &&& line.id == sets@[k].set_id
                        &&& line.key == key
                        &&& line.fields@ == sets@[k].fields@
                        &&& line.values@.len() == sets@[k].fields@.len()
                        &&& forall|j: int|
                            0 <= j < line.values@.len() ==> (#[trigger] line.values@[j]) is None
                        &&& line.wf()
                    },
                to_line@ == spec_routing(sets@, i as int),
                forall|k: int|
                    0 <= k < to_line@.len() ==> (#[trigger] to_line@[k]).1 < i && to_line@[k].2
                        < sets@[to_line@[k].1 as int].fields@.len(),
            decreases n - i,
        {
            let set = &sets[i];
            let fields = copy_fields(&set.fields);
            let line = Line::new(set.set_id, key, fields);
            lines.push(line);

            let m = set.from.len();
            let mut j: usize = 0;
            while j < m
                invariant
                    n == sets@.len(),
                    forall|k: int| 0 <= k < sets@.len() ==> (#[trigger] sets@[k]).wf(),
                    i < n,
                    m == sets@[i as int].from@.len(),
                    m == sets@[i as int].fields@.len(),
                    set == &sets[i as int],
                    j <= m,
                    to_line@ == spec_routing(sets@, i as int) + spec_set_entries(
                        i as int,
                        sets@[i as int],
                    ).subrange(0, j as int),
                    forall|k: int|
                        0 <= k < to_line@.len() ==> (#[trigger] to_line@[k]).1 <= i && to_line@[k].2
                            < sets@[to_line@[k].1 as int].fields@.len(),
                decreases m - j,
            {
                let entry_key = set.from[j].to_key();
                to_line.push((entry_key, i, j));
                proof {
                    assert(to_line@ =~= spec_routing(sets@, i as int) + spec_set_entries(
                        i as int,
                        sets@[i as int],
                    ).subrange(0, j + 1));
                }
                j = j + 1;
            }
            proof {
                assert(spec_set_entries(i as int, sets@[i as int]).subrange(0, m as int)
                    =~= spec_set_entries(i as int, sets@[i as int]));
                assert(to_line@ =~= spec_routing(sets@, i + 1));
            }
            i = i + 1;
        }
        let r = Dataserver { key, lines, to_line };
        r
    }

    /// First routing entry with this kind key.
    pub fn lookup(&self, key: u64) -> (r: Option<(usize, usize)>)
        ensures
            r == self.spec_lookup(key),
            r matches Some(e) ==> exists|k: int|
                0 <= k < self.to_line@.len() && self.to_line@[k] == (key, e.0, e.1),
    {
        let n = self.to_line.len();
        let mut pos: usize = 0;
        while pos < n
            invariant
                n == self.to_line@.len(),
                pos <= n,
                spec_lookup_from(self.to_line@, key, 0) == spec_lookup_from(
                    self.to_line@,
                    key,
                    pos as int,
                ),
            decreases n - pos,
        {
            let entry = self.to_line[pos];
            if entry.0 == key {
                proof {
                    assert(self.to_line@[pos as int] == (key, entry.1, entry.2));
                }
                return Some((entry.1, entry.2));
            }
            pos = pos + 1;
        }
        None
    }

    /// Routes one reading.  A reading whose kind key feeds no slot here, or
    /// that carries no record value, changes nothing.  Otherwise its raw
    /// value — truncated to the slot's field width — fills the slot; the
    /// moment the line has every slot full it serializes, clears, and the
    /// blob comes back for delivery.
    pub fn handle(&mut self, value: &SensorValue) -> (r: Option<Vec<u8>>)
        requires
            old(self).wf(),
        ensures
            final(self).wf(),
            final(self).key == old(self).key,
            final(self).to_line@ == old(self).to_line@,
            (old(self).spec_lookup(spec_to_key(*value)) is None || spec_slot_value(*value) is None)
                ==> final(self).lines@ == old(self).lines@ && r is None,
            old(self).spec_lookup(spec_to_key(*value)) matches Some((li, si))
                ==> spec_slot_value(*value) matches Some(raw) ==> {
                let line0 = old(self).lines@[li as int];
                let width = line0.fields@[si as int].length as nat;
                let stored: u32 = if raw <= max_raw(width) {
                    raw
                } else {
                    max_raw(width) as u32
                };
                let vals1 = line0.values@.update(si as int, Some(stored));
                let line1 = final(self).lines@[li as int];
                &&& final(self).lines@.len() == old(self).lines@.len()
                &&& forall|k: int|
                    0 <= k < old(self).lines@.len() && k != li ==> #[trigger] final(self).lines@[k]
                        == old(self).lines@[k]
                &&& line1.id == line0.id
                &&& line1.key == line0.key
                &&& line1.fields@ == line0.fields@
                &&& if spec_line_complete(vals1) {
                    &&& r matches Some(blob) && spec_encoded_line(
                        line0.id,
                        line0.key,
                        line0.fields@,
                        vals1,
                        blob@,
                    )
                    &&& forall|j: int|
                        0 <= j < line1.values@.len() ==> (#[trigger] line1.values@[j]) is None
                } else {
                    &&& r is None
                    &&& line1.values@ == vals1
                }
            },
    {
        let key = value.to_key();
        let raw = match slot_value(value) {
            Some(raw) => raw,
            None => {
                return None;
            },
        };
        let (li, si) = match self.lookup(key) {
            Some(slot) => slot,
            None => {
                return None;
            },
        };

        // Store the reading, truncated to the slot's field width.
        let ghost line0 = self.lines@[li as int];
        let width = self.lines[li].fields[si].length;
        let stored = clamp_to_width(raw as u64, width);
        let mut line = self.lines.remove(li);
        line.values.set(si, Some(stored));
        let complete = line.is_complete();
        let result = if complete {
            Some(line.encode())
        } else {
            None
        };
        self.lines.insert(li, line);
        proof {
            assert(self.lines@ =~= old(self).lines@.update(
                li as int,
                self.lines@[li as int],
            ));
        }
        result
    }
}

/// Element-for-element copy of a field list.
fn copy_fields(fields: &Vec<Field>) -> (r: Vec<Field>)
    ensures
        r@ == fields@,
{
    let mut out: Vec<Field> = Vec::new();
    let n = fields.len();
    let mut i: usize = 0;
    while i < n
        invariant
            n == fields@.len(),
            i <= n,
            out@ == fields@.subrange(0, i as int),
        decreases n - i,
    {
        out.push(fields[i]);
        proof {
            assert(out@ =~= fields@.subrange(0, i + 1));
        }
        i = i + 1;
    }
    proof {
        assert(fields@.subrange(0, n as int) =~= fields@);
    }
    out
}

} // verus!
