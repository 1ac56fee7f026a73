//! Bit-level field codec.
//!
//! A notification payload is a byte buffer read as a stream of bits in
//! ascending order: stream bit `i` lives in byte `i / 8` at significance
//! `i % 8` (least significant bit first, little-endian across bytes).
//! `decode_bits` reads a contiguous bit range as an unsigned integer, least
//! significant bit first; `encode_bits` is its inverse and leaves every bit
//! outside the range untouched.

use vstd::prelude::*;
use vstd::arithmetic::power2::pow2;
use vstd::arithmetic::power2::lemma_pow2_unfold;
use vstd::arithmetic::power2::lemma_pow2_pos;
use vstd::arithmetic::power2::lemma2_to64;
use vstd::arithmetic::power2::lemma_pow2_strictly_increases;
use vstd::arithmetic::div_mod::lemma_div_denominator;
use vstd::arithmetic::div_mod::lemma_fundamental_div_mod;
use vstd::bits::lemma_u8_shr_is_div;
use vstd::arithmetic::mul::lemma_mul_is_associative;

verus! {

/// Truth value of stream bit `i` of a byte buffer: bit `i % 8` (counted from
/// the least significant end) of byte `i / 8`.
pub open spec fn bit_at(bytes: Seq<u8>, i: int) -> bool
    recommends
        0 <= i < bytes.len() * 8,
{
    (bytes[i / 8] as nat / pow2((i % 8) as nat)) % 2 == 1
}

/// Unsigned value of the `len` stream bits starting at `off`, least
/// significant bit first.
pub open spec fn bits_value(bytes: Seq<u8>, off: int, len: nat) -> nat
    decreases len,
{
    if len == 0 {
        0
    } else {
        (if bit_at(bytes, off) {
            1nat
        } else {
            0nat
        }) + 2 * bits_value(bytes, off + 1, (len - 1) as nat)
    }
}

/// Bit `j` of the unsigned value `v`, least significant bit first.
pub open spec fn value_bit(v: nat, j: nat) -> bool {
    (v / pow2(j)) % 2 == 1
}

/// The value of a bit range is bounded by the width of the range.
pub proof fn lemma_bits_value_bound(bytes: Seq<u8>, off: int, len: nat)
    ensures
        bits_value(bytes, off, len) < pow2(len),
    decreases len,
{
    if len == 0 {
        lemma2_to64();
    } else {
        lemma_bits_value_bound(bytes, off + 1, (len - 1) as nat);
        lemma_pow2_unfold(len);
    }
}

/// Extending a bit range by one bit adds that bit at the top place value.
pub proof fn lemma_bits_value_split_last(bytes: Seq<u8>, off: int, len: nat)
    requires
        len > 0,
    ensures
        bits_value(bytes, off, len) == bits_value(bytes, off, (len - 1) as nat) + pow2(
            (len - 1) as nat,
        ) * (if bit_at(bytes, off + len - 1) {
            1nat
        } else {
            0nat
        }),
    decreases len,
{
    if len == 1 {
        lemma2_to64();
        assert(bits_value(bytes, off + 1, 0) == 0);
        assert(bits_value(bytes, off, 0) == 0);
    } else {
        let b: nat = if bit_at(bytes, off + len - 1) {
            1nat
        } else {
            0nat
        };
        let head: nat = if bit_at(bytes, off) {
            1nat
        } else {
            0nat
        };
        let rest = bits_value(bytes, off + 1, (len - 1) as nat);
        let rest_short = bits_value(bytes, off + 1, (len - 2) as nat);
        lemma_bits_value_split_last(bytes, off + 1, (len - 1) as nat);
        assert(rest == rest_short + pow2((len - 2) as nat) * b);
        assert(bits_value(bytes, off, len) == head + 2 * rest);
        assert(bits_value(bytes, off, (len - 1) as nat) == head + 2 * rest_short);
        lemma_pow2_unfold((len - 1) as nat);
        lemma_mul_is_associative(2, pow2((len - 2) as nat) as int, b as int);
        assert(2 * (pow2((len - 2) as nat) * b) == pow2((len - 1) as nat) * b);
    }
}

/// Bits of a quotient by two are the bits of the original value shifted down.
proof fn lemma_value_bit_half(v: nat, j: nat)
    ensures
        value_bit(v, j + 1) == value_bit(v / 2, j),
{
    lemma_pow2_unfold(j + 1);
    lemma_pow2_pos(j);
    lemma_div_denominator(v as int, 2, pow2(j) as int);
}

/// A bit range whose bits agree with the bits of a value `v < pow2(len)`
/// stores exactly `v`.
pub proof fn lemma_bits_value_eq(bytes: Seq<u8>, off: int, len: nat, v: nat)
    requires
        v < pow2(len),
        forall|i: int|
            off <= i < off + len ==> #[trigger] bit_at(bytes, i) == value_bit(v, (i - off) as nat),
    ensures
        bits_value(bytes, off, len) == v,
    decreases len,
{
    if len == 0 {
        lemma2_to64();
    } else {
        let half = v / 2;
        assert(half < pow2((len - 1) as nat)) by {
            lemma_pow2_unfold(len);
        }
        assert forall|i: int| off + 1 <= i < off + 1 + (len - 1) implies #[trigger] bit_at(
            bytes,
            i,
        ) == value_bit(half, (i - (off + 1)) as nat) by {
            lemma_value_bit_half(v, (i - off - 1) as nat);
        }
        lemma_bits_value_eq(bytes, off + 1, (len - 1) as nat, half);
        assert(value_bit(v, 0) == (v % 2 == 1)) by {
            lemma2_to64();
        }
        assert(bit_at(bytes, off) == (v % 2 == 1));
        lemma_fundamental_div_mod(v as int, 2);
    }
}

/// Two buffers that agree on every bit of a range store the same value there.
pub proof fn lemma_bits_value_congruent(b1: Seq<u8>, b2: Seq<u8>, off: int, len: nat)
    requires
        forall|i: int| off <= i < off + len ==> #[trigger] bit_at(b1, i) == bit_at(b2, i),
    ensures
        bits_value(b1, off, len) == bits_value(b2, off, len),
    decreases len,
{
    if len > 0 {
        lemma_bits_value_congruent(b1, b2, off + 1, (len - 1) as nat);
    }
}

/// The tested bit of a byte, extracted by shift and mask, matches `bit_at`.
proof fn lemma_u8_bit(byte: u8, sh: u8)
    requires
        sh < 8,
    ensures
        ((byte >> sh) & 1) == 1 <==> (byte as nat / pow2(sh as nat)) % 2 == 1,
        ((byte >> sh) & 1) == 1 || ((byte >> sh) & 1) == 0,
{
    lemma_u8_shr_is_div(byte, sh);
    let q = byte >> sh;
    assert((q & 1) == q % 2) by (bit_vector);
}

/// A power of two with exponent at most 32 is at most 2^32.
proof fn lemma_pow2_le_u32_span(e: nat)
    requires
        e <= 32,
    ensures
        pow2(e) <= 0x1_0000_0000,
{
    lemma2_to64();
    if e < 32 {
        lemma_pow2_strictly_increases(e, 32);
    }
}

/// A power of two with exponent at most 31 fits in a `u32`.
proof fn lemma_pow2_fits_u32(e: nat)
    requires
        e <= 31,
    ensures
        pow2(e) <= 0x8000_0000,
{
    lemma2_to64();
    if e < 31 {
        lemma_pow2_strictly_increases(e, 31);
    }
}

/// Reads the `length`-bit unsigned value stored at stream offset `offset`.
pub fn decode_bits(buffer: &[u8], offset: usize, length: usize) -> (r: u32)
    requires
        1 <= length <= 32,
        offset + length <= buffer@.len() * 8,
        buffer@.len() * 8 <= u32::MAX,
    ensures
        r == bits_value(buffer@, offset as int, length as nat),
        r < pow2(length as nat),
{
    let mut result: u32 = 0;
    let mut place: u32 = 1;
    let mut j: usize = 0;
    proof {
        lemma2_to64();
    }
    while j < length
        invariant
            1 <= length <= 32,
            offset + length <= buffer@.len() * 8,
            buffer@.len() * 8 <= u32::MAX,
            j <= length,
            result == bits_value(buffer@, offset as int, j as nat),
            result < pow2(j as nat),
            j < length ==> place == pow2(j as nat),
        decreases length - j,
    {
        let i = offset + j;
        let byte = buffer[i / 8];
        let sh: u8 = (i % 8) as u8;
        let bit: u8 = (byte >> sh) & 1;
        proof {
            lemma_u8_bit(byte, sh);
            assert(bit == 1 <==> bit_at(buffer@, i as int));
            lemma_bits_value_split_last(buffer@, offset as int, (j + 1) as nat);
            lemma_bits_value_bound(buffer@, offset as int, (j + 1) as nat);
            lemma_pow2_unfold((j + 1) as nat);
            lemma_pow2_le_u32_span((j + 1) as nat);
        }
        if bit == 1 {
            result = result + place;
        }
        j = j + 1;
        if j < length {
            proof {
                lemma_pow2_unfold(j as nat);
                lemma_pow2_fits_u32(j as nat);
            }
            place = place * 2;
        }
    }
    proof {
        lemma_bits_value_bound(buffer@, offset as int, length as nat);
    }
    result
}

/// Effect of writing one bit of a byte: the chosen bit is set or cleared and
/// every other bit of the byte keeps its value.
proof fn lemma_u8_write_bit(byte: u8, sh: u8, on: bool, t: u8)
    requires
        sh < 8,
        t < 8,
    ensures
        ({
            let written = if on {
                byte | (1u8 << sh)
            } else {
                byte & !(1u8 << sh)
            };
            &&& t == sh ==> (((written >> t) & 1) == 1) == on
            &&& t != sh ==> ((written >> t) & 1) == ((byte >> t) & 1)
        }),
{
    assert(sh < 8 && t < 8 && t == sh ==> (((byte | (1u8 << sh)) >> t) & 1) == 1) by (bit_vector);
    assert(sh < 8 && t < 8 && t == sh ==> (((byte & !(1u8 << sh)) >> t) & 1) == 0) by (bit_vector);
    assert(sh < 8 && t < 8 && t != sh ==> (((byte | (1u8 << sh)) >> t) & 1) == ((byte >> t) & 1))
        by (bit_vector);
    assert(sh < 8 && t < 8 && t != sh ==> (((byte & !(1u8 << sh)) >> t) & 1) == ((byte >> t) & 1))
        by (bit_vector);
}

/// `bit_at` of position `i` only looks at byte `i / 8`.
proof fn lemma_bit_at_byte(b1: Seq<u8>, b2: Seq<u8>, i: int)
    requires
        0 <= i,
        i / 8 < b1.len(),
        b1.len() == b2.len(),
        b1[i / 8] == b2[i / 8],
    ensures
        bit_at(b1, i) == bit_at(b2, i),
{
}

/// Writes `raw` into the `length` stream bits at `offset`, leaving every
/// other bit of the buffer unchanged.
pub fn encode_bits(buffer: &mut Vec<u8>, offset: usize, length: usize, raw: u32)
    requires
        1 <= length <= 32,
        offset + length <= old(buffer)@.len() * 8,
        old(buffer)@.len() * 8 <= u32::MAX,
        raw < pow2(length as nat),
    ensures
        final(buffer)@.len() == old(buffer)@.len(),
        bits_value(final(buffer)@, offset as int, length as nat) == raw,
        forall|i: int|
            0 <= i < old(buffer)@.len() * 8 && !(offset <= i < offset + length)
                ==> #[trigger] bit_at(final(buffer)@, i) == bit_at(old(buffer)@, i),
{
    let ghost orig = buffer@;
    let mut remaining: u32 = raw;
    let mut j: usize = 0;
    proof {
        lemma2_to64();
    }
    while j < length
        invariant
            1 <= length <= 32,
            offset + length <= orig.len() * 8,
            orig.len() * 8 <= u32::MAX,
            j <= length,
            buffer@.len() == orig.len(),
            remaining == raw as nat / pow2(j as nat),
            forall|i: int|
                offset <= i < offset + j ==> #[trigger] bit_at(buffer@, i) == value_bit(
                    raw as nat,
                    (i - offset) as nat,
                ),
            forall|i: int|
                0 <= i < orig.len() * 8 && !(offset <= i < offset + j) ==> #[trigger] bit_at(
                    buffer@,
                    i,
                ) == bit_at(orig, i),
        decreases length - j,
    {
        let ghost pre = buffer@;
        let i = offset + j;
        let idx = i / 8;
        let sh: u8 = (i % 8) as u8;
        let byte = buffer[idx];
        let on = remaining % 2 == 1;
        let written = if on {
            byte | (1u8 << sh)
        } else {
            byte & !(1u8 << sh)
        };
        buffer.set(idx, written);
        proof {
            assert(buffer@ == pre.update(idx as int, written));
            // Every position other than the one written keeps its bit.
            assert forall|p: int| 0 <= p < orig.len() * 8 && p != i implies #[trigger] bit_at(
                buffer@,
                p,
            ) == bit_at(pre, p) by {
                if p / 8 == idx {
                    let t = (p % 8) as u8;
                    assert(p == p / 8 * 8 + p % 8) by {
                        lemma_fundamental_div_mod(p, 8);
                    }
                    assert(i == i as int / 8 * 8 + i as int % 8) by {
                        lemma_fundamental_div_mod(i as int, 8);
                    }
                    lemma_u8_write_bit(byte, sh, on, t);
                    lemma_u8_bit(byte, t);
                    lemma_u8_bit(written, t);
                } else {
                    lemma_bit_at_byte(buffer@, pre, p);
                }
            }
            // The written position now holds bit j of raw.
            assert(bit_at(buffer@, i as int) == on) by {
                lemma_u8_write_bit(byte, sh, on, sh);
                lemma_u8_bit(written, sh);
            }
            // remaining keeps pace with the bits of raw.
            assert((remaining / 2) as nat == raw as nat / pow2((j + 1) as nat)) by {
                lemma_pow2_unfold((j + 1) as nat);
                lemma_pow2_pos(j as nat);
                lemma_div_denominator(raw as int, pow2(j as nat) as int, 2);
            }
        }
        remaining = remaining / 2;
        j = j + 1;
    }
    proof {
        lemma_bits_value_eq(buffer@, offset as int, length as nat, raw as nat);
    }
}

/// A bit-packed value descriptor: a bit range inside a notification payload
/// together with the decode rule for the raw integer stored there.
///
/// Numeric fields carry the IEEE 754 single-precision bit patterns of their
/// scale and offset; the reading is `raw * scale + add` in engineering
/// units.  That arithmetic happens outside this crate: here the two numbers
/// ride along as plain bits so that a catalog entry is complete.
#[derive(Clone, Copy, PartialEq, Eq, Structural, Debug)]
pub enum FieldKind {
    /// `length`-bit unsigned integer scaled into a reading.
    Numeric { scale_bits: u32, add_bits: u32 },
    /// Single bit read as a truth value.
    Flag,
}

/// A field: `length` bits at stream offset `offset`, decoded per `kind`.
#[derive(Clone, Copy, PartialEq, Eq, Structural, Debug)]
pub struct Field {
    pub offset: usize,
    pub length: usize,
    pub kind: FieldKind,
}

/// The raw content of one decoded field, before any scaling.
#[derive(Clone, Copy, PartialEq, Eq, Structural, Debug)]
pub enum RawValue {
    Numeric(u32),
    Flag(bool),
}

impl Field {
    /// A usable field is 1 to 32 bits wide, and a flag field is one bit.
    pub open spec fn wf(self) -> bool {
        &&& 1 <= self.length <= 32
        &&& self.kind is Flag ==> self.length == 1
    }

    /// First stream bit past the field.
    pub open spec fn spec_end(self) -> int {
        self.offset + self.length
    }

    /// The raw unsigned integer stored in this field of `bytes`.
    pub open spec fn raw_of(self, bytes: Seq<u8>) -> nat {
        bits_value(bytes, self.offset as int, self.length as nat)
    }

    /// The decoded content of this field of `bytes`.
    pub open spec fn value_of(self, bytes: Seq<u8>) -> RawValue {
        match self.kind {
            FieldKind::Numeric { .. } => RawValue::Numeric(self.raw_of(bytes) as u32),
            FieldKind::Flag => RawValue::Flag(self.raw_of(bytes) == 1),
        }
    }
}

/// Decodes one field from a notification payload.
pub fn decode_field(buffer: &[u8], field: &Field) -> (r: RawValue)
    requires
        field.wf(),
        field.spec_end() <= buffer@.len() * 8,
        buffer@.len() * 8 <= u32::MAX,
    ensures
        r == field.value_of(buffer@),
{
    let raw = decode_bits(buffer, field.offset, field.length);
    match field.kind {
        FieldKind::Numeric { .. } => RawValue::Numeric(raw),
        FieldKind::Flag => RawValue::Flag(raw == 1),
    }
}

/// Encodes a raw field value into a record buffer, leaving all other bits
/// unchanged.
pub fn encode_field(buffer: &mut Vec<u8>, field: &Field, raw: u32)
    requires
        field.wf(),
        field.spec_end() <= old(buffer)@.len() * 8,
        old(buffer)@.len() * 8 <= u32::MAX,
        raw < pow2(field.length as nat),
    ensures
        final(buffer)@.len() == old(buffer)@.len(),
        field.raw_of(final(buffer)@) == raw,
        forall|i: int|
            0 <= i < old(buffer)@.len() * 8 && !(field.offset <= i < field.spec_end())
                ==> #[trigger] bit_at(final(buffer)@, i) == bit_at(old(buffer)@, i),
{
    encode_bits(buffer, field.offset, field.length, raw);
}

/// Largest raw value a `length`-bit field can hold.
pub open spec fn max_raw(length: nat) -> nat {
    (pow2(length) - 1) as nat
}

/// Truncates an oversized raw value to the largest one that fits the field,
/// as the encode step does for out-of-range readings.
pub fn clamp_to_width(value: u64, length: usize) -> (r: u32)
    requires
        1 <= length <= 32,
    ensures
        r == if value <= max_raw(length as nat) {
            value as nat
        } else {
            max_raw(length as nat)
        },
        r < pow2(length as nat),
{
    proof {
        lemma2_to64();
    }
    let max: u32 = if length == 32 {
        u32::MAX
    } else {
        proof {
            lemma_pow2_fits_u32(length as nat);
            vstd::bits::lemma_u32_shl_is_mul(1u32, length as u32);
        }
        (1u32 << (length as u32)) - 1
    };
    if value > max as u64 {
        max
    } else {
        value as u32
    }
}

/// Splitting a bit range in two: the range's value is the first part plus
/// the second part shifted up by the first part's width.
pub proof fn lemma_bits_value_concat(bytes: Seq<u8>, off: int, l1: nat, l2: nat)
    ensures
        bits_value(bytes, off, l1 + l2) == bits_value(bytes, off, l1) + pow2(l1) * bits_value(
            bytes,
            off + l1,
            l2,
        ),
    decreases l1,
{
    if l1 == 0 {
        lemma2_to64();
    } else {
        lemma_bits_value_concat(bytes, off + 1, (l1 - 1) as nat, l2);
        lemma_pow2_unfold(l1);
        lemma_mul_is_associative(
            2,
            pow2((l1 - 1) as nat) as int,
            bits_value(bytes, off + l1, l2) as int,
        );
    }
}

} // verus!

