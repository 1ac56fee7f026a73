use sensor_central::codec::{clamp_to_width, decode_bits, encode_bits, decode_field, encode_field,
    Field, FieldKind, RawValue};

#[test]
fn decode_known_bits() {
    // 0b1011 stored least-significant-bit-first at offset 0.
    let buf = [0x0Bu8, 0x00];
    assert_eq!(decode_bits(&buf[..], 0, 4), 11);
    // The same bits read one position later halve the value.
    assert_eq!(decode_bits(&buf[..], 1, 4), 5);
}

#[test]
fn decode_crosses_byte_boundary() {
    // Bits 6..16: two high bits of byte 0, all of byte 1.
    let buf = [0b1100_0000u8, 0xA5];
    assert_eq!(decode_bits(&buf[..], 6, 10), 0xA5 * 4 + 3);
}

#[test]
fn encode_then_decode_is_identity() {
    let mut buf = vec![0u8; 4];
    encode_bits(&mut buf, 3, 14, 9999);
    assert_eq!(decode_bits(&buf[..], 3, 14), 9999);
}

#[test]
fn encode_leaves_other_bits_untouched() {
    let mut buf = vec![0xFFu8; 3];
    encode_bits(&mut buf, 8, 8, 0);
    assert_eq!(buf, vec![0xFF, 0x00, 0xFF]);
    let mut buf = vec![0x00u8, 0x00, 0x00];
    encode_bits(&mut buf, 4, 4, 0xF);
    assert_eq!(buf, vec![0xF0, 0x00, 0x00]);
}

#[test]
fn encode_full_width_value() {
    let mut buf = vec![0u8; 4];
    encode_bits(&mut buf, 0, 32, u32::MAX);
    assert_eq!(buf, vec![0xFF, 0xFF, 0xFF, 0xFF]);
    assert_eq!(decode_bits(&buf[..], 0, 32), u32::MAX);
}

#[test]
fn clamp_keeps_fitting_values_and_caps_large_ones() {
    assert_eq!(clamp_to_width(100, 14), 100);
    assert_eq!(clamp_to_width(16383, 14), 16383);
    assert_eq!(clamp_to_width(16384, 14), 16383);
    assert_eq!(clamp_to_width(u64::MAX, 32), u32::MAX);
    assert_eq!(clamp_to_width(1, 1), 1);
    assert_eq!(clamp_to_width(2, 1), 1);
}

#[test]
fn field_decode_numeric_and_flag() {
    let field = Field { offset: 2, length: 5, kind: FieldKind::Numeric { scale_bits: 0, add_bits: 0 } };
    let mut buf = vec![0u8; 2];
    encode_field(&mut buf, &field, 19);
    assert_eq!(decode_field(&buf[..], &field), RawValue::Numeric(19));

    let flag = Field { offset: 9, length: 1, kind: FieldKind::Flag };
    let mut buf = vec![0u8; 2];
    encode_field(&mut buf, &flag, 1);
    assert_eq!(decode_field(&buf[..], &flag), RawValue::Flag(true));
    encode_field(&mut buf, &flag, 0);
    assert_eq!(decode_field(&buf[..], &flag), RawValue::Flag(false));
}

/// Round trip through the engineering-unit transform: encoding a value as
/// `round((value - add) / scale)` and scaling the decoded raw back must
/// land within one quantization step (`scale`) of the value encoded.
#[test]
fn field_roundtrip_within_one_quantization_step() {
    // The triangle field of the reliability test set: 10 bits,
    // scale 0.05, add -10.0.
    let scale = f32::from_bits(0x3D4C_CCCD);
    let add = f32::from_bits(0xC120_0000);
    for value in [-10.0f32, -9.95, 0.0, 3.1399999, 41.15] {
        let raw = ((value - add) / scale).round() as u64;
        let raw = clamp_to_width(raw, 10);
        let mut buf = vec![0u8; 3];
        encode_bits(&mut buf, 14, 10, raw);
        let back = decode_bits(&buf[..], 14, 10) as f32 * scale + add;
        assert!((back - value).abs() <= scale, "value {value} came back as {back}");
    }
}
