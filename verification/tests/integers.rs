use siodb::results::ColumnDataType;
use siodb::results::Value;
use siodb::row::decode_cell;
use siodb::ErrorKind;

fn varint(value: u64) -> Vec<u8> {
    let mut out = Vec::new();
    {
        let mut stream = protobuf::CodedOutputStream::vec(&mut out);
        stream.write_raw_varint64(value).unwrap();
        stream.flush().unwrap();
    }
    out
}

fn whole(field_type: ColumnDataType, bytes: &[u8]) -> Value {
    let (value, consumed) = decode_cell(field_type, bytes).unwrap().unwrap();
    assert_eq!(consumed, bytes.len());
    value
}

#[test]
fn int8_boundaries() {
    assert_eq!(whole(ColumnDataType::Int8, &[0x80]), Value::Int8(-128));
    assert_eq!(whole(ColumnDataType::Int8, &[0x7f]), Value::Int8(127));
    assert_eq!(whole(ColumnDataType::Int8, &[0xff]), Value::Int8(-1));
}

#[test]
fn uint8_boundaries() {
    assert_eq!(whole(ColumnDataType::Uint8, &[0x00]), Value::Uint8(0));
    assert_eq!(whole(ColumnDataType::Uint8, &[0xff]), Value::Uint8(255));
}

#[test]
fn int16_boundaries() {
    assert_eq!(whole(ColumnDataType::Int16, &(-32768_i16).to_le_bytes()), Value::Int16(-32768));
    assert_eq!(whole(ColumnDataType::Int16, &32767_i16.to_le_bytes()), Value::Int16(32767));
    assert_eq!(whole(ColumnDataType::Int16, &[0x00, 0x80]), Value::Int16(-32768));
    assert_eq!(whole(ColumnDataType::Int16, &[0x18, 0xfc]), Value::Int16(-1000));
}

#[test]
fn uint16_boundaries() {
    assert_eq!(whole(ColumnDataType::Uint16, &[0x00, 0x00]), Value::Uint16(0));
    assert_eq!(whole(ColumnDataType::Uint16, &[0xff, 0xff]), Value::Uint16(65535));
    assert_eq!(whole(ColumnDataType::Uint16, &[0x34, 0x12]), Value::Uint16(0x1234));
}

#[test]
fn int32_boundaries() {
    for v in [i32::MIN, -1, 0, 1, i32::MAX] {
        assert_eq!(whole(ColumnDataType::Int32, &varint(v as u32 as u64)), Value::Int32(v));
    }
    assert_eq!(
        whole(ColumnDataType::Int32, &[0x80, 0x80, 0x80, 0x80, 0x08]),
        Value::Int32(-2147483648)
    );
}

#[test]
fn uint32_boundaries() {
    for v in [0_u32, 1, 127, 128, 300, u32::MAX] {
        assert_eq!(whole(ColumnDataType::Uint32, &varint(v as u64)), Value::Uint32(v));
    }
    assert_eq!(
        whole(ColumnDataType::Uint32, &[0xff, 0xff, 0xff, 0xff, 0x0f]),
        Value::Uint32(4294967295)
    );
}

#[test]
fn int64_boundaries() {
    for v in [i64::MIN, -1, 0, 1, i64::MAX] {
        assert_eq!(whole(ColumnDataType::Int64, &varint(v as u64)), Value::Int64(v));
    }
}

#[test]
fn uint64_boundaries() {
    for v in [0_u64, 1, 127, 128, 1 << 35, u64::MAX] {
        assert_eq!(whole(ColumnDataType::Uint64, &varint(v)), Value::Uint64(v));
    }
    let max = [0xff, 0xff, 0xff, 0xff, 0xff, 0xff, 0xff, 0xff, 0xff, 0x01];
    assert_eq!(whole(ColumnDataType::Uint64, &max), Value::Uint64(18446744073709551615));
}

#[test]
fn float_is_kept_bit_for_bit() {
    for v in [222.222_f32, 0.0, -1.5, f32::MAX, f32::MIN_POSITIVE] {
        let value = whole(ColumnDataType::Float, &v.to_le_bytes());
        assert_eq!(value, Value::Float(v.to_bits()));
        match value {
            Value::Float(bits) => assert_eq!(f32::from_bits(bits), v),
            other => panic!("not a float: {:?}", other),
        }
    }
    assert_eq!(whole(ColumnDataType::Float, &[0x01, 0x02, 0x03, 0x04]), Value::Float(0x04030201));
}

#[test]
fn double_is_kept_bit_for_bit() {
    for v in [222.222_f64, 0.0, -1.5, f64::MAX, f64::MIN_POSITIVE] {
        let value = whole(ColumnDataType::Double, &v.to_le_bytes());
        assert_eq!(value, Value::Double(v.to_bits()));
        match value {
            Value::Double(bits) => assert_eq!(f64::from_bits(bits), v),
            other => panic!("not a double: {:?}", other),
        }
    }
    assert_eq!(
        whole(ColumnDataType::Double, &[1, 2, 3, 4, 5, 6, 7, 8]),
        Value::Double(0x0807060504030201)
    );
}

#[test]
fn a_32_bit_cell_keeps_the_low_32_bits_of_a_longer_varint() {
    let bytes = varint((1 << 32) + 5);
    assert_eq!(decode_cell(ColumnDataType::Uint32, &bytes).unwrap(), Some((Value::Uint32(5), 5)));
    let bytes = varint(u64::MAX);
    assert_eq!(decode_cell(ColumnDataType::Int32, &bytes).unwrap(), Some((Value::Int32(-1), 10)));
}

#[test]
fn a_ten_byte_varint_drops_the_bits_beyond_64() {
    let bytes = [0xff, 0xff, 0xff, 0xff, 0xff, 0xff, 0xff, 0xff, 0xff, 0x7f];
    assert_eq!(
        decode_cell(ColumnDataType::Uint64, &bytes).unwrap(),
        Some((Value::Uint64(u64::MAX), 10))
    );
    let bytes = [0x80, 0x80, 0x80, 0x80, 0x80, 0x80, 0x80, 0x80, 0x80, 0x02];
    assert_eq!(decode_cell(ColumnDataType::Uint64, &bytes).unwrap(), Some((Value::Uint64(0), 10)));
}

#[test]
fn a_varint_may_be_longer_than_it_must() {
    assert_eq!(
        decode_cell(ColumnDataType::Uint32, &[0x85, 0x80, 0x00]).unwrap(),
        Some((Value::Uint32(5), 3))
    );
}

#[test]
fn a_varint_without_end_is_a_protocol_error() {
    for field_type in [
        ColumnDataType::Int32,
        ColumnDataType::Uint32,
        ColumnDataType::Int64,
        ColumnDataType::Uint64,
        ColumnDataType::Text,
        ColumnDataType::Binary,
    ] {
        let e = decode_cell(field_type, &[0x80; 10]).unwrap_err();
        assert_eq!(e.kind(), ErrorKind::Protocol);
        let e = decode_cell(field_type, &[0xff; 12]).unwrap_err();
        assert_eq!(e.kind(), ErrorKind::Protocol);
    }
}

#[test]
fn a_cell_cut_short_waits_for_more() {
    assert_eq!(decode_cell(ColumnDataType::Int8, &[]).unwrap(), None);
    assert_eq!(decode_cell(ColumnDataType::Uint8, &[]).unwrap(), None);
    assert_eq!(decode_cell(ColumnDataType::Int16, &[0x01]).unwrap(), None);
    assert_eq!(decode_cell(ColumnDataType::Uint16, &[0x01]).unwrap(), None);
    assert_eq!(decode_cell(ColumnDataType::Int32, &[0x80]).unwrap(), None);
    assert_eq!(decode_cell(ColumnDataType::Uint32, &[]).unwrap(), None);
    assert_eq!(decode_cell(ColumnDataType::Int64, &[0xff; 9]).unwrap(), None);
    assert_eq!(decode_cell(ColumnDataType::Uint64, &[0xff, 0xff]).unwrap(), None);
    assert_eq!(decode_cell(ColumnDataType::Float, &[1, 2, 3]).unwrap(), None);
    assert_eq!(decode_cell(ColumnDataType::Double, &[1, 2, 3, 4, 5, 6, 7]).unwrap(), None);
}

#[test]
fn a_cell_takes_its_own_bytes_only() {
    assert_eq!(
        decode_cell(ColumnDataType::Int8, &[0x01, 0x02]).unwrap(),
        Some((Value::Int8(1), 1))
    );
    assert_eq!(
        decode_cell(ColumnDataType::Uint16, &[0x01, 0x02, 0x03]).unwrap(),
        Some((Value::Uint16(0x0201), 2))
    );
    assert_eq!(
        decode_cell(ColumnDataType::Uint32, &[0x07, 0xff]).unwrap(),
        Some((Value::Uint32(7), 1))
    );
    assert_eq!(
        decode_cell(ColumnDataType::Float, &[0, 0, 0, 0, 9]).unwrap(),
        Some((Value::Float(0), 4))
    );
}
