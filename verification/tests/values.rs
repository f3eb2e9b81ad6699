use siodb::results::clone_row;
use siodb::results::Value;
use siodb::timestamp::Timestamp;

#[test]
fn integers_are_written_in_decimal() {
    assert_eq!(Value::Int8(-128).to_text(), Some("-128".to_string()));
    assert_eq!(Value::Uint8(255).to_text(), Some("255".to_string()));
    assert_eq!(Value::Int16(-32768).to_text(), Some("-32768".to_string()));
    assert_eq!(Value::Uint16(65535).to_text(), Some("65535".to_string()));
    assert_eq!(Value::Int32(-2147483648).to_text(), Some("-2147483648".to_string()));
    assert_eq!(Value::Uint32(4294967295).to_text(), Some("4294967295".to_string()));
    assert_eq!(Value::Int64(i64::MIN).to_text(), Some("-9223372036854775808".to_string()));
    assert_eq!(Value::Uint64(u64::MAX).to_text(), Some("18446744073709551615".to_string()));
}

#[test]
fn text_is_written_as_it_is() {
    assert_eq!(Value::Text("汉字".to_string()).to_text(), Some("汉字".to_string()));
    assert_eq!(Value::Text(String::new()).to_text(), Some(String::new()));
}

#[test]
fn binary_is_written_as_two_words() {
    assert_eq!(Value::Binary(vec![1, 2, 3]).to_text(), Some("Binary string".to_string()));
}

#[test]
fn timestamp_is_written_as_utc_date_and_time() {
    let value = Value::Timestamp(Timestamp { seconds: 1_718_454_645, nanoseconds: 123_000 });
    assert_eq!(value.to_text(), Some("2024-06-15 12:30:45.000123 UTC".to_string()));
}

#[test]
fn floats_are_left_to_the_holder_of_the_bits() {
    assert_eq!(Value::Float(222.222_f32.to_bits()).to_text(), None);
    assert_eq!(Value::Double(222.222_f64.to_bits()).to_text(), None);
}

#[test]
fn values_are_equal_where_their_parts_are() {
    assert_eq!(Value::Int8(1), Value::Int8(1));
    assert_ne!(Value::Int8(1), Value::Uint8(1));
    assert_ne!(Value::Int8(1), Value::Int8(2));
    assert_eq!(Value::Text("a".to_string()), Value::Text("a".to_string()));
    assert_ne!(Value::Text("a".to_string()), Value::Binary(vec![b'a']));
    assert_eq!(Value::Float(0x7fc0_0000), Value::Float(0x7fc0_0000));
    assert_ne!(Value::Double(0), Value::Double(1 << 63));
}

#[test]
fn clone_keeps_the_value() {
    let values = vec![
        Value::Int8(-1),
        Value::Uint8(2),
        Value::Int16(-3),
        Value::Uint16(4),
        Value::Int32(-5),
        Value::Uint32(6),
        Value::Int64(-7),
        Value::Uint64(8),
        Value::Float(9),
        Value::Double(10),
        Value::Text("eleven".to_string()),
        Value::Binary(vec![12, 13]),
        Value::Timestamp(Timestamp { seconds: 14, nanoseconds: 15 }),
    ];
    for value in &values {
        assert_eq!(&value.clone(), value);
    }
    let row: Vec<Option<Value>> = values.into_iter().map(Some).chain([None]).collect();
    assert_eq!(clone_row(&row), row);
    assert_eq!(clone_row(&Vec::new()), Vec::new());
}
