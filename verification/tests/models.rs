// Each decoder is held against a plain model of the wire format, over many
// byte strings: short ones over bytes that matter, and longer ones from a
// fixed pseudo-random sequence.

use siodb::framing::read_message;
use siodb::results::ColumnDataType;
use siodb::results::Value;
use siodb::row::decode_cell;
use siodb::ErrorKind;

#[derive(Debug, PartialEq)]
enum Model<T> {
    Done(T, usize),
    Incomplete,
    Invalid,
}

fn model_varint(s: &[u8], room: usize) -> Model<u128> {
    if room == 0 {
        Model::Invalid
    } else if s.is_empty() {
        Model::Incomplete
    } else if s[0] < 128 {
        Model::Done(s[0] as u128, 1)
    } else {
        match model_varint(&s[1..], room - 1) {
            Model::Done(value, consumed) => {
                Model::Done((s[0] as u128 - 128) + 128 * value, consumed + 1)
            }
            other => other,
        }
    }
}

fn model_varint64(s: &[u8]) -> Model<u64> {
    match model_varint(s, 10) {
        Model::Done(value, consumed) => Model::Done((value % (1 << 64)) as u64, consumed),
        Model::Incomplete => Model::Incomplete,
        Model::Invalid => Model::Invalid,
    }
}

fn model_varint32(s: &[u8]) -> Model<u32> {
    match model_varint(s, 10) {
        Model::Done(value, consumed) => Model::Done((value % (1 << 32)) as u32, consumed),
        Model::Incomplete => Model::Incomplete,
        Model::Invalid => Model::Invalid,
    }
}

fn model_frame(expected: u32, s: &[u8]) -> Model<Vec<u8>> {
    match model_varint32(s) {
        Model::Done(received, n) => {
            if received != expected {
                return Model::Invalid;
            }
            match model_varint64(&s[n..]) {
                Model::Done(len, m) => {
                    if (n + m) as u128 + len as u128 <= s.len() as u128 {
                        let end = n + m + len as usize;
                        Model::Done(s[n + m..end].to_vec(), end)
                    } else {
                        Model::Incomplete
                    }
                }
                Model::Incomplete => Model::Incomplete,
                Model::Invalid => Model::Invalid,
            }
        }
        Model::Incomplete => Model::Incomplete,
        Model::Invalid => Model::Invalid,
    }
}

fn seen<T>(r: Result<Option<(T, usize)>, siodb::DriverError>) -> Model<T> {
    match r {
        Ok(Some((value, consumed))) => Model::Done(value, consumed),
        Ok(None) => Model::Incomplete,
        Err(e) => {
            assert_eq!(e.kind(), ErrorKind::Protocol);
            Model::Invalid
        }
    }
}

fn inputs() -> Vec<Vec<u8>> {
    let alphabet = [0x00_u8, 0x01, 0x02, 0x7f, 0x80, 0x81, 0xff];
    let mut all: Vec<Vec<u8>> = vec![Vec::new()];
    let mut last: Vec<Vec<u8>> = vec![Vec::new()];
    for _ in 0..4 {
        let mut next = Vec::new();
        for prefix in &last {
            for b in alphabet {
                let mut s = prefix.clone();
                s.push(b);
                next.push(s);
            }
        }
        all.extend(next.iter().cloned());
        last = next;
    }
    let mut state: u64 = 0x2545_f491_4f6c_dd1d;
    for i in 0..4000 {
        let len = 5 + i % 10;
        let mut s = Vec::new();
        for _ in 0..len {
            state ^= state << 13;
            state ^= state >> 7;
            state ^= state << 17;
            let b = (state >> 32) as u8;
            // Continuation bytes are made frequent, so that long varints occur.
            s.push(if state & 3 != 0 { b | 0x80 } else { b });
        }
        all.push(s);
    }
    all
}

#[test]
fn varint_cells_follow_the_model() {
    for s in inputs() {
        let wide = model_varint64(&s);
        let narrow = model_varint32(&s);
        assert_eq!(
            seen(decode_cell(ColumnDataType::Uint64, &s)),
            match &wide {
                Model::Done(v, n) => Model::Done(Value::Uint64(*v), *n),
                Model::Incomplete => Model::Incomplete,
                Model::Invalid => Model::Invalid,
            },
            "{:?}",
            s
        );
        assert_eq!(
            seen(decode_cell(ColumnDataType::Int64, &s)),
            match &wide {
                Model::Done(v, n) => Model::Done(Value::Int64(*v as i64), *n),
                Model::Incomplete => Model::Incomplete,
                Model::Invalid => Model::Invalid,
            },
            "{:?}",
            s
        );
        assert_eq!(
            seen(decode_cell(ColumnDataType::Uint32, &s)),
            match &narrow {
                Model::Done(v, n) => Model::Done(Value::Uint32(*v), *n),
                Model::Incomplete => Model::Incomplete,
                Model::Invalid => Model::Invalid,
            },
            "{:?}",
            s
        );
        assert_eq!(
            seen(decode_cell(ColumnDataType::Int32, &s)),
            match &narrow {
                Model::Done(v, n) => Model::Done(Value::Int32(*v as i32), *n),
                Model::Incomplete => Model::Incomplete,
                Model::Invalid => Model::Invalid,
            },
            "{:?}",
            s
        );
    }
}

#[test]
fn fixed_width_cells_follow_the_model() {
    for s in inputs() {
        let take = |n: usize| if s.len() >= n { Some(&s[..n]) } else { None };
        let expect = |n: usize, make: &dyn Fn(&[u8]) -> Value| match take(n) {
            Some(bytes) => Model::Done(make(bytes), n),
            None => Model::Incomplete,
        };
        assert_eq!(
            seen(decode_cell(ColumnDataType::Int8, &s)),
            expect(1, &|b| Value::Int8(b[0] as i8))
        );
        assert_eq!(
            seen(decode_cell(ColumnDataType::Uint8, &s)),
            expect(1, &|b| Value::Uint8(b[0]))
        );
        assert_eq!(
            seen(decode_cell(ColumnDataType::Int16, &s)),
            expect(2, &|b| Value::Int16((b[0] as u16 + 256 * b[1] as u16) as i16))
        );
        assert_eq!(
            seen(decode_cell(ColumnDataType::Uint16, &s)),
            expect(2, &|b| Value::Uint16(b[0] as u16 + 256 * b[1] as u16))
        );
        assert_eq!(
            seen(decode_cell(ColumnDataType::Float, &s)),
            expect(4, &|b| Value::Float(
                b[0] as u32 + 0x100 * b[1] as u32 + 0x1_0000 * b[2] as u32 + 0x100_0000 * b[3] as u32
            ))
        );
        assert_eq!(
            seen(decode_cell(ColumnDataType::Double, &s)),
            expect(8, &|b| Value::Double(
                (0..8).map(|i| (b[i] as u64) << (8 * i)).sum()
            ))
        );
    }
}

#[test]
fn length_delimited_cells_follow_the_model() {
    for s in inputs() {
        let expected = match model_varint32(&s) {
            Model::Done(len, n) => {
                if s.len() - n >= len as usize {
                    Model::Done(s[n..n + len as usize].to_vec(), n + len as usize)
                } else {
                    Model::Incomplete
                }
            }
            Model::Incomplete => Model::Incomplete,
            Model::Invalid => Model::Invalid,
        };
        assert_eq!(
            seen(decode_cell(ColumnDataType::Binary, &s)),
            match &expected {
                Model::Done(bytes, n) => Model::Done(Value::Binary(bytes.clone()), *n),
                Model::Incomplete => Model::Incomplete,
                Model::Invalid => Model::Invalid,
            },
            "{:?}",
            s
        );
        assert_eq!(
            seen(decode_cell(ColumnDataType::Text, &s)),
            match &expected {
                Model::Done(bytes, n) => match String::from_utf8(bytes.clone()) {
                    Ok(text) => Model::Done(Value::Text(text), *n),
                    Err(_) => Model::Invalid,
                },
                Model::Incomplete => Model::Incomplete,
                Model::Invalid => Model::Invalid,
            },
            "{:?}",
            s
        );
    }
}

#[test]
fn frames_follow_the_model() {
    for s in inputs() {
        for expected in [0_u32, 1, 2, 127, 128, 255] {
            assert_eq!(seen(read_message(expected, &s)), model_frame(expected, &s), "{:?}", s);
        }
        if let Model::Done(received, _) = model_varint32(&s) {
            assert_eq!(seen(read_message(received, &s)), model_frame(received, &s), "{:?}", s);
        }
    }
}
