//! Rows: a varint row length, the null bitmap where the columns call for
//! one, and the cells that are not NULL, each in the encoding of its column.

use vstd::prelude::*;
use vstd::slice::slice_subrange;
use vstd::string::StringSliceAdditionalSpecFns;
use vstd::utf8::decode_utf8;
use vstd::utf8::encode_utf8_decode_utf8;
use vstd::utf8::valid_utf8;
use crate::errors::DriverError;
use crate::errors::ErrorKind;
use crate::results::any_nullable;
use crate::results::bitmap_size;
use crate::results::has_nullable;
use crate::results::null_bitmap_len;
use crate::results::ColumnDataType;
use crate::results::ColumnDescription;
use crate::results::Value;
use crate::results::ValueView;
use crate::timestamp::date_part;
use crate::timestamp::instant_of;
use crate::timestamp::midnight;
use crate::timestamp::time_part;
use crate::timestamp::DatePart;
use crate::timestamp::TimePart;
use crate::timestamp::Timestamp;
use crate::wire::fixed32;
use crate::wire::fixed64;
use crate::wire::le16;
use crate::wire::lemma_varint_scan_consumed;
use crate::wire::max_varint_len;
use crate::wire::raw_bytes;
use crate::wire::read_i16;
use crate::wire::read_raw_bytes;
use crate::wire::read_raw_little_endian32;
use crate::wire::read_raw_little_endian64;
use crate::wire::read_raw_varint32;
use crate::wire::read_raw_varint64;
use crate::wire::read_u16;
use crate::wire::take_bytes;
use crate::wire::varint32;
use crate::wire::varint64;
use crate::wire::Parsed;
use crate::wire::Scan;

verus! {

/// A varint length and that many bytes.
pub open spec fn length_delimited(s: Seq<u8>) -> Parsed<Seq<u8>> {
    match varint32(s) {
        Parsed::Done { value: len, consumed: n } => match raw_bytes(s.skip(n as int), len as nat) {
            Parsed::Done { value, consumed: m } => Parsed::Done { value, consumed: n + m },
            Parsed::Incomplete => Parsed::Incomplete,
            Parsed::Invalid => Parsed::Invalid,
        },
        Parsed::Incomplete => Parsed::Incomplete,
        Parsed::Invalid => Parsed::Invalid,
    }
}

/// A timestamp: four date bytes, six time bytes where the date announces
/// them, midnight where it does not. A date or a time that the calendar does
/// not know is invalid.
pub open spec fn timestamp(s: Seq<u8>) -> Parsed<Timestamp> {
    if s.len() < 4 {
        Parsed::Incomplete
    } else {
        let date = date_part(s[0], s[1], s[2], s[3]);
        if date.has_time_part && s.len() < 10 {
            Parsed::Incomplete
        } else {
            let time = if date.has_time_part {
                time_part(s[4], s[5], s[6], s[7], s[8], s[9])
            } else {
                midnight()
            };
            match instant_of(date, time) {
                Some((seconds, nanoseconds)) => Parsed::Done {
                    value: Timestamp { seconds, nanoseconds },
                    consumed: if date.has_time_part {
                        10
                    } else {
                        4
                    },
                },
                None => Parsed::Invalid,
            }
        }
    }
}

/// The cell of a column of type `field_type` at the start of `s`.
pub open spec fn cell(field_type: ColumnDataType, s: Seq<u8>) -> Parsed<ValueView> {
    match field_type {
        ColumnDataType::Int8 => raw_bytes(s, 1).map(|b: Seq<u8>| ValueView::Int8(b[0] as i8)),
        ColumnDataType::Uint8 => raw_bytes(s, 1).map(|b: Seq<u8>| ValueView::Uint8(b[0])),
        ColumnDataType::Int16 => raw_bytes(s, 2).map(
            |b: Seq<u8>| ValueView::Int16(le16(b) as u16 as i16),
        ),
        ColumnDataType::Uint16 => raw_bytes(s, 2).map(|b: Seq<u8>| ValueView::Uint16(le16(b) as u16)),
        ColumnDataType::Int32 => varint32(s).map(|v: u32| ValueView::Int32(v as i32)),
        ColumnDataType::Uint32 => varint32(s).map(|v: u32| ValueView::Uint32(v)),
        ColumnDataType::Int64 => varint64(s).map(|v: u64| ValueView::Int64(v as i64)),
        ColumnDataType::Uint64 => varint64(s).map(|v: u64| ValueView::Uint64(v)),
        ColumnDataType::Float => fixed32(s).map(|v: u32| ValueView::Float(v)),
        ColumnDataType::Double => fixed64(s).map(|v: u64| ValueView::Double(v)),
        ColumnDataType::Text => match length_delimited(s) {
            Parsed::Done { value, consumed } => if valid_utf8(value) {
                Parsed::Done { value: ValueView::Text(decode_utf8(value)), consumed }
            } else {
                Parsed::Invalid
            },
            Parsed::Incomplete => Parsed::Incomplete,
            Parsed::Invalid => Parsed::Invalid,
        },
        ColumnDataType::Binary => length_delimited(s).map(|b: Seq<u8>| ValueView::Binary(b)),
        ColumnDataType::Timestamp => timestamp(s).map(|t: Timestamp| ValueView::Timestamp(t)),
        ColumnDataType::Unknown => Parsed::Invalid,
    }
}

/// Whether the bitmap marks column `i` as NULL: bit `i mod 8` of byte
/// `i div 8`. Without a bitmap no column is NULL.
pub open spec fn is_null(bitmap: Seq<u8>, i: int) -> bool {
    0 <= i / 8 < bitmap.len() && (bitmap[i / 8] >> ((i % 8) as u8)) & 1 == 1
}

/// The first `k` cells of a row whose payload is `s`: a NULL for each column
/// that the bitmap marks, which takes no bytes, and for each other column the
/// cell that starts where the one before it ended.
pub open spec fn cells(columns: Seq<ColumnDescription>, bitmap: Seq<u8>, s: Seq<u8>, k: nat) -> Parsed<
    Seq<Option<ValueView>>,
>
    decreases k,
{
    if k == 0 {
        Parsed::Done { value: Seq::empty(), consumed: 0 }
    } else {
        match cells(columns, bitmap, s, (k - 1) as nat) {
            Parsed::Done { value: row, consumed: n } => {
                if is_null(bitmap, k - 1) {
                    Parsed::Done { value: row.push(None), consumed: n }
                } else {
                    match cell(columns[k - 1].field_type, s.skip(n as int)) {
                        Parsed::Done { value, consumed: m } => Parsed::Done {
                            value: row.push(Some(value)),
                            consumed: n + m,
                        },
                        Parsed::Incomplete => Parsed::Incomplete,
                        Parsed::Invalid => Parsed::Invalid,
                    }
                }
            },
            Parsed::Incomplete => Parsed::Incomplete,
            Parsed::Invalid => Parsed::Invalid,
        }
    }
}

/// The row at the start of `s`: `None` for the zero row length that ends the
/// stream, else the cells of one row. The row length says no more than
/// that; where the cells end is for the cells to say.
pub open spec fn row(columns: Seq<ColumnDescription>, s: Seq<u8>) -> Parsed<
    Option<Seq<Option<ValueView>>>,
> {
    match varint32(s) {
        Parsed::Done { value: row_length, consumed: h } => {
            if row_length == 0 {
                Parsed::Done { value: None, consumed: h }
            } else {
                match raw_bytes(s.skip(h as int), null_bitmap_len(columns)) {
                    Parsed::Done { value: bitmap, consumed: b } => {
                        match cells(columns, bitmap, s.skip((h + b) as int), columns.len()) {
                            Parsed::Done { value, consumed: c } => Parsed::Done {
                                value: Some(value),
                                consumed: h + b + c,
                            },
                            Parsed::Incomplete => Parsed::Incomplete,
                            Parsed::Invalid => Parsed::Invalid,
                        }
                    },
                    Parsed::Incomplete => Parsed::Incomplete,
                    Parsed::Invalid => Parsed::Invalid,
                }
            }
        },
        Parsed::Incomplete => Parsed::Incomplete,
        Parsed::Invalid => Parsed::Invalid,
    }
}

/// What decoding a row gives.
#[derive(Debug)]
pub enum RowStep {
    /// The input ends before the row does.
    Incomplete,
    /// The zero row length that ends the stream of rows, and the bytes it took.
    End { consumed: usize },
    /// A row, and the bytes it took.
    Row { cells: Vec<Option<Value>>, consumed: usize },
}

impl View for RowStep {
    type V = Parsed<Option<Seq<Option<ValueView>>>>;

    open spec fn view(&self) -> Parsed<Option<Seq<Option<ValueView>>>> {
        match *self {
            RowStep::Incomplete => Parsed::Incomplete,
            RowStep::End { consumed } => Parsed::Done { value: None, consumed: consumed as nat },
            RowStep::Row { cells, consumed } => Parsed::Done {
                value: Some(cells.deep_view()),
                consumed: consumed as nat,
            },
        }
    }
}

/// Whether a decoder's result says what the wire format says: the value and
/// its length, or that more input is needed, or a protocol error.
pub open spec fn agrees<T: View>(
    r: Result<Option<(T, usize)>, DriverError>,
    parsed: Parsed<T::V>,
) -> bool {
    match parsed {
        Parsed::Done { value, consumed } => r matches Ok(Some((v, n))) && v@ == value && n
            == consumed,
        Parsed::Incomplete => r matches Ok(None),
        Parsed::Invalid => r matches Err(e) && e.kind == ErrorKind::Protocol,
    }
}

/// `std::str::from_utf8`. The contract claims that it accepts exactly the
/// byte strings that are UTF-8, and that the text it returns is made of the
/// very bytes it was given.
#[verifier::external_body]
fn from_utf8(bytes: &[u8]) -> (r: Option<&str>)
    ensures
        r is Some <==> valid_utf8(bytes@),
        r matches Some(text) ==> text.spec_bytes() == bytes@,
{
    std::str::from_utf8(bytes).ok()
}

/// Reads a varint length and that many bytes.
fn decode_length_delimited(input: &[u8]) -> (r: Scan<Vec<u8>>)
    ensures
        r@ == length_delimited(input@),
{
    match read_raw_varint32(input) {
        Scan::Done(len, n) => {
            proof {
                lemma_varint_scan_consumed(input@, max_varint_len());
            }
            let rest = slice_subrange(input, n, input.len());
            match read_raw_bytes(rest, len) {
                Scan::Done(bytes, m) => Scan::Done(bytes, n + m),
                Scan::Incomplete => Scan::Incomplete,
                Scan::Invalid => Scan::Invalid,
            }
        },
        Scan::Incomplete => Scan::Incomplete,
        Scan::Invalid => Scan::Invalid,
    }
}

/// Reads a timestamp.
pub fn decode_timestamp(input: &[u8]) -> (r: Result<Option<(Timestamp, usize)>, DriverError>)
    ensures
        agrees(r, timestamp(input@)),
{
    let date = match read_raw_bytes(input, 4) {
        Scan::Done(d, _) => DatePart::decode(d[0], d[1], d[2], d[3]),
        _ => {
            return Ok(None);
        },
    };
    let mut time = TimePart::midnight();
    let mut consumed: usize = 4;
    if date.has_time_part {
        match read_raw_bytes(slice_subrange(input, 4, input.len()), 6) {
            Scan::Done(t, _) => {
                time = TimePart::decode(t[0], t[1], t[2], t[3], t[4], t[5]);
                consumed = 10;
            },
            _ => {
                return Ok(None);
            },
        }
    }
    match Timestamp::from_parts(date, time) {
        Ok(moment) => Ok(Some((moment, consumed))),
        Err(e) => Err(e),
    }
}

/// The error of a cell that cannot be decoded.
fn malformed(what: &str) -> (e: DriverError)
    ensures
        e.kind == ErrorKind::Protocol,
{
    DriverError::with_kind(ErrorKind::Protocol, what)
}

/// Reads the cell of a column of type `field_type` at the start of `input`.
pub fn decode_cell(field_type: ColumnDataType, input: &[u8]) -> (r: Result<
    Option<(Value, usize)>,
    DriverError,
>)
    ensures
        agrees(r, cell(field_type, input@)),
{
    match field_type {
        ColumnDataType::Int8 => match read_raw_bytes(input, 1) {
            Scan::Done(b, n) => Ok(Some((Value::Int8(#[verifier::truncate] (b[0] as i8)), n))),
            _ => Ok(None),
        },
        ColumnDataType::Uint8 => match read_raw_bytes(input, 1) {
            Scan::Done(b, n) => Ok(Some((Value::Uint8(b[0]), n))),
            _ => Ok(None),
        },
        ColumnDataType::Int16 => match read_raw_bytes(input, 2) {
            Scan::Done(b, n) => Ok(Some((Value::Int16(read_i16(b.as_slice())), n))),
            _ => Ok(None),
        },
        ColumnDataType::Uint16 => match read_raw_bytes(input, 2) {
            Scan::Done(b, n) => Ok(Some((Value::Uint16(read_u16(b.as_slice())), n))),
            _ => Ok(None),
        },
        ColumnDataType::Int32 => match read_raw_varint32(input) {
            Scan::Done(v, n) => Ok(Some((Value::Int32(#[verifier::truncate] (v as i32)), n))),
            Scan::Incomplete => Ok(None),
            Scan::Invalid => Err(malformed("read_data | Incorrect varint.")),
        },
        ColumnDataType::Uint32 => match read_raw_varint32(input) {
            Scan::Done(v, n) => Ok(Some((Value::Uint32(v), n))),
            Scan::Incomplete => Ok(None),
            Scan::Invalid => Err(malformed("read_data | Incorrect varint.")),
        },
        ColumnDataType::Int64 => match read_raw_varint64(input) {
            Scan::Done(v, n) => Ok(Some((Value::Int64(#[verifier::truncate] (v as i64)), n))),
            Scan::Incomplete => Ok(None),
            Scan::Invalid => Err(malformed("read_data | Incorrect varint.")),
        },
        ColumnDataType::Uint64 => match read_raw_varint64(input) {
            Scan::Done(v, n) => Ok(Some((Value::Uint64(v), n))),
            Scan::Incomplete => Ok(None),
            Scan::Invalid => Err(malformed("read_data | Incorrect varint.")),
        },
        ColumnDataType::Float => match read_raw_little_endian32(input) {
            Scan::Done(v, n) => Ok(Some((Value::Float(v), n))),
            _ => Ok(None),
        },
        ColumnDataType::Double => match read_raw_little_endian64(input) {
            Scan::Done(v, n) => Ok(Some((Value::Double(v), n))),
            _ => Ok(None),
        },
        ColumnDataType::Text => match decode_length_delimited(input) {
            Scan::Done(bytes, n) => match from_utf8(bytes.as_slice()) {
                Some(text) => {
                    proof {
                        encode_utf8_decode_utf8(text@);
                    }
                    Ok(Some((Value::Text(text.to_owned()), n)))
                },
                None => Err(malformed("read_data | Text is not UTF-8.")),
            },
            Scan::Incomplete => Ok(None),
            Scan::Invalid => Err(malformed("read_data | Incorrect varint.")),
        },
        ColumnDataType::Binary => match decode_length_delimited(input) {
            Scan::Done(bytes, n) => Ok(Some((Value::Binary(bytes), n))),
            Scan::Incomplete => Ok(None),
            Scan::Invalid => Err(malformed("read_data | Incorrect varint.")),
        },
        ColumnDataType::Timestamp => match decode_timestamp(input) {
            Ok(Some((moment, n))) => Ok(Some((Value::Timestamp(moment), n))),
            Ok(None) => Ok(None),
            Err(e) => Err(e),
        },
        ColumnDataType::Unknown => Err(malformed("read_data | Unknown data type.")),
    }
}

/// Whether the bitmap marks column `idx` as NULL.
pub fn null_bit(bitmap: &Vec<u8>, idx: usize) -> (r: bool)
    ensures
        r == is_null(bitmap@, idx as int),
{
    if idx / 8 < bitmap.len() {
        let shift: usize = idx % 8;
        assert(shift as u8 == ((idx as int) % 8) as u8);
        (bitmap[idx / 8] >> shift) & 1 == 1
    } else {
        false
    }
}

/// Reads the cells of one row from its payload.
pub fn decode_cells(columns: &Vec<ColumnDescription>, bitmap: &Vec<u8>, payload: &[u8]) -> (r:
    Result<Option<(Vec<Option<Value>>, usize)>, DriverError>)
    ensures
        match cells(columns@, bitmap@, payload@, columns@.len()) {
            Parsed::Done { value, consumed } => r matches Ok(Some((row, n))) && row.deep_view()
                == value && n == consumed,
            Parsed::Incomplete => r matches Ok(None),
            Parsed::Invalid => r matches Err(e) && e.kind == ErrorKind::Protocol,
        },
{
    let mut row: Vec<Option<Value>> = Vec::new();
    let mut pos: usize = 0;
    let mut idx: usize = 0;
    assert(row.deep_view() =~= Seq::empty());
    while idx < columns.len()
        invariant
            idx <= columns.len(),
            pos <= payload@.len(),
            cells(columns@, bitmap@, payload@, idx as nat) == (Parsed::Done {
                value: row.deep_view(),
                consumed: pos as nat,
            }),
        decreases columns.len() - idx,
    {
        let ghost before = row.deep_view();
        if null_bit(bitmap, idx) {
            row.push(None);
            assert(row.deep_view() =~= before.push(None));
        } else {
            let rest = slice_subrange(payload, pos, payload.len());
            proof {
                lemma_cell_consumed(columns@[idx as int].field_type, rest@);
            }
            match decode_cell(columns[idx].field_type, rest) {
                Ok(Some((value, n))) => {
                    let ghost seen = value@;
                    row.push(Some(value));
                    assert(row.deep_view() =~= before.push(Some(seen)));
                    pos = pos + n;
                },
                Ok(None) => {
                    proof {
                        lemma_cells_stay_failed(
                            columns@,
                            bitmap@,
                            payload@,
                            (idx + 1) as nat,
                            columns@.len(),
                        );
                    }
                    return Ok(None);
                },
                Err(e) => {
                    proof {
                        lemma_cells_stay_failed(
                            columns@,
                            bitmap@,
                            payload@,
                            (idx + 1) as nat,
                            columns@.len(),
                        );
                    }
                    return Err(e);
                },
            }
        }
        idx += 1;
    }
    Ok(Some((row, pos)))
}

/// Reads the row at the start of `input`, for columns whose bitmap takes
/// `bitmap_len` bytes.
pub(crate) fn decode_row_with(
    columns: &Vec<ColumnDescription>,
    bitmap_len: usize,
    input: &[u8],
) -> (r: Result<RowStep, DriverError>)
    requires
        bitmap_len == null_bitmap_len(columns@),
    ensures
        match row(columns@, input@) {
            Parsed::Invalid => r matches Err(e) && e.kind == ErrorKind::Protocol,
            parsed => r matches Ok(step) && step@ == parsed,
        },
{
    let h: usize = match read_raw_varint32(input) {
        Scan::Done(row_length, h) => {
            if row_length == 0 {
                return Ok(RowStep::End { consumed: h });
            }
            h
        },
        Scan::Incomplete => {
            return Ok(RowStep::Incomplete);
        },
        Scan::Invalid => {
            return Err(malformed("Codec error"));
        },
    };
    proof {
        lemma_varint_scan_consumed(input@, max_varint_len());
    }
    let bitmap = match take_bytes(slice_subrange(input, h, input.len()), bitmap_len) {
        Scan::Done(bitmap, _) => bitmap,
        _ => {
            return Ok(RowStep::Incomplete);
        },
    };
    let start: usize = h + bitmap_len;
    proof {
        lemma_cells_consumed(
            columns@,
            bitmap@,
            input@.skip(start as int),
            columns@.len(),
        );
    }
    match decode_cells(columns, &bitmap, slice_subrange(input, start, input.len())) {
        Ok(Some((cells, c))) => Ok(RowStep::Row { cells, consumed: start + c }),
        Ok(None) => Ok(RowStep::Incomplete),
        Err(e) => Err(e),
    }
}

/// Reads the row at the start of `input`.
pub fn decode_row(columns: &Vec<ColumnDescription>, input: &[u8]) -> (r: Result<
    RowStep,
    DriverError,
>)
    ensures
        match row(columns@, input@) {
            Parsed::Invalid => r matches Err(e) && e.kind == ErrorKind::Protocol,
            parsed => r matches Ok(step) && step@ == parsed,
        },
{
    let bitmap_len = if has_nullable(columns) {
        bitmap_size(columns.len())
    } else {
        0
    };
    decode_row_with(columns, bitmap_len, input)
}

/// Bitmap size: where a column may hold NULL, a row has a bitmap with one
/// bit for each column, in whole bytes, right after its row length, and its
/// cells begin right after the bitmap. Where no column may hold NULL, the
/// cells begin right after the row length. Either way the cells take what
/// the row takes, less the row length and the bitmap.
pub proof fn lemma_bitmap_precedes_cells(columns: Seq<ColumnDescription>, s: Seq<u8>)
    requires
        row(columns, s) matches Parsed::Done { value: Some(_), .. },
    ensures
        ({
            let h = varint32(s)->consumed;
            let b = if any_nullable(columns) {
                (columns.len() + 7) / 8
            } else {
                0
            };
            let bitmap = s.subrange(h as int, (h + b) as int);
            let payload = s.skip((h + b) as int);
            &&& varint32(s) is Done
            &&& h + b <= s.len()
            &&& cells(columns, bitmap, payload, columns.len()) is Done
            &&& row(columns, s)->value == Some(
                cells(columns, bitmap, payload, columns.len())->value,
            )
            &&& cells(columns, bitmap, payload, columns.len())->consumed == row(
                columns,
                s,
            )->consumed - h - b
        }),
{
    let h = varint32(s)->consumed;
    let b = null_bitmap_len(columns);
    lemma_varint_scan_consumed(s, max_varint_len());
    assert(s.skip(h as int).take(b as int) =~= s.subrange(h as int, (h + b) as int));
}

/// Null exclusion: each cell begins where the one before it ended. A cell
/// that the bitmap marks is NULL and takes no bytes; any other cell takes
/// the bytes of its value in the encoding of its column.
pub proof fn lemma_null_cells_take_no_bytes(
    columns: Seq<ColumnDescription>,
    bitmap: Seq<u8>,
    s: Seq<u8>,
    i: nat,
)
    requires
        cells(columns, bitmap, s, i + 1) is Done,
    ensures
        ({
            let before = cells(columns, bitmap, s, i);
            let with = cells(columns, bitmap, s, i + 1);
            let found = cell(columns[i as int].field_type, s.skip(before->consumed as int));
            &&& before is Done
            &&& is_null(bitmap, i as int) ==> with->consumed == before->consumed && with->value
                == before->value.push(None)
            &&& !is_null(bitmap, i as int) ==> found is Done && with->consumed == before->consumed
                + found->consumed && with->value == before->value.push(Some(found->value))
        }),
{
}

/// A row has a cell for each column, and a cell is NULL exactly where the
/// bitmap marks its column.
pub proof fn lemma_cells_follow_bitmap(
    columns: Seq<ColumnDescription>,
    bitmap: Seq<u8>,
    s: Seq<u8>,
    k: nat,
)
    ensures
        cells(columns, bitmap, s, k) matches Parsed::Done { value, .. } ==> value.len() == k
            && forall|i: int| 0 <= i < k ==> ((#[trigger] value[i]) is None <==> is_null(bitmap, i)),
    decreases k,
{
    if k > 0 {
        lemma_cells_follow_bitmap(columns, bitmap, s, (k - 1) as nat);
    }
}

/// A row that was read took at least one byte and no more than the input
/// holds.
pub proof fn lemma_row_consumed(columns: Seq<ColumnDescription>, s: Seq<u8>)
    ensures
        row(columns, s) matches Parsed::Done { value, consumed } ==> 1 <= consumed <= s.len() && (
        value matches Some(cells) ==> cells.len() == columns.len()),
{
    lemma_varint_scan_consumed(s, max_varint_len());
    if let Parsed::Done { value: row_length, consumed: h } = varint32(s) {
        if row_length != 0 {
            if let Parsed::Done { value: bitmap, consumed: b } = raw_bytes(
                s.skip(h as int),
                null_bitmap_len(columns),
            ) {
                lemma_cells_consumed(columns, bitmap, s.skip((h + b) as int), columns.len());
            }
        }
    }
}

/// A cell that was read lies within the input.
pub proof fn lemma_cell_consumed(field_type: ColumnDataType, s: Seq<u8>)
    ensures
        cell(field_type, s) matches Parsed::Done { consumed, .. } ==> consumed <= s.len(),
{
    lemma_varint_scan_consumed(s, max_varint_len());
    if let Parsed::Done { consumed: n, .. } = varint32(s) {
        assert(s.skip(n as int).len() == s.len() - n);
    }
}

/// The cells that were read lie within the payload.
pub proof fn lemma_cells_consumed(
    columns: Seq<ColumnDescription>,
    bitmap: Seq<u8>,
    s: Seq<u8>,
    k: nat,
)
    ensures
        cells(columns, bitmap, s, k) matches Parsed::Done { value, consumed } ==> consumed
            <= s.len() && value.len() == k,
    decreases k,
{
    if k > 0 {
        lemma_cells_consumed(columns, bitmap, s, (k - 1) as nat);
        if let Parsed::Done { consumed: n, .. } = cells(columns, bitmap, s, (k - 1) as nat) {
            lemma_cell_consumed(columns[k - 1].field_type, s.skip(n as int));
        }
    }
}

/// Once a cell cannot be read, no longer run of cells can: what stopped the
/// first `j` cells stops the first `k`, for every `k` from `j` on.
pub proof fn lemma_cells_stay_failed(
    columns: Seq<ColumnDescription>,
    bitmap: Seq<u8>,
    s: Seq<u8>,
    j: nat,
    k: nat,
)
    requires
        j <= k,
        !(cells(columns, bitmap, s, j) is Done),
    ensures
        cells(columns, bitmap, s, k) == cells(columns, bitmap, s, j),
    decreases k,
{
    if j < k {
        lemma_cells_stay_failed(columns, bitmap, s, j, (k - 1) as nat);
    }
}

} // verus!
