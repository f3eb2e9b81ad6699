//! The sender's side of a row, as specification: the bytes that carry a
//! value, a bitmap and a row, and the proof that the decoder reads them
//! back.

use vstd::prelude::*;
use vstd::utf8::encode_utf8;
use vstd::utf8::encode_utf8_decode_utf8;
use vstd::utf8::encode_utf8_valid_utf8;
use crate::results::any_nullable;
use crate::results::bitmap_len;
use crate::results::null_bitmap_len;
use crate::results::ColumnDataType;
use crate::results::ColumnDescription;
use crate::results::ValueView;
use crate::row::cell;
use crate::row::cells;
use crate::row::is_null;
use crate::row::length_delimited;
use crate::row::row;
use crate::wire::fixed32;
use crate::wire::fixed64;
use crate::wire::le16;
use crate::wire::le32;
use crate::wire::le64;
use crate::wire::lemma_varint32_round_trip;
use crate::wire::lemma_varint64_round_trip;
use crate::wire::lemma_varint_bytes_bounds;
use crate::wire::raw_bytes;
use crate::wire::varint32;
use crate::wire::varint_bytes;
use crate::wire::Parsed;

verus! {

/// The bytes of `v`, least significant first, `n` of them.
pub open spec fn le_bytes(v: nat, n: nat) -> Seq<u8>
    decreases n,
{
    if n == 0 {
        Seq::empty()
    } else {
        seq![(v % 256) as u8] + le_bytes(v / 256, (n - 1) as nat)
    }
}

/// The bytes that carry a value on the wire, in the encoding of the column
/// type that holds such values. A timestamp has more than one spelling and
/// is left out.
pub open spec fn cell_bytes(value: ValueView) -> Seq<u8> {
    match value {
        ValueView::Int8(c) => le_bytes(c as u8 as nat, 1),
        ValueView::Uint8(c) => le_bytes(c as nat, 1),
        ValueView::Int16(c) => le_bytes(c as u16 as nat, 2),
        ValueView::Uint16(c) => le_bytes(c as nat, 2),
        ValueView::Int32(c) => varint_bytes(c as u32 as nat),
        ValueView::Uint32(c) => varint_bytes(c as nat),
        ValueView::Int64(c) => varint_bytes(c as u64 as nat),
        ValueView::Uint64(c) => varint_bytes(c as nat),
        ValueView::Float(c) => le_bytes(c as nat, 4),
        ValueView::Double(c) => le_bytes(c as nat, 8),
        ValueView::Text(c) => varint_bytes(encode_utf8(c).len()) + encode_utf8(c),
        ValueView::Binary(c) => varint_bytes(c.len()) + c,
        ValueView::Timestamp(_) => Seq::empty(),
    }
}

/// The type of the column that holds such a value.
pub open spec fn column_type(value: ValueView) -> ColumnDataType {
    match value {
        ValueView::Int8(_) => ColumnDataType::Int8,
        ValueView::Uint8(_) => ColumnDataType::Uint8,
        ValueView::Int16(_) => ColumnDataType::Int16,
        ValueView::Uint16(_) => ColumnDataType::Uint16,
        ValueView::Int32(_) => ColumnDataType::Int32,
        ValueView::Uint32(_) => ColumnDataType::Uint32,
        ValueView::Int64(_) => ColumnDataType::Int64,
        ValueView::Uint64(_) => ColumnDataType::Uint64,
        ValueView::Float(_) => ColumnDataType::Float,
        ValueView::Double(_) => ColumnDataType::Double,
        ValueView::Text(_) => ColumnDataType::Text,
        ValueView::Binary(_) => ColumnDataType::Binary,
        ValueView::Timestamp(_) => ColumnDataType::Timestamp,
    }
}

/// Integer widths: every value but a timestamp is read back from its bytes,
/// whatever follows them, and the cell takes exactly those bytes. This holds
/// of each width at its least and its greatest value as of every value
/// between; of text and byte strings it holds up to the length that 32 bits
/// count.
pub proof fn lemma_cell_round_trip(value: ValueView, rest: Seq<u8>)
    requires
        !(value is Timestamp),
        value matches ValueView::Text(c) ==> encode_utf8(c).len() <= u32::MAX,
        value matches ValueView::Binary(c) ==> c.len() <= u32::MAX,
    ensures
        cell(column_type(value), cell_bytes(value) + rest) == (Parsed::Done {
            value,
            consumed: cell_bytes(value).len(),
        }),
{
    match value {
        ValueView::Int8(c) => {
            assert(c as u8 as i8 == c) by (bit_vector);
            lemma_one_byte(c as u8, rest);
        },
        ValueView::Uint8(c) => {
            lemma_one_byte(c, rest);
        },
        ValueView::Int16(c) => {
            assert(c as u16 as i16 == c) by (bit_vector);
            lemma_two_bytes(c as u16, rest);
        },
        ValueView::Uint16(c) => {
            lemma_two_bytes(c, rest);
        },
        ValueView::Int32(c) => {
            assert(c as u32 as i32 == c) by (bit_vector);
            lemma_varint32_round_trip(c as u32, rest);
        },
        ValueView::Uint32(c) => {
            lemma_varint32_round_trip(c, rest);
        },
        ValueView::Int64(c) => {
            assert(c as u64 as i64 == c) by (bit_vector);
            lemma_varint64_round_trip(c as u64, rest);
        },
        ValueView::Uint64(c) => {
            lemma_varint64_round_trip(c, rest);
        },
        ValueView::Float(c) => {
            lemma_four_bytes(c, rest);
        },
        ValueView::Double(c) => {
            lemma_eight_bytes(c, rest);
        },
        ValueView::Text(c) => {
            lemma_length_delimited_round_trip(encode_utf8(c), rest);
            encode_utf8_valid_utf8(c);
            encode_utf8_decode_utf8(c);
        },
        ValueView::Binary(c) => {
            lemma_length_delimited_round_trip(c, rest);
        },
        ValueView::Timestamp(_) => {},
    }
}

/// One byte is read back as it is.
proof fn lemma_one_byte(v: u8, rest: Seq<u8>)
    ensures
        le_bytes(v as nat, 1).len() == 1,
        raw_bytes(le_bytes(v as nat, 1) + rest, 1) is Done,
        raw_bytes(le_bytes(v as nat, 1) + rest, 1)->value[0] == v,
{
    reveal_with_fuel(le_bytes, 2);
}

/// Two bytes written least significant first are read back as the number.
proof fn lemma_two_bytes(v: u16, rest: Seq<u8>)
    ensures
        le_bytes(v as nat, 2).len() == 2,
        raw_bytes(le_bytes(v as nat, 2) + rest, 2) is Done,
        le16(raw_bytes(le_bytes(v as nat, 2) + rest, 2)->value) == v,
{
    reveal_with_fuel(le_bytes, 3);
}

/// The four bytes of a number, least significant first, and what is left of
/// the number beyond them.
proof fn lemma_le_bytes_four(v: nat, rest: Seq<u8>)
    ensures
        le_bytes(v, 4).len() == 4,
        le32(le_bytes(v, 4) + rest) + 0x1_0000_0000 * (v / 0x1_0000_0000) == v,
{
    reveal_with_fuel(le_bytes, 5);
    let q1 = v / 256;
    let q2 = q1 / 256;
    let q3 = q2 / 256;
    let q4 = q3 / 256;
    let s = le_bytes(v, 4) + rest;
    assert(s[0] == v % 256 && s[1] == q1 % 256 && s[2] == q2 % 256 && s[3] == q3 % 256);
    assert(v == v % 256 + 256 * q1);
    assert(q1 == q1 % 256 + 256 * q2);
    assert(q2 == q2 % 256 + 256 * q3);
    assert(q3 == q3 % 256 + 256 * q4);
    assert(q4 == v / 0x1_0000_0000);
}

/// Four bytes written least significant first are read back as the number.
proof fn lemma_four_bytes(v: u32, rest: Seq<u8>)
    ensures
        le_bytes(v as nat, 4).len() == 4,
        fixed32(le_bytes(v as nat, 4) + rest) == (Parsed::Done { value: v, consumed: 4 }),
{
    lemma_le_bytes_four(v as nat, rest);
}

/// Eight bytes written least significant first are read back as the number.
proof fn lemma_eight_bytes(v: u64, rest: Seq<u8>)
    ensures
        le_bytes(v as nat, 8).len() == 8,
        fixed64(le_bytes(v as nat, 8) + rest) == (Parsed::Done { value: v, consumed: 8 }),
{
    let high = (v / 0x1_0000_0000) as nat;
    let low_bytes = le_bytes(v as nat, 4);
    let high_bytes = le_bytes(high, 4);
    let s = le_bytes(v as nat, 8) + rest;
    assert(le_bytes(v as nat, 8) == low_bytes + high_bytes) by {
        lemma_le_bytes_split(v as nat, 4, 4);
        lemma_shift_four(v as nat);
        reveal_with_fuel(shifted, 5);
        assert(shifted(v as nat, 4) == high);
    }
    assert(s =~= low_bytes + (high_bytes + rest));
    lemma_le_bytes_four(v as nat, high_bytes + rest);
    lemma_le_bytes_four(high, rest);
    assert(s.skip(4) =~= high_bytes + rest);
}

/// Dropping four bytes of a number divides it by 256 four times over.
proof fn lemma_shift_four(v: nat)
    ensures
        v / 256 / 256 / 256 / 256 == v / 0x1_0000_0000,
{
    let q1 = v / 256;
    let q2 = q1 / 256;
    let q3 = q2 / 256;
    let q4 = q3 / 256;
    assert(v == v % 256 + 256 * q1);
    assert(q1 == q1 % 256 + 256 * q2);
    assert(q2 == q2 % 256 + 256 * q3);
    assert(q3 == q3 % 256 + 256 * q4);
}

/// The first `a` bytes of a number, and then the bytes of what is left of
/// it.
proof fn lemma_le_bytes_split(v: nat, a: nat, b: nat)
    ensures
        le_bytes(v, a + b) == le_bytes(v, a) + le_bytes(shifted(v, a), b),
    decreases a,
{
    if a == 0 {
        assert(le_bytes(v, 0) + le_bytes(v, b) =~= le_bytes(v, b));
    } else {
        lemma_le_bytes_split(v / 256, (a - 1) as nat, b);
        assert(seq![(v % 256) as u8] + (le_bytes(v / 256, (a - 1) as nat) + le_bytes(
            shifted(v / 256, (a - 1) as nat),
            b,
        )) =~= (seq![(v % 256) as u8] + le_bytes(v / 256, (a - 1) as nat)) + le_bytes(
            shifted(v / 256, (a - 1) as nat),
            b,
        ));
        assert(le_bytes(v, (a + b) as nat) == seq![(v % 256) as u8] + le_bytes(
            v / 256,
            (a + b - 1) as nat,
        ));
    }
}

/// What is left of a number beyond its `n` lowest bytes.
spec fn shifted(v: nat, n: nat) -> nat
    decreases n,
{
    if n == 0 {
        v
    } else {
        shifted(v / 256, (n - 1) as nat)
    }
}

/// A length and that many bytes are read back as the bytes.
proof fn lemma_length_delimited_round_trip(body: Seq<u8>, rest: Seq<u8>)
    requires
        body.len() <= u32::MAX,
    ensures
        length_delimited(varint_bytes(body.len()) + body + rest) == (Parsed::Done {
            value: body,
            consumed: varint_bytes(body.len()).len() + body.len(),
        }),
{
    let head = varint_bytes(body.len());
    let s = head + body + rest;
    assert(s =~= head + (body + rest));
    lemma_varint32_round_trip(body.len() as u32, body + rest);
    assert(s.skip(head.len() as int) =~= body + rest);
    assert((body + rest).take(body.len() as int) =~= body);
}

/// 1 where cell `i` is there and is NULL, else 0.
pub open spec fn null_flag(cells: Seq<Option<ValueView>>, i: int) -> u8 {
    if 0 <= i < cells.len() && cells[i] is None {
        1
    } else {
        0
    }
}

/// The byte that has the bits `f0` to `f7`, `f0` lowest.
pub open spec fn byte_of_bits(f0: u8, f1: u8, f2: u8, f3: u8, f4: u8, f5: u8, f6: u8, f7: u8) -> u8 {
    f0 | (f1 << 1) | (f2 << 2) | (f3 << 3) | (f4 << 4) | (f5 << 5) | (f6 << 6) | (f7 << 7)
}

/// Byte `j` of the bitmap of a row: bit `k` says whether cell `8 j + k` is
/// NULL.
pub open spec fn bitmap_byte(cells: Seq<Option<ValueView>>, j: int) -> u8 {
    byte_of_bits(
        null_flag(cells, 8 * j),
        null_flag(cells, 8 * j + 1),
        null_flag(cells, 8 * j + 2),
        null_flag(cells, 8 * j + 3),
        null_flag(cells, 8 * j + 4),
        null_flag(cells, 8 * j + 5),
        null_flag(cells, 8 * j + 6),
        null_flag(cells, 8 * j + 7),
    )
}

/// The bitmap of a row: one bit for each cell, in whole bytes.
pub open spec fn bitmap_of(cells: Seq<Option<ValueView>>) -> Seq<u8> {
    Seq::new(bitmap_len(cells.len()), |j: int| bitmap_byte(cells, j))
}

/// The bytes of the cells from `from` up to `to`, one after the other; a
/// NULL has none.
pub open spec fn cells_bytes(cells: Seq<Option<ValueView>>, from: nat, to: nat) -> Seq<u8>
    decreases to,
{
    if to <= from {
        Seq::empty()
    } else {
        cells_bytes(cells, from, (to - 1) as nat) + match cells[to - 1] {
            Some(value) => cell_bytes(value),
            None => Seq::empty(),
        }
    }
}

/// The bytes of a row of these cells, sent under `row_length`: the row
/// length, the bitmap where a column may hold NULL, and the cells.
pub open spec fn row_bytes(
    columns: Seq<ColumnDescription>,
    cells: Seq<Option<ValueView>>,
    row_length: u32,
) -> Seq<u8> {
    varint_bytes(row_length as nat) + (if any_nullable(columns) {
        bitmap_of(cells)
    } else {
        Seq::empty()
    }) + cells_bytes(cells, 0, cells.len())
}

/// Whether a value can be sent in a column of type `field_type` and read
/// back: it is of that type, it is no timestamp, and its length fits the 32
/// bits that count it.
pub open spec fn sendable(value: ValueView, field_type: ColumnDataType) -> bool {
    &&& column_type(value) == field_type
    &&& !(value is Timestamp)
    &&& value matches ValueView::Text(c) ==> encode_utf8(c).len() <= u32::MAX
    &&& value matches ValueView::Binary(c) ==> c.len() <= u32::MAX
}

/// Whether these cells make a row of these columns: a cell for each column,
/// each value sendable in its column, and no NULL unless a column may hold
/// one.
pub open spec fn is_row_of(columns: Seq<ColumnDescription>, cells: Seq<Option<ValueView>>) -> bool {
    &&& cells.len() == columns.len()
    &&& forall|i: int|
        0 <= i < cells.len() ==> match #[trigger] cells[i] {
            Some(value) => sendable(value, columns[i].field_type),
            None => any_nullable(columns),
        }
}

/// A row that was sent is read back: its cells, NULL where they were NULL,
/// and its bytes and no more, whatever follows them and whatever the row
/// length says, so long as it is not zero.
pub proof fn lemma_row_round_trip(
    columns: Seq<ColumnDescription>,
    cells: Seq<Option<ValueView>>,
    row_length: u32,
    rest: Seq<u8>,
)
    requires
        is_row_of(columns, cells),
        row_length != 0,
    ensures
        row(columns, row_bytes(columns, cells, row_length) + rest) == (Parsed::Done {
            value: Some(cells),
            consumed: row_bytes(columns, cells, row_length).len(),
        }),
{
    let head = varint_bytes(row_length as nat);
    let bitmap = if any_nullable(columns) {
        bitmap_of(cells)
    } else {
        Seq::empty()
    };
    let payload = cells_bytes(cells, 0, cells.len());
    let s = row_bytes(columns, cells, row_length) + rest;
    let h = head.len();
    let b = bitmap.len();
    assert(varint32(s) == (Parsed::Done { value: row_length, consumed: h })) by {
        assert(s =~= head + (bitmap + payload + rest));
        lemma_varint32_round_trip(row_length, bitmap + payload + rest);
    }
    assert(raw_bytes(s.skip(h as int), b) == (Parsed::Done { value: bitmap, consumed: b })) by {
        assert(s.skip(h as int) =~= bitmap + (payload + rest));
        assert((bitmap + (payload + rest)).take(b as int) =~= bitmap);
    }
    assert(s.skip((h + b) as int) =~= payload + rest);
    assert(crate::row::cells(columns, bitmap, payload + rest, columns.len()) == (Parsed::Done {
        value: cells,
        consumed: payload.len(),
    })) by {
        lemma_cells_round_trip(columns, cells, bitmap, rest, cells.len());
        assert(cells.take(cells.len() as int) =~= cells);
    }
    assert(b == null_bitmap_len(columns));
    lemma_row_of_its_parts(columns, s);
}

/// A row is read as its parts are: the row length, the bitmap and the
/// cells.
proof fn lemma_row_of_its_parts(columns: Seq<ColumnDescription>, s: Seq<u8>)
    requires
        varint32(s) is Done,
        varint32(s)->value != 0,
        raw_bytes(s.skip(varint32(s)->consumed as int), null_bitmap_len(columns)) is Done,
        parts_of_row(columns, s) is Done,
    ensures
        row(columns, s) == (Parsed::Done {
            value: Some(parts_of_row(columns, s)->value),
            consumed: varint32(s)->consumed + null_bitmap_len(columns) + parts_of_row(
                columns,
                s,
            )->consumed,
        }),
{
}

/// The cells of the row at the start of `s`, read after its row length and
/// its bitmap.
spec fn parts_of_row(columns: Seq<ColumnDescription>, s: Seq<u8>) -> Parsed<
    Seq<Option<ValueView>>,
> {
    let h = varint32(s)->consumed;
    let b = null_bitmap_len(columns);
    cells(
        columns,
        raw_bytes(s.skip(h as int), b)->value,
        s.skip((h + b) as int),
        columns.len(),
    )
}

/// The first `k` cells of a row that was sent are read back.
proof fn lemma_cells_round_trip(
    columns: Seq<ColumnDescription>,
    sent: Seq<Option<ValueView>>,
    bitmap: Seq<u8>,
    rest: Seq<u8>,
    k: nat,
)
    requires
        is_row_of(columns, sent),
        k <= sent.len(),
        bitmap == if any_nullable(columns) {
            bitmap_of(sent)
        } else {
            Seq::<u8>::empty()
        },
    ensures
        cells(columns, bitmap, cells_bytes(sent, 0, sent.len()) + rest, k) == (Parsed::Done {
            value: sent.take(k as int),
            consumed: cells_bytes(sent, 0, k).len(),
        }),
    decreases k,
{
    if k == 0 {
        assert(sent.take(0) =~= Seq::<Option<ValueView>>::empty());
    } else {
        let i = (k - 1) as nat;
        lemma_cells_round_trip(columns, sent, bitmap, rest, i);
        assert(sent.take(k as int) =~= sent.take(i as int).push(sent[i as int]));
        if any_nullable(columns) {
            lemma_bitmap_marks_nulls(sent, i as int);
        }
        assert(is_null(bitmap, i as int) == (sent[i as int] is None));
        lemma_cell_in_row(columns, sent, rest, i);
    }
}

/// Cell `i` of a row that was sent begins where the cells before it end,
/// and is read back from there.
proof fn lemma_cell_in_row(
    columns: Seq<ColumnDescription>,
    sent: Seq<Option<ValueView>>,
    rest: Seq<u8>,
    i: nat,
)
    requires
        is_row_of(columns, sent),
        i < sent.len(),
    ensures
        match sent[i as int] {
            Some(value) => {
                &&& cell(
                    columns[i as int].field_type,
                    (cells_bytes(sent, 0, sent.len()) + rest).skip(
                        cells_bytes(sent, 0, i).len() as int,
                    ),
                ) == (Parsed::Done { value, consumed: cell_bytes(value).len() })
                &&& cells_bytes(sent, 0, i + 1).len() == cells_bytes(sent, 0, i).len()
                    + cell_bytes(value).len()
            },
            None => cells_bytes(sent, 0, i + 1).len() == cells_bytes(sent, 0, i).len(),
        },
{
    let payload = cells_bytes(sent, 0, sent.len());
    let before = cells_bytes(sent, 0, i);
    let after = cells_bytes(sent, i + 1, sent.len());
    let own = match sent[i as int] {
        Some(value) => cell_bytes(value),
        None => Seq::empty(),
    };
    assert(cells_bytes(sent, 0, i + 1) == before + own);
    lemma_cells_bytes_join(sent, 0, i + 1, sent.len());
    assert(payload + rest =~= before + (own + (after + rest)));
    assert((payload + rest).skip(before.len() as int) =~= own + (after + rest));
    if let Some(value) = sent[i as int] {
        assert(sendable(value, columns[i as int].field_type));
        lemma_cell_round_trip(value, after + rest);
    }
}

/// The bytes of a run of cells are those of its first part and then those
/// of its second.
proof fn lemma_cells_bytes_join(sent: Seq<Option<ValueView>>, from: nat, mid: nat, to: nat)
    requires
        from <= mid <= to,
    ensures
        cells_bytes(sent, from, to) == cells_bytes(sent, from, mid) + cells_bytes(sent, mid, to),
    decreases to,
{
    if to == mid {
        assert(cells_bytes(sent, from, mid) + Seq::<u8>::empty() =~= cells_bytes(sent, from, mid));
    } else {
        lemma_cells_bytes_join(sent, from, mid, (to - 1) as nat);
        let last = match sent[to - 1] {
            Some(value) => cell_bytes(value),
            None => Seq::empty(),
        };
        assert((cells_bytes(sent, from, mid) + cells_bytes(sent, mid, (to - 1) as nat)) + last
            =~= cells_bytes(sent, from, mid) + (cells_bytes(sent, mid, (to - 1) as nat) + last));
    }
}

/// The bitmap of a row marks exactly its NULL cells.
pub proof fn lemma_bitmap_marks_nulls(sent: Seq<Option<ValueView>>, i: int)
    requires
        0 <= i < sent.len(),
    ensures
        is_null(bitmap_of(sent), i) == (sent[i] is None),
{
    let j = i / 8;
    let k = (i % 8) as u8;
    let f0 = null_flag(sent, 8 * j);
    let f1 = null_flag(sent, 8 * j + 1);
    let f2 = null_flag(sent, 8 * j + 2);
    let f3 = null_flag(sent, 8 * j + 3);
    let f4 = null_flag(sent, 8 * j + 4);
    let f5 = null_flag(sent, 8 * j + 5);
    let f6 = null_flag(sent, 8 * j + 6);
    let f7 = null_flag(sent, 8 * j + 7);
    lemma_bit_of_byte(f0, f1, f2, f3, f4, f5, f6, f7, k);
    assert(bitmap_of(sent)[j] == byte_of_bits(f0, f1, f2, f3, f4, f5, f6, f7));
    assert(null_flag(sent, 8 * j + k) == if sent[i] is None {
        1u8
    } else {
        0u8
    });
}

/// Bit `k` of a byte made of eight bits is the `k`-th of them.
proof fn lemma_bit_of_byte(f0: u8, f1: u8, f2: u8, f3: u8, f4: u8, f5: u8, f6: u8, f7: u8, k: u8)
    by (bit_vector)
    requires
        f0 <= 1,
        f1 <= 1,
        f2 <= 1,
        f3 <= 1,
        f4 <= 1,
        f5 <= 1,
        f6 <= 1,
        f7 <= 1,
        k < 8,
    ensures
        ((f0 | (f1 << 1) | (f2 << 2) | (f3 << 3) | (f4 << 4) | (f5 << 5) | (f6 << 6) | (f7 << 7))
            >> k) & 1 == (if k == 0 {
            f0
        } else if k == 1 {
            f1
        } else if k == 2 {
            f2
        } else if k == 3 {
            f3
        } else if k == 4 {
            f4
        } else if k == 5 {
            f5
        } else if k == 6 {
            f6
        } else {
            f7
        }),
{
}

} // verus!
