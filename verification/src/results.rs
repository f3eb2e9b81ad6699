//! What the server answers a command with: the description of the columns,
//! the values of a row, and the state of the stream of rows.

use vstd::prelude::*;
use vstd::string::to_string_from_display_ensures;
use crate::errors::DriverError;
use crate::errors::ErrorKind;
use crate::row::agrees;
use crate::row::decode_row_with;
use crate::row::lemma_row_consumed;
use crate::row::row;
use crate::row::RowStep;
use crate::timestamp::instant_text;
use crate::timestamp::Timestamp;
use crate::wire::Parsed;

verus! {

/// The type of a column, as the server declares it.
#[derive(Clone, Copy, Debug, PartialEq, Eq, Structural)]
pub enum ColumnDataType {
    Int8,
    Uint8,
    Int16,
    Uint16,
    Int32,
    Uint32,
    Int64,
    Uint64,
    Float,
    Double,
    Text,
    Binary,
    Timestamp,
    /// Any type that this driver does not decode.
    Unknown,
}

/// One column of a result set.
#[derive(Clone, Debug, PartialEq, Eq)]
pub struct ColumnDescription {
    pub name: String,
    pub field_type: ColumnDataType,
    /// Whether a cell of this column may be NULL.
    pub is_null: bool,
}

/// The server's answer to a command, as far as the driver reads it.
#[derive(Clone, Debug, PartialEq, Eq)]
pub struct ServerResponse {
    /// The texts of the error messages; empty where the command succeeded.
    pub message: Vec<String>,
    /// The columns of the rows that follow; empty where none follow.
    pub column_description: Vec<ColumnDescription>,
    pub has_affected_row_count: bool,
    pub affected_row_count: u64,
}

/// The value of a cell that is not NULL.
#[derive(Debug, PartialEq, Eq)]
pub enum Value {
    Int8(i8),
    Uint8(u8),
    Int16(i16),
    Uint16(u16),
    Int32(i32),
    Uint32(u32),
    Int64(i64),
    Uint64(u64),
    /// An IEEE-754 single, as its 32 bits.
    Float(u32),
    /// An IEEE-754 double, as its 64 bits.
    Double(u64),
    Text(String),
    Binary(Vec<u8>),
    Timestamp(Timestamp),
}

/// A value as contracts speak of it: text as its characters, a byte string as
/// its bytes.
pub enum ValueView {
    Int8(i8),
    Uint8(u8),
    Int16(i16),
    Uint16(u16),
    Int32(i32),
    Uint32(u32),
    Int64(i64),
    Uint64(u64),
    Float(u32),
    Double(u64),
    Text(Seq<char>),
    Binary(Seq<u8>),
    Timestamp(Timestamp),
}

impl View for Value {
    type V = ValueView;

    open spec fn view(&self) -> ValueView {
        match *self {
            Value::Int8(c) => ValueView::Int8(c),
            Value::Uint8(c) => ValueView::Uint8(c),
            Value::Int16(c) => ValueView::Int16(c),
            Value::Uint16(c) => ValueView::Uint16(c),
            Value::Int32(c) => ValueView::Int32(c),
            Value::Uint32(c) => ValueView::Uint32(c),
            Value::Int64(c) => ValueView::Int64(c),
            Value::Uint64(c) => ValueView::Uint64(c),
            Value::Float(c) => ValueView::Float(c),
            Value::Double(c) => ValueView::Double(c),
            Value::Text(c) => ValueView::Text(c@),
            Value::Binary(c) => ValueView::Binary(c@),
            Value::Timestamp(c) => ValueView::Timestamp(c),
        }
    }
}

impl Clone for Value {
    fn clone(&self) -> (r: Value)
        ensures
            r@ == self@,
    {
        match self {
            Value::Int8(c) => Value::Int8(*c),
            Value::Uint8(c) => Value::Uint8(*c),
            Value::Int16(c) => Value::Int16(*c),
            Value::Uint16(c) => Value::Uint16(*c),
            Value::Int32(c) => Value::Int32(*c),
            Value::Uint32(c) => Value::Uint32(*c),
            Value::Int64(c) => Value::Int64(*c),
            Value::Uint64(c) => Value::Uint64(*c),
            Value::Float(c) => Value::Float(*c),
            Value::Double(c) => Value::Double(*c),
            Value::Text(c) => Value::Text(c.clone()),
            Value::Binary(c) => Value::Binary(vstd::slice::slice_to_vec(c.as_slice())),
            Value::Timestamp(c) => Value::Timestamp(*c),
        }
    }
}

impl Value {
    /// The value as text: an integer in decimal, text as it is, a byte
    /// string as the words `Binary string`, a timestamp as chrono writes a
    /// UTC date and time. `None` for the two floating-point kinds, which
    /// are for the holder of the bits to write, and for a timestamp beyond
    /// the calendar.
    pub fn to_text(&self) -> (r: Option<String>)
        ensures
            match *self {
                Value::Int8(c) => r matches Some(t) && to_string_from_display_ensures::<i8>(&c, t),
                Value::Uint8(c) => r matches Some(t) && to_string_from_display_ensures::<u8>(&c, t),
                Value::Int16(c) => r matches Some(t) && to_string_from_display_ensures::<i16>(
                    &c,
                    t,
                ),
                Value::Uint16(c) => r matches Some(t) && to_string_from_display_ensures::<u16>(
                    &c,
                    t,
                ),
                Value::Int32(c) => r matches Some(t) && to_string_from_display_ensures::<i32>(
                    &c,
                    t,
                ),
                Value::Uint32(c) => r matches Some(t) && to_string_from_display_ensures::<u32>(
                    &c,
                    t,
                ),
                Value::Int64(c) => r matches Some(t) && to_string_from_display_ensures::<i64>(
                    &c,
                    t,
                ),
                Value::Uint64(c) => r matches Some(t) && to_string_from_display_ensures::<u64>(
                    &c,
                    t,
                ),
                Value::Float(_) => r is None,
                Value::Double(_) => r is None,
                Value::Text(c) => r matches Some(t) && t@ == c@,
                Value::Binary(_) => r matches Some(t) && t@ == "Binary string"@,
                Value::Timestamp(c) => r.deep_view() == instant_text(c.seconds, c.nanoseconds),
            },
    {
        match self {
            Value::Int8(c) => Some(c.to_string()),
            Value::Uint8(c) => Some(c.to_string()),
            Value::Int16(c) => Some(c.to_string()),
            Value::Uint16(c) => Some(c.to_string()),
            Value::Int32(c) => Some(c.to_string()),
            Value::Uint32(c) => Some(c.to_string()),
            Value::Int64(c) => Some(c.to_string()),
            Value::Uint64(c) => Some(c.to_string()),
            Value::Float(_) => None,
            Value::Double(_) => None,
            Value::Text(c) => Some(c.clone()),
            Value::Binary(_) => Some("Binary string".to_owned()),
            Value::Timestamp(c) => c.to_text(),
        }
    }
}

/// A copy of `row`.
pub fn clone_row(row: &Vec<Option<Value>>) -> (r: Vec<Option<Value>>)
    ensures
        r.deep_view() == row.deep_view(),
{
    let mut copy: Vec<Option<Value>> = Vec::new();
    let mut i: usize = 0;
    while i < row.len()
        invariant
            i <= row.len(),
            copy@.len() == i,
            forall|j: int| 0 <= j < i ==> (#[trigger] copy@[j]).deep_view() == row@[j].deep_view(),
        decreases row.len() - i,
    {
        let cell = match &row[i] {
            Some(value) => Some(value.clone()),
            None => None,
        };
        copy.push(cell);
        i += 1;
    }
    assert(copy.deep_view() =~= row.deep_view());
    copy
}

impl DeepView for Value {
    type V = ValueView;

    open spec fn deep_view(&self) -> ValueView {
        self@
    }
}

/// Whether any of the columns may hold NULL: then, and only then, a bitmap
/// precedes the cells of each row.
pub open spec fn any_nullable(columns: Seq<ColumnDescription>) -> bool {
    exists|i: int| 0 <= i < columns.len() && (#[trigger] columns[i]).is_null
}

/// The bytes of a bitmap with one bit for each of `n` columns.
pub open spec fn bitmap_len(n: nat) -> nat {
    (n + 7) / 8
}

/// The bytes of bitmap that precede the cells of each row of these columns.
pub open spec fn null_bitmap_len(columns: Seq<ColumnDescription>) -> nat {
    if any_nullable(columns) {
        bitmap_len(columns.len())
    } else {
        0
    }
}

/// Whether any of the columns may hold NULL.
pub fn has_nullable(columns: &Vec<ColumnDescription>) -> (r: bool)
    ensures
        r == any_nullable(columns@),
{
    let mut i: usize = 0;
    while i < columns.len()
        invariant
            i <= columns.len(),
            forall|j: int| 0 <= j < i ==> !(#[trigger] columns@[j]).is_null,
        decreases columns.len() - i,
    {
        if columns[i].is_null {
            return true;
        }
        i += 1;
    }
    false
}

/// The bytes of a bitmap with one bit for each of `n` columns.
pub fn bitmap_size(n: usize) -> (r: usize)
    ensures
        r == bitmap_len(n as nat),
{
    if n % 8 == 0 {
        n / 8
    } else {
        n / 8 + 1
    }
}

/// The stream of rows that follows a response: the response itself, what the
/// row decoder needs of it, and how far the stream was read.
#[derive(Debug)]
pub struct ResultSet {
    server_response: ServerResponse,
    null_bit_mask_present: bool,
    null_bit_mask_byte_size: usize,
    end_of_row: bool,
    row_count: u64,
    current_row: Option<Vec<Option<Value>>>,
}

/// [`ResultSet`] as contracts speak of it. The presence and the size of the
/// bitmap are not part of it: the columns decide both.
pub struct ResultSetView {
    pub server_response: ServerResponse,
    /// No row is left, or none was to come.
    pub end_of_row: bool,
    /// The rows handed out so far.
    pub row_count: u64,
    /// The row that was decoded last.
    pub current_row: Option<Seq<Option<ValueView>>>,
}

impl View for ResultSet {
    type V = ResultSetView;

    closed spec fn view(&self) -> ResultSetView {
        ResultSetView {
            server_response: self.server_response,
            end_of_row: self.end_of_row,
            row_count: self.row_count,
            current_row: match self.current_row {
                Some(row) => Some(row.deep_view()),
                None => None,
            },
        }
    }
}

/// The result set that a response opens: no row read yet; rows are to come
/// exactly where the response describes columns.
pub open spec fn opened(server_response: ServerResponse) -> ResultSetView {
    ResultSetView {
        server_response,
        end_of_row: server_response.column_description@.len() == 0,
        row_count: 0,
        current_row: None,
    }
}

/// Reading the next row of a result set from `input`: `true` with a row,
/// which becomes the current row and is counted; `false` at the zero row
/// length, after which no row is left; `false` at once, and without a byte
/// read, where none was left. Too few bytes and a malformed row change
/// nothing.
pub open spec fn next_row(rs: ResultSetView, input: Seq<u8>) -> (ResultSetView, Parsed<bool>) {
    if rs.end_of_row {
        (rs, Parsed::Done { value: false, consumed: 0 })
    } else {
        match row(rs.server_response.column_description@, input) {
            Parsed::Done { value: Some(cells), consumed } => (
                ResultSetView {
                    row_count: (rs.row_count + 1) as u64,
                    current_row: Some(cells),
                    ..rs
                },
                Parsed::Done { value: true, consumed },
            ),
            Parsed::Done { value: None, consumed } => (
                ResultSetView { end_of_row: true, ..rs },
                Parsed::Done { value: false, consumed },
            ),
            Parsed::Incomplete => (rs, Parsed::Incomplete),
            Parsed::Invalid => (rs, Parsed::Invalid),
        }
    }
}

/// The rows from the start of `s` up to the zero row length that ends them,
/// and the bytes that they and it take.
pub open spec fn rows(columns: Seq<ColumnDescription>, s: Seq<u8>) -> Parsed<
    Seq<Seq<Option<ValueView>>>,
>
    decreases s.len(),
    via rows_terminates
{
    match row(columns, s) {
        Parsed::Done { value: Some(cells), consumed } => after(
            seq![cells],
            consumed,
            rows(columns, s.skip(consumed as int)),
        ),
        Parsed::Done { value: None, consumed } => Parsed::Done { value: Seq::empty(), consumed },
        Parsed::Incomplete => Parsed::Incomplete,
        Parsed::Invalid => Parsed::Invalid,
    }
}

/// Each row takes at least one byte, so the rows after it are sought in a
/// shorter input.
#[via_fn]
proof fn rows_terminates(columns: Seq<ColumnDescription>, s: Seq<u8>) {
    lemma_row_consumed(columns, s);
}

/// The rows `head`, which took `taken` bytes, before what `rest` found.
pub open spec fn after(
    head: Seq<Seq<Option<ValueView>>>,
    taken: nat,
    rest: Parsed<Seq<Seq<Option<ValueView>>>>,
) -> Parsed<Seq<Seq<Option<ValueView>>>> {
    match rest {
        Parsed::Done { value, consumed } => Parsed::Done {
            value: head + value,
            consumed: taken + consumed,
        },
        Parsed::Incomplete => Parsed::Incomplete,
        Parsed::Invalid => Parsed::Invalid,
    }
}

/// Reading all the rows that are left from `input` and keeping the first:
/// the result set is drained, each row is counted, the last row becomes the
/// current row, and the first is handed out, `None` where there was no row.
/// Nothing changes unless `input` holds the rows to their end.
pub open spec fn drain(rs: ResultSetView, input: Seq<u8>) -> (
    ResultSetView,
    Parsed<Option<Seq<Option<ValueView>>>>,
) {
    if rs.end_of_row {
        (rs, Parsed::Done { value: None, consumed: 0 })
    } else {
        match rows(rs.server_response.column_description@, input) {
            Parsed::Done { value: all, consumed } => (
                ResultSetView {
                    end_of_row: true,
                    row_count: (rs.row_count + all.len()) as u64,
                    current_row: if all.len() > 0 {
                        Some(all.last())
                    } else {
                        rs.current_row
                    },
                    ..rs
                },
                Parsed::Done {
                    value: if all.len() > 0 {
                        Some(all.first())
                    } else {
                        None
                    },
                    consumed,
                },
            ),
            Parsed::Incomplete => (rs, Parsed::Incomplete),
            Parsed::Invalid => (rs, Parsed::Invalid),
        }
    }
}

/// Whether a reader's result says what `parsed` says of an optional row.
pub open spec fn agrees_on_row(
    r: Result<Option<(Option<Vec<Option<Value>>>, usize)>, DriverError>,
    parsed: Parsed<Option<Seq<Option<ValueView>>>>,
) -> bool {
    match parsed {
        Parsed::Done { value, consumed } => r matches Ok(Some((first, n))) && first.deep_view()
            == value && n == consumed,
        Parsed::Incomplete => r matches Ok(None),
        Parsed::Invalid => r matches Err(e) && e.kind == ErrorKind::Protocol,
    }
}

/// What holds of every result set that the driver makes: a response without
/// columns has no rows, and the current row has a cell for each column.
pub open spec fn consistent(rs: ResultSetView) -> bool {
    &&& rs.server_response.column_description@.len() == 0 ==> rs.end_of_row
    &&& rs.current_row matches Some(cells) ==> cells.len()
        == rs.server_response.column_description@.len()
}

impl ResultSet {
    #[verifier::type_invariant]
    spec fn well_formed(self) -> bool {
        let columns = self.server_response.column_description@;
        &&& self.null_bit_mask_present == any_nullable(columns)
        &&& self.null_bit_mask_byte_size == null_bitmap_len(columns)
        &&& consistent(self@)
    }

    /// The result set that `server_response` opens.
    pub fn new(server_response: ServerResponse) -> (r: Result<ResultSet, DriverError>)
        ensures
            r matches Ok(rs) && rs@ == opened(server_response),
    {
        let n = server_response.column_description.len();
        let present = has_nullable(&server_response.column_description);
        let size = if present {
            bitmap_size(n)
        } else {
            0
        };
        Ok(
            ResultSet {
                server_response,
                null_bit_mask_present: present,
                null_bit_mask_byte_size: size,
                end_of_row: n == 0,
                row_count: 0,
                current_row: None,
            },
        )
    }

    /// The response that opened the result set.
    pub fn server_response(&self) -> (r: &ServerResponse)
        ensures
            *r == self@.server_response,
    {
        &self.server_response
    }

    /// Whether a null bitmap precedes the cells of each row: where a column
    /// may hold NULL.
    pub fn null_bit_mask_present(&self) -> (r: bool)
        ensures
            r == any_nullable(self@.server_response.column_description@),
    {
        proof {
            use_type_invariant(self);
        }
        self.null_bit_mask_present
    }

    /// The bytes that the null bitmap of each row takes: one bit for each
    /// column, in whole bytes, where a bitmap is there; else none.
    pub fn null_bit_mask_byte_size(&self) -> (r: usize)
        ensures
            r == null_bitmap_len(self@.server_response.column_description@),
    {
        proof {
            use_type_invariant(self);
        }
        self.null_bit_mask_byte_size
    }

    /// Whether no row is left.
    pub fn end_of_row(&self) -> (r: bool)
        ensures
            r == self@.end_of_row,
    {
        self.end_of_row
    }

    /// The number of rows read so far.
    pub fn row_count(&self) -> (r: u64)
        ensures
            r == self@.row_count,
    {
        self.row_count
    }

    /// The row that was read last, where one was read.
    pub fn current_row(&self) -> (r: Option<&Vec<Option<Value>>>)
        ensures
            match r {
                Some(cells) => self@.current_row == Some(cells.deep_view()) && cells@.len()
                    == self@.server_response.column_description@.len(),
                None => self@.current_row is None,
            },
    {
        proof {
            use_type_invariant(self);
        }
        self.current_row.as_ref()
    }

    /// The number of rows that the command changed, where the server said
    /// so; else 0.
    pub fn affected_row_count(&self) -> (r: u64)
        ensures
            r == affected_rows(self@.server_response),
    {
        if self.server_response.has_affected_row_count {
            self.server_response.affected_row_count
        } else {
            0
        }
    }

    /// Reads the next row from `input`, the bytes that have arrived and
    /// were not taken yet. `Ok(None)` says that the row is not complete.
    /// Else the number says how many bytes were taken, and the flag whether
    /// a row is there; `false` means that no rows are left.
    ///
    /// The rows are counted in 64 bits: the count must have room for one
    /// more.
    pub fn next(&mut self, input: &[u8]) -> (r: Result<Option<(bool, usize)>, DriverError>)
        requires
            !old(self)@.end_of_row ==> old(self)@.row_count < u64::MAX,
        ensures
            final(self)@ == next_row(old(self)@, input@).0,
            agrees(r, next_row(old(self)@, input@).1),
    {
        proof {
            use_type_invariant(&*self);
        }
        if self.end_of_row {
            return Ok(Some((false, 0)));
        }
        let step = decode_row_with(
            &self.server_response.column_description,
            self.null_bit_mask_byte_size,
            input,
        );
        match step {
            Ok(RowStep::Row { cells, consumed }) => {
                proof {
                    lemma_row_consumed(self.server_response.column_description@, input@);
                }
                self.current_row = Some(cells);
                self.row_count = self.row_count + 1;
                Ok(Some((true, consumed)))
            },
            Ok(RowStep::End { consumed }) => {
                self.end_of_row = true;
                Ok(Some((false, consumed)))
            },
            Ok(RowStep::Incomplete) => Ok(None),
            Err(e) => Err(e),
        }
    }

    /// Reads all the rows that are left from `input` and hands out the
    /// first; the others are dropped, but for the last, which becomes the
    /// current row. `Ok(None)` says that `input` does not hold the rows to
    /// their end yet: nothing was taken, call again with more.
    ///
    /// The rows are counted in 64 bits: the count must have room for as many
    /// rows as `input` has bytes.
    pub fn query_row(&mut self, input: &[u8]) -> (r: Result<
        Option<(Option<Vec<Option<Value>>>, usize)>,
        DriverError,
    >)
        requires
            !old(self)@.end_of_row ==> old(self)@.row_count + input@.len() <= u64::MAX,
        ensures
            final(self)@ == drain(old(self)@, input@).0,
            agrees_on_row(r, drain(old(self)@, input@).1),
    {
        proof {
            use_type_invariant(&*self);
        }
        if self.end_of_row {
            return Ok(Some((None, 0)));
        }
        match read_rows(
            &self.server_response.column_description,
            self.null_bit_mask_byte_size,
            input,
        ) {
            Ok(Some(found)) => {
                if found.last.is_some() {
                    self.current_row = found.last;
                }
                self.row_count = self.row_count + found.count;
                self.end_of_row = true;
                Ok(Some((found.first, found.consumed)))
            },
            Ok(None) => Ok(None),
            Err(e) => Err(e),
        }
    }
}

/// What reading a stream of rows to its end keeps of it.
struct RowsRead {
    first: Option<Vec<Option<Value>>>,
    last: Option<Vec<Option<Value>>>,
    count: u64,
    consumed: usize,
}

impl RowsRead {
    /// Whether this is what is kept of the rows `all`, which took `consumed`
    /// bytes.
    spec fn keeps(self, all: Seq<Seq<Option<ValueView>>>, consumed: nat) -> bool {
        &&& self.count == all.len()
        &&& self.consumed == consumed
        &&& self.first.deep_view() == if all.len() > 0 {
            Some(all.first())
        } else {
            None
        }
        &&& self.last.deep_view() == if all.len() > 0 {
            Some(all.last())
        } else {
            None
        }
    }
}

/// Reads the rows at the start of `input` to their end.
fn read_rows(columns: &Vec<ColumnDescription>, bitmap_len: usize, input: &[u8]) -> (r: Result<
    Option<RowsRead>,
    DriverError,
>)
    requires
        bitmap_len == null_bitmap_len(columns@),
    ensures
        match rows(columns@, input@) {
            Parsed::Done { value, consumed } => r matches Ok(Some(found)) && found.keeps(
                value,
                consumed,
            ) && value.len() <= input@.len() && (value.len() > 0 ==> value.last().len()
                == columns@.len()),
            Parsed::Incomplete => r matches Ok(None),
            Parsed::Invalid => r matches Err(e) && e.kind == ErrorKind::Protocol,
        },
{
    let ghost all: Seq<Seq<Option<ValueView>>> = Seq::empty();
    let mut found = RowsRead { first: None, last: None, count: 0, consumed: 0 };
    proof {
        lemma_rows_start(columns@, input@);
    }
    loop
        invariant
            bitmap_len == null_bitmap_len(columns@),
            found.consumed <= input@.len(),
            found.count <= found.consumed,
            found.keeps(all, found.consumed as nat),
            all.len() > 0 ==> all.last().len() == columns@.len(),
            rows(columns@, input@) == after(
                all,
                found.consumed as nat,
                rows(columns@, input@.skip(found.consumed as int)),
            ),
        decreases input@.len() - found.consumed,
    {
        let rest = vstd::slice::slice_subrange(input, found.consumed, input.len());
        proof {
            lemma_row_consumed(columns@, rest@);
            lemma_rows_step(columns@, input@, all, found.consumed as nat);
        }
        match decode_row_with(columns, bitmap_len, rest) {
            Ok(RowStep::Row { cells, consumed }) => {
                proof {
                    all = all.push(cells.deep_view());
                }
                if found.first.is_none() {
                    found.first = Some(clone_row(&cells));
                }
                found.last = Some(cells);
                found.count = found.count + 1;
                found.consumed = found.consumed + consumed;
            },
            Ok(RowStep::End { consumed }) => {
                found.consumed = found.consumed + consumed;
                return Ok(Some(found));
            },
            Ok(RowStep::Incomplete) => {
                return Ok(None);
            },
            Err(e) => {
                return Err(e);
            },
        }
    }
}

/// Reading all rows at once is reading them one after the other: where the
/// next row is the end of the rows, both drain the result set and hand out
/// no row; where it is a row, reading all rows hands out that row and
/// leaves what reading the rest after it leaves.
pub proof fn lemma_drain_is_next_by_next(rs: ResultSetView, input: Seq<u8>)
    requires
        !rs.end_of_row,
        rs.row_count + input.len() <= u64::MAX,
    ensures
        next_row(rs, input).1 matches Parsed::Done { value: false, consumed } ==> drain(rs, input)
            == (next_row(rs, input).0, Parsed::Done { value: None::<Seq<Option<ValueView>>>, consumed }),
        next_row(rs, input).1 matches Parsed::Done { value: true, consumed } ==> ({
            let later = drain(next_row(rs, input).0, input.skip(consumed as int));
            later.1 matches Parsed::Done { consumed: more, .. } ==> drain(rs, input) == (
                later.0,
                Parsed::Done {
                    value: next_row(rs, input).0.current_row,
                    consumed: consumed + more,
                },
            )
        }),
        next_row(rs, input).1 is Incomplete ==> drain(rs, input).1 is Incomplete,
        next_row(rs, input).1 is Invalid ==> drain(rs, input).1 is Invalid,
{
    let columns = rs.server_response.column_description@;
    lemma_row_consumed(columns, input);
    if let Parsed::Done { value: Some(cells), consumed } = row(columns, input) {
        let rest = input.skip(consumed as int);
        lemma_rows_consumed(columns, rest);
        if let Parsed::Done { value: others, consumed: more } = rows(columns, rest) {
            let all = seq![cells] + others;
            assert(all.first() == cells);
            assert(others.len() > 0 ==> all.last() == others.last());
            assert(others.len() == 0 ==> all.last() == cells);
        }
    }
}

/// The rows that were read lie within the input, and each has a cell for
/// each column.
pub proof fn lemma_rows_consumed(columns: Seq<ColumnDescription>, s: Seq<u8>)
    ensures
        rows(columns, s) matches Parsed::Done { value, consumed } ==> 1 <= consumed <= s.len()
            && value.len() < consumed && forall|i: int|
            0 <= i < value.len() ==> (#[trigger] value[i]).len() == columns.len(),
    decreases s.len(),
{
    lemma_row_consumed(columns, s);
    if let Parsed::Done { value: Some(cells), consumed } = row(columns, s) {
        lemma_rows_consumed(columns, s.skip(consumed as int));
    }
}

/// Before any row was read, all rows are still to come.
proof fn lemma_rows_start(columns: Seq<ColumnDescription>, s: Seq<u8>)
    ensures
        rows(columns, s) == after(Seq::empty(), 0, rows(columns, s.skip(0))),
{
    assert(s.skip(0) =~= s);
    if let Parsed::Done { value, .. } = rows(columns, s) {
        assert(Seq::<Seq<Option<ValueView>>>::empty() + value =~= value);
    }
}

/// One more row read: where the rows `all` were read in `pos` bytes, the
/// next row joins them, the end of the rows ends them, and what stops the
/// next row stops the rows.
proof fn lemma_rows_step(
    columns: Seq<ColumnDescription>,
    s: Seq<u8>,
    all: Seq<Seq<Option<ValueView>>>,
    pos: nat,
)
    requires
        pos <= s.len(),
        rows(columns, s) == after(all, pos, rows(columns, s.skip(pos as int))),
    ensures
        match row(columns, s.skip(pos as int)) {
            Parsed::Done { value: Some(cells), consumed } => rows(columns, s) == after(
                all.push(cells),
                pos + consumed,
                rows(columns, s.skip((pos + consumed) as int)),
            ),
            Parsed::Done { value: None, consumed } => rows(columns, s) == (Parsed::Done {
                value: all,
                consumed: pos + consumed,
            }),
            Parsed::Incomplete => rows(columns, s) == Parsed::<
                Seq<Seq<Option<ValueView>>>,
            >::Incomplete,
            Parsed::Invalid => rows(columns, s) == Parsed::<Seq<Seq<Option<ValueView>>>>::Invalid,
        },
{
    let rest = s.skip(pos as int);
    lemma_row_consumed(columns, rest);
    match row(columns, rest) {
        Parsed::Done { value: Some(cells), consumed } => {
            let tail = rows(columns, rest.skip(consumed as int));
            assert(rest.skip(consumed as int) =~= s.skip((pos + consumed) as int));
            assert(rows(columns, rest) == after(seq![cells], consumed, tail));
            if let Parsed::Done { value, .. } = tail {
                assert(all + (seq![cells] + value) =~= all.push(cells) + value);
            }
        },
        Parsed::Done { value: None, consumed } => {
            assert(all + Seq::<Seq<Option<ValueView>>>::empty() =~= all);
        },
        _ => {},
    }
}

/// The number of rows that a response says were changed; 0 where it does
/// not say.
pub open spec fn affected_rows(response: ServerResponse) -> u64 {
    if response.has_affected_row_count {
        response.affected_row_count
    } else {
        0
    }
}

} // verus!
