//! The primitive encodings of the wire: base-128 varints, fixed-width
//! little-endian integers and runs of raw bytes.
//!
//! Every reader looks at the bytes that are left of the input and says what it
//! found and how many bytes that took, or that the input ends too early, or
//! that no such value starts there.

use vstd::prelude::*;

verus! {

/// What reading a value at the start of a byte sequence gives.
pub enum Parsed<T> {
    /// The value, and the number of bytes it took.
    Done { value: T, consumed: nat },
    /// The bytes end before the value does: more input may complete it.
    Incomplete,
    /// No value starts here, whatever follows.
    Invalid,
}

impl<T> Parsed<T> {
    /// The same outcome, with `f` applied to the value.
    pub open spec fn map<U>(self, f: spec_fn(T) -> U) -> Parsed<U> {
        match self {
            Parsed::Done { value, consumed } => Parsed::Done { value: f(value), consumed },
            Parsed::Incomplete => Parsed::Incomplete,
            Parsed::Invalid => Parsed::Invalid,
        }
    }
}

/// [`Parsed`] as executable code holds it.
#[derive(Debug)]
pub enum Scan<T> {
    Done(T, usize),
    Incomplete,
    Invalid,
}

impl<T: View> View for Scan<T> {
    type V = Parsed<T::V>;

    open spec fn view(&self) -> Parsed<T::V> {
        match *self {
            Scan::Done(value, consumed) => Parsed::Done { value: value@, consumed: consumed as nat },
            Scan::Incomplete => Parsed::Incomplete,
            Scan::Invalid => Parsed::Invalid,
        }
    }
}

/// The longest varint that is read: ten bytes carry seventy bits.
pub open spec fn max_varint_len() -> nat {
    10
}

/// The number that a varint at the start of `s` spells, before it is cut to
/// a machine width. Each byte gives its low seven bits, least significant
/// group first; the first byte below 128 ends the number. At most `room`
/// bytes are looked at.
pub open spec fn varint_scan(s: Seq<u8>, room: nat) -> Parsed<nat>
    decreases room,
{
    if room == 0 {
        Parsed::Invalid
    } else if s.len() == 0 {
        Parsed::Incomplete
    } else if s[0] < 128 {
        Parsed::Done { value: s[0] as nat, consumed: 1 }
    } else {
        match varint_scan(s.drop_first(), (room - 1) as nat) {
            Parsed::Done { value, consumed } => Parsed::Done {
                value: ((s[0] - 128) + 128 * value) as nat,
                consumed: consumed + 1,
            },
            Parsed::Incomplete => Parsed::Incomplete,
            Parsed::Invalid => Parsed::Invalid,
        }
    }
}

/// A varint read as 64 bits: bits from the seventieth down to the
/// sixty-fifth are dropped.
pub open spec fn varint64(s: Seq<u8>) -> Parsed<u64> {
    match varint_scan(s, max_varint_len()) {
        Parsed::Done { value, consumed } => Parsed::Done {
            value: (value % 0x1_0000_0000_0000_0000) as u64,
            consumed,
        },
        Parsed::Incomplete => Parsed::Incomplete,
        Parsed::Invalid => Parsed::Invalid,
    }
}

/// A varint read as 32 bits: the low 32 bits of the number.
pub open spec fn varint32(s: Seq<u8>) -> Parsed<u32> {
    match varint_scan(s, max_varint_len()) {
        Parsed::Done { value, consumed } => Parsed::Done {
            value: (value % 0x1_0000_0000) as u32,
            consumed,
        },
        Parsed::Incomplete => Parsed::Incomplete,
        Parsed::Invalid => Parsed::Invalid,
    }
}

/// The shortest varint that spells `v`.
pub open spec fn varint_bytes(v: nat) -> Seq<u8>
    decreases v,
{
    if v < 128 {
        seq![v as u8]
    } else {
        seq![(v % 128 + 128) as u8] + varint_bytes(v / 128)
    }
}

/// The first `count` bytes of `s`.
pub open spec fn raw_bytes(s: Seq<u8>, count: nat) -> Parsed<Seq<u8>> {
    if count <= s.len() {
        Parsed::Done { value: s.take(count as int), consumed: count }
    } else {
        Parsed::Incomplete
    }
}

/// The number whose little-endian bytes are the first two of `s`.
pub open spec fn le16(s: Seq<u8>) -> nat {
    (s[0] + 256 * s[1]) as nat
}

/// The number whose little-endian bytes are the first four of `s`.
pub open spec fn le32(s: Seq<u8>) -> nat {
    (s[0] + 0x100 * s[1] + 0x1_0000 * s[2] + 0x100_0000 * s[3]) as nat
}

/// The number whose little-endian bytes are the first eight of `s`.
pub open spec fn le64(s: Seq<u8>) -> nat {
    (le32(s) + 0x1_0000_0000 * le32(s.skip(4))) as nat
}

/// Four bytes read as a little-endian number.
pub open spec fn fixed32(s: Seq<u8>) -> Parsed<u32> {
    if s.len() >= 4 {
        Parsed::Done { value: le32(s) as u32, consumed: 4 }
    } else {
        Parsed::Incomplete
    }
}

/// Eight bytes read as a little-endian number.
pub open spec fn fixed64(s: Seq<u8>) -> Parsed<u64> {
    if s.len() >= 8 {
        Parsed::Done { value: le64(s) as u64, consumed: 8 }
    } else {
        Parsed::Incomplete
    }
}

/// Whether `v` has at most `k` groups of seven bits.
pub open spec fn fits_groups(v: nat, k: nat) -> bool
    decreases k,
{
    k > 0 && (v < 128 || fits_groups(v / 128, (k - 1) as nat))
}

/// A number of at most `k` groups is spelled with at most `k` bytes, and
/// never with none.
pub proof fn lemma_varint_bytes_len(v: nat, k: nat)
    requires
        fits_groups(v, k),
    ensures
        1 <= varint_bytes(v).len() <= k,
    decreases k,
{
    if v >= 128 {
        lemma_varint_bytes_len(v / 128, (k - 1) as nat);
    }
}

/// A 32-bit number takes at most five bytes, a 64-bit number at most ten.
pub proof fn lemma_varint_bytes_bounds(v: nat)
    ensures
        1 <= varint_bytes(v).len(),
        v <= u32::MAX ==> varint_bytes(v).len() <= 5,
        v <= u64::MAX ==> varint_bytes(v).len() <= 10,
{
    reveal_with_fuel(fits_groups, 11);
    if v <= u32::MAX {
        lemma_varint_bytes_len(v, 5);
    }
    if v <= u64::MAX {
        lemma_varint_bytes_len(v, 10);
    } else {
        assert(1 <= varint_bytes(v).len());
    }
}

/// Reading back what was written: the varint of `v`, followed by anything,
/// scans as `v` and takes exactly its own bytes, given room for them.
pub proof fn lemma_varint_scan_of_bytes(v: nat, rest: Seq<u8>, room: nat)
    requires
        varint_bytes(v).len() <= room,
    ensures
        varint_scan(varint_bytes(v) + rest, room) == (Parsed::Done {
            value: v,
            consumed: varint_bytes(v).len(),
        }),
    decreases v,
{
    let s = varint_bytes(v) + rest;
    if v < 128 {
        assert(s[0] == v as u8);
    } else {
        let tail = varint_bytes(v / 128);
        assert(s[0] == (v % 128 + 128) as u8);
        assert(s.drop_first() =~= tail + rest);
        lemma_varint_scan_of_bytes(v / 128, rest, (room - 1) as nat);
    }
}

/// Every 32-bit number is read back from its varint, whatever follows it.
pub proof fn lemma_varint32_round_trip(v: u32, rest: Seq<u8>)
    ensures
        varint32(varint_bytes(v as nat) + rest) == (Parsed::Done {
            value: v,
            consumed: varint_bytes(v as nat).len(),
        }),
{
    lemma_varint_bytes_bounds(v as nat);
    lemma_varint_scan_of_bytes(v as nat, rest, max_varint_len());
}

/// Every 64-bit number is read back from its varint, whatever follows it.
pub proof fn lemma_varint64_round_trip(v: u64, rest: Seq<u8>)
    ensures
        varint64(varint_bytes(v as nat) + rest) == (Parsed::Done {
            value: v,
            consumed: varint_bytes(v as nat).len(),
        }),
{
    lemma_varint_bytes_bounds(v as nat);
    lemma_varint_scan_of_bytes(v as nat, rest, max_varint_len());
}

/// A varint that was read took between one and ten bytes, all of them in the
/// input.
pub proof fn lemma_varint_scan_consumed(s: Seq<u8>, room: nat)
    ensures
        varint_scan(s, room) matches Parsed::Done { consumed, .. } ==> 1 <= consumed <= room
            && consumed <= s.len(),
    decreases room,
{
    if room > 0 && s.len() > 0 && s[0] >= 128 {
        lemma_varint_scan_consumed(s.drop_first(), (room - 1) as nat);
    }
}

/// `protobuf::CodedInputStream::read_raw_varint64`, on the stream that
/// `CodedInputStream::from_bytes` makes of `input`. The contract claims that
/// it reads up to ten bytes, stops at the first one below 128, joins the
/// seven-bit groups with the first as the lowest and drops what does not fit
/// in 64 bits; that ten bytes with the high bit set are refused as an
/// incorrect varint; and that an input that ends before either is reported
/// as an unexpected end. The count is what `CodedInputStream::pos` gives
/// after the read: the bytes that were read.
#[verifier::external_body]
pub(crate) fn read_raw_varint64(input: &[u8]) -> (r: Scan<u64>)
    ensures
        r@ == varint64(input@),
{
    let mut stream = protobuf::CodedInputStream::from_bytes(input);
    match stream.read_raw_varint64() {
        Ok(value) => Scan::Done(value, stream.pos() as usize),
        Err(protobuf::ProtobufError::WireError(protobuf::error::WireError::IncorrectVarint)) => {
            Scan::Invalid
        },
        Err(_) => Scan::Incomplete,
    }
}

/// `protobuf::CodedInputStream::read_raw_varint32`, on the stream that
/// `CodedInputStream::from_bytes` makes of `input`, with the count that
/// `CodedInputStream::pos` gives after the read. The contract claims that it
/// reads a varint as `read_raw_varint64` does and keeps the low 32 bits.
#[verifier::external_body]
pub(crate) fn read_raw_varint32(input: &[u8]) -> (r: Scan<u32>)
    ensures
        r@ == varint32(input@),
{
    let mut stream = protobuf::CodedInputStream::from_bytes(input);
    match stream.read_raw_varint32() {
        Ok(value) => Scan::Done(value, stream.pos() as usize),
        Err(protobuf::ProtobufError::WireError(protobuf::error::WireError::IncorrectVarint)) => {
            Scan::Invalid
        },
        Err(_) => Scan::Incomplete,
    }
}

/// `protobuf::CodedInputStream::read_raw_bytes`, on the stream that
/// `CodedInputStream::from_bytes` makes of `input`, with the count that
/// `CodedInputStream::pos` gives after the read. The contract claims that it
/// returns the first `count` bytes, and an error where the input holds
/// fewer.
#[verifier::external_body]
pub(crate) fn read_raw_bytes(input: &[u8], count: u32) -> (r: Scan<Vec<u8>>)
    ensures
        r@ == raw_bytes(input@, count as nat),
{
    let mut stream = protobuf::CodedInputStream::from_bytes(input);
    match stream.read_raw_bytes(count) {
        Ok(bytes) => Scan::Done(bytes, stream.pos() as usize),
        Err(_) => Scan::Incomplete,
    }
}

/// The first `count` bytes of `input`, where it holds that many.
pub fn take_bytes(input: &[u8], count: usize) -> (r: Scan<Vec<u8>>)
    ensures
        r@ == raw_bytes(input@, count as nat),
{
    if count <= u32::MAX as usize {
        read_raw_bytes(input, count as u32)
    } else if count <= input.len() {
        let head = vstd::slice::slice_subrange(input, 0, count);
        assert(head@ == input@.take(count as int));
        Scan::Done(vstd::slice::slice_to_vec(head), count)
    } else {
        Scan::Incomplete
    }
}

/// `protobuf::CodedInputStream::read_raw_little_endian32`, on the stream
/// that `CodedInputStream::from_bytes` makes of `input`, with the count that
/// `CodedInputStream::pos` gives after the read. The contract claims that it
/// reads four bytes as a little-endian number, and fails where the input
/// holds fewer.
#[verifier::external_body]
pub(crate) fn read_raw_little_endian32(input: &[u8]) -> (r: Scan<u32>)
    ensures
        r@ == fixed32(input@),
{
    let mut stream = protobuf::CodedInputStream::from_bytes(input);
    match stream.read_raw_little_endian32() {
        Ok(value) => Scan::Done(value, stream.pos() as usize),
        Err(_) => Scan::Incomplete,
    }
}

/// `protobuf::CodedInputStream::read_raw_little_endian64`, on the stream
/// that `CodedInputStream::from_bytes` makes of `input`, with the count that
/// `CodedInputStream::pos` gives after the read. The contract claims that it
/// reads eight bytes as a little-endian number, and fails where the input
/// holds fewer.
#[verifier::external_body]
pub(crate) fn read_raw_little_endian64(input: &[u8]) -> (r: Scan<u64>)
    ensures
        r@ == fixed64(input@),
{
    let mut stream = protobuf::CodedInputStream::from_bytes(input);
    match stream.read_raw_little_endian64() {
        Ok(value) => Scan::Done(value, stream.pos() as usize),
        Err(_) => Scan::Incomplete,
    }
}

/// `byteorder::LittleEndian::read_u16`. The contract claims that it reads the
/// first two bytes as a little-endian number; it panics on a shorter slice.
#[verifier::external_body]
pub(crate) fn read_u16(buf: &[u8]) -> (r: u16)
    requires
        buf@.len() >= 2,
    ensures
        r == le16(buf@),
{
    <byteorder::LittleEndian as byteorder::ByteOrder>::read_u16(buf)
}

/// `byteorder::LittleEndian::read_i16`. The contract claims that it reads the
/// first two bytes as a little-endian number in two's complement; it panics
/// on a shorter slice.
#[verifier::external_body]
pub(crate) fn read_i16(buf: &[u8]) -> (r: i16)
    requires
        buf@.len() >= 2,
    ensures
        r == le16(buf@) as u16 as i16,
{
    <byteorder::LittleEndian as byteorder::ByteOrder>::read_i16(buf)
}

/// `protobuf::CodedOutputStream::write_raw_varint32`, on the stream that
/// `CodedOutputStream::vec` makes of `out`, and `CodedOutputStream::flush`
/// after it. The contract claims that the shortest varint of `value` is
/// appended to `out`; neither call fails on a vector.
#[verifier::external_body]
pub(crate) fn write_raw_varint32(out: &mut Vec<u8>, value: u32)
    ensures
        final(out)@ == old(out)@ + varint_bytes(value as nat),
{
    let mut stream = protobuf::CodedOutputStream::vec(out);
    stream.write_raw_varint32(value).expect("a vector takes every write");
    stream.flush().expect("a vector takes every write");
}

/// `protobuf::CodedOutputStream::write_raw_bytes`, on the stream that
/// `CodedOutputStream::vec` makes of `out`, and `CodedOutputStream::flush`
/// after it. The contract claims that `bytes` are appended to `out` as they
/// are; neither call fails on a vector.
#[verifier::external_body]
pub(crate) fn write_raw_bytes(out: &mut Vec<u8>, bytes: &[u8])
    ensures
        final(out)@ == old(out)@ + bytes@,
{
    let mut stream = protobuf::CodedOutputStream::vec(out);
    stream.write_raw_bytes(bytes).expect("a vector takes every write");
    stream.flush().expect("a vector takes every write");
}

} // verus!
