//! The frame codec: the fixed eight-byte header in front of every payload.
//!
//! A header is the opcode followed by the payload length, each an unsigned
//! 32-bit integer in little-endian byte order.

use vstd::prelude::*;
use crate::error::{Error, Failure};

verus! {

/// The size of a header in bytes.
pub const HEADER_LEN: usize = 8;

/// The four bytes of `x`, least significant first.
pub open spec fn le_bytes(x: u32) -> Seq<u8> {
    seq![
        (x % 256) as u8,
        ((x / 256) % 256) as u8,
        ((x / 65536) % 256) as u8,
        (x / 16777216) as u8,
    ]
}

/// The number whose little-endian bytes are the first four of `bytes`.
pub open spec fn le_value(bytes: Seq<u8>) -> u32
    recommends
        bytes.len() >= 4,
{
    (bytes[0] + 256 * bytes[1] + 65536 * bytes[2] + 16777216 * bytes[3]) as u32
}

/// The header of a frame with this opcode and payload length.
pub open spec fn header_bytes(opcode: u32, length: u32) -> Seq<u8> {
    le_bytes(opcode) + le_bytes(length)
}

/// The opcode and the payload length that the first eight of `bytes` hold.
pub open spec fn header_fields(bytes: Seq<u8>) -> (u32, u32)
    recommends
        bytes.len() >= 8,
{
    (le_value(bytes.subrange(0, 4)), le_value(bytes.subrange(4, 8)))
}

/// What `unpack` makes of `bytes`.
pub open spec fn unpacked(bytes: Seq<u8>) -> Result<(u32, u32), Failure> {
    if bytes.len() < 8 {
        Err(Failure::MalformedHeader)
    } else {
        Ok(header_fields(bytes))
    }
}

/// Appends the little-endian bytes of `x` to `out`.
fn push_le(out: &mut Vec<u8>, x: u32)
    ensures
        final(out)@ == old(out)@ + le_bytes(x),
{
    out.push((x % 256) as u8);
    out.push(((x / 256) % 256) as u8);
    out.push(((x / 65536) % 256) as u8);
    out.push((x / 16777216) as u8);
    assert(out@ =~= old(out)@ + le_bytes(x));
}

/// Reads the little-endian number at `data[at..at + 4]`.
fn read_le(data: &Vec<u8>, at: usize) -> (x: u32)
    requires
        at + 4 <= data.len(),
    ensures
        x == le_value(data@.subrange(at as int, at + 4)),
{
    let b0: u32 = data[at] as u32;
    let b1: u32 = data[at + 1] as u32;
    let b2: u32 = data[at + 2] as u32;
    let b3: u32 = data[at + 3] as u32;
    b0 + 256 * b1 + 65536 * b2 + 16777216 * b3
}

/// Serialises an opcode and a payload length into the eight-byte header.
pub fn pack(opcode: u32, data_len: u32) -> (bytes: Vec<u8>)
    ensures
        bytes@ == header_bytes(opcode, data_len),
        bytes@.len() == 8,
{
    let mut bytes: Vec<u8> = Vec::new();
    push_le(&mut bytes, opcode);
    push_le(&mut bytes, data_len);
    assert(bytes@ =~= header_bytes(opcode, data_len));
    bytes
}

/// Parses a header back into its opcode and payload length.
///
/// Fails with `MalformedHeader` exactly when fewer than eight bytes are
/// given; bytes after the eighth are not looked at.
pub fn unpack(data: Vec<u8>) -> (fields: Result<(u32, u32), Error>)
    ensures
        match fields {
            Ok(pair) => unpacked(data@) == Ok::<(u32, u32), Failure>(pair),
            Err(e) => unpacked(data@) == Err::<(u32, u32), Failure>(e@),
        },
{
    if data.len() < HEADER_LEN {
        return Err(Error::MalformedHeader);
    }
    let opcode: u32 = read_le(&data, 0);
    let length: u32 = read_le(&data, 4);
    assert(data@.subrange(0, 4) =~= data@.subrange(0, 8).subrange(0, 4));
    assert(data@.subrange(4, 8) =~= data@.subrange(0, 8).subrange(4, 8));
    Ok((opcode, length))
}

/// The bytes of a number give the number back.
pub proof fn lemma_le_round_trip(x: u32)
    ensures
        le_bytes(x).len() == 4,
        le_value(le_bytes(x)) == x,
{
}

/// Four bytes are the bytes of the number they give.
pub proof fn lemma_le_bytes_of_value(bytes: Seq<u8>)
    requires
        bytes.len() == 4,
    ensures
        le_bytes(le_value(bytes)) == bytes,
{
    let b0: int = bytes[0] as int;
    let b1: int = bytes[1] as int;
    let b2: int = bytes[2] as int;
    let b3: int = bytes[3] as int;
    let v: int = b0 + 256 * b1 + 65536 * b2 + 16777216 * b3;
    assert(v == le_value(bytes));
    assert(v % 256 == b0 && v / 256 == b1 + 256 * b2 + 65536 * b3);
    assert((v / 256) % 256 == b1 && v / 65536 == b2 + 256 * b3);
    assert((v / 65536) % 256 == b2 && v / 16777216 == b3);
    assert(le_bytes(le_value(bytes)) =~= bytes);
}

/// Unpacking a packed header gives back the opcode and the length, for every
/// pair of 32-bit values.
pub proof fn lemma_unpack_pack(opcode: u32, length: u32)
    ensures
        header_bytes(opcode, length).len() == 8,
        unpacked(header_bytes(opcode, length)) == Ok::<(u32, u32), Failure>((opcode, length)),
{
    lemma_le_round_trip(opcode);
    lemma_le_round_trip(length);
    let h = header_bytes(opcode, length);
    assert(h.subrange(0, 4) =~= le_bytes(opcode));
    assert(h.subrange(4, 8) =~= le_bytes(length));
}

/// Packing what eight bytes unpack to gives the eight bytes back.
pub proof fn lemma_pack_unpack(bytes: Seq<u8>)
    requires
        bytes.len() == 8,
    ensures
        header_bytes(header_fields(bytes).0, header_fields(bytes).1) == bytes,
{
    lemma_le_bytes_of_value(bytes.subrange(0, 4));
    lemma_le_bytes_of_value(bytes.subrange(4, 8));
    assert(bytes.subrange(0, 4) + bytes.subrange(4, 8) =~= bytes);
}

/// Shorter than eight bytes is never a header.
pub proof fn lemma_unpack_short(bytes: Seq<u8>)
    requires
        bytes.len() < 8,
    ensures
        unpacked(bytes) == Err::<(u32, u32), Failure>(Failure::MalformedHeader),
{
}

} // verus!
