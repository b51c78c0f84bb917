//! Byte-level building blocks: little-endian words (through `byteorder`) and
//! zlib streams (through `flate2`).

use byteorder::{ByteOrder, LittleEndian, ReadBytesExt};
use flate2::read::ZlibDecoder;
use flate2::write::ZlibEncoder;
use flate2::Compression;
use std::io::{Read, Write};
use vstd::prelude::*;

verus! {

#[verifier::external_type_specification]
#[verifier::external_body]
pub struct ExIoError(std::io::Error);

/// The `u32` whose little-endian encoding is the first four bytes of `b`.
pub open spec fn le_u32(b: Seq<u8>) -> u32 {
    (b[0] as u32) | ((b[1] as u32) << 8u32) | ((b[2] as u32) << 16u32) | ((b[3] as u32) << 24u32)
}

/// The `u32` whose big-endian encoding is the first four bytes of `b`.
pub open spec fn be_u32(b: Seq<u8>) -> u32 {
    (b[3] as u32) | ((b[2] as u32) << 8u32) | ((b[1] as u32) << 16u32) | ((b[0] as u32) << 24u32)
}

/// The little-endian encoding of `n`.
pub open spec fn u32_le_bytes(n: u32) -> Seq<u8> {
    seq![n as u8, (n >> 8u32) as u8, (n >> 16u32) as u8, (n >> 24u32) as u8]
}

/// The big-endian encoding of `n`.
pub open spec fn u32_be_bytes(n: u32) -> Seq<u8> {
    seq![(n >> 24u32) as u8, (n >> 16u32) as u8, (n >> 8u32) as u8, n as u8]
}

/// Decoding the little-endian encoding of `n` gives `n` back.
pub proof fn lemma_le_u32_of_le_bytes(n: u32)
    ensures
        le_u32(u32_le_bytes(n)) == n,
{
    let b = u32_le_bytes(n);
    assert(b[0] == n as u8 && b[1] == (n >> 8u32) as u8 && b[2] == (n >> 16u32) as u8 && b[3] == (
    n >> 24u32) as u8);
    assert(((n as u8) as u32) | ((((n >> 8u32) as u8) as u32) << 8u32) | ((((n >> 16u32) as u8)
        as u32) << 16u32) | ((((n >> 24u32) as u8) as u32) << 24u32) == n) by (bit_vector);
}

/// The little-endian word at `at` in `b`.
pub fn le_word(b: &[u8], at: usize) -> (w: u32)
    requires
        at + 4 <= b.len(),
    ensures
        w == le_u32(b@.subrange(at as int, at + 4)),
{
    let w = (b[at] as u32) | ((b[at + 1] as u32) << 8u32) | ((b[at + 2] as u32) << 16u32) | ((b[at
        + 3] as u32) << 24u32);
    let ghost sub = b@.subrange(at as int, at + 4);
    assert(sub[0] == b@[at as int] && sub[1] == b@[at + 1] && sub[2] == b@[at + 2] && sub[3] == b@[at
        + 3]);
    w
}

/// The big-endian word at `at` in `b`.
pub fn be_word(b: &[u8], at: usize) -> (w: u32)
    requires
        at + 4 <= b.len(),
    ensures
        w == be_u32(b@.subrange(at as int, at + 4)),
{
    let w = (b[at + 3] as u32) | ((b[at + 2] as u32) << 8u32) | ((b[at + 1] as u32) << 16u32) | ((
    b[at] as u32) << 24u32);
    let ghost sub = b@.subrange(at as int, at + 4);
    assert(sub[0] == b@[at as int] && sub[1] == b@[at + 1] && sub[2] == b@[at + 2] && sub[3] == b@[at
        + 3]);
    w
}

/// What `flate2`'s zlib decoder yields when it reads `data` to the end:
/// `Some` of the decoded bytes, or `None` where it reports an error.
pub uninterp spec fn zlib_inflate(data: Seq<u8>) -> Option<Seq<u8>>;

/// What `flate2`'s zlib encoder yields for `data` at compression level
/// `level`: `Some` of the complete zlib stream, or `None` where it reports an
/// error.
pub uninterp spec fn zlib_compress(data: Seq<u8>, level: u8) -> Option<Seq<u8>>;

/// Inflates a zlib stream with `flate2::read::ZlibDecoder`, read to the end.
/// Trusted: the outcome is `zlib_inflate` of the input.
#[verifier::external_body]
pub fn inflate_zlib_payload(payload: &[u8]) -> (r: Result<Vec<u8>, std::io::Error>)
    ensures
        match r {
            Ok(v) => zlib_inflate(payload@) == Some(v@),
            Err(_) => zlib_inflate(payload@) is None,
        },
{
    let mut decoder = ZlibDecoder::new(payload);
    let mut decoded = Vec::new();
    decoder.read_to_end(&mut decoded)?;
    Ok(decoded)
}

/// Compresses `data` into a complete zlib stream with
/// `flate2::write::ZlibEncoder` (`write_all`, then `finish`) at
/// `Compression::new(level)`.  Trusted: the outcome is `zlib_compress` of the
/// input; it succeeds (the sink is a `Vec`, whose writes do not fail, and
/// flate2 drives miniz_oxide only in the order its `deflate` accepts); and
/// the decoder gives the input back from the stream.
/// `flate2` asserts in debug builds that the level is at most 10.
#[verifier::external_body]
pub fn deflate_zlib(data: &[u8], level: u8) -> (r: Result<Vec<u8>, std::io::Error>)
    requires
        level <= 10,
    ensures
        r is Ok,
        match r {
            Ok(v) => zlib_compress(data@, level) == Some(v@) && zlib_inflate(v@) == Some(data@),
            Err(_) => zlib_compress(data@, level) is None,
        },
{
    let mut encoder = ZlibEncoder::new(Vec::new(), Compression::new(level as u32));
    encoder.write_all(data)?;
    encoder.finish()
}

/// Reads a `u32` from the front of `data` with
/// `byteorder::ReadBytesExt::read_u32::<LittleEndian>`.  Trusted: it fails
/// exactly when fewer than four bytes are there, and otherwise returns their
/// little-endian value.
#[verifier::external_body]
pub fn read_u32_le(data: &[u8]) -> (r: Result<u32, std::io::Error>)
    ensures
        r is Ok <==> data@.len() >= 4,
        r matches Ok(v) ==> v == le_u32(data@),
{
    let mut reader: &[u8] = data;
    reader.read_u32::<LittleEndian>()
}

/// Encodes `n` with `byteorder::ByteOrder::write_u32` for `LittleEndian`.
/// Trusted: the four bytes are the little-endian encoding of `n`.
#[verifier::external_body]
pub fn write_u32_le(n: u32) -> (r: Vec<u8>)
    ensures
        r@ == u32_le_bytes(n),
{
    let mut buf = [0u8; 4];
    LittleEndian::write_u32(&mut buf, n);
    buf.to_vec()
}

} // verus!
