//! The framing of the profile's compressed files: eight magic bytes, the
//! length of the decompressed data as a little-endian 32-bit number, and
//! one compressed block.

use vstd::prelude::*;
use crate::events::storage::{append_bytes, copy_range};

verus! {

/// The magic bytes, `mozLz40` and a zero byte.
pub open spec fn mozlz4_magic() -> Seq<u8> {
    seq![0x6du8, 0x6fu8, 0x7au8, 0x4cu8, 0x7au8, 0x34u8, 0x30u8, 0x00u8]
}

/// The longest block that is handed to the decoder. A length inside a
/// block is the sum of its length bytes, which the decoder adds up in 32
/// bits; no block of up to this many bytes can make that sum overflow.
pub const MAX_BLOCK_LEN: usize = 16_843_009;

/// What an LZ4 block decodes to when `size` bytes are set aside for the
/// result; none where the block is malformed or decodes to more bytes.
pub uninterp spec fn lz4_decompressed(block: Seq<u8>, size: u32) -> Option<Seq<u8>>;

/// Compresses bytes into one LZ4 block.
///
/// Trusted: calls `lz4_flex::compress`. Which block comes back depends on
/// the machine (the encoder picks its hash by pointer width and byte
/// order), so the block gets no name: the contract states what holds of
/// every block that comes back. It decodes to the bytes again when their
/// number is set aside for the result, and it is no longer than the
/// buffer that the encoder allocates for it.
#[verifier::external_body]
pub(crate) fn lz4_compress(data: &[u8]) -> (block: Vec<u8>)
    requires
        data@.len() <= u32::MAX,
    ensures
        lz4_decompressed(block@, data@.len() as u32) == Some(data@),
        block@.len() <= 20 + data@.len() * 110 / 100,
{
    lz4_flex::compress(data)
}

/// Decodes one LZ4 block into at most `size` bytes.
///
/// Trusted: calls `lz4_flex::decompress`, in the bounds-checked decoder
/// that the crate builds by default, which answers a malformed block and
/// a result that does not fit with an error. The contract names the
/// outcome, which depends on the block and the size alone. Blocks beyond
/// `MAX_BLOCK_LEN` are left out: on them the decoder's sum of length
/// bytes can overflow.
#[verifier::external_body]
pub(crate) fn lz4_decompress(block: &[u8], size: u32) -> (r: Option<Vec<u8>>)
    requires
        block@.len() <= MAX_BLOCK_LEN,
    ensures
        r.deep_view() == lz4_decompressed(block@, size),
{
    lz4_flex::decompress(block, size as usize).ok()
}

/// Why bytes are no framed file.
#[derive(Debug, Clone, Copy, PartialEq, Eq, Structural)]
pub enum Mozlz4Error {
    /// The bytes end inside the header.
    TooShort,
    /// The magic bytes are missing.
    BadMagic,
    /// The block is longer than `MAX_BLOCK_LEN`.
    BlockTooLong,
    /// The block is malformed, or decodes to more bytes than the header
    /// announces.
    Corrupt,
}

/// The four bytes of a 32-bit number, least significant first.
pub open spec fn le_bytes(n: u32) -> Seq<u8> {
    seq![
        (n & 0xff) as u8,
        ((n >> 8) & 0xff) as u8,
        ((n >> 16) & 0xff) as u8,
        ((n >> 24) & 0xff) as u8,
    ]
}

/// The 32-bit number that four bytes stand for, least significant first.
pub open spec fn le_number(b: Seq<u8>) -> u32 {
    (b[0] as u32) | ((b[1] as u32) << 8) | ((b[2] as u32) << 16) | ((b[3] as u32) << 24)
}

/// The number that four bytes stand for is the number that they were
/// made from.
pub proof fn lemma_le_round_trip(n: u32)
    ensures
        le_number(le_bytes(n)) == n,
{
    assert(((n & 0xff) as u8 as u32) | (((n >> 8) & 0xff) as u8 as u32) << 8 | (((n >> 16)
        & 0xff) as u8 as u32) << 16 | (((n >> 24) & 0xff) as u8 as u32) << 24 == n)
        by (bit_vector);
}

/// What a framed file holds: the bytes that its block decodes to within
/// the length that its header announces, or the reason why it holds
/// none.
pub open spec fn mozlz4_decoded(data: Seq<u8>) -> Result<Seq<u8>, Mozlz4Error> {
    if data.len() < 12 {
        Err(Mozlz4Error::TooShort)
    } else if data.subrange(0, 8) != mozlz4_magic() {
        Err(Mozlz4Error::BadMagic)
    } else if data.len() - 12 > MAX_BLOCK_LEN {
        Err(Mozlz4Error::BlockTooLong)
    } else {
        match lz4_decompressed(data.subrange(12, data.len() as int), le_number(data.subrange(8, 12))) {
            Some(bytes) => Ok(bytes),
            None => Err(Mozlz4Error::Corrupt),
        }
    }
}

/// The header of a framed file: the announced length of the decompressed
/// data and the compressed block.
pub struct Mozlz4Frame {
    pub decompressed_size: u32,
    pub block: Vec<u8>,
}

/// Frames `data`: magic bytes, length, compressed block. The length must
/// fit the four bytes that the format gives it. The block decodes to
/// `data` again, so the file reads back as `data` wherever its block is
/// short enough to be decoded.
pub fn encode_mozlz4(data: &[u8]) -> (out: Vec<u8>)
    requires
        data@.len() <= u32::MAX,
    ensures
        out@.len() >= 12,
        out@.len() <= 32 + data@.len() * 110 / 100,
        out@.subrange(0, 8) == mozlz4_magic(),
        out@.subrange(8, 12) == le_bytes(data@.len() as u32),
        lz4_decompressed(out@.subrange(12, out@.len() as int), data@.len() as u32) == Some(data@),
        out@.len() - 12 <= MAX_BLOCK_LEN ==> mozlz4_decoded(out@) == Ok::<Seq<u8>, Mozlz4Error>(
            data@,
        ),
{
    let block = lz4_compress(data);
    let n = data.len() as u32;
    let mut out: Vec<u8> = Vec::new();
    out.push(0x6d);
    out.push(0x6f);
    out.push(0x7a);
    out.push(0x4c);
    out.push(0x7a);
    out.push(0x34);
    out.push(0x30);
    out.push(0x00);
    out.push((n & 0xff) as u8);
    out.push(((n >> 8) & 0xff) as u8);
    out.push(((n >> 16) & 0xff) as u8);
    out.push(((n >> 24) & 0xff) as u8);
    proof {
        assert(out@ =~= mozlz4_magic() + le_bytes(n));
    }
    append_bytes(&mut out, block.as_slice());
    proof {
        assert(out@ =~= mozlz4_magic() + le_bytes(n) + block@);
        assert(out@.subrange(0, 8) =~= mozlz4_magic());
        assert(out@.subrange(8, 12) =~= le_bytes(n));
        assert(out@.subrange(12, out@.len() as int) =~= block@);
        lemma_le_round_trip(n);
    }
    out
}

/// Reads the header of a framed file. Fails with `TooShort` when the
/// bytes end inside the header, with `BadMagic` when the magic bytes are
/// missing.
pub fn read_mozlz4_header(data: &[u8]) -> (r: Result<Mozlz4Frame, Mozlz4Error>)
    ensures
        if data@.len() < 12 {
            r matches Err(e) && e == Mozlz4Error::TooShort
        } else if data@.subrange(0, 8) != mozlz4_magic() {
            r matches Err(e) && e == Mozlz4Error::BadMagic
        } else {
            r matches Ok(frame) && frame.decompressed_size == le_number(data@.subrange(8, 12))
                && frame.block@ == data@.subrange(12, data@.len() as int)
        },
{
    if data.len() < 12 {
        return Err(Mozlz4Error::TooShort);
    }
    if data[0] != 0x6d || data[1] != 0x6f || data[2] != 0x7a || data[3] != 0x4c || data[4] != 0x7a
        || data[5] != 0x34 || data[6] != 0x30 || data[7] != 0x00 {
        proof {
            let m = data@.subrange(0, 8);
            assert(m[0] == data@[0] && m[1] == data@[1] && m[2] == data@[2] && m[3] == data@[3]
                && m[4] == data@[4] && m[5] == data@[5] && m[6] == data@[6] && m[7] == data@[7]);
        }
        return Err(Mozlz4Error::BadMagic);
    }
    proof {
        assert(data@.subrange(0, 8) =~= mozlz4_magic());
        let s = data@.subrange(8, 12);
        assert(s[0] == data@[8] && s[1] == data@[9] && s[2] == data@[10] && s[3] == data@[11]);
    }
    let size = (data[8] as u32) | ((data[9] as u32) << 8) | ((data[10] as u32) << 16) | ((
    data[11] as u32) << 24);
    let block = copy_range(data, 12, data.len());
    Ok(Mozlz4Frame { decompressed_size: size, block })
}

/// Reads a framed file: checks the header and decodes the block into
/// the length that the header announces. Fails with `TooShort` or
/// `BadMagic` as the header does, with `BlockTooLong` on a block beyond
/// `MAX_BLOCK_LEN`, and with `Corrupt` when the block does not decode.
pub fn decode_mozlz4(data: &[u8]) -> (r: Result<Vec<u8>, Mozlz4Error>)
    ensures
        match mozlz4_decoded(data@) {
            Ok(bytes) => r matches Ok(b) && b@ == bytes,
            Err(e) => r matches Err(x) && x == e,
        },
{
    let frame = match read_mozlz4_header(data) {
        Ok(frame) => frame,
        Err(e) => {
            return Err(e);
        },
    };
    if frame.block.len() > MAX_BLOCK_LEN {
        return Err(Mozlz4Error::BlockTooLong);
    }
    match lz4_decompress(frame.block.as_slice(), frame.decompressed_size) {
        Some(bytes) => Ok(bytes),
        None => Err(Mozlz4Error::Corrupt),
    }
}

} // verus!
