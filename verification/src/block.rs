use crate::errors::Error;
use vstd::bytes::{
    spec_u32_from_le_bytes, spec_u32_to_le_bytes, spec_u64_from_le_bytes, spec_u64_to_le_bytes,
    u32_from_le_bytes, u32_to_le_bytes, u64_from_le_bytes, u64_to_le_bytes,
};
use vstd::prelude::*;
use vstd::slice::slice_subrange;

verus! {

/// One data chunk's location and size.
///
/// A `Block` is a fixed record of 24 logical bytes, 8-byte aligned, stored
/// packed inside the footer's block sequences so that the Nth entry can be
/// read without parsing its predecessors.  No plausibility check of the
/// offset or lengths happens here: that is the file Reader's duty once the
/// file bounds are known.
#[derive(Clone, Copy, Debug, PartialEq, Eq, Structural)]
pub struct Block {
    /// Absolute byte position in the file where the chunk's message header begins.
    pub offset: i64,
    /// Length in bytes of the message header found at `offset`.
    pub meta_data_length: i32,
    /// Length in bytes of the body that follows the header; the body start is
    /// 8-byte aligned, so a padding gap may precede it.
    pub body_length: i64,
}

impl Block {
    #[allow(non_snake_case)]
    pub fn new(_offset: i64, _metaDataLength: i32, _bodyLength: i64) -> (b: Block)
        ensures
            b == (Block {
                offset: _offset,
                meta_data_length: _metaDataLength,
                body_length: _bodyLength,
            }),
    {
        Block { offset: _offset, meta_data_length: _metaDataLength, body_length: _bodyLength }
    }

    pub fn offset(&self) -> (r: i64)
        ensures
            r == self.offset,
    {
        self.offset
    }

    #[allow(non_snake_case)]
    pub fn metaDataLength(&self) -> (r: i32)
        ensures
            r == self.meta_data_length,
    {
        self.meta_data_length
    }

    #[allow(non_snake_case)]
    pub fn bodyLength(&self) -> (r: i64)
        ensures
            r == self.body_length,
    {
        self.body_length
    }
}

/// Byte length of one encoded `Block` record.
pub const BLOCK_BYTE_LEN: usize = 24;

/// The unsigned 64-bit value with the same two's-complement bits as `v`.
pub open spec fn spec_u64_of_i64(v: i64) -> u64 {
    if v >= 0 {
        v as u64
    } else {
        (v + 0x1_0000_0000_0000_0000) as u64
    }
}

/// The signed 64-bit value with the same two's-complement bits as `u`.
pub open spec fn spec_i64_of_u64(u: u64) -> i64 {
    if u < 0x8000_0000_0000_0000 {
        u as i64
    } else {
        (u - 0x1_0000_0000_0000_0000) as i64
    }
}

/// The unsigned 32-bit value with the same two's-complement bits as `v`.
pub open spec fn spec_u32_of_i32(v: i32) -> u32 {
    if v >= 0 {
        v as u32
    } else {
        (v + 0x1_0000_0000) as u32
    }
}

/// The signed 32-bit value with the same two's-complement bits as `u`.
pub open spec fn spec_i32_of_u32(u: u32) -> i32 {
    if u < 0x8000_0000 {
        u as i32
    } else {
        (u - 0x1_0000_0000) as i32
    }
}

pub fn u64_of_i64(v: i64) -> (u: u64)
    ensures
        u == spec_u64_of_i64(v),
{
    if v >= 0 {
        v as u64
    } else {
        ((v as i128) + 0x1_0000_0000_0000_0000) as u64
    }
}

pub fn i64_of_u64(u: u64) -> (v: i64)
    ensures
        v == spec_i64_of_u64(u),
{
    if u < 0x8000_0000_0000_0000 {
        u as i64
    } else {
        ((u as i128) - 0x1_0000_0000_0000_0000) as i64
    }
}

pub fn u32_of_i32(v: i32) -> (u: u32)
    ensures
        u == spec_u32_of_i32(v),
{
    if v >= 0 {
        v as u32
    } else {
        ((v as i64) + 0x1_0000_0000) as u32
    }
}

pub fn i32_of_u32(u: u32) -> (v: i32)
    ensures
        v == spec_i32_of_u32(u),
{
    if u < 0x8000_0000 {
        u as i32
    } else {
        ((u as i64) - 0x1_0000_0000) as i32
    }
}

pub proof fn lemma_i64_u64_round_trip(v: i64)
    ensures
        spec_i64_of_u64(spec_u64_of_i64(v)) == v,
{
}

pub proof fn lemma_i32_u32_round_trip(v: i32)
    ensures
        spec_i32_of_u32(spec_u32_of_i32(v)) == v,
{
}

/// The 24-byte little-endian encoding of a `Block`: offset, metadata length,
/// four zero padding bytes that keep the record 8-byte aligned, body length.
pub open spec fn spec_block_bytes(b: Block) -> Seq<u8> {
    spec_u64_to_le_bytes(spec_u64_of_i64(b.offset)) + spec_u32_to_le_bytes(
        spec_u32_of_i32(b.meta_data_length),
    ) + seq![0u8, 0u8, 0u8, 0u8] + spec_u64_to_le_bytes(spec_u64_of_i64(b.body_length))
}

/// The `Block` whose record starts at byte `pos` of `s`.  The four padding
/// bytes are not inspected.
pub open spec fn spec_block_at(s: Seq<u8>, pos: int) -> Block
    recommends
        0 <= pos,
        pos + 24 <= s.len(),
{
    Block {
        offset: spec_i64_of_u64(spec_u64_from_le_bytes(s.subrange(pos, pos + 8))),
        meta_data_length: spec_i32_of_u32(spec_u32_from_le_bytes(s.subrange(pos + 8, pos + 12))),
        body_length: spec_i64_of_u64(spec_u64_from_le_bytes(s.subrange(pos + 16, pos + 24))),
    }
}

/// Encode one `Block` to exactly 24 bytes.
pub fn encode_block(b: &Block) -> (r: Vec<u8>)
    ensures
        r@ == spec_block_bytes(*b),
        r@.len() == 24,
{
    proof {
        vstd::bytes::lemma_auto_spec_u64_to_from_le_bytes();
        vstd::bytes::lemma_auto_spec_u32_to_from_le_bytes();
    }
    let mut out = u64_to_le_bytes(u64_of_i64(b.offset));
    let mut meta = u32_to_le_bytes(u32_of_i32(b.meta_data_length));
    out.append(&mut meta);
    out.push(0);
    out.push(0);
    out.push(0);
    out.push(0);
    let mut body = u64_to_le_bytes(u64_of_i64(b.body_length));
    out.append(&mut body);
    proof {
        assert(out@ =~= spec_block_bytes(*b));
    }
    out
}

/// Read the `Block` record that starts at byte `pos` of `buf`.
pub fn block_at(buf: &[u8], pos: usize) -> (b: Block)
    requires
        pos + 24 <= buf@.len(),
    ensures
        b == spec_block_at(buf@, pos as int),
{
    let n = buf.len();
    assert(pos + 24 <= n);
    let o = u64_from_le_bytes(slice_subrange(buf, pos, pos + 8));
    let m = u32_from_le_bytes(slice_subrange(buf, pos + 8, pos + 12));
    let l = u64_from_le_bytes(slice_subrange(buf, pos + 16, pos + 24));
    Block { offset: i64_of_u64(o), meta_data_length: i32_of_u32(m), body_length: i64_of_u64(l) }
}

/// Decode one `Block` from the front of `buf`.
///
/// A buffer shorter than 24 bytes fails with `TruncatedBlock`; nothing past
/// the first 24 bytes is read.
pub fn decode_block(buf: &[u8]) -> (r: Result<Block, Error>)
    ensures
        buf@.len() < 24 ==> r == Err::<Block, Error>(Error::TruncatedBlock),
        buf@.len() >= 24 ==> r == Ok::<Block, Error>(spec_block_at(buf@, 0)),
{
    if buf.len() < BLOCK_BYTE_LEN {
        Err(Error::TruncatedBlock)
    } else {
        Ok(block_at(buf, 0))
    }
}

/// A `Block` record embedded anywhere in a larger buffer decodes to the
/// block it encodes.
pub proof fn lemma_block_at_embedded(s: Seq<u8>, pos: int, b: Block)
    requires
        0 <= pos,
        pos + 24 <= s.len(),
        s.subrange(pos, pos + 24) == spec_block_bytes(b),
    ensures
        spec_block_at(s, pos) == b,
{
    vstd::bytes::lemma_auto_spec_u64_to_from_le_bytes();
    vstd::bytes::lemma_auto_spec_u32_to_from_le_bytes();
    let r = s.subrange(pos, pos + 24);
    assert(s.subrange(pos, pos + 8) =~= r.subrange(0, 8));
    assert(s.subrange(pos + 8, pos + 12) =~= r.subrange(8, 12));
    assert(s.subrange(pos + 16, pos + 24) =~= r.subrange(16, 24));
    assert(r.subrange(0, 8) =~= spec_u64_to_le_bytes(spec_u64_of_i64(b.offset)));
    assert(r.subrange(8, 12) =~= spec_u32_to_le_bytes(spec_u32_of_i32(b.meta_data_length)));
    assert(r.subrange(16, 24) =~= spec_u64_to_le_bytes(spec_u64_of_i64(b.body_length)));
    lemma_i64_u64_round_trip(b.offset);
    lemma_i32_u32_round_trip(b.meta_data_length);
    lemma_i64_u64_round_trip(b.body_length);
}

/// Decoding the encoding of any `Block` gives that block back, for every
/// in-range field value.
pub proof fn lemma_block_round_trip(b: Block)
    ensures
        spec_block_at(spec_block_bytes(b), 0) == b,
{
    vstd::bytes::lemma_auto_spec_u64_to_from_le_bytes();
    vstd::bytes::lemma_auto_spec_u32_to_from_le_bytes();
    let s = spec_block_bytes(b);
    assert(s.subrange(0, 24) =~= s);
    lemma_block_at_embedded(s, 0, b);
}

} // verus!
