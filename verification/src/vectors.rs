use crate::block::{
    block_at, encode_block, lemma_block_at_embedded, spec_block_at, spec_block_bytes, Block,
};
use crate::errors::Error;
use crate::table::{append_bytes, parse_u32_at, spec_parse_u32_at};
use vstd::bytes::{spec_u32_from_le_bytes, spec_u32_to_le_bytes, u32_to_le_bytes};
use vstd::prelude::*;
use vstd::slice::{slice_subrange, slice_to_vec};

verus! {

// ---------------------------------------------------------------------------
// Sequences of Block records: a four-byte count, then the packed records.
// ---------------------------------------------------------------------------
/// The packed 24-byte records of the first `i` blocks.
pub open spec fn block_records(bs: Seq<Block>, i: int) -> Seq<u8>
    decreases i,
{
    if i <= 0 {
        Seq::empty()
    } else {
        block_records(bs, i - 1) + spec_block_bytes(bs[i - 1])
    }
}

/// A block sequence payload: the entry count, then the packed records, so
/// that the Nth record sits at a fixed stride without any per-entry scan.
pub open spec fn blocks_payload(bs: Seq<Block>) -> Seq<u8> {
    spec_u32_to_le_bytes(bs.len() as u32) + block_records(bs, bs.len() as int)
}

/// Byte size of a block sequence payload holding `n` blocks.
pub open spec fn blocks_payload_size(n: int) -> int {
    4 + 24 * n
}

pub proof fn lemma_block_records_len(bs: Seq<Block>, i: int)
    requires
        0 <= i,
    ensures
        block_records(bs, i).len() == 24 * i,
    decreases i,
{
    vstd::bytes::lemma_auto_spec_u64_to_from_le_bytes();
    vstd::bytes::lemma_auto_spec_u32_to_from_le_bytes();
    if i > 0 {
        lemma_block_records_len(bs, i - 1);
    }
}

pub proof fn lemma_block_records_slice(bs: Seq<Block>, i: int, j: int)
    requires
        0 <= j < i,
    ensures
        block_records(bs, i).subrange(24 * j, 24 * j + 24) == spec_block_bytes(bs[j]),
    decreases i,
{
    lemma_block_records_len(bs, i - 1);
    lemma_block_records_len(bs, i);
    if j == i - 1 {
        assert(block_records(bs, i).subrange(24 * j, 24 * j + 24) =~= spec_block_bytes(bs[j]));
    } else {
        lemma_block_records_slice(bs, i - 1, j);
        assert(block_records(bs, i).subrange(24 * j, 24 * j + 24) =~= block_records(
            bs,
            i - 1,
        ).subrange(24 * j, 24 * j + 24));
    }
}

/// Parse a block sequence payload at byte `pos`: the count, then that many
/// 24-byte records, every read bounds-checked.
pub open spec fn spec_parse_blocks(s: Seq<u8>, pos: int) -> Result<Seq<Block>, Error> {
    match spec_parse_u32_at(s, pos) {
        Err(e) => Err(e),
        Ok(n32) => {
            if pos + 4 + 24 * (n32 as int) <= s.len() {
                Ok(Seq::new(n32 as nat, |i: int| spec_block_at(s, pos + 4 + 24 * i)))
            } else {
                Err(Error::TruncatedTable)
            }
        },
    }
}

/// Encode a block sequence payload.
pub fn encode_blocks_payload(blocks: &Vec<Block>) -> (r: Vec<u8>)
    requires
        blocks@.len() <= 0xffff_ffff,
    ensures
        r@ == blocks_payload(blocks@),
        r@.len() == blocks_payload_size(blocks@.len() as int),
{
    proof {
        vstd::bytes::lemma_auto_spec_u32_to_from_le_bytes();
        lemma_block_records_len(blocks@, blocks@.len() as int);
    }
    let n = blocks.len();
    let mut out = u32_to_le_bytes(n as u32);
    let mut i: usize = 0;
    while i < n
        invariant
            i <= n,
            n == blocks@.len(),
            out@ == spec_u32_to_le_bytes(blocks@.len() as u32) + block_records(blocks@, i as int),
        decreases n - i,
    {
        let b = blocks[i];
        let mut eb = encode_block(&b);
        out.append(&mut eb);
        proof {
            assert(out@ =~= spec_u32_to_le_bytes(blocks@.len() as u32) + block_records(
                blocks@,
                i as int + 1,
            ));
        }
        i = i + 1;
    }
    proof {
        lemma_block_records_len(blocks@, blocks@.len() as int);
        vstd::bytes::lemma_auto_spec_u32_to_from_le_bytes();
    }
    out
}

/// Decode a block sequence payload at byte `pos` of `buf`.
pub fn parse_blocks(buf: &[u8], pos: usize) -> (r: Result<Vec<Block>, Error>)
    ensures
        (match r {
            Ok(v) => spec_parse_blocks(buf@, pos as int) == Ok::<Seq<Block>, Error>(v@),
            Err(e) => spec_parse_blocks(buf@, pos as int) == Err::<Seq<Block>, Error>(e),
        }),
{
    let len = buf.len();
    let n32 = match parse_u32_at(buf, pos) {
        Ok(v) => v,
        Err(e) => {
            return Err(e);
        },
    };
    assert(pos + 4 <= len);
    let rem = len - (pos + 4);
    if (rem as u64) < 24 * (n32 as u64) {
        return Err(Error::TruncatedTable);
    }
    let n = n32 as usize;
    let mut out: Vec<Block> = Vec::new();
    let mut i: usize = 0;
    while i < n
        invariant
            i <= n,
            n == n32 as int,
            pos + 4 + 24 * n <= buf@.len(),
            buf@.len() <= usize::MAX,
            out@.len() == i,
            forall|k: int|
                0 <= k < i ==> out@[k] == spec_block_at(buf@, pos as int + 4 + 24 * k),
        decreases n - i,
    {
        let b = block_at(buf, pos + 4 + 24 * i);
        out.push(b);
        i = i + 1;
    }
    proof {
        assert(out@ =~= Seq::new(n32 as nat, |i: int| spec_block_at(buf@, pos as int + 4 + 24 * i)));
    }
    Ok(out)
}

/// A block sequence payload embedded in a larger buffer parses back to the
/// blocks it encodes.
pub proof fn lemma_parse_blocks_embedded(s: Seq<u8>, pos: int, bs: Seq<Block>)
    requires
        0 <= pos,
        bs.len() <= 0xffff_ffff,
        pos + blocks_payload_size(bs.len() as int) <= s.len(),
        s.subrange(pos, pos + blocks_payload_size(bs.len() as int)) == blocks_payload(bs),
    ensures
        spec_parse_blocks(s, pos) == Ok::<Seq<Block>, Error>(bs),
{
    vstd::bytes::lemma_auto_spec_u32_to_from_le_bytes();
    lemma_block_records_len(bs, bs.len() as int);
    let psz = blocks_payload_size(bs.len() as int);
    let p = blocks_payload(bs);
    assert(s.subrange(pos, pos + 4) =~= p.subrange(0, 4));
    assert(p.subrange(0, 4) =~= spec_u32_to_le_bytes(bs.len() as u32));
    assert(spec_u32_from_le_bytes(spec_u32_to_le_bytes(bs.len() as u32)) == bs.len() as u32);
    assert(spec_parse_u32_at(s, pos) == Ok::<u32, Error>(bs.len() as u32));
    assert forall|i: int| 0 <= i < bs.len() implies spec_block_at(s, pos + 4 + 24 * i)
        == bs[i] by {
        lemma_block_records_slice(bs, bs.len() as int, i);
        assert(s.subrange(pos + 4 + 24 * i, pos + 4 + 24 * i + 24) =~= blocks_payload(bs).subrange(
            4 + 24 * i,
            4 + 24 * i + 24,
        ));
        assert(blocks_payload(bs).subrange(4 + 24 * i, 4 + 24 * i + 24) =~= block_records(
            bs,
            bs.len() as int,
        ).subrange(24 * i, 24 * i + 24));
        lemma_block_at_embedded(s, pos + 4 + 24 * i, bs[i]);
    }
    assert(Seq::new(bs.len(), |i: int| spec_block_at(s, pos + 4 + 24 * i)) =~= bs);
}

// ---------------------------------------------------------------------------
// Sequences of key/value metadata pairs.
// ---------------------------------------------------------------------------
/// One user-supplied metadata pair.  Keys and values are byte strings, UTF-8
/// by convention; this layer moves them untouched.  Every pair is kept in
/// insertion order, duplicate keys included: no deduplication happens here,
/// by design rather than by accident.
#[derive(Debug)]
pub struct KeyValue {
    pub key: Vec<u8>,
    pub value: Vec<u8>,
}

/// Mathematical model of one metadata pair.
pub struct KeyValueModel {
    pub key: Seq<u8>,
    pub value: Seq<u8>,
}

impl View for KeyValue {
    type V = KeyValueModel;

    open spec fn view(&self) -> KeyValueModel {
        KeyValueModel { key: self.key@, value: self.value@ }
    }
}

/// The models of a sequence of pairs.
pub open spec fn kv_models(s: Seq<KeyValue>) -> Seq<KeyValueModel> {
    Seq::new(s.len(), |i: int| s[i]@)
}

/// One encoded pair: key length, key bytes, value length, value bytes.
pub open spec fn kv_record(kv: KeyValueModel) -> Seq<u8> {
    spec_u32_to_le_bytes(kv.key.len() as u32) + kv.key + spec_u32_to_le_bytes(
        kv.value.len() as u32,
    ) + kv.value
}

/// Byte size of one encoded pair.
pub open spec fn kv_record_size(kv: KeyValueModel) -> int {
    8 + kv.key.len() as int + kv.value.len() as int
}

/// The encoded records of the first `i` pairs.
pub open spec fn kv_records(kvs: Seq<KeyValueModel>, i: int) -> Seq<u8>
    decreases i,
{
    if i <= 0 {
        Seq::empty()
    } else {
        kv_records(kvs, i - 1) + kv_record(kvs[i - 1])
    }
}

/// Byte size of the encoded records of the first `i` pairs.
pub open spec fn kv_records_size(kvs: Seq<KeyValueModel>, i: int) -> int
    decreases i,
{
    if i <= 0 {
        0
    } else {
        kv_records_size(kvs, i - 1) + kv_record_size(kvs[i - 1])
    }
}

/// A metadata payload: the pair count, then the records in insertion order.
pub open spec fn kvs_payload(kvs: Seq<KeyValueModel>) -> Seq<u8> {
    spec_u32_to_le_bytes(kvs.len() as u32) + kv_records(kvs, kvs.len() as int)
}

/// Byte size of a metadata payload.
pub open spec fn kvs_payload_size(kvs: Seq<KeyValueModel>) -> int {
    4 + kv_records_size(kvs, kvs.len() as int)
}

/// Pair sequences the encoding can represent: the count and each length must
/// fit its four-byte prefix.
pub open spec fn kvs_encodable(kvs: Seq<KeyValueModel>) -> bool {
    &&& kvs.len() <= 0xffff_ffff
    &&& forall|i: int|
        0 <= i < kvs.len() ==> (#[trigger] kvs[i].key.len()) <= 0xffff_ffff
            && kvs[i].value.len() <= 0xffff_ffff
}

pub proof fn lemma_kv_records_len(kvs: Seq<KeyValueModel>, i: int)
    requires
        0 <= i,
    ensures
        kv_records(kvs, i).len() == kv_records_size(kvs, i),
    decreases i,
{
    vstd::bytes::lemma_auto_spec_u32_to_from_le_bytes();
    if i > 0 {
        lemma_kv_records_len(kvs, i - 1);
    }
}

pub proof fn lemma_kv_records_size_monotone(kvs: Seq<KeyValueModel>, i: int, j: int)
    requires
        0 <= i <= j,
    ensures
        kv_records_size(kvs, i) <= kv_records_size(kvs, j),
    decreases j - i,
{
    if i < j {
        lemma_kv_records_size_monotone(kvs, i, j - 1);
    }
}

/// Parse one pair at byte `pos`, returning it and the byte just past it.
pub open spec fn spec_parse_kv_at(s: Seq<u8>, pos: int) -> Result<(KeyValueModel, int), Error> {
    match spec_parse_u32_at(s, pos) {
        Err(e) => Err(e),
        Ok(klen32) => {
            let kstart = pos + 4;
            let klen = klen32 as int;
            if kstart + klen > s.len() {
                Err(Error::TruncatedTable)
            } else {
                match spec_parse_u32_at(s, kstart + klen) {
                    Err(e) => Err(e),
                    Ok(vlen32) => {
                        let vstart = kstart + klen + 4;
                        let vlen = vlen32 as int;
                        if vstart + vlen > s.len() {
                            Err(Error::TruncatedTable)
                        } else {
                            Ok(
                                (
                                    KeyValueModel {
                                        key: s.subrange(kstart, kstart + klen),
                                        value: s.subrange(vstart, vstart + vlen),
                                    },
                                    vstart + vlen,
                                ),
                            )
                        }
                    },
                }
            }
        },
    }
}

/// Parse `n` consecutive pairs starting at byte `pos`.
pub open spec fn spec_parse_kvs(s: Seq<u8>, pos: int, n: int) -> Result<
    (Seq<KeyValueModel>, int),
    Error,
>
    decreases n,
{
    if n <= 0 {
        Ok((Seq::empty(), pos))
    } else {
        match spec_parse_kv_at(s, pos) {
            Err(e) => Err(e),
            Ok((kv, p2)) => match spec_parse_kvs(s, p2, n - 1) {
                Err(e) => Err(e),
                Ok((rest, end)) => Ok((seq![kv] + rest, end)),
            },
        }
    }
}

/// Parse a metadata payload at byte `pos`.
pub open spec fn spec_parse_kv_vector(s: Seq<u8>, pos: int) -> Result<Seq<KeyValueModel>, Error> {
    match spec_parse_u32_at(s, pos) {
        Err(e) => Err(e),
        Ok(n32) => match spec_parse_kvs(s, pos + 4, n32 as int) {
            Err(e) => Err(e),
            Ok((kvs, _)) => Ok(kvs),
        },
    }
}

/// Decode one pair at byte `pos` of `buf`.
pub fn parse_kv_at(buf: &[u8], pos: usize) -> (r: Result<(KeyValue, usize), Error>)
    ensures
        (match r {
            Ok(p) => spec_parse_kv_at(buf@, pos as int) == Ok::<(KeyValueModel, int), Error>(
                (p.0@, p.1 as int),
            ),
            Err(e) => spec_parse_kv_at(buf@, pos as int) == Err::<(KeyValueModel, int), Error>(e),
        }),
{
    let len = buf.len();
    let klen32 = match parse_u32_at(buf, pos) {
        Ok(v) => v,
        Err(e) => {
            return Err(e);
        },
    };
    assert(pos + 4 <= len);
    let kstart = pos + 4;
    let klen = klen32 as usize;
    if klen > len - kstart {
        return Err(Error::TruncatedTable);
    }
    let key = slice_to_vec(slice_subrange(buf, kstart, kstart + klen));
    let vlen32 = match parse_u32_at(buf, kstart + klen) {
        Ok(v) => v,
        Err(e) => {
            return Err(e);
        },
    };
    assert(kstart + klen + 4 <= len);
    let vstart = kstart + klen + 4;
    let vlen = vlen32 as usize;
    if vlen > len - vstart {
        return Err(Error::TruncatedTable);
    }
    let value = slice_to_vec(slice_subrange(buf, vstart, vstart + vlen));
    Ok((KeyValue { key, value }, vstart + vlen))
}

/// Decode a metadata payload at byte `pos` of `buf`.
pub fn parse_kv_vector(buf: &[u8], pos: usize) -> (r: Result<Vec<KeyValue>, Error>)
    ensures
        (match r {
            Ok(v) => spec_parse_kv_vector(buf@, pos as int) == Ok::<Seq<KeyValueModel>, Error>(
                kv_models(v@),
            ),
            Err(e) => spec_parse_kv_vector(buf@, pos as int) == Err::<Seq<KeyValueModel>, Error>(e),
        }),
{
    let len = buf.len();
    let n32 = match parse_u32_at(buf, pos) {
        Ok(v) => v,
        Err(e) => {
            return Err(e);
        },
    };
    assert(pos + 4 <= len);
    let n = n32 as usize;
    let mut out: Vec<KeyValue> = Vec::new();
    let mut p: usize = pos + 4;
    let mut i: usize = 0;
    proof {
        assert(kv_models(out@) =~= Seq::<KeyValueModel>::empty());
    }
    while i < n
        invariant
            i <= n,
            n == n32 as int,
            spec_parse_u32_at(buf@, pos as int) == Ok::<u32, Error>(n32),
            (match spec_parse_kvs(buf@, p as int, n - i) {
                Ok(re) => spec_parse_kvs(buf@, pos as int + 4, n as int) == Ok::<
                    (Seq<KeyValueModel>, int),
                    Error,
                >((kv_models(out@) + re.0, re.1)),
                Err(e) => spec_parse_kvs(buf@, pos as int + 4, n as int) == Err::<
                    (Seq<KeyValueModel>, int),
                    Error,
                >(e),
            }),
        decreases n - i,
    {
        let ghost out_before = out@;
        let ghost p_before = p as int;
        let (kv, p2) = match parse_kv_at(buf, p) {
            Ok(x) => x,
            Err(e) => {
                proof {
                    assert(spec_parse_kvs(buf@, p as int, n - i) == Err::<
                        (Seq<KeyValueModel>, int),
                        Error,
                    >(e));
                }
                return Err(e);
            },
        };
        let ghost kvg = kv@;
        out.push(kv);
        p = p2;
        i = i + 1;
        proof {
            assert(kv_models(out@) =~= kv_models(out_before).push(kvg));
            if let Ok(re) = spec_parse_kvs(buf@, p as int, n - i) {
                assert(spec_parse_kvs(buf@, p_before, n - (i - 1)) == Ok::<
                    (Seq<KeyValueModel>, int),
                    Error,
                >((seq![kvg] + re.0, re.1)));
                assert(kv_models(out_before) + (seq![kvg] + re.0) =~= kv_models(out@) + re.0);
            }
        }
    }
    proof {
        assert(spec_parse_kvs(buf@, p as int, 0) == Ok::<(Seq<KeyValueModel>, int), Error>(
            (Seq::<KeyValueModel>::empty(), p as int),
        ));
        assert(kv_models(out@) + Seq::<KeyValueModel>::empty() =~= kv_models(out@));
    }
    Ok(out)
}

/// Encode a metadata payload.
pub fn encode_kvs_payload(kvs: &Vec<KeyValue>) -> (r: Vec<u8>)
    requires
        kvs_encodable(kv_models(kvs@)),
    ensures
        r@ == kvs_payload(kv_models(kvs@)),
{
    let ghost m = kv_models(kvs@);
    proof {
        vstd::bytes::lemma_auto_spec_u32_to_from_le_bytes();
    }
    let n = kvs.len();
    let mut out = u32_to_le_bytes(n as u32);
    let mut i: usize = 0;
    while i < n
        invariant
            i <= n,
            n == kvs@.len(),
            m == kv_models(kvs@),
            kvs_encodable(m),
            out@ == spec_u32_to_le_bytes(m.len() as u32) + kv_records(m, i as int),
        decreases n - i,
    {
        let klen = kvs[i].key.len();
        let mut kl = u32_to_le_bytes(klen as u32);
        out.append(&mut kl);
        append_bytes(&mut out, kvs[i].key.as_slice());
        let vlen = kvs[i].value.len();
        let mut vl = u32_to_le_bytes(vlen as u32);
        out.append(&mut vl);
        append_bytes(&mut out, kvs[i].value.as_slice());
        proof {
            assert(out@ =~= spec_u32_to_le_bytes(m.len() as u32) + kv_records(m, i as int + 1));
        }
        i = i + 1;
    }
    out
}

/// The records of `i` pairs decompose as the first record followed by the
/// records of the remaining pairs.
pub proof fn lemma_kv_records_front(kvs: Seq<KeyValueModel>, i: int)
    requires
        1 <= i <= kvs.len(),
    ensures
        kv_records(kvs, i) == kv_record(kvs[0]) + kv_records(kvs.skip(1), i - 1),
    decreases i,
{
    if i == 1 {
        assert(kv_records(kvs, 0) == Seq::<u8>::empty());
        assert(kv_records(kvs.skip(1), 0) == Seq::<u8>::empty());
        assert(kv_records(kvs, 1) =~= kv_record(kvs[0]) + kv_records(kvs.skip(1), 0));
    } else {
        lemma_kv_records_front(kvs, i - 1);
        assert(kvs.skip(1)[i - 2] == kvs[i - 1]);
        assert(kv_records(kvs, i) =~= kv_record(kvs[0]) + kv_records(kvs.skip(1), i - 1));
    }
}

/// One encoded pair embedded in a larger buffer parses back to that pair.
pub proof fn lemma_parse_kv_embedded(s: Seq<u8>, pos: int, kv: KeyValueModel)
    requires
        0 <= pos,
        kv.key.len() <= 0xffff_ffff,
        kv.value.len() <= 0xffff_ffff,
        pos + kv_record_size(kv) <= s.len(),
        s.subrange(pos, pos + kv_record_size(kv)) == kv_record(kv),
    ensures
        spec_parse_kv_at(s, pos) == Ok::<(KeyValueModel, int), Error>((kv, pos + kv_record_size(kv))),
{
    vstd::bytes::lemma_auto_spec_u32_to_from_le_bytes();
    let klen = kv.key.len() as int;
    let vlen = kv.value.len() as int;
    let r = kv_record(kv);
    assert(s.subrange(pos, pos + 4) =~= r.subrange(0, 4));
    assert(r.subrange(0, 4) =~= spec_u32_to_le_bytes(kv.key.len() as u32));
    assert(spec_parse_u32_at(s, pos) == Ok::<u32, Error>(kv.key.len() as u32));
    assert(s.subrange(pos + 4, pos + 4 + klen) =~= r.subrange(4, 4 + klen));
    assert(r.subrange(4, 4 + klen) =~= kv.key);
    assert(s.subrange(pos + 4 + klen, pos + 8 + klen) =~= r.subrange(4 + klen, 8 + klen));
    assert(r.subrange(4 + klen, 8 + klen) =~= spec_u32_to_le_bytes(kv.value.len() as u32));
    assert(spec_parse_u32_at(s, pos + 4 + klen) == Ok::<u32, Error>(kv.value.len() as u32));
    assert(s.subrange(pos + 8 + klen, pos + 8 + klen + vlen) =~= r.subrange(
        8 + klen,
        8 + klen + vlen,
    ));
    assert(r.subrange(8 + klen, 8 + klen + vlen) =~= kv.value);
}

/// The encoded records of a pair sequence, embedded in a larger buffer,
/// parse back to that sequence.
pub proof fn lemma_parse_kvs_embedded(s: Seq<u8>, pos: int, kvs: Seq<KeyValueModel>)
    requires
        0 <= pos,
        kvs_encodable(kvs),
        pos + kv_records_size(kvs, kvs.len() as int) <= s.len(),
        s.subrange(pos, pos + kv_records_size(kvs, kvs.len() as int)) == kv_records(
            kvs,
            kvs.len() as int,
        ),
    ensures
        spec_parse_kvs(s, pos, kvs.len() as int) == Ok::<(Seq<KeyValueModel>, int), Error>(
            (kvs, pos + kv_records_size(kvs, kvs.len() as int)),
        ),
    decreases kvs.len(),
{
    let n = kvs.len() as int;
    if n == 0 {
        assert(kvs =~= Seq::<KeyValueModel>::empty());
    } else {
        lemma_kv_records_front(kvs, n);
        lemma_kv_records_len(kvs, n);
        lemma_kv_records_len(kvs.skip(1), n - 1);
        vstd::bytes::lemma_auto_spec_u32_to_from_le_bytes();
        let sz0 = kv_record_size(kvs[0]);
        let tail = kvs.skip(1);
        let tailsz = kv_records_size(tail, n - 1);
        // sizes: records of kvs == record 0 ++ records of tail, so the sizes add up
        assert(kv_records(kvs, n).len() == kv_record(kvs[0]).len() + kv_records(tail, n - 1).len());
        assert(kv_record(kvs[0]).len() == sz0);
        assert(kv_records_size(kvs, n) == sz0 + tailsz);
        assert(s.subrange(pos, pos + sz0) =~= kv_records(kvs, n).subrange(0, sz0));
        assert(kv_records(kvs, n).subrange(0, sz0) =~= kv_record(kvs[0]));
        lemma_parse_kv_embedded(s, pos, kvs[0]);
        assert(s.subrange(pos + sz0, pos + sz0 + tailsz) =~= kv_records(kvs, n).subrange(
            sz0,
            sz0 + tailsz,
        ));
        assert(kv_records(kvs, n).subrange(sz0, sz0 + tailsz) =~= kv_records(tail, n - 1));
        assert(kvs_encodable(tail));
        lemma_parse_kvs_embedded(s, pos + sz0, tail);
        assert(seq![kvs[0]] + tail =~= kvs);
    }
}

/// A metadata payload embedded in a larger buffer parses back to the pairs
/// it encodes.
pub proof fn lemma_parse_kv_vector_embedded(s: Seq<u8>, pos: int, kvs: Seq<KeyValueModel>)
    requires
        0 <= pos,
        kvs_encodable(kvs),
        pos + kvs_payload_size(kvs) <= s.len(),
        s.subrange(pos, pos + kvs_payload_size(kvs)) == kvs_payload(kvs),
    ensures
        spec_parse_kv_vector(s, pos) == Ok::<Seq<KeyValueModel>, Error>(kvs),
{
    vstd::bytes::lemma_auto_spec_u32_to_from_le_bytes();
    let n = kvs.len() as int;
    lemma_kv_records_len(kvs, n);
    let p = kvs_payload(kvs);
    assert(s.subrange(pos, pos + 4) =~= p.subrange(0, 4));
    assert(p.subrange(0, 4) =~= spec_u32_to_le_bytes(kvs.len() as u32));
    assert(spec_parse_u32_at(s, pos) == Ok::<u32, Error>(kvs.len() as u32));
    let tailsz = kv_records_size(kvs, n);
    assert(s.subrange(pos + 4, pos + 4 + tailsz) =~= p.subrange(4, 4 + tailsz));
    assert(p.subrange(4, 4 + tailsz) =~= kv_records(kvs, n));
    lemma_parse_kvs_embedded(s, pos + 4, kvs);
}

} // verus!
