use crate::errors::Error;
use vstd::bytes::{
    spec_u16_from_le_bytes, spec_u16_to_le_bytes, spec_u32_from_le_bytes, spec_u32_to_le_bytes,
    u16_from_le_bytes, u16_to_le_bytes, u32_from_le_bytes, u32_to_le_bytes,
};
use vstd::prelude::*;
use vstd::slice::slice_subrange;

verus! {

/// One field of a table under construction: its permanent numeric identifier
/// and its already-encoded payload.
pub struct FieldEntry {
    pub id: u16,
    pub payload: Vec<u8>,
}

/// Mathematical model of one table field.
pub struct FieldModel {
    pub id: u16,
    pub payload: Seq<u8>,
}

impl View for FieldEntry {
    type V = FieldModel;

    open spec fn view(&self) -> FieldModel {
        FieldModel { id: self.id, payload: self.payload@ }
    }
}

/// The models of a sequence of field entries.
pub open spec fn field_models(s: Seq<FieldEntry>) -> Seq<FieldModel> {
    Seq::new(s.len(), |i: int| s[i]@)
}

/// Byte size of the directory of an `n`-field table: a two-byte entry count
/// followed by one six-byte entry per field.
pub open spec fn dir_size(n: int) -> int {
    2 + 6 * n
}

/// Total byte size of the payloads of the first `i` fields.
pub open spec fn payloads_size(fs: Seq<FieldModel>, i: int) -> int
    decreases i,
{
    if i <= 0 {
        0
    } else {
        payloads_size(fs, i - 1) + fs[i - 1].payload.len()
    }
}

/// Byte offset, relative to the table start, at which field `i`'s payload is
/// written: the payloads follow the directory in field order.
pub open spec fn field_offset(fs: Seq<FieldModel>, i: int) -> int {
    dir_size(fs.len() as int) + payloads_size(fs, i)
}

/// Total byte size of the encoded table.
pub open spec fn table_size(fs: Seq<FieldModel>) -> int {
    field_offset(fs, fs.len() as int)
}

/// A field list that the encoding can represent: the entry count fits the
/// two-byte count and every recorded offset fits a four-byte directory entry.
pub open spec fn table_wf(fs: Seq<FieldModel>) -> bool {
    fs.len() <= 0xffff && table_size(fs) <= 0xffff_ffff
}

/// The six directory bytes of field `i`: its identifier, then the byte
/// offset of its payload relative to the table start.
pub open spec fn dir_entry_bytes(fs: Seq<FieldModel>, i: int) -> Seq<u8> {
    spec_u16_to_le_bytes(fs[i].id) + spec_u32_to_le_bytes(field_offset(fs, i) as u32)
}

/// The directory entries of the first `i` fields, concatenated.
pub open spec fn dir_bytes(fs: Seq<FieldModel>, i: int) -> Seq<u8>
    decreases i,
{
    if i <= 0 {
        Seq::empty()
    } else {
        dir_bytes(fs, i - 1) + dir_entry_bytes(fs, i - 1)
    }
}

/// The payloads of the first `i` fields, concatenated.
pub open spec fn payloads_bytes(fs: Seq<FieldModel>, i: int) -> Seq<u8>
    decreases i,
{
    if i <= 0 {
        Seq::empty()
    } else {
        payloads_bytes(fs, i - 1) + fs[i - 1].payload
    }
}

/// The encoding of a table: the entry count, the field directory, then the
/// payloads in field order.  Absent fields simply have no entry, which is
/// what lets a decoder built against an older field set skip identifiers it
/// does not know, and an encoder omit fields whose default applies.
pub open spec fn table_bytes(fs: Seq<FieldModel>) -> Seq<u8> {
    spec_u16_to_le_bytes(fs.len() as u16) + dir_bytes(fs, fs.len() as int) + payloads_bytes(
        fs,
        fs.len() as int,
    )
}

pub proof fn lemma_payloads_size_monotone(fs: Seq<FieldModel>, i: int, j: int)
    requires
        0 <= i <= j,
    ensures
        payloads_size(fs, i) <= payloads_size(fs, j),
    decreases j - i,
{
    if i < j {
        lemma_payloads_size_monotone(fs, i, j - 1);
    }
}

pub proof fn lemma_dir_bytes_len(fs: Seq<FieldModel>, i: int)
    requires
        0 <= i,
    ensures
        dir_bytes(fs, i).len() == 6 * i,
    decreases i,
{
    vstd::bytes::lemma_auto_spec_u16_to_from_le_bytes();
    vstd::bytes::lemma_auto_spec_u32_to_from_le_bytes();
    if i > 0 {
        lemma_dir_bytes_len(fs, i - 1);
    }
}

pub proof fn lemma_payloads_bytes_len(fs: Seq<FieldModel>, i: int)
    requires
        0 <= i,
    ensures
        payloads_bytes(fs, i).len() == payloads_size(fs, i),
    decreases i,
{
    if i > 0 {
        lemma_payloads_bytes_len(fs, i - 1);
    }
}

pub proof fn lemma_table_bytes_len(fs: Seq<FieldModel>)
    ensures
        table_bytes(fs).len() == table_size(fs),
{
    vstd::bytes::lemma_auto_spec_u16_to_from_le_bytes();
    lemma_dir_bytes_len(fs, fs.len() as int);
    lemma_payloads_bytes_len(fs, fs.len() as int);
}

pub proof fn lemma_dir_bytes_slice(fs: Seq<FieldModel>, i: int, j: int)
    requires
        0 <= j < i,
    ensures
        dir_bytes(fs, i).subrange(6 * j, 6 * j + 6) == dir_entry_bytes(fs, j),
    decreases i,
{
    vstd::bytes::lemma_auto_spec_u16_to_from_le_bytes();
    vstd::bytes::lemma_auto_spec_u32_to_from_le_bytes();
    lemma_dir_bytes_len(fs, i - 1);
    if j == i - 1 {
        assert(dir_bytes(fs, i).subrange(6 * j, 6 * j + 6) =~= dir_entry_bytes(fs, j));
    } else {
        lemma_dir_bytes_slice(fs, i - 1, j);
        assert(dir_bytes(fs, i).subrange(6 * j, 6 * j + 6) =~= dir_bytes(fs, i - 1).subrange(
            6 * j,
            6 * j + 6,
        ));
    }
}

pub proof fn lemma_payloads_bytes_slice(fs: Seq<FieldModel>, i: int, j: int)
    requires
        0 <= j < i,
    ensures
        payloads_bytes(fs, i).subrange(
            payloads_size(fs, j),
            payloads_size(fs, j) + fs[j].payload.len(),
        ) == fs[j].payload,
    decreases i,
{
    lemma_payloads_bytes_len(fs, i - 1);
    lemma_payloads_size_monotone(fs, 0, j);
    if j == i - 1 {
        assert(payloads_bytes(fs, i).subrange(
            payloads_size(fs, j),
            payloads_size(fs, j) + fs[j].payload.len(),
        ) =~= fs[j].payload);
    } else {
        lemma_payloads_bytes_slice(fs, i - 1, j);
        lemma_payloads_size_monotone(fs, j + 1, i - 1);
        assert(payloads_bytes(fs, i).subrange(
            payloads_size(fs, j),
            payloads_size(fs, j) + fs[j].payload.len(),
        ) =~= payloads_bytes(fs, i - 1).subrange(
            payloads_size(fs, j),
            payloads_size(fs, j) + fs[j].payload.len(),
        ));
    }
}

/// Where each piece of field `j` stands inside the encoded table: its
/// directory entry at byte `2 + 6 j`, and its payload at its recorded offset.
pub proof fn lemma_table_field(fs: Seq<FieldModel>, j: int)
    requires
        table_wf(fs),
        0 <= j < fs.len(),
    ensures
        table_bytes(fs).len() == table_size(fs),
        table_bytes(fs).subrange(2 + 6 * j, 2 + 6 * j + 2) == spec_u16_to_le_bytes(fs[j].id),
        table_bytes(fs).subrange(2 + 6 * j + 2, 2 + 6 * j + 6) == spec_u32_to_le_bytes(
            field_offset(fs, j) as u32,
        ),
        table_bytes(fs).subrange(field_offset(fs, j), field_offset(fs, j) + fs[j].payload.len())
            == fs[j].payload,
        0 <= field_offset(fs, j),
        field_offset(fs, j) + fs[j].payload.len() <= table_size(fs),
{
    vstd::bytes::lemma_auto_spec_u16_to_from_le_bytes();
    vstd::bytes::lemma_auto_spec_u32_to_from_le_bytes();
    let n = fs.len() as int;
    let t = table_bytes(fs);
    lemma_table_bytes_len(fs);
    lemma_dir_bytes_len(fs, n);
    lemma_payloads_bytes_len(fs, n);
    lemma_dir_bytes_slice(fs, n, j);
    lemma_payloads_bytes_slice(fs, n, j);
    lemma_payloads_size_monotone(fs, 0, j);
    lemma_payloads_size_monotone(fs, j + 1, n);
    let e = dir_entry_bytes(fs, j);
    assert(t.subrange(2 + 6 * j, 2 + 6 * j + 6) =~= dir_bytes(fs, n).subrange(6 * j, 6 * j + 6));
    assert(t.subrange(2 + 6 * j, 2 + 6 * j + 2) =~= e.subrange(0, 2));
    assert(t.subrange(2 + 6 * j + 2, 2 + 6 * j + 6) =~= e.subrange(2, 6));
    assert(e.subrange(0, 2) =~= spec_u16_to_le_bytes(fs[j].id));
    assert(e.subrange(2, 6) =~= spec_u32_to_le_bytes(field_offset(fs, j) as u32));
    assert(t.subrange(field_offset(fs, j), field_offset(fs, j) + fs[j].payload.len())
        =~= payloads_bytes(fs, n).subrange(
        payloads_size(fs, j),
        payloads_size(fs, j) + fs[j].payload.len(),
    ));
}

/// Outcome of resolving a field identifier against a table's directory.
pub enum FieldLookup {
    /// The directory itself reaches past the buffer end.
    Truncated,
    /// No directory entry carries the identifier.
    Missing,
    /// The identifier's first entry records this payload offset.
    Found(u32),
}

/// The entry count claimed by the directory.
pub open spec fn spec_dir_count(s: Seq<u8>) -> int {
    spec_u16_from_le_bytes(s.subrange(0, 2)) as int
}

/// The buffer is long enough to hold the directory it claims.
pub open spec fn spec_dir_wf(s: Seq<u8>) -> bool {
    s.len() >= 2 && s.len() >= dir_size(spec_dir_count(s))
}

/// The identifier of directory entry `j`.
pub open spec fn spec_entry_id(s: Seq<u8>, j: int) -> u16 {
    spec_u16_from_le_bytes(s.subrange(2 + 6 * j, 2 + 6 * j + 2))
}

/// The payload offset recorded by directory entry `j`.
pub open spec fn spec_entry_offset(s: Seq<u8>, j: int) -> u32 {
    spec_u32_from_le_bytes(s.subrange(2 + 6 * j + 2, 2 + 6 * j + 6))
}

/// Scan the directory entries `j .. n` for the first one carrying `id`.
pub open spec fn spec_find_from(s: Seq<u8>, n: int, j: int, id: u16) -> Option<u32>
    decreases n - j,
{
    if j >= n {
        None
    } else if spec_entry_id(s, j) == id {
        Some(spec_entry_offset(s, j))
    } else {
        spec_find_from(s, n, j + 1, id)
    }
}

/// Resolve a field identifier: fail if the directory is truncated, otherwise
/// report the first matching entry's offset, or that none carries `id`.
pub open spec fn spec_find_field(s: Seq<u8>, id: u16) -> FieldLookup {
    if !spec_dir_wf(s) {
        FieldLookup::Truncated
    } else {
        match spec_find_from(s, spec_dir_count(s), 0, id) {
            Option::None => FieldLookup::Missing,
            Option::Some(o) => FieldLookup::Found(o),
        }
    }
}

/// Resolve `id` against the directory at the front of `buf`.
pub fn find_field(buf: &[u8], id: u16) -> (r: Result<Option<u32>, Error>)
    ensures
        (match spec_find_field(buf@, id) {
            FieldLookup::Truncated => r == Err::<Option<u32>, Error>(Error::TruncatedTable),
            FieldLookup::Missing => r == Ok::<Option<u32>, Error>(None::<u32>),
            FieldLookup::Found(o) => r == Ok::<Option<u32>, Error>(Some(o)),
        }),
{
    let len = buf.len();
    if len < 2 {
        return Err(Error::TruncatedTable);
    }
    let n = u16_from_le_bytes(slice_subrange(buf, 0, 2)) as usize;
    assert(n == spec_dir_count(buf@));
    if len < 2 + 6 * n {
        return Err(Error::TruncatedTable);
    }
    let mut j: usize = 0;
    while j < n
        invariant
            j <= n,
            n == spec_dir_count(buf@),
            buf@.len() >= 2 + 6 * n,
            spec_find_from(buf@, n as int, 0, id) == spec_find_from(buf@, n as int, j as int, id),
        decreases n - j,
    {
        let eid = u16_from_le_bytes(slice_subrange(buf, 2 + 6 * j, 2 + 6 * j + 2));
        assert(eid == spec_entry_id(buf@, j as int));
        if eid == id {
            let off = u32_from_le_bytes(slice_subrange(buf, 2 + 6 * j + 2, 2 + 6 * j + 6));
            assert(off == spec_entry_offset(buf@, j as int));
            return Ok(Some(off));
        }
        j = j + 1;
    }
    Ok(None)
}

/// Read a two-byte little-endian scalar at byte `pos`, checking bounds.
pub open spec fn spec_parse_u16_at(s: Seq<u8>, pos: int) -> Result<u16, Error> {
    if 0 <= pos && pos + 2 <= s.len() {
        Ok(spec_u16_from_le_bytes(s.subrange(pos, pos + 2)))
    } else {
        Err(Error::TruncatedTable)
    }
}

/// Read a four-byte little-endian scalar at byte `pos`, checking bounds.
pub open spec fn spec_parse_u32_at(s: Seq<u8>, pos: int) -> Result<u32, Error> {
    if 0 <= pos && pos + 4 <= s.len() {
        Ok(spec_u32_from_le_bytes(s.subrange(pos, pos + 4)))
    } else {
        Err(Error::TruncatedTable)
    }
}

pub fn parse_u16_at(buf: &[u8], pos: usize) -> (r: Result<u16, Error>)
    ensures
        r == spec_parse_u16_at(buf@, pos as int),
{
    let len = buf.len();
    if pos <= len && len - pos >= 2 {
        Ok(u16_from_le_bytes(slice_subrange(buf, pos, pos + 2)))
    } else {
        Err(Error::TruncatedTable)
    }
}

pub fn parse_u32_at(buf: &[u8], pos: usize) -> (r: Result<u32, Error>)
    ensures
        r == spec_parse_u32_at(buf@, pos as int),
{
    let len = buf.len();
    if pos <= len && len - pos >= 4 {
        Ok(u32_from_le_bytes(slice_subrange(buf, pos, pos + 4)))
    } else {
        Err(Error::TruncatedTable)
    }
}

/// Append every byte of `src` to `out`.
pub fn append_bytes(out: &mut Vec<u8>, src: &[u8])
    ensures
        final(out)@ == old(out)@ + src@,
{
    let mut i: usize = 0;
    while i < src.len()
        invariant
            i <= src@.len(),
            out@ == old(out)@ + src@.take(i as int),
        decreases src@.len() - i,
    {
        let b = *vstd::slice::slice_index_get(src, i);
        out.push(b);
        assert(out@ =~= old(out)@ + src@.take(i as int + 1));
        i = i + 1;
    }
    assert(out@ =~= old(out)@ + src@);
}

/// Builds one table: fields are pushed in order, each with its permanent
/// identifier and encoded payload, and `finish` emits the table bytes.
pub struct TableBuilder {
    pub fields: Vec<FieldEntry>,
}

impl View for TableBuilder {
    type V = Seq<FieldModel>;

    open spec fn view(&self) -> Seq<FieldModel> {
        field_models(self.fields@)
    }
}

impl TableBuilder {
    pub fn new() -> (t: TableBuilder)
        ensures
            t@ == Seq::<FieldModel>::empty(),
    {
        let t = TableBuilder { fields: Vec::new() };
        proof {
            assert(t@ =~= Seq::<FieldModel>::empty());
        }
        t
    }

    pub fn push_field(&mut self, id: u16, payload: Vec<u8>)
        ensures
            final(self)@ == old(self)@.push(FieldModel { id, payload: payload@ }),
    {
        let ghost p = payload@;
        self.fields.push(FieldEntry { id, payload });
        proof {
            assert(self@ =~= old(self)@.push(FieldModel { id, payload: p }));
        }
    }

    pub fn finish(&self) -> (r: Vec<u8>)
        requires
            table_wf(self@),
        ensures
            r@ == table_bytes(self@),
    {
        encode_table(&self.fields)
    }
}

/// Encode a table from its field list.
pub fn encode_table(fields: &Vec<FieldEntry>) -> (r: Vec<u8>)
    requires
        table_wf(field_models(fields@)),
    ensures
        r@ == table_bytes(field_models(fields@)),
{
    let ghost fs = field_models(fields@);
    proof {
        vstd::bytes::lemma_auto_spec_u16_to_from_le_bytes();
        vstd::bytes::lemma_auto_spec_u32_to_from_le_bytes();
    }
    let n = fields.len();
    let mut out = u16_to_le_bytes(n as u16);
    let mut off: u32 = (2 + 6 * n) as u32;
    assert(off == field_offset(fs, 0));
    let mut j: usize = 0;
    while j < n
        invariant
            j <= n,
            n == fields@.len(),
            fs == field_models(fields@),
            table_wf(fs),
            off == field_offset(fs, j as int),
            out@ == spec_u16_to_le_bytes(fs.len() as u16) + dir_bytes(fs, j as int),
        decreases n - j,
    {
        proof {
            vstd::bytes::lemma_auto_spec_u16_to_from_le_bytes();
            vstd::bytes::lemma_auto_spec_u32_to_from_le_bytes();
            lemma_payloads_size_monotone(fs, j as int + 1, n as int);
            lemma_payloads_size_monotone(fs, 0, j as int);
        }
        let e_id = fields[j].id;
        let mut idb = u16_to_le_bytes(e_id);
        out.append(&mut idb);
        let mut offb = u32_to_le_bytes(off);
        out.append(&mut offb);
        let plen = fields[j].payload.len();
        assert(off + plen == field_offset(fs, j as int + 1));
        off = off + (plen as u32);
        proof {
            assert(out@ =~= spec_u16_to_le_bytes(fs.len() as u16) + dir_bytes(fs, j as int + 1));
        }
        j = j + 1;
    }
    let mut j: usize = 0;
    while j < n
        invariant
            j <= n,
            n == fields@.len(),
            fs == field_models(fields@),
            table_wf(fs),
            out@ == spec_u16_to_le_bytes(fs.len() as u16) + dir_bytes(fs, n as int)
                + payloads_bytes(fs, j as int),
        decreases n - j,
    {
        append_bytes(&mut out, fields[j].payload.as_slice());
        proof {
            assert(out@ =~= spec_u16_to_le_bytes(fs.len() as u16) + dir_bytes(fs, n as int)
                + payloads_bytes(fs, j as int + 1));
        }
        j = j + 1;
    }
    out
}

pub proof fn lemma_find_from_no_match(s: Seq<u8>, n: int, k: int, m: int, id: u16)
    requires
        0 <= k <= m <= n,
        forall|i: int| k <= i < m ==> spec_entry_id(s, i) != id,
    ensures
        spec_find_from(s, n, k, id) == spec_find_from(s, n, m, id),
    decreases m - k,
{
    if k < m {
        lemma_find_from_no_match(s, n, k + 1, m, id);
    }
}

/// The directory of an encoded table claims exactly its field count.
pub proof fn lemma_table_dir_count(fs: Seq<FieldModel>)
    requires
        table_wf(fs),
    ensures
        spec_dir_wf(table_bytes(fs)),
        spec_dir_count(table_bytes(fs)) == fs.len(),
{
    vstd::bytes::lemma_auto_spec_u16_to_from_le_bytes();
    let t = table_bytes(fs);
    let n = fs.len() as int;
    lemma_table_bytes_len(fs);
    lemma_dir_bytes_len(fs, n);
    lemma_payloads_bytes_len(fs, n);
    lemma_payloads_size_monotone(fs, 0, n);
    assert(t.subrange(0, 2) =~= spec_u16_to_le_bytes(fs.len() as u16));
}

/// Every directory entry of an encoded table carries its field's identifier
/// and recorded offset.
pub proof fn lemma_table_entries(fs: Seq<FieldModel>)
    requires
        table_wf(fs),
    ensures
        forall|i: int|
            0 <= i < fs.len() ==> #[trigger] spec_entry_id(table_bytes(fs), i) == fs[i].id,
        forall|i: int|
            0 <= i < fs.len() ==> #[trigger] spec_entry_offset(table_bytes(fs), i) == field_offset(
                fs,
                i,
            ) as u32,
{
    assert forall|i: int| 0 <= i < fs.len() implies #[trigger] spec_entry_id(table_bytes(fs), i)
        == fs[i].id by {
        vstd::bytes::lemma_auto_spec_u16_to_from_le_bytes();
        lemma_table_field(fs, i);
        assert(table_bytes(fs).subrange(2 + 6 * i, 2 + 6 * i + 2) == spec_u16_to_le_bytes(
            fs[i].id,
        ));
        assert(spec_u16_from_le_bytes(spec_u16_to_le_bytes(fs[i].id)) == fs[i].id);
    }
    assert forall|i: int| 0 <= i < fs.len() implies #[trigger] spec_entry_offset(table_bytes(fs), i)
        == field_offset(fs, i) as u32 by {
        vstd::bytes::lemma_auto_spec_u32_to_from_le_bytes();
        lemma_table_field(fs, i);
        assert(spec_u32_to_le_bytes(field_offset(fs, i) as u32).len() == 4);
        assert(spec_u32_from_le_bytes(spec_u32_to_le_bytes(field_offset(fs, i) as u32))
            == field_offset(fs, i) as u32);
    }
}

/// Resolving an identifier against an encoded table finds the first field
/// that carries it, at that field's recorded offset.
pub proof fn lemma_table_find_found(fs: Seq<FieldModel>, id: u16, j: int)
    requires
        table_wf(fs),
        0 <= j < fs.len(),
        fs[j].id == id,
        forall|i: int| 0 <= i < j ==> fs[i].id != id,
    ensures
        spec_find_field(table_bytes(fs), id) == FieldLookup::Found(field_offset(fs, j) as u32),
        field_offset(fs, j) as u32 == field_offset(fs, j),
{
    let t = table_bytes(fs);
    let n = fs.len() as int;
    lemma_table_dir_count(fs);
    lemma_table_entries(fs);
    lemma_table_field(fs, j);
    lemma_find_from_no_match(t, n, 0, j, id);
    lemma_payloads_size_monotone(fs, 0, j);
    lemma_payloads_size_monotone(fs, j, n);
}

/// Resolving an identifier that no field carries reports it missing.
pub proof fn lemma_table_find_missing(fs: Seq<FieldModel>, id: u16)
    requires
        table_wf(fs),
        forall|i: int| 0 <= i < fs.len() ==> fs[i].id != id,
    ensures
        spec_find_field(table_bytes(fs), id) == FieldLookup::Missing,
{
    let t = table_bytes(fs);
    let n = fs.len() as int;
    lemma_table_dir_count(fs);
    lemma_table_entries(fs);
    lemma_find_from_no_match(t, n, 0, n, id);
}

} // verus!
