use crate::block::Block;
use crate::errors::Error;
use crate::table::{
    field_offset, find_field, lemma_table_bytes_len, lemma_table_field, lemma_table_find_found,
    lemma_table_find_missing, parse_u16_at, parse_u32_at, spec_find_field, spec_parse_u16_at,
    spec_parse_u32_at, table_bytes, table_wf, FieldLookup, FieldModel, TableBuilder,
};
use crate::vectors::{
    blocks_payload, blocks_payload_size, encode_blocks_payload, encode_kvs_payload, kv_models,
    kvs_encodable, kvs_payload, kvs_payload_size, lemma_block_records_len, lemma_kv_records_len,
    lemma_parse_blocks_embedded, lemma_parse_kv_vector_embedded, parse_blocks, parse_kv_vector,
    spec_parse_blocks, spec_parse_kv_vector, KeyValue, KeyValueModel,
};
use crate::version::{
    lemma_version_code_round_trip, spec_version_code, spec_version_from_code, version_code,
    version_from_code, MetadataVersion,
};
use vstd::bytes::{spec_u16_to_le_bytes, spec_u32_to_le_bytes, u16_to_le_bytes, u32_to_le_bytes};
use vstd::prelude::*;

verus! {

/// Field identifier of the footer's version field, permanent across revisions.
pub const VT_VERSION: u16 = 4;

/// Field identifier of the schema reference.
pub const VT_SCHEMA: u16 = 6;

/// Field identifier of the dictionary block list.
pub const VT_DICTIONARIES: u16 = 8;

/// Field identifier of the record batch block list.
pub const VT_RECORDBATCHES: u16 = 10;

/// Field identifier of the user metadata list.
pub const VT_CUSTOM_METADATA: u16 = 12;

/// The identifiers this decoder knows; anything else is skipped.
pub open spec fn is_footer_field_id(id: u16) -> bool {
    id == VT_VERSION || id == VT_SCHEMA || id == VT_DICTIONARIES || id == VT_RECORDBATCHES || id
        == VT_CUSTOM_METADATA
}

/// A decoded footer.
///
/// The footer owns its block lists by value; `schema` is the position of the
/// embedded schema description, referenced rather than copied.  A decode
/// either fully succeeds or leaves nothing behind: a `Footer` exists only
/// for a buffer whose known fields all parsed.
#[derive(Debug)]
pub struct Footer {
    pub version: MetadataVersion,
    pub schema: u32,
    pub dictionaries: Vec<Block>,
    pub record_batches: Vec<Block>,
    pub custom_metadata: Vec<KeyValue>,
}

/// Mathematical model of a decoded footer.
pub struct FooterView {
    pub version: MetadataVersion,
    pub schema: u32,
    pub dictionaries: Seq<Block>,
    pub record_batches: Seq<Block>,
    pub custom_metadata: Seq<KeyValueModel>,
}

impl View for Footer {
    type V = FooterView;

    open spec fn view(&self) -> FooterView {
        FooterView {
            version: self.version,
            schema: self.schema,
            dictionaries: self.dictionaries@,
            record_batches: self.record_batches@,
            custom_metadata: kv_models(self.custom_metadata@),
        }
    }
}

impl Footer {
    pub fn version(&self) -> (r: MetadataVersion)
        ensures
            r == self.version,
    {
        self.version
    }

    pub fn schema(&self) -> (r: u32)
        ensures
            r == self.schema,
    {
        self.schema
    }

    pub fn dictionaries(&self) -> (r: &Vec<Block>)
        ensures
            r@ == self.dictionaries@,
    {
        &self.dictionaries
    }

    #[allow(non_snake_case)]
    pub fn recordBatches(&self) -> (r: &Vec<Block>)
        ensures
            r@ == self.record_batches@,
    {
        &self.record_batches
    }

    pub fn custom_metadata(&self) -> (r: &Vec<KeyValue>)
        ensures
            r@ == self.custom_metadata@,
    {
        &self.custom_metadata
    }
}

/// What a Writer supplies to build a footer.  Every field but the version is
/// optional at this layer; a footer without a schema is invalid to read back,
/// but the codec encodes what it is given, so callers validate before
/// finishing.
#[allow(non_snake_case)]
pub struct FooterArgs {
    pub version: MetadataVersion,
    pub schema: Option<u32>,
    pub dictionaries: Option<Vec<Block>>,
    pub recordBatches: Option<Vec<Block>>,
    pub custom_metadata: Option<Vec<KeyValue>>,
}

impl Default for FooterArgs {
    /// The oldest revision with every optional field absent.
    fn default() -> (a: FooterArgs)
        ensures
            a.version == MetadataVersion::V1,
            a.schema is None,
            a.dictionaries is None,
            a.recordBatches is None,
            a.custom_metadata is None,
    {
        FooterArgs {
            version: MetadataVersion::V1,
            schema: None,
            dictionaries: None,
            recordBatches: None,
            custom_metadata: None,
        }
    }
}

/// The field list a footer encodes, in the order the builder pushes them:
/// metadata, record batches, dictionaries, schema, version.  An absent
/// optional field has no entry, and the version field is omitted for the
/// oldest revision, whose absence decodes to itself.
pub open spec fn footer_fields(
    version: MetadataVersion,
    schema: Option<u32>,
    dictionaries: Option<Seq<Block>>,
    record_batches: Option<Seq<Block>>,
    custom_metadata: Option<Seq<KeyValueModel>>,
) -> Seq<FieldModel> {
    let fs = Seq::<FieldModel>::empty();
    let fs = match custom_metadata {
        Some(m) => fs.push(FieldModel { id: VT_CUSTOM_METADATA, payload: kvs_payload(m) }),
        None => fs,
    };
    let fs = match record_batches {
        Some(b) => fs.push(FieldModel { id: VT_RECORDBATCHES, payload: blocks_payload(b) }),
        None => fs,
    };
    let fs = match dictionaries {
        Some(d) => fs.push(FieldModel { id: VT_DICTIONARIES, payload: blocks_payload(d) }),
        None => fs,
    };
    let fs = match schema {
        Some(r) => fs.push(FieldModel { id: VT_SCHEMA, payload: spec_u32_to_le_bytes(r) }),
        None => fs,
    };
    if version == MetadataVersion::V1 {
        fs
    } else {
        fs.push(
            FieldModel {
                id: VT_VERSION,
                payload: spec_u16_to_le_bytes(spec_version_code(version)),
            },
        )
    }
}

pub open spec fn opt_blocks_view(o: Option<Vec<Block>>) -> Option<Seq<Block>> {
    match o {
        Some(v) => Some(v@),
        None => None,
    }
}

pub open spec fn opt_kvs_view(o: Option<Vec<KeyValue>>) -> Option<Seq<KeyValueModel>> {
    match o {
        Some(v) => Some(kv_models(v@)),
        None => None,
    }
}

/// The field list `Footer::create` encodes for these arguments.
pub open spec fn args_fields(a: FooterArgs) -> Seq<FieldModel> {
    footer_fields(
        a.version,
        a.schema,
        opt_blocks_view(a.dictionaries),
        opt_blocks_view(a.recordBatches),
        opt_kvs_view(a.custom_metadata),
    )
}

/// Machine limits a Writer's arguments must respect: each list count and
/// byte length must fit its four-byte wire prefix, and the whole table must
/// fit the four-byte offsets of its directory.
pub open spec fn args_wf(a: FooterArgs) -> bool {
    &&& (a.dictionaries matches Some(d) ==> d@.len() <= 0xffff_ffff)
    &&& (a.recordBatches matches Some(b) ==> b@.len() <= 0xffff_ffff)
    &&& (a.custom_metadata matches Some(m) ==> kvs_encodable(kv_models(m@)))
    &&& table_wf(args_fields(a))
}

/// Builds one footer table field by field.
pub struct FooterBuilder {
    pub table: TableBuilder,
}

impl View for FooterBuilder {
    type V = Seq<FieldModel>;

    open spec fn view(&self) -> Seq<FieldModel> {
        self.table@
    }
}

impl FooterBuilder {
    pub fn new() -> (b: FooterBuilder)
        ensures
            b@ == Seq::<FieldModel>::empty(),
    {
        FooterBuilder { table: TableBuilder::new() }
    }

    /// Record the format revision.  The oldest revision is the field's
    /// default, so it is omitted: absence decodes back to it.
    pub fn add_version(&mut self, version: MetadataVersion)
        ensures
            final(self)@ == (if version == MetadataVersion::V1 {
                old(self)@
            } else {
                old(self)@.push(
                    FieldModel {
                        id: VT_VERSION,
                        payload: spec_u16_to_le_bytes(spec_version_code(version)),
                    },
                )
            }),
    {
        if !matches!(version, MetadataVersion::V1) {
            let payload = u16_to_le_bytes(version_code(version));
            self.table.push_field(VT_VERSION, payload);
        }
    }

    /// Record the position of the embedded schema description.
    pub fn add_schema(&mut self, schema: u32)
        ensures
            final(self)@ == old(self)@.push(
                FieldModel { id: VT_SCHEMA, payload: spec_u32_to_le_bytes(schema) },
            ),
    {
        let payload = u32_to_le_bytes(schema);
        self.table.push_field(VT_SCHEMA, payload);
    }

    /// Record the dictionary batch locations, in first-reference order.
    pub fn add_dictionaries(&mut self, dictionaries: &Vec<Block>)
        requires
            dictionaries@.len() <= 0xffff_ffff,
        ensures
            final(self)@ == old(self)@.push(
                FieldModel { id: VT_DICTIONARIES, payload: blocks_payload(dictionaries@) },
            ),
    {
        let payload = encode_blocks_payload(dictionaries);
        self.table.push_field(VT_DICTIONARIES, payload);
    }

    /// Record the record batch locations, in row-chunk order.
    #[allow(non_snake_case)]
    pub fn add_recordBatches(&mut self, recordBatches: &Vec<Block>)
        requires
            recordBatches@.len() <= 0xffff_ffff,
        ensures
            final(self)@ == old(self)@.push(
                FieldModel { id: VT_RECORDBATCHES, payload: blocks_payload(recordBatches@) },
            ),
    {
        let payload = encode_blocks_payload(recordBatches);
        self.table.push_field(VT_RECORDBATCHES, payload);
    }

    /// Record the user metadata pairs, in insertion order.
    pub fn add_custom_metadata(&mut self, custom_metadata: &Vec<KeyValue>)
        requires
            kvs_encodable(kv_models(custom_metadata@)),
        ensures
            final(self)@ == old(self)@.push(
                FieldModel {
                    id: VT_CUSTOM_METADATA,
                    payload: kvs_payload(kv_models(custom_metadata@)),
                },
            ),
    {
        let payload = encode_kvs_payload(custom_metadata);
        self.table.push_field(VT_CUSTOM_METADATA, payload);
    }

    /// Emit the finished table bytes.
    pub fn finish(&self) -> (r: Vec<u8>)
        requires
            table_wf(self@),
        ensures
            r@ == table_bytes(self@),
    {
        self.table.finish()
    }
}

impl Footer {
    /// Build a finished footer table from what a Writer supplies.
    pub fn create(args: &FooterArgs) -> (r: Vec<u8>)
        requires
            args_wf(*args),
        ensures
            r@ == table_bytes(args_fields(*args)),
    {
        let mut builder = FooterBuilder::new();
        match &args.custom_metadata {
            Some(x) => builder.add_custom_metadata(x),
            None => (),
        }
        match &args.recordBatches {
            Some(x) => builder.add_recordBatches(x),
            None => (),
        }
        match &args.dictionaries {
            Some(x) => builder.add_dictionaries(x),
            None => (),
        }
        match &args.schema {
            Some(x) => builder.add_schema(*x),
            None => (),
        }
        builder.add_version(args.version);
        proof {
            assert(builder@ =~= args_fields(*args));
        }
        builder.finish()
    }
}

/// The decoded version field: absent means the oldest revision, a present
/// field must hold a known code.
pub open spec fn spec_version_field(s: Seq<u8>) -> Result<MetadataVersion, Error> {
    match spec_find_field(s, VT_VERSION) {
        FieldLookup::Truncated => Err(Error::TruncatedTable),
        FieldLookup::Missing => Ok(MetadataVersion::V1),
        FieldLookup::Found(o) => match spec_parse_u16_at(s, o as int) {
            Err(e) => Err(e),
            Ok(code) => spec_version_from_code(code),
        },
    }
}

/// The decoded schema reference: a footer without one is invalid.
pub open spec fn spec_schema_field(s: Seq<u8>) -> Result<u32, Error> {
    match spec_find_field(s, VT_SCHEMA) {
        FieldLookup::Truncated => Err(Error::TruncatedTable),
        FieldLookup::Missing => Err(Error::MissingSchema),
        FieldLookup::Found(o) => spec_parse_u32_at(s, o as int),
    }
}

/// A decoded block list field: absent decodes to the empty sequence, never
/// an error.
pub open spec fn spec_blocks_field(s: Seq<u8>, id: u16) -> Result<Seq<Block>, Error> {
    match spec_find_field(s, id) {
        FieldLookup::Truncated => Err(Error::TruncatedTable),
        FieldLookup::Missing => Ok(Seq::empty()),
        FieldLookup::Found(o) => spec_parse_blocks(s, o as int),
    }
}

/// The decoded metadata field: absent decodes to the empty sequence.
pub open spec fn spec_custom_metadata_field(s: Seq<u8>) -> Result<Seq<KeyValueModel>, Error> {
    match spec_find_field(s, VT_CUSTOM_METADATA) {
        FieldLookup::Truncated => Err(Error::TruncatedTable),
        FieldLookup::Missing => Ok(Seq::empty()),
        FieldLookup::Found(o) => spec_parse_kv_vector(s, o as int),
    }
}

/// Parse a footer table.  Fields are resolved in identifier order, so a
/// structurally sound table with an unknown version code fails with
/// `UnknownVersion` and one lacking a schema with `MissingSchema`, while a
/// truncated directory or payload fails with `TruncatedTable`.
pub open spec fn spec_decode_footer(s: Seq<u8>) -> Result<FooterView, Error> {
    match spec_version_field(s) {
        Err(e) => Err(e),
        Ok(version) => match spec_schema_field(s) {
            Err(e) => Err(e),
            Ok(schema) => match spec_blocks_field(s, VT_DICTIONARIES) {
                Err(e) => Err(e),
                Ok(dictionaries) => match spec_blocks_field(s, VT_RECORDBATCHES) {
                    Err(e) => Err(e),
                    Ok(record_batches) => match spec_custom_metadata_field(s) {
                        Err(e) => Err(e),
                        Ok(custom_metadata) => Ok(
                            FooterView {
                                version,
                                schema,
                                dictionaries,
                                record_batches,
                                custom_metadata,
                            },
                        ),
                    },
                },
            },
        },
    }
}

fn decode_version_field(buf: &[u8]) -> (r: Result<MetadataVersion, Error>)
    ensures
        r == spec_version_field(buf@),
{
    match find_field(buf, VT_VERSION) {
        Err(e) => Err(e),
        Ok(None) => Ok(MetadataVersion::V1),
        Ok(Some(o)) => match parse_u16_at(buf, o as usize) {
            Err(e) => Err(e),
            Ok(code) => version_from_code(code),
        },
    }
}

fn decode_schema_field(buf: &[u8]) -> (r: Result<u32, Error>)
    ensures
        r == spec_schema_field(buf@),
{
    match find_field(buf, VT_SCHEMA) {
        Err(e) => Err(e),
        Ok(None) => Err(Error::MissingSchema),
        Ok(Some(o)) => parse_u32_at(buf, o as usize),
    }
}

fn decode_blocks_field(buf: &[u8], id: u16) -> (r: Result<Vec<Block>, Error>)
    ensures
        (match r {
            Ok(v) => spec_blocks_field(buf@, id) == Ok::<Seq<Block>, Error>(v@),
            Err(e) => spec_blocks_field(buf@, id) == Err::<Seq<Block>, Error>(e),
        }),
{
    match find_field(buf, id) {
        Err(e) => Err(e),
        Ok(None) => {
            let v: Vec<Block> = Vec::new();
            assert(v@ =~= Seq::<Block>::empty());
            Ok(v)
        },
        Ok(Some(o)) => parse_blocks(buf, o as usize),
    }
}

fn decode_custom_metadata_field(buf: &[u8]) -> (r: Result<Vec<KeyValue>, Error>)
    ensures
        (match r {
            Ok(v) => spec_custom_metadata_field(buf@) == Ok::<Seq<KeyValueModel>, Error>(
                kv_models(v@),
            ),
            Err(e) => spec_custom_metadata_field(buf@) == Err::<Seq<KeyValueModel>, Error>(e),
        }),
{
    match find_field(buf, VT_CUSTOM_METADATA) {
        Err(e) => Err(e),
        Ok(None) => {
            let v: Vec<KeyValue> = Vec::new();
            assert(kv_models(v@) =~= Seq::<KeyValueModel>::empty());
            Ok(v)
        },
        Ok(Some(o)) => parse_kv_vector(buf, o as usize),
    }
}

/// Decode the footer table at the front of `buf`.
///
/// Either every known field parses — the version defaulting to the oldest
/// revision, absent lists to empty ones — or the decode fails: with
/// `TruncatedTable` when the directory or a payload is cut short, with
/// `UnknownVersion` for a version code beyond the known set, and with
/// `MissingSchema` when the schema field is absent.  Unknown identifiers in
/// the directory are skipped.
pub fn get_root_as_footer(buf: &[u8]) -> (r: Result<Footer, Error>)
    ensures
        (match r {
            Ok(f) => spec_decode_footer(buf@) == Ok::<FooterView, Error>(f@),
            Err(e) => spec_decode_footer(buf@) == Err::<FooterView, Error>(e),
        }),
{
    let version = match decode_version_field(buf) {
        Ok(v) => v,
        Err(e) => {
            return Err(e);
        },
    };
    let schema = match decode_schema_field(buf) {
        Ok(v) => v,
        Err(e) => {
            return Err(e);
        },
    };
    let dictionaries = match decode_blocks_field(buf, VT_DICTIONARIES) {
        Ok(v) => v,
        Err(e) => {
            return Err(e);
        },
    };
    let record_batches = match decode_blocks_field(buf, VT_RECORDBATCHES) {
        Ok(v) => v,
        Err(e) => {
            return Err(e);
        },
    };
    let custom_metadata = match decode_custom_metadata_field(buf) {
        Ok(v) => v,
        Err(e) => {
            return Err(e);
        },
    };
    Ok(Footer { version, schema, dictionaries, record_batches, custom_metadata })
}

pub open spec fn or_empty_blocks(o: Option<Seq<Block>>) -> Seq<Block> {
    match o {
        Some(v) => v,
        None => Seq::empty(),
    }
}

pub open spec fn or_empty_kvs(o: Option<Seq<KeyValueModel>>) -> Seq<KeyValueModel> {
    match o {
        Some(v) => v,
        None => Seq::empty(),
    }
}

/// Decoding the table built from a Writer's arguments — even when any number
/// of trailing fields with unknown identifiers follows — recovers exactly
/// those arguments, for every combination of present and absent optional
/// fields: the version (its omitted default decoding back to the oldest
/// revision), the schema reference when present and `MissingSchema` when
/// not, each absent block list as the empty sequence, and every metadata
/// pair in order.
#[verifier::rlimit(50)]
pub proof fn lemma_footer_decode(
    version: MetadataVersion,
    schema: Option<u32>,
    dictionaries: Option<Seq<Block>>,
    record_batches: Option<Seq<Block>>,
    custom_metadata: Option<Seq<KeyValueModel>>,
    extra: Seq<FieldModel>,
)
    requires
        (dictionaries matches Some(d) ==> d.len() <= 0xffff_ffff),
        (record_batches matches Some(b) ==> b.len() <= 0xffff_ffff),
        (custom_metadata matches Some(m) ==> kvs_encodable(m)),
        forall|i: int| 0 <= i < extra.len() ==> !is_footer_field_id(#[trigger] extra[i].id),
        table_wf(
            footer_fields(version, schema, dictionaries, record_batches, custom_metadata) + extra,
        ),
    ensures
        spec_decode_footer(
            table_bytes(
                footer_fields(version, schema, dictionaries, record_batches, custom_metadata)
                    + extra,
            ),
        ) == (match schema {
            Some(r) => Ok::<FooterView, Error>(
                FooterView {
                    version,
                    schema: r,
                    dictionaries: or_empty_blocks(dictionaries),
                    record_batches: or_empty_blocks(record_batches),
                    custom_metadata: or_empty_kvs(custom_metadata),
                },
            ),
            None => Err::<FooterView, Error>(Error::MissingSchema),
        }),
{
    vstd::bytes::lemma_auto_spec_u16_to_from_le_bytes();
    vstd::bytes::lemma_auto_spec_u32_to_from_le_bytes();
    let base = footer_fields(version, schema, dictionaries, record_batches, custom_metadata);
    let fs = base + extra;
    let t = table_bytes(fs);
    lemma_table_bytes_len(fs);
    let i_rb: int = if custom_metadata is Some {
        1
    } else {
        0
    };
    let i_dict: int = i_rb + if record_batches is Some {
        1int
    } else {
        0
    };
    let i_schema: int = i_dict + if dictionaries is Some {
        1int
    } else {
        0
    };
    let i_ver: int = i_schema + if schema is Some {
        1int
    } else {
        0
    };
    assert(base.len() == i_ver + if version == MetadataVersion::V1 {
        0int
    } else {
        1int
    });
    // the version field
    if version == MetadataVersion::V1 {
        assert forall|i: int| 0 <= i < fs.len() implies fs[i].id != VT_VERSION by {
            if i >= base.len() {
                assert(fs[i] == extra[i - base.len()]);
                assert(!is_footer_field_id(extra[i - base.len()].id));
            }
        }
        lemma_table_find_missing(fs, VT_VERSION);
        assert(spec_version_field(t) == Ok::<MetadataVersion, Error>(version));
    } else {
        assert(fs[i_ver].id == VT_VERSION && fs[i_ver].payload == spec_u16_to_le_bytes(
            spec_version_code(version),
        ));
        lemma_table_find_found(fs, VT_VERSION, i_ver);
        lemma_table_field(fs, i_ver);
        let off = field_offset(fs, i_ver);
        assert(t.subrange(off, off + 2) == spec_u16_to_le_bytes(spec_version_code(version)));
        assert(spec_parse_u16_at(t, off) == Ok::<u16, Error>(spec_version_code(version)));
        lemma_version_code_round_trip(version);
        assert(spec_version_field(t) == Ok::<MetadataVersion, Error>(version));
    }
    // the schema field
    match schema {
        Some(r) => {
            assert(fs[i_schema].id == VT_SCHEMA && fs[i_schema].payload == spec_u32_to_le_bytes(r));
            lemma_table_find_found(fs, VT_SCHEMA, i_schema);
            lemma_table_field(fs, i_schema);
            let off = field_offset(fs, i_schema);
            assert(t.subrange(off, off + 4) == spec_u32_to_le_bytes(r));
            assert(spec_parse_u32_at(t, off) == Ok::<u32, Error>(r));
            assert(spec_schema_field(t) == Ok::<u32, Error>(r));
        },
        None => {
            assert forall|i: int| 0 <= i < fs.len() implies fs[i].id != VT_SCHEMA by {
                if i >= base.len() {
                    assert(fs[i] == extra[i - base.len()]);
                    assert(!is_footer_field_id(extra[i - base.len()].id));
                }
            }
            lemma_table_find_missing(fs, VT_SCHEMA);
            assert(spec_schema_field(t) == Err::<u32, Error>(Error::MissingSchema));
        },
    }
    // the dictionary list
    match dictionaries {
        Some(d) => {
            assert(fs[i_dict].id == VT_DICTIONARIES && fs[i_dict].payload == blocks_payload(d));
            lemma_table_find_found(fs, VT_DICTIONARIES, i_dict);
            lemma_table_field(fs, i_dict);
            let off = field_offset(fs, i_dict);
            lemma_block_records_len(d, d.len() as int);
            assert(blocks_payload(d).len() == blocks_payload_size(d.len() as int));
            lemma_parse_blocks_embedded(t, off, d);
            assert(spec_blocks_field(t, VT_DICTIONARIES) == Ok::<Seq<Block>, Error>(d));
        },
        None => {
            assert forall|i: int| 0 <= i < fs.len() implies fs[i].id != VT_DICTIONARIES by {
                if i >= base.len() {
                    assert(fs[i] == extra[i - base.len()]);
                    assert(!is_footer_field_id(extra[i - base.len()].id));
                }
            }
            lemma_table_find_missing(fs, VT_DICTIONARIES);
            assert(spec_blocks_field(t, VT_DICTIONARIES) == Ok::<Seq<Block>, Error>(
                Seq::empty(),
            ));
        },
    }
    // the record batch list
    match record_batches {
        Some(b) => {
            assert(fs[i_rb].id == VT_RECORDBATCHES && fs[i_rb].payload == blocks_payload(b));
            lemma_table_find_found(fs, VT_RECORDBATCHES, i_rb);
            lemma_table_field(fs, i_rb);
            let off = field_offset(fs, i_rb);
            lemma_block_records_len(b, b.len() as int);
            assert(blocks_payload(b).len() == blocks_payload_size(b.len() as int));
            lemma_parse_blocks_embedded(t, off, b);
            assert(spec_blocks_field(t, VT_RECORDBATCHES) == Ok::<Seq<Block>, Error>(b));
        },
        None => {
            assert forall|i: int| 0 <= i < fs.len() implies fs[i].id != VT_RECORDBATCHES by {
                if i >= base.len() {
                    assert(fs[i] == extra[i - base.len()]);
                    assert(!is_footer_field_id(extra[i - base.len()].id));
                }
            }
            lemma_table_find_missing(fs, VT_RECORDBATCHES);
            assert(spec_blocks_field(t, VT_RECORDBATCHES) == Ok::<Seq<Block>, Error>(
                Seq::empty(),
            ));
        },
    }
    // the metadata list
    match custom_metadata {
        Some(m) => {
            assert(fs[0].id == VT_CUSTOM_METADATA && fs[0].payload == kvs_payload(m));
            lemma_table_find_found(fs, VT_CUSTOM_METADATA, 0);
            lemma_table_field(fs, 0);
            let off = field_offset(fs, 0);
            lemma_kv_records_len(m, m.len() as int);
            assert(kvs_payload(m).len() == kvs_payload_size(m));
            lemma_parse_kv_vector_embedded(t, off, m);
            assert(spec_custom_metadata_field(t) == Ok::<Seq<KeyValueModel>, Error>(m));
        },
        None => {
            assert forall|i: int| 0 <= i < fs.len() implies fs[i].id != VT_CUSTOM_METADATA by {
                if i >= base.len() {
                    assert(fs[i] == extra[i - base.len()]);
                    assert(!is_footer_field_id(extra[i - base.len()].id));
                }
            }
            lemma_table_find_missing(fs, VT_CUSTOM_METADATA);
            assert(spec_custom_metadata_field(t) == Ok::<Seq<KeyValueModel>, Error>(
                Seq::empty(),
            ));
        },
    }
}

/// Round trip: a footer built with the schema present decodes back to
/// exactly what was encoded, for every combination of the optional fields
/// being present or absent.
pub proof fn lemma_footer_round_trip(
    version: MetadataVersion,
    schema: u32,
    dictionaries: Option<Seq<Block>>,
    record_batches: Option<Seq<Block>>,
    custom_metadata: Option<Seq<KeyValueModel>>,
)
    requires
        (dictionaries matches Some(d) ==> d.len() <= 0xffff_ffff),
        (record_batches matches Some(b) ==> b.len() <= 0xffff_ffff),
        (custom_metadata matches Some(m) ==> kvs_encodable(m)),
        table_wf(
            footer_fields(version, Some(schema), dictionaries, record_batches, custom_metadata),
        ),
    ensures
        spec_decode_footer(
            table_bytes(
                footer_fields(version, Some(schema), dictionaries, record_batches, custom_metadata),
            ),
        ) == Ok::<FooterView, Error>(
            FooterView {
                version,
                schema,
                dictionaries: or_empty_blocks(dictionaries),
                record_batches: or_empty_blocks(record_batches),
                custom_metadata: or_empty_kvs(custom_metadata),
            },
        ),
{
    let base = footer_fields(version, Some(schema), dictionaries, record_batches, custom_metadata);
    assert(base + Seq::<FieldModel>::empty() =~= base);
    lemma_footer_decode(
        version,
        Some(schema),
        dictionaries,
        record_batches,
        custom_metadata,
        Seq::empty(),
    );
}

/// A footer encoded without its schema field fails to decode with
/// `MissingSchema`, whatever else it carries.
pub proof fn lemma_footer_missing_schema(
    version: MetadataVersion,
    dictionaries: Option<Seq<Block>>,
    record_batches: Option<Seq<Block>>,
    custom_metadata: Option<Seq<KeyValueModel>>,
)
    requires
        (dictionaries matches Some(d) ==> d.len() <= 0xffff_ffff),
        (record_batches matches Some(b) ==> b.len() <= 0xffff_ffff),
        (custom_metadata matches Some(m) ==> kvs_encodable(m)),
        table_wf(
            footer_fields(
                version,
                None::<u32>,
                dictionaries,
                record_batches,
                custom_metadata,
            ),
        ),
    ensures
        spec_decode_footer(
            table_bytes(
                footer_fields(version, None::<u32>, dictionaries, record_batches, custom_metadata),
            ),
        ) == Err::<FooterView, Error>(Error::MissingSchema),
{
    let base = footer_fields(version, None::<u32>, dictionaries, record_batches, custom_metadata);
    assert(base + Seq::<FieldModel>::empty() =~= base);
    lemma_footer_decode(
        version,
        None::<u32>,
        dictionaries,
        record_batches,
        custom_metadata,
        Seq::empty(),
    );
}

/// A footer encoded without a dictionary list decodes to the empty
/// sequence of dictionaries, not an error.
pub proof fn lemma_footer_missing_dictionaries(
    version: MetadataVersion,
    schema: u32,
    record_batches: Option<Seq<Block>>,
    custom_metadata: Option<Seq<KeyValueModel>>,
)
    requires
        (record_batches matches Some(b) ==> b.len() <= 0xffff_ffff),
        (custom_metadata matches Some(m) ==> kvs_encodable(m)),
        table_wf(
            footer_fields(
                version,
                Some(schema),
                None::<Seq<Block>>,
                record_batches,
                custom_metadata,
            ),
        ),
    ensures
        spec_decode_footer(
            table_bytes(
                footer_fields(
                    version,
                    Some(schema),
                    None::<Seq<Block>>,
                    record_batches,
                    custom_metadata,
                ),
            ),
        ) == Ok::<FooterView, Error>(
            FooterView {
                version,
                schema,
                dictionaries: Seq::empty(),
                record_batches: or_empty_blocks(record_batches),
                custom_metadata: or_empty_kvs(custom_metadata),
            },
        ),
{
    lemma_footer_round_trip(
        version,
        schema,
        None::<Seq<Block>>,
        record_batches,
        custom_metadata,
    );
}

/// Forward compatibility: fields with identifiers this decoder does not
/// know, appended to an otherwise valid footer, change nothing about what
/// it decodes to.
pub proof fn lemma_footer_ignores_unknown_fields(
    version: MetadataVersion,
    schema: u32,
    dictionaries: Option<Seq<Block>>,
    record_batches: Option<Seq<Block>>,
    custom_metadata: Option<Seq<KeyValueModel>>,
    extra: Seq<FieldModel>,
)
    requires
        (dictionaries matches Some(d) ==> d.len() <= 0xffff_ffff),
        (record_batches matches Some(b) ==> b.len() <= 0xffff_ffff),
        (custom_metadata matches Some(m) ==> kvs_encodable(m)),
        forall|i: int| 0 <= i < extra.len() ==> !is_footer_field_id(#[trigger] extra[i].id),
        table_wf(
            footer_fields(version, Some(schema), dictionaries, record_batches, custom_metadata)
                + extra,
        ),
    ensures
        spec_decode_footer(
            table_bytes(
                footer_fields(version, Some(schema), dictionaries, record_batches, custom_metadata)
                    + extra,
            ),
        ) == Ok::<FooterView, Error>(
            FooterView {
                version,
                schema,
                dictionaries: or_empty_blocks(dictionaries),
                record_batches: or_empty_blocks(record_batches),
                custom_metadata: or_empty_kvs(custom_metadata),
            },
        ),
{
    lemma_footer_decode(
        version,
        Some(schema),
        dictionaries,
        record_batches,
        custom_metadata,
        extra,
    );
}

/// A structurally sound table whose version field holds a code beyond the
/// known set fails with `UnknownVersion` — an error distinct from the one a
/// malformed table raises.
pub proof fn lemma_unknown_version(s: Seq<u8>, o: u32, code: u16)
    requires
        spec_find_field(s, VT_VERSION) == FieldLookup::Found(o),
        spec_parse_u16_at(s, o as int) == Ok::<u16, Error>(code),
        4 < code,
    ensures
        spec_decode_footer(s) == Err::<FooterView, Error>(Error::UnknownVersion),
{
    assert(spec_version_field(s) == Err::<MetadataVersion, Error>(Error::UnknownVersion));
}

} // verus!
