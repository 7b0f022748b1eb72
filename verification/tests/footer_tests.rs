use arrow_footer::block::Block;
use arrow_footer::errors::Error;
use arrow_footer::footer::{get_root_as_footer, Footer, FooterArgs, FooterBuilder, VT_VERSION};
use arrow_footer::vectors::KeyValue;
use arrow_footer::version::MetadataVersion;

fn kv(key: &[u8], value: &[u8]) -> KeyValue {
    KeyValue { key: key.to_vec(), value: value.to_vec() }
}

#[test]
fn footer_full_round_trip() {
    let args = FooterArgs {
        version: MetadataVersion::V4,
        schema: Some(1234),
        dictionaries: Some(vec![Block::new(0, 40, 64), Block::new(128, 40, 64)]),
        recordBatches: Some(vec![Block::new(256, 100, 1024)]),
        custom_metadata: Some(vec![kv(b"writer", b"tests"), kv(b"writer", b"again")]),
    };
    let buf = Footer::create(&args);
    let f = get_root_as_footer(&buf).unwrap();
    assert_eq!(f.version(), MetadataVersion::V4);
    assert_eq!(f.schema(), 1234);
    assert_eq!(f.dictionaries().len(), 2);
    assert_eq!(f.dictionaries()[0], Block::new(0, 40, 64));
    assert_eq!(f.dictionaries()[1], Block::new(128, 40, 64));
    assert_eq!(f.recordBatches().len(), 1);
    assert_eq!(f.recordBatches()[0], Block::new(256, 100, 1024));
    // duplicate keys survive in insertion order
    assert_eq!(f.custom_metadata().len(), 2);
    assert_eq!(f.custom_metadata()[0].key, b"writer".to_vec());
    assert_eq!(f.custom_metadata()[0].value, b"tests".to_vec());
    assert_eq!(f.custom_metadata()[1].value, b"again".to_vec());
}

#[test]
fn footer_defaults_when_fields_absent() {
    let args = FooterArgs { schema: Some(0), ..FooterArgs::default() };
    let buf = Footer::create(&args);
    let f = get_root_as_footer(&buf).unwrap();
    assert_eq!(f.version(), MetadataVersion::V1);
    assert_eq!(f.schema(), 0);
    assert!(f.dictionaries().is_empty());
    assert!(f.recordBatches().is_empty());
    assert!(f.custom_metadata().is_empty());
}

#[test]
fn footer_every_version_round_trips() {
    let versions = [
        MetadataVersion::V1,
        MetadataVersion::V2,
        MetadataVersion::V3,
        MetadataVersion::V4,
        MetadataVersion::V5,
    ];
    for v in versions {
        let args = FooterArgs { version: v, schema: Some(7), ..FooterArgs::default() };
        let buf = Footer::create(&args);
        let f = get_root_as_footer(&buf).unwrap();
        assert_eq!(f.version(), v);
    }
}

#[test]
fn footer_missing_schema_errors() {
    let args = FooterArgs { version: MetadataVersion::V5, ..FooterArgs::default() };
    let buf = Footer::create(&args);
    assert!(matches!(get_root_as_footer(&buf), Err(Error::MissingSchema)));
}

#[test]
fn footer_missing_dictionaries_decodes_empty() {
    let args = FooterArgs {
        version: MetadataVersion::V5,
        schema: Some(7),
        recordBatches: Some(vec![Block::new(16, 32, 64)]),
        ..FooterArgs::default()
    };
    let buf = Footer::create(&args);
    let f = get_root_as_footer(&buf).unwrap();
    assert!(f.dictionaries().is_empty());
    assert_eq!(f.recordBatches().len(), 1);
}

#[test]
fn footer_scenario_v5_one_batch_one_pair() {
    let args = FooterArgs {
        version: MetadataVersion::V5,
        schema: Some(2),
        dictionaries: Some(vec![]),
        recordBatches: Some(vec![Block::new(8, 100, 256)]),
        custom_metadata: Some(vec![kv(b"k1", b"v1")]),
    };
    let buf = Footer::create(&args);
    let f = get_root_as_footer(&buf).unwrap();
    assert_eq!(f.version(), MetadataVersion::V5);
    assert_eq!(f.schema(), 2);
    assert!(f.dictionaries().is_empty());
    assert_eq!(f.recordBatches().len(), 1);
    assert_eq!(f.recordBatches()[0].offset(), 8);
    assert_eq!(f.recordBatches()[0].metaDataLength(), 100);
    assert_eq!(f.recordBatches()[0].bodyLength(), 256);
    assert_eq!(f.custom_metadata().len(), 1);
    assert_eq!(f.custom_metadata()[0].key, b"k1".to_vec());
    assert_eq!(f.custom_metadata()[0].value, b"v1".to_vec());
}

#[test]
fn footer_minimal_encoding_layout() {
    // one field: the schema reference; the oldest version is omitted
    let args = FooterArgs { schema: Some(5), ..FooterArgs::default() };
    let buf = Footer::create(&args);
    assert_eq!(
        buf,
        vec![
            0x01, 0x00, // one directory entry
            0x06, 0x00, 0x08, 0x00, 0x00, 0x00, // schema field at byte 8
            0x05, 0x00, 0x00, 0x00, // the schema reference
        ]
    );
}

#[test]
fn footer_unknown_version_code_errors() {
    let mut b = FooterBuilder::new();
    b.add_schema(5);
    // a version field holding code 99, beyond the known set
    b.table.push_field(VT_VERSION, vec![99, 0]);
    let buf = b.finish();
    assert!(matches!(get_root_as_footer(&buf), Err(Error::UnknownVersion)));
}

#[test]
fn footer_unknown_field_identifier_ignored() {
    let mut b = FooterBuilder::new();
    b.add_custom_metadata(&vec![kv(b"a", b"b")]);
    b.add_recordBatches(&vec![Block::new(16, 32, 64)]);
    b.add_schema(9);
    b.add_version(MetadataVersion::V3);
    // a field from some future revision, with an arbitrary payload
    b.table.push_field(14, vec![0xDE, 0xAD, 0xBE, 0xEF]);
    let buf = b.finish();
    let f = get_root_as_footer(&buf).unwrap();
    assert_eq!(f.version(), MetadataVersion::V3);
    assert_eq!(f.schema(), 9);
    assert!(f.dictionaries().is_empty());
    assert_eq!(f.recordBatches().len(), 1);
    assert_eq!(f.recordBatches()[0], Block::new(16, 32, 64));
    assert_eq!(f.custom_metadata().len(), 1);
}

#[test]
fn footer_truncated_table_errors() {
    // count cut short
    assert!(matches!(get_root_as_footer(&[]), Err(Error::TruncatedTable)));
    assert!(matches!(get_root_as_footer(&[1u8]), Err(Error::TruncatedTable)));
    // the directory claims one entry, but the buffer ends before it
    assert!(matches!(get_root_as_footer(&[1, 0, 4, 0]), Err(Error::TruncatedTable)));
    // a payload cut short
    let args = FooterArgs {
        version: MetadataVersion::V5,
        schema: Some(3),
        ..FooterArgs::default()
    };
    let buf = Footer::create(&args);
    let cut = &buf[..buf.len() - 1];
    assert!(matches!(get_root_as_footer(cut), Err(Error::TruncatedTable)));
}
