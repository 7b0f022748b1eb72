use crate::errors::Error;
use vstd::prelude::*;

verus! {

/// The known format revisions, oldest first.
///
/// A footer whose version field is absent decodes to the oldest revision,
/// `V1`, for compatibility with files written before the field existed.
/// Decoding a code outside this set fails with `UnknownVersion`: a reader
/// must not misinterpret a layout it does not understand.
#[derive(Clone, Copy, Debug, PartialEq, Eq, Structural)]
pub enum MetadataVersion {
    V1,
    V2,
    V3,
    V4,
    V5,
}

/// The wire code of a known revision.
pub open spec fn spec_version_code(v: MetadataVersion) -> u16 {
    match v {
        MetadataVersion::V1 => 0,
        MetadataVersion::V2 => 1,
        MetadataVersion::V3 => 2,
        MetadataVersion::V4 => 3,
        MetadataVersion::V5 => 4,
    }
}

/// The revision a wire code stands for, or `UnknownVersion` beyond the set.
pub open spec fn spec_version_from_code(c: u16) -> Result<MetadataVersion, Error> {
    if c == 0 {
        Ok(MetadataVersion::V1)
    } else if c == 1 {
        Ok(MetadataVersion::V2)
    } else if c == 2 {
        Ok(MetadataVersion::V3)
    } else if c == 3 {
        Ok(MetadataVersion::V4)
    } else if c == 4 {
        Ok(MetadataVersion::V5)
    } else {
        Err(Error::UnknownVersion)
    }
}

pub fn version_code(v: MetadataVersion) -> (c: u16)
    ensures
        c == spec_version_code(v),
{
    match v {
        MetadataVersion::V1 => 0,
        MetadataVersion::V2 => 1,
        MetadataVersion::V3 => 2,
        MetadataVersion::V4 => 3,
        MetadataVersion::V5 => 4,
    }
}

pub fn version_from_code(c: u16) -> (r: Result<MetadataVersion, Error>)
    ensures
        r == spec_version_from_code(c),
{
    if c == 0 {
        Ok(MetadataVersion::V1)
    } else if c == 1 {
        Ok(MetadataVersion::V2)
    } else if c == 2 {
        Ok(MetadataVersion::V3)
    } else if c == 3 {
        Ok(MetadataVersion::V4)
    } else if c == 4 {
        Ok(MetadataVersion::V5)
    } else {
        Err(Error::UnknownVersion)
    }
}

/// Decoding the code of a known revision gives that revision back.
pub proof fn lemma_version_code_round_trip(v: MetadataVersion)
    ensures
        spec_version_from_code(spec_version_code(v)) == Ok::<MetadataVersion, Error>(v),
{
}

} // verus!
