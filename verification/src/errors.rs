use vstd::prelude::*;

verus! {

/// Every way a decode can fail.
///
/// `BadMagic` and `OffsetOutOfBounds` are raised by the file Reader while it
/// validates the tail magic and checks each `Block` against the file bounds;
/// the codec functions in this crate never produce them.
#[derive(Clone, Copy, Debug, PartialEq, Eq, Structural)]
pub enum Error {
    /// The field directory or a field payload reaches past the buffer end.
    TruncatedTable,
    /// A `Block` record was decoded from fewer than 24 bytes.
    TruncatedBlock,
    /// The version field holds a code outside the known revision set.
    UnknownVersion,
    /// The footer carries no schema field.
    MissingSchema,
    /// The file does not end with the expected magic bytes.
    BadMagic,
    /// A `Block` points past the end of the file.
    OffsetOutOfBounds,
}

} // verus!
