//! Codec for the footer that makes a columnar data file randomly accessible.
//!
//! A file carries, at its tail, a variable-length `Footer` table that names
//! the format revision, the position of the embedded schema, and the byte
//! location of every dictionary batch and record batch, each described by a
//! fixed 24-byte `Block` record.  The footer is encoded as a table with a
//! field directory, so fields can be added across revisions without breaking
//! older readers: a decoder resolves each field by its permanent numeric
//! identifier and silently skips identifiers it does not know.

pub mod block;
pub mod errors;
pub mod footer;
pub mod table;
pub mod vectors;
pub mod version;
