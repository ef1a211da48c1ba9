//! Content formats of buffered payloads.

use vstd::prelude::*;

verus! {

/// Supported content formats, with their per-format options.
pub enum ContentType {
    /// A JSON document.
    Json,
    /// Comma-separated records.
    Csv {
        /// How many records each batch takes.
        batch_size: usize,
        /// Whether the content starts with a header record.
        has_header: bool,
    },
    /// An Avro container.
    Avro,
}

} // verus!
