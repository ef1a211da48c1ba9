//! The stream-broker adapter's configuration.
//!
//! A subscriber drains a durable consumer of one stream; a publisher owns a
//! stream and republishes bus traffic onto derived subjects.  Connecting,
//! stream management and the wire protocol happen at the edge of the
//! program; the flow engine routes to the publisher through the verified
//! paths in the flow module.

use vstd::prelude::*;

verus! {

/// Configuration of a stream subscriber.
pub struct Subscriber {
    /// Path of the credentials file for the broker.
    pub credentials: Vec<u8>,
    /// The stream to read.
    pub stream: Vec<u8>,
    /// The subject filter within the stream.
    pub subject: Vec<u8>,
    /// The durable consumer name.
    pub durable_name: Vec<u8>,
    /// How many messages to request per batch.
    pub batch_size: usize,
    /// An optional delay between batches, in seconds.
    pub delay_secs: Option<u64>,
}

/// Configuration of a stream publisher.
pub struct Publisher {
    /// Path of the credentials file for the broker.
    pub credentials: Vec<u8>,
    /// The stream to own.
    pub stream: Vec<u8>,
    /// An optional human-readable description of the stream.
    pub stream_description: Option<Vec<u8>>,
    /// The subjects bound to the stream.
    pub subjects: Vec<Vec<u8>>,
    /// An optional retention age for the stream's messages, in seconds.
    pub max_age: Option<u64>,
}

} // verus!
