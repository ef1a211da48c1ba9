//! A configurable event-routing pipeline.
//!
//! A flow moves structured records between heterogeneous systems: one source
//! feeds a broadcast bus, zero or more processors and one or more targets
//! subscribe to it independently.  The crate verifies the routing core: the
//! columnar record model and its byte codec, the ordering discipline that
//! sequences concurrently produced events, the bounded broadcast bus with its
//! lag semantics, the key/value cache model, and the flow supervisor that
//! wires configured adapters together.

pub mod buffer;
pub mod bus;
pub mod cache;
pub mod clock;
pub mod codec;
pub mod config;
pub mod csv;
pub mod deltalake;
pub mod event;
pub mod file;
pub mod flow;
pub mod http;
pub mod jetstream;
pub mod object_store;
pub mod render;
pub mod salesforce;
pub mod salesforce_job;
pub mod subject;
pub mod table;
pub mod text;
