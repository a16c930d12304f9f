//! Core of a remote entity-graph inspector.
//!
//! The library talks a JSON-RPC-style protocol to a running simulation
//! process: it builds request envelopes, classifies response envelopes,
//! decodes query results into a typed entity/component snapshot, and
//! reconstructs a display forest from parent/child back-references.
//! Transport, JSON text (de)serialization and widget rendering live in the
//! surrounding application; everything here is plain data and verified logic.

pub mod codec;
pub mod decode;
pub mod error;
pub mod fonts;
pub mod laws;
pub mod store;
pub mod tree;
pub mod value;
pub mod wire;
