//! Migration of versioned, JSON-encoded API-description documents.
//!
//! A document produced at one schema version is upgraded, one version at a
//! time, to a requested later version.  The crate provides:
//!
//! - a version registry (the closed range of supported schema versions),
//! - an untyped JSON tree used as the opaque passthrough representation,
//! - generic structural lifters that carry a per-element migration through
//!   optional values, boxes, sequences, key/value maps and pairs,
//! - the per-version schema type sets with their single-step migrations, and
//! - the chain orchestrator that drives a document from its source version
//!   up to the target version.
//!
//! Reading the JSON text itself and writing it back out are left to the
//! caller; the library works on the in-memory JSON tree.

pub mod chain;
pub mod codec;
pub mod decode;
pub mod decode_v2;
pub mod decode_v3;
pub mod encode;
pub mod encode_v2;
pub mod encode_v3;
pub mod error;
pub mod json;
pub mod lift;
pub mod migrate;
pub mod model;
pub mod pipeline;
pub mod roundtrip;
pub mod strmap;
pub mod v1;
pub mod v2;
pub mod v3;
pub mod version;

use vstd::prelude::*;

verus! {

/// The smallest supported schema version.
pub const VERSION_MIN: u32 = 1;

/// The largest supported schema version.
pub const VERSION_MAX: u32 = 3;

} // verus!
