//! Provider-independent tool contracts: identity, registry, schema profile,
//! effect and replay classification, policy, and the preparation seam.

pub mod error;
pub mod identity;
pub mod tool;
pub mod disposition;
pub mod policy;
pub mod schema;
pub mod digest;
pub mod registry;
pub mod preparation;
pub mod fixtures;
