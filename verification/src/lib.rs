//! WorkWeave execution kernels: the runtime execution lifecycle, the Agent
//! model-stream assembler, the durable Agent history reducer, and the tool
//! preparation seam.

pub mod agent;
pub mod assembler;
pub mod finalize;
pub mod idmap;
pub mod ids;
pub mod json;
pub mod provider;
pub mod recorded;
pub mod runtime;
pub mod service;
pub mod sqlite;
pub mod store;
pub mod text;
pub mod tools;
pub mod types;
