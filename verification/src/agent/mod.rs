//! The durable Agent kernel: history vocabulary, recovery reducer and the
//! rules the Agent store holds appends to.

pub mod grammar;
pub mod history;
pub mod reducer;
pub mod state;
pub mod store;
