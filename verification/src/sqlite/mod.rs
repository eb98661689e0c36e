//! The SQLite stores' rules: migration ledgers, failure classification, the
//! decoding of stored rows and the coordination of runtime and Agent runs.
//! The database calls themselves run outside the library.

pub mod coordinator;
pub mod physical;
pub mod stores;
