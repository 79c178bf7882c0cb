//! Configuration: the schema, its diagnostics, and reloading with last-good
//! semantics.
pub mod chord;
pub mod color;
pub mod diagnostics;
pub mod document;
pub mod resolve;
pub mod schema;
pub mod watch;
