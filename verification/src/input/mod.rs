//! Encoding of keys, mouse events and pastes into the bytes that a program
//! reads.
pub mod encoder;
pub mod keys;
pub mod kitty;
pub mod legacy;
pub mod mouse;
pub mod paste;
