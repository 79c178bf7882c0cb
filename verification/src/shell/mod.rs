//! Decisions of the window shell: composition input, the clipboard's text
//! format, window messages and self-tests.
pub mod clipboard;
pub mod ime;
pub mod paint;
pub mod selftest;
pub mod utf16;
pub mod window;
