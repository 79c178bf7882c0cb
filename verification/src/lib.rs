//! Verified core of the Banshee terminal.
pub mod config;
pub mod input;
pub mod layout;
pub mod shell;
pub mod sorted;
pub mod term;
pub mod text;
