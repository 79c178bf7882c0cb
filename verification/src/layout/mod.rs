//! Profiles and the sessions opened from them.
pub mod profile;
pub mod session;
