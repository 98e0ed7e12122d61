//! Helpers for testing code that uses the library: a recording mock client,
//! response builders and sample profiles.

pub mod mock;
pub mod helpers;
pub mod apis;
