//! Turning a command call into an HTTP request, and a reply into a response.

pub mod types;
pub mod context;
pub mod prepare;

pub mod laws;
