//! Profile models and the operations on them.

pub mod types;
pub mod command;
pub mod response;
pub mod details;
pub mod validation;
pub mod api;
