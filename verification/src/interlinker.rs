//! The per-connection job engine of the link-discovery service.

pub mod client;
pub mod job;
pub mod laws;
pub mod message;
pub mod scanner;
pub mod utils;
