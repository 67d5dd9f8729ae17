//! What the resolver asks of a remote Maven repository.

pub mod http;
pub mod interface;
