//! Glovebox serves Javadoc out of the `-javadoc.jar` archives of a Maven
//! repository. This crate is its core: the resolution of Maven coordinates
//! against the repository's metadata, the in-memory tier of the JAR cache,
//! and the decisions of the request handler.
//!
//! - [`maven`] turns coordinates as a user writes them, selectors and
//!   snapshot versions included, into the coordinates that URLs are made of,
//!   and remembers what the metadata said for 30 minutes.
//! - [`jar_manager`] holds decompressed JARs in a cache bounded by their
//!   size, and says step by step what is to be done for a request. The
//!   disk cache and the network stay with the caller.
//! - [`web`] holds what the HTTP front end decides.
//!
//! Time is a number of milliseconds on a clock that does not go back. The
//! resolver and the manager read their own clock; the functions whose name
//! ends in `_at` take the time from the caller.

pub mod jar_manager;
pub mod maven;
pub mod text;
pub mod web;
