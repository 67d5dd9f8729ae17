//! Maven coordinates, repository metadata and their resolution.

pub mod cache;
pub mod clock;
pub mod maven_repo;
pub mod resolution;
pub mod transport;
pub mod version;
