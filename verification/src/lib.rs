//! Transaction engine of a privileged package manager: repository
//! synchronization with mirror failover and digest verification, package
//! archive validation, conflict detection, downgrade guarding, and the
//! install/remove pipeline, all specified and verified.
//!
//! Text the engine computes on (names, paths, URLs, versions) is carried as
//! bytes (`Vec<u8>`); callers convert to and from platform strings at the
//! edges.

pub mod config;
pub mod conflict;
pub mod hashing;
pub mod lock;
pub mod pkg;
pub mod sync;
pub mod transaction;
pub mod text;
pub mod version;
