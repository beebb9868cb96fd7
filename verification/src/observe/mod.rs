//! Generation-safe completion publication and observation.

pub mod future;
pub mod laws;
pub mod slot;
pub mod waiters;
