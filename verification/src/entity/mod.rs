//! Stable typed identity, on-demand activation, and exact-incarnation lifecycle.
//!
//! A logical [`id::EntityId`] remains stable while its actor incarnation can
//! activate, drain, retire, and later be replaced. The directory preserves
//! command ownership, admits one activation attempt for concurrent first
//! commands, and rejects facts of another incarnation.

pub mod balance;
pub mod directory;
pub mod family;
pub mod id;
pub mod laws;
pub mod lifecycle;
pub mod runtime;
pub mod shards;
pub mod steps;
pub mod tasks;
