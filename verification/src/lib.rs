//! Local persistence model for a per-user game-statistics cache.
//!
//! This crate is the verified core of the statistic storage layer: the
//! polymorphic statistic value model, the normalized row representation
//! (one generic parent row plus one kind-specific child row per statistic),
//! the codec between the two, the sync-state flag interpretation, and an
//! in-memory store whose operations mirror the storage transactions:
//! `replace_all` atomically installs a whole statistic set, `load_all`
//! reconstructs the typed statistics from the rows, and `is_synced` reports
//! whether a full sync has ever completed.
//!
//! The embedded database itself is an external collaborator: an unverified
//! adapter executes the corresponding SQL and converts rows to and from the
//! types of this crate.

pub mod rows;
pub mod stats;
pub mod store;
pub mod sync_flag;
