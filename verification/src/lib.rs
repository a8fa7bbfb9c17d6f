//! Session-scoped virtual-tour graph cache.
//!
//! An editable in-memory representation of one panoramic tour: scenes linked
//! by connections, two lookup indices kept consistent under arbitrary
//! mutation sequences, an editor command processor that applies commands
//! atomically with write-through persistence, and a process-wide session
//! registry keyed by user and tour.

pub mod api;
pub mod config;
pub mod coords;
pub mod editor;
pub mod graph;
pub mod importer;
pub mod registry;
pub mod snapshot;
pub mod tour;
