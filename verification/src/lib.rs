//! A typed entity-component update engine.
//!
//! Entities are opaque identifiers; components are typed records attached to
//! entities in per-type sparse tables. Systems declare the data they need as a
//! shape (required and optional component kinds, or an alternation between two
//! such conjunctions), are run once per tick over the entities matching their
//! shape, and hand back update patches that are committed to the store only
//! after the whole pass has completed, so every pass reads one consistent
//! snapshot. A run-once initializer bootstraps the world through the same
//! scheduling pipeline.

pub mod arith;
pub mod commit;
pub mod components;
pub mod init;
pub mod movement;
pub mod render;
pub mod scheduler;
pub mod shape;
pub mod store;
pub mod tick;
