//! Virtual-filesystem and caching layer underneath a language server's
//! workspace model.
//!
//! The library reconciles two sources of truth for the same logical document:
//! content held open inside an editor (the overlay) and content resident on
//! local disk. On top of that composition it adds a per-document memoization
//! cache so that derived artifacts are computed at most once per edit, and a
//! bridge that turns host-reported file-change events into cache invalidation.

pub mod doc;
pub mod keymap;
pub mod provider;
pub mod cache;
pub mod memfs;
pub mod manager;
pub mod watch;
