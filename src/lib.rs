//! Module resolution and item traversal for drawing a Rust source tree.
//!
//! The library reads nothing from disk itself: the caller loads the files the
//! engine asks for into an [`logic::ItemVisitor`], and the engine turns the
//! recorded declarations into an ordered stream of renderer events.

pub mod decl;
pub mod entry;
pub mod items;
pub mod laws;
pub mod logic;
pub mod text;
