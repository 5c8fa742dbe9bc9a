//! Slide decks from a single markup document: segmentation of a markup event
//! stream into slides, page assembly, and the decisions of the live-preview
//! loop, with machine-checked contracts.

pub mod classes;
pub mod config;
pub mod counting;
pub mod decimal;
pub mod deploy;
pub mod limits;
pub mod markup;
pub mod page;
pub mod preservation;
pub mod preview;
pub mod render;
pub mod segment;
pub mod watch;
