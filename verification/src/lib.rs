//! Chart loading, tempo mapping and hit detection for a five-lane rhythm game.
//!
//! All times are whole microseconds. The library performs no I/O: callers
//! hand it the bytes of a chart file and the input edges they captured.

pub mod chart;
pub mod charts;
pub mod clock;
pub mod controllers;
pub mod engine;
pub mod events;
pub mod metadata;
pub mod number;
pub mod render;
pub mod section;
pub mod song;
pub mod sync;
pub mod tempo;
pub mod text;
pub mod timeline;
pub mod unknown;
