//! Bounded-concurrency download planning for web-Mercator map tiles.
//!
//! The library decides which tiles cover an area at each zoom level, in what
//! order they are handed out, how many may be in flight at once, and how the
//! request URL and storage path of each tile are spelled.

pub mod tile;
pub mod rect;
pub mod limiter;
pub mod text;
pub mod batch;
