//! A resilient video-thumbnail pipeline: frame-buffer interpretation, fallback
//! rendering, retry/timeout supervision and bounded-concurrency batching, with
//! the decisions verified; file and codec classification for a video library.

pub mod batch;
pub mod errors;
pub mod raster;
pub mod scanner;
pub mod strutil;
pub mod supervisor;
pub mod thumbnail;
pub mod types;
