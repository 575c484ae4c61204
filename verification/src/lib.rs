//! A keyboard remapping engine: layers of rewrite rules and two-key chords,
//! composed into a pipeline that turns a stream of key events into another.

pub mod key;
pub mod keys;
pub mod rule;
pub mod model;
pub mod layer;
pub mod pipeline;
pub mod engine;
pub mod laws;
pub mod config;
