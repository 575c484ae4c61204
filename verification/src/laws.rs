//! What holds of every layer, pipeline and engine, proved from the model.

pub mod accounting;
pub mod chords;
pub mod composition;
pub mod passing;
pub mod stopping;
