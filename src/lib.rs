//! Library core of a terminal audio player: track records and their
//! display rules, the on-disk metadata cache, the incremental import
//! scheduler, and the playback queue shared with the audio thread.

pub mod text;
pub mod track;
pub mod cache;
pub mod tags;
pub mod import;
pub mod queue;
