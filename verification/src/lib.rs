//! A soundboard sequencer: a grid of sound-effect cells played step by step,
//! presets that snapshot the playback configuration, and a scheduler that
//! activates presets during planned or weekly recurring time windows.

pub mod catalog;
pub mod chance;
pub mod clock;
pub mod compare;
pub mod grid;
pub mod order;
pub mod preset;
pub mod sample;
pub mod schedule;
pub mod sequencer;
pub mod settings;
pub mod shared;
pub mod store;
pub mod text;
pub mod time;
