//! Data streams feeding the visualizer.

pub mod audio_stream;
