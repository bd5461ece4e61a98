//! Signal bookkeeping for an audio visualizer: scopes and samples, the LED
//! pixel strip and its wire packet, device configuration, the audio time ring
//! and the ring of display buffers shared between capture and rendering.

pub mod data_stream;
pub mod device_modules;
pub mod pixel;
pub mod signal_processing;
pub mod visualizer;
