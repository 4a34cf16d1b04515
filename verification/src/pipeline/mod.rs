//! From analysed frames to messages for the app.

pub mod engine;
pub mod envelope;
pub mod waveform;
pub mod worker;
