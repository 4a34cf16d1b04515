//! Decision logic of a desktop program that turns speaker playback into
//! DG-LAB channel strengths and pulse frames.

pub mod app;
pub mod audio;
pub mod dglab;
pub mod level;
pub mod pipeline;
pub mod seconds;
pub mod session_id;
pub mod signal;
pub mod text;
pub mod types;
