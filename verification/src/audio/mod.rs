//! Audio capture: analysed frames, the choice of a device and of a format.

pub mod analyzer;
pub mod capture;
pub mod frames;
pub mod names;
pub mod windows_endpoints;
pub mod windows_loopback;
