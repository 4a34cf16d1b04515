//! The DG-LAB websocket control protocol.

pub mod json;
pub mod pairing;
pub mod protocol;
pub mod server;
