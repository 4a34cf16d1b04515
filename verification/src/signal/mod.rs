//! From band levels to channel strengths.

pub mod mapper;
