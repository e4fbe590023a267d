//! Inspection of RIFF/WAVE files: a verified chunk walker over an in-memory
//! byte buffer, and the text renderings of the decoded chunks.

pub mod args;
pub mod error;
pub mod cursor;
pub mod chunks;
pub mod grammar;
pub mod parse;
pub mod encode;
pub mod laws;
pub mod text;
pub mod codes;
pub mod display;
pub mod roundtrip;
