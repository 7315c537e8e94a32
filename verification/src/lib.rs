//! `rcat`: the logic of a small file-concatenation tool.
//!
//! The library turns chunks of input bytes into the bytes that are to be
//! written, with optional line numbering and squeezing of repeated empty
//! lines, and reads the command line. Reading files and writing to the
//! terminal are left to the program around it.

pub mod args;
pub mod decimal;
pub mod flags;
pub mod laws;
pub mod messages;
pub mod printer;
