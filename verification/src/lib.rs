//! Streaming base calling: window planning, overlap stitching and greedy
//! decoding around a fixed-size neural network.
//!
//! The network itself works on floating-point tensors and lives outside this
//! library. Everything here is integer logic: samples and logits are carried
//! as IEEE-754 binary32 bit patterns (`f32::to_bits`).

pub mod config;
pub mod decode;
pub mod driver;
pub mod error;
pub mod kernel;
pub mod matrix;
pub mod sample;
pub mod windows;
