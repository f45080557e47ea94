//! A perceptual image hashing engine.
//!
//! The engine turns a decoded raster image plus an immutable hashing
//! configuration into a fixed-length bit vector (a perceptual hash), and
//! offers a Hamming-distance comparator between hashes produced under the
//! same configuration. All arithmetic is fixed-point integer arithmetic,
//! every stage is total over structurally valid inputs, and every public
//! function carries a contract that pins its result.

#![verifier::loop_isolation(false)]

use vstd::prelude::*;

pub mod bits;
pub mod config;
pub mod driver;
pub mod grid;
pub mod hash;
pub mod hasher;
pub mod preproc;
pub mod raster;
pub mod resize;

verus! {

/// Everything that can go wrong when building images, hashers, or when
/// comparing hashes.
///
/// - `InvalidDimensions`: a zero or over-large width/height at any stage.
/// - `BufferSizeMismatch`: a sample buffer whose length does not match the
///   declared `width * height * channels`.
/// - `ConfigurationError`: a bit length that is zero, too large, or not
///   compatible with the selected algorithm.
/// - `ProgrammingError`: a distance query between hashes built under
///   different configurations.
#[derive(Clone, Copy, Debug, PartialEq, Eq, Structural)]
pub enum HashError {
    InvalidDimensions,
    BufferSizeMismatch,
    ConfigurationError,
    ProgrammingError,
}

} // verus!
