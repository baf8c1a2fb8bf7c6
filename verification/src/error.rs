//! The error taxonomy of the library: every failure of configuration
//! loading or of a coordinator synchronisation is one of these variants.

use vstd::prelude::*;

verus! {

/// An opaque declaration of `std::io::Error`, carried (never inspected) by
/// [`FractalError::IOError`] when reading a configuration file fails.
#[verifier::external_type_specification]
#[verifier::external_body]
pub struct ExIoError(std::io::Error);

/// Everything that can go wrong while resolving a seed.
///
/// Configuration parsing reports the 1-based line number and, for a field
/// whose value does not parse, the offending (trimmed) text. Coordinator
/// synchronisation distinguishes an unreachable host, a response that is not
/// the expected JSON shape, and an epoch field that is not an unsigned
/// 128-bit decimal.
#[derive(Debug)]
pub enum FractalError {
    IOError(std::io::Error),
    MissingEquals { line: usize },
    InvalidPort { line: usize, value: String },
    InvalidNode { line: usize, value: String },
    InvalidEpoch { line: usize, value: String },
    NetworkError { host: String, port: u16 },
    DeserialisationError,
    InvalidSyncEpochRecived,
    ErrorValue,
}

} // verus!
