//! Fractal Flake: 64-bit, sortable, uncoordinated unique identifiers in the
//! style of Twitter's Snowflake.
//!
//! An identifier packs, most significant first, a 42-bit millisecond
//! timestamp, a 5-bit node identifier, a 5-bit thread identifier and a 12-bit
//! per-millisecond sequence number. A [`FlakeSeed`] resolves the shared
//! deployment parameters (coordinator host and port, node id, epoch) from a
//! `key=value` configuration text and, optionally, from a coordinator's JSON
//! response; [`FlakeSeed::fracture`] then binds the seed and a caller-chosen
//! thread id into a [`FlakeGenerator`], which issues identifiers one call at
//! a time.

pub mod error;
pub mod flake;
pub mod seed;
pub mod text;

pub use error::FractalError;
pub use flake::FlakeGenerator;
pub use seed::FlakeSeed;
