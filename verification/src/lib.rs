//! Verified core of `lotemp`, a command-line tool that reports the current
//! temperature at a stored geographic location.
//!
//! Coordinates and temperatures travel through this crate as decimal-literal
//! tokens (strings), never as machine floats: the tool itself only ever scans
//! them out of text, stores them, substitutes them into a request URL and
//! prints them back, so the token is the value the logic actually reads.
//! The grammar of accepted tokens is stated in [`num`].

pub mod cli;
pub mod config;
pub mod geo;
pub mod num;
pub mod text;
pub mod types;
pub mod weather;
