//! The data model.
//!
//! Numeric fields are carried as decimal-literal tokens: the tool only ever
//! scans them out of text, stores them and prints them back, so the token is
//! the value the logic reads.  A well-formed record holds tokens accepted by
//! [`crate::num::is_float_literal`].

use crate::num::is_float_literal;
use vstd::prelude::*;

verus! {

/// Unit symbols attached to the current weather reading.
#[derive(Debug)]
pub struct CurrentUnits {
    pub temperature_2m: String,
}

/// The current weather reading: a `T`-separated timestamp and a temperature
/// token.
#[derive(Debug)]
pub struct Current {
    pub time: String,
    pub temperature_2m: String,
}

/// The shape of the forecast service's reply that the tool consumes.
#[derive(Debug)]
pub struct ApiResponse {
    pub current_units: CurrentUnits,
    pub current: Current,
}

/// Coordinates scanned out of the geolocation service's reply.
#[derive(Debug)]
pub struct GeoLocationResponse {
    pub latitude: String,
    pub longitude: String,
}

impl GeoLocationResponse {
    pub open spec fn well_formed(&self) -> bool {
        is_float_literal(self.latitude@) && is_float_literal(self.longitude@)
    }
}

/// The persisted location: both coordinate tokens, as stored in the config
/// file.
#[derive(Debug)]
pub struct AppConfig {
    pub latitude: String,
    pub longitude: String,
}

impl AppConfig {
    pub open spec fn well_formed(&self) -> bool {
        is_float_literal(self.latitude@) && is_float_literal(self.longitude@)
    }
}

/// The failure taxonomy.  `ConfigMissing` is special: the caller is expected
/// to print guidance and stop rather than propagate it.
#[derive(Debug, Clone, Copy, PartialEq, Eq, Structural)]
pub enum AppError {
    /// Transport-level failure of an outbound request.
    Network,
    /// The geolocation reply yielded no usable coordinate pair.
    Parse,
    /// A structured payload did not match the expected shape.
    Deserialize,
    /// A required environment variable is absent.
    Env,
    /// The config file is absent at read time.
    ConfigMissing,
}

} // verus!
