//! The configured log level in the terms of the `tracing` crate.
use vstd::prelude::*;

use tracing::Level;

use crate::config::LogLevel;

verus! {

#[verifier::external_type_specification]
#[verifier::external_body]
pub struct ExLevel(tracing::Level);

/// `tracing`'s `Level::ERROR`. The level is opaque here, so nothing is
/// stated of it.
#[verifier::external_body]
fn level_error() -> (r: Level) {
    Level::ERROR
}

/// `tracing`'s `Level::WARN` (opaque here).
#[verifier::external_body]
fn level_warn() -> (r: Level) {
    Level::WARN
}

/// `tracing`'s `Level::INFO` (opaque here).
#[verifier::external_body]
fn level_info() -> (r: Level) {
    Level::INFO
}

/// `tracing`'s `Level::DEBUG` (opaque here).
#[verifier::external_body]
fn level_debug() -> (r: Level) {
    Level::DEBUG
}

/// `tracing`'s `Level::TRACE` (opaque here).
#[verifier::external_body]
fn level_trace() -> (r: Level) {
    Level::TRACE
}

/// Whether `l` is what the `tracing` constant of the same name as `level`
/// gives (`Level::ERROR` for `Error`, and so on); `Off` names none.
pub closed spec fn is_tracing_level_of(level: LogLevel, l: Level) -> bool {
    match level {
        LogLevel::Off => false,
        LogLevel::Error => call_ensures(level_error, (), l),
        LogLevel::Warn => call_ensures(level_warn, (), l),
        LogLevel::Info => call_ensures(level_info, (), l),
        LogLevel::Debug => call_ensures(level_debug, (), l),
        LogLevel::Trace => call_ensures(level_trace, (), l),
    }
}

/// The `tracing` level of a configured level: `Off` has none; every other
/// level maps to the `tracing` level of the same name (`Error` to
/// `Level::ERROR`, and so on).
pub fn to_tracing_level(level: LogLevel) -> (r: Option<Level>)
    ensures
        r is None <==> level == LogLevel::Off,
        r matches Some(l) ==> is_tracing_level_of(level, l),
{
    match level {
        LogLevel::Off => None,
        LogLevel::Error => Some(level_error()),
        LogLevel::Warn => Some(level_warn()),
        LogLevel::Info => Some(level_info()),
        LogLevel::Debug => Some(level_debug()),
        LogLevel::Trace => Some(level_trace()),
    }
}

} // verus!
