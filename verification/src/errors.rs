//! Error taxonomy: configuration failures are fatal at startup or at an
//! explicit mode switch; execution failures are recovered per strategy.

use vstd::prelude::*;

verus! {

/// Fatal configuration problems, surfaced to the caller with no fallback.
#[derive(Clone, Copy, Debug, PartialEq, Eq, Structural)]
pub enum ConfigError {
    /// No signing key was supplied and none is configured.
    MissingPrivateKey,
    /// The supplied signing key is not 32 bytes of hex.
    InvalidPrivateKey,
    /// Entering live mode needs a confirmed live balance, and none could be
    /// obtained.
    LiveBalanceUnavailable,
    /// The scan interval is below the accepted minimum.
    ScanFrequencyTooLow,
}

pub open spec fn spec_config_error_text(e: ConfigError) -> Seq<char> {
    match e {
        ConfigError::MissingPrivateKey => "private key required"@,
        ConfigError::InvalidPrivateKey => "private key must be 32 bytes of hex"@,
        ConfigError::LiveBalanceUnavailable => "live balance could not be confirmed"@,
        ConfigError::ScanFrequencyTooLow => "scan frequency below the accepted minimum"@,
    }
}

impl ConfigError {
    pub fn describe(&self) -> (r: &'static str)
        ensures
            r@ == spec_config_error_text(*self),
    {
        match self {
            ConfigError::MissingPrivateKey => "private key required",
            ConfigError::InvalidPrivateKey => "private key must be 32 bytes of hex",
            ConfigError::LiveBalanceUnavailable => "live balance could not be confirmed",
            ConfigError::ScanFrequencyTooLow => "scan frequency below the accepted minimum",
        }
    }
}

/// Failures of the order-execution path. Inside this core only one arises:
/// live submission is the host transport's job, never performed here.
#[derive(Clone, Copy, Debug, PartialEq, Eq, Structural)]
pub enum ExecutionError {
    /// The call needs the live exchange transport, which the host drives.
    RequiresLiveTransport,
}

pub open spec fn spec_execution_error_text(e: ExecutionError) -> Seq<char> {
    match e {
        ExecutionError::RequiresLiveTransport => "live orders go through the host transport"@,
    }
}

impl ExecutionError {
    pub fn describe(&self) -> (r: &'static str)
        ensures
            r@ == spec_execution_error_text(*self),
    {
        match self {
            ExecutionError::RequiresLiveTransport => "live orders go through the host transport",
        }
    }
}

} // verus!
