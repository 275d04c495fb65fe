//! Error kinds of the worker, and the recovery policy attached to each.

use vstd::prelude::*;

verus! {

/// Every failure the worker can observe, by kind.
#[derive(Clone, Copy, Debug, PartialEq, Eq, Structural)]
pub enum ErrorKind {
    /// Missing or unparseable environment variable or flag; fatal at startup.
    ConfigError,
    /// Model file missing or session creation failed; fatal at startup.
    ModelInitError,
    /// Broker connection, channel, publish or consume failure; transient.
    BrokerError,
    /// Search-engine request failed or returned a non-success status.
    IndexError,
    /// Malformed image bytes or malformed JSON in a message.
    DecodeError,
    /// The batch this submission belonged to failed as a whole.
    BatchFailed,
}

/// How the worker reacts to an error of a given kind.
#[derive(Clone, Copy, Debug, PartialEq, Eq, Structural)]
pub enum Recovery {
    /// Abort the process; only meaningful before the consume loop starts.
    AbortStartup,
    /// Sleep and reconnect the broker session.
    ReconnectBroker,
    /// Nack the current delivery with requeue so the broker redelivers it.
    NackRequeue,
}

impl ErrorKind {
    /// Recovery policy: startup errors abort, broker errors reconnect,
    /// per-message errors are surfaced to the broker via nack + requeue.
    pub fn recovery(self) -> (r: Recovery)
        ensures
            r == Recovery::AbortStartup <==> (self == ErrorKind::ConfigError
                || self == ErrorKind::ModelInitError),
            r == Recovery::ReconnectBroker <==> self == ErrorKind::BrokerError,
            r == Recovery::NackRequeue <==> (self == ErrorKind::IndexError
                || self == ErrorKind::DecodeError || self == ErrorKind::BatchFailed),
    {
        match self {
            ErrorKind::ConfigError => Recovery::AbortStartup,
            ErrorKind::ModelInitError => Recovery::AbortStartup,
            ErrorKind::BrokerError => Recovery::ReconnectBroker,
            ErrorKind::IndexError => Recovery::NackRequeue,
            ErrorKind::DecodeError => Recovery::NackRequeue,
            ErrorKind::BatchFailed => Recovery::NackRequeue,
        }
    }

    /// Short name of the kind, for log lines assembled outside the library.
    pub fn name(self) -> (r: &'static str)
    {
        match self {
            ErrorKind::ConfigError => "config error",
            ErrorKind::ModelInitError => "model init error",
            ErrorKind::BrokerError => "broker error",
            ErrorKind::IndexError => "index error",
            ErrorKind::DecodeError => "decode error",
            ErrorKind::BatchFailed => "batch failed",
        }
    }
}

} // verus!
