//! Decisions of the broker consumer: how a handled delivery is resolved,
//! and what the connection loop does when a session ends.
//!
//! The consumer task around the library performs the broker I/O; every
//! decision it acts on is fixed here, so that each delivery is resolved and
//! the reconnect policy is exact.

use vstd::prelude::*;

verus! {

/// Backoff before reconnecting after a broker failure.
pub const RECONNECT_DELAY_MS: u64 = 1000;

/// The resolution of one delivery on the broker channel.
#[derive(Clone, Copy, Debug, PartialEq, Eq, Structural)]
pub enum AckDecision {
    /// Acknowledge the delivery: the handler completed successfully.
    Ack { delivery_tag: u64, multiple: bool },
    /// Reject the delivery and requeue it for redelivery.
    Nack { delivery_tag: u64, multiple: bool, requeue: bool },
}

/// The resolution a delivery gets for a handler outcome.
pub open spec fn spec_acknowledgement(delivery_tag: u64, success: bool) -> AckDecision {
    if success {
        AckDecision::Ack { delivery_tag, multiple: false }
    } else {
        AckDecision::Nack { delivery_tag, multiple: false, requeue: true }
    }
}

/// Resolves a delivery: ack on success, nack with requeue on failure,
/// always for exactly this delivery tag.
pub fn acknowledgement(delivery_tag: u64, success: bool) -> (d: AckDecision)
    ensures
        d == spec_acknowledgement(delivery_tag, success),
{
    if success {
        AckDecision::Ack { delivery_tag, multiple: false }
    } else {
        AckDecision::Nack { delivery_tag, multiple: false, requeue: true }
    }
}

/// Every delivery is resolved: whatever its handler's outcome, the decision
/// is an ack or a nack carrying that delivery's tag — never silence — and a
/// failed delivery is always requeued.
pub proof fn lemma_every_delivery_resolved(delivery_tag: u64, success: bool)
    ensures
        match spec_acknowledgement(delivery_tag, success) {
            AckDecision::Ack { delivery_tag: t, multiple } => t == delivery_tag && !multiple
                && success,
            AckDecision::Nack { delivery_tag: t, multiple, requeue } => t == delivery_tag
                && !multiple && requeue && !success,
        },
{
}

/// How a broker session came to an end.
#[derive(Clone, Copy, Debug, PartialEq, Eq, Structural)]
pub enum SessionEnd {
    /// The worker's own shutdown signal fired.
    ShutdownSignal,
    /// The connection reported a network-IO failure.
    NetworkFailure,
    /// The connection shut down without IO errors, unasked.
    RemoteClosed,
}

/// What the connection loop does next.
#[derive(Clone, Copy, Debug, PartialEq, Eq, Structural)]
pub enum SessionStep {
    /// Leave the loop; the worker is shutting down.
    Exit,
    /// Sleep this many milliseconds, then connect again.
    RetryAfterMs(u64),
}

/// The reconnect policy: only the worker's own shutdown ends the loop; any
/// other end of the session — a network failure or an unasked close — is
/// retried after the fixed backoff, indefinitely.
pub fn reconnect_decision(end: SessionEnd) -> (s: SessionStep)
    ensures
        s == SessionStep::Exit <==> end == SessionEnd::ShutdownSignal,
        end != SessionEnd::ShutdownSignal ==> s == SessionStep::RetryAfterMs(RECONNECT_DELAY_MS),
{
    match end {
        SessionEnd::ShutdownSignal => SessionStep::Exit,
        SessionEnd::NetworkFailure => SessionStep::RetryAfterMs(RECONNECT_DELAY_MS),
        SessionEnd::RemoteClosed => SessionStep::RetryAfterMs(RECONNECT_DELAY_MS),
    }
}

} // verus!
