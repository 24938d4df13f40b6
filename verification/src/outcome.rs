//! Per-probe outcomes and the classification of connection attempts.
//!
//! A probe is one attempted TCP handshake to one (host, port) pair with
//! a bounded deadline. The unverified shell reports how the attempt
//! ended as a [`ConnectStatus`]; [`classify_connect`] turns that report
//! into the tagged [`ProbeOutcome`] the rest of the library works with.

use vstd::prelude::*;

verus! {

/// How a single connection attempt ended, as reported by the layer that
/// performs the handshake.
#[derive(Clone, Copy, PartialEq, Eq, Structural, Debug)]
pub enum ConnectStatus {
    /// The handshake completed before the deadline.
    Connected,
    /// The peer actively refused or reset the connection.
    Refused,
    /// The deadline passed without the handshake completing.
    TimedOut,
    /// The attempt failed for a local resource reason, such as running
    /// out of file descriptors: the scanner itself is degrading.
    Exhausted,
    /// Any other failure to connect.
    OtherFailure,
}

/// The outcome recorded for one probed port.
#[derive(Clone, Copy, PartialEq, Eq, Structural, Debug)]
pub enum ProbeOutcome {
    /// The port accepted a connection within the deadline.
    Open,
    /// The port did not accept a connection: refused, reset, timed out,
    /// or otherwise unreachable. Expected and silent.
    Closed,
    /// The probe failed because the scanner ran out of a local
    /// resource. Reported distinctly, but the probe is still simply
    /// dropped from the results.
    SystemFailure,
    /// The (host, port) pair did not form a connectable address; the
    /// probe was never attempted.
    InvalidAddress,
}

/// The probe of one port together with its outcome.
#[derive(Clone, Copy, PartialEq, Eq, Structural, Debug)]
pub struct ProbeRecord {
    /// The port that was probed.
    pub port: u32,
    /// How the probe ended.
    pub outcome: ProbeOutcome,
}

/// What outcome a given connection report classifies as: success means
/// the port is open; refusals, timeouts and miscellaneous failures all
/// mean the port is closed; only local resource exhaustion is kept
/// apart, as a sign of scanner malfunction rather than a closed port.
pub open spec fn classification(status: ConnectStatus) -> ProbeOutcome {
    match status {
        ConnectStatus::Connected => ProbeOutcome::Open,
        ConnectStatus::Refused => ProbeOutcome::Closed,
        ConnectStatus::TimedOut => ProbeOutcome::Closed,
        ConnectStatus::Exhausted => ProbeOutcome::SystemFailure,
        ConnectStatus::OtherFailure => ProbeOutcome::Closed,
    }
}

/// Classifies how a connection attempt ended.
pub fn classify_connect(status: ConnectStatus) -> (outcome: ProbeOutcome)
    ensures
        outcome == classification(status),
{
    match status {
        ConnectStatus::Connected => ProbeOutcome::Open,
        ConnectStatus::Refused => ProbeOutcome::Closed,
        ConnectStatus::TimedOut => ProbeOutcome::Closed,
        ConnectStatus::Exhausted => ProbeOutcome::SystemFailure,
        ConnectStatus::OtherFailure => ProbeOutcome::Closed,
    }
}

/// Builds the record of one probe.
pub fn probe_record(port: u32, status: ConnectStatus) -> (record: ProbeRecord)
    ensures
        record.port == port,
        record.outcome == classification(status),
{
    ProbeRecord { port, outcome: classify_connect(status) }
}

} // verus!
