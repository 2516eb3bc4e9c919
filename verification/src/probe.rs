//! Probe outcomes: what a single connection attempt reports.

use vstd::prelude::*;

verus! {

/// The outcome of probing one port. A failed connection attempt — refused,
/// unreachable, timed out — is a normal `Closed` outcome, never an error:
/// only `Open` ever reaches the report.
#[derive(Clone, Copy, Debug)]
pub enum PortOutcome {
    /// The connection attempt succeeded on this port.
    Open(u16),
    /// The connection attempt failed; nothing is reported for the port.
    Closed,
}

impl PortOutcome {
    /// Classifies a connection attempt on `port`: success means the port is
    /// open, failure of any kind means it is closed.
    pub fn of_connect(port: u16, connected: bool) -> (r: PortOutcome)
        ensures
            r == (if connected {
                PortOutcome::Open(port)
            } else {
                PortOutcome::Closed
            }),
    {
        if connected {
            PortOutcome::Open(port)
        } else {
            PortOutcome::Closed
        }
    }

    /// Whether this outcome reports an open port.
    pub fn is_open(&self) -> (r: bool)
        ensures
            r == (self matches PortOutcome::Open(_)),
    {
        match self {
            PortOutcome::Open(_) => true,
            PortOutcome::Closed => false,
        }
    }
}

} // verus!
