//! Scan requests: the target address and the half-open port range.

use vstd::prelude::*;

verus! {

/// The highest port number a scan may reach up to (inclusive upper bound
/// for `end_port`).
pub const MAX_PORT: u16 = 65535;

/// A target IP address, held as plain octets or segments so that the
/// scanner's logic can carry it without depending on a network library.
#[derive(Clone, Copy, Debug)]
pub enum IpAddress {
    /// An IPv4 address as its four octets.
    V4(u8, u8, u8, u8),
    /// An IPv6 address as its eight 16-bit segments.
    V6(u16, u16, u16, u16, u16, u16, u16, u16),
}

/// Accepts a start port exactly when it is greater than zero: port 0 is not
/// scannable.
pub fn start_port_guard(input: &u16) -> (r: bool)
    ensures
        r == (*input > 0),
{
    *input > 0
}

/// Accepts an end port exactly when it does not exceed `MAX_PORT`.
pub fn end_port_guard(input: &u16) -> (r: bool)
    ensures
        r == (*input <= MAX_PORT),
{
    *input <= MAX_PORT
}

/// A validated scan request: probe every port of `[start_port, end_port)`
/// on `address`.
#[derive(Clone, Copy, Debug)]
pub struct ScanRequest {
    /// The address to scan.
    pub address: IpAddress,
    /// The first port to probe. Always at least 1.
    pub start_port: u16,
    /// The exclusive upper bound of the range; this port itself is never
    /// probed.
    pub end_port: u16,
}

impl ScanRequest {
    /// The request's invariant: the range starts above port 0. The upper
    /// bound needs no clause of its own, since a `u16` cannot exceed
    /// `MAX_PORT`.
    pub open spec fn wf(self) -> bool {
        self.start_port >= 1
    }

    /// How many ports the request asks to probe: the length of the
    /// half-open range, or zero when the range is degenerate.
    pub open spec fn range_len(self) -> int {
        if self.start_port < self.end_port {
            self.end_port - self.start_port
        } else {
            0
        }
    }

    /// Builds a request after checking the port guards, and refuses exactly
    /// the inputs the guards refuse.
    pub fn new(address: IpAddress, start_port: u16, end_port: u16) -> (r: Option<ScanRequest>)
        ensures
            r is Some <==> start_port >= 1,
            r matches Some(req) ==> req == (ScanRequest { address, start_port, end_port }),
            r matches Some(req) ==> req.wf(),
    {
        if start_port_guard(&start_port) && end_port_guard(&end_port) {
            Some(ScanRequest { address, start_port, end_port })
        } else {
            None
        }
    }
}

} // verus!
