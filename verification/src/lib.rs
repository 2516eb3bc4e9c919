//! A concurrent TCP port scanner core.
//!
//! The library holds the verified logic of the scanner: validating a scan
//! request, enumerating the half-open port range to probe, recording probe
//! outcomes as they arrive in arbitrary order, and producing the final
//! strictly ascending report of open ports. The unverified shell around it
//! performs the actual TCP connection attempts and drives the event loop.

pub mod probe;
pub mod request;
pub mod scanner;
