//! Native-side bridge library for a sandboxed chat front-end.
//!
//! The front-end delegates a handful of privileged operations to the host
//! process: relaying an HTTP request, checking a caller-supplied token
//! against a local secret file, probing for required tools, and
//! provisioning a companion server.  This crate holds the decision logic
//! of those operations — header validation and re-encoding, response
//! envelope construction, the auth comparison, and the state machines
//! that drive the probes and the provisioner — each with a verified
//! contract.  The I/O itself (network, filesystem, child processes) is
//! performed by the surrounding application, which feeds plain values in
//! and carries the decisions out.

pub mod auth;
pub mod headers;
pub mod jsontext;
pub mod provision;
pub mod requirements;
pub mod relay;
pub mod util;

use vstd::prelude::*;

verus! {

/// Greeting composed for the front-end's hello round trip.
pub fn greet(name: &str) -> (r: String)
    ensures
        r@ == "Hello, "@ + name@ + "! You've been greeted from Rust!"@,
{
    let mut out = String::from_str("Hello, ");
    out.append(name);
    out.append("! You've been greeted from Rust!");
    out
}

} // verus!
