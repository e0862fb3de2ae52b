//! What the desktop front end reports when asked whether the public address
//! is reachable from outside.
use vstd::prelude::*;
use crate::ipv4::{Ipv4, ipv4_text};

verus! {

/// The public address and whether it answered from outside.
pub struct CheckNatRes {
    pub ip: String,
    pub nat: bool,
}

/// Why the check could not be made.
pub struct CheckNatErr {
    pub detail: String,
}

/// The report on a probe: the address in dotted-decimal notation and its
/// reachability, or the text of the error that stopped the probe (fetching
/// the address or probing it).
pub fn check_nat_result(probe: Result<(Ipv4, bool), String>) -> (res: Result<CheckNatRes, CheckNatErr>)
    ensures
        match probe {
            Ok((ip, reachable)) => res matches Ok(r) && r.ip@ == ipv4_text(ip) && r.nat == reachable,
            Err(e) => res matches Err(r) && r.detail == e,
        },
{
    match probe {
        Ok((ip, reachable)) => Ok(CheckNatRes { ip: ip.to_string(), nat: reachable }),
        Err(detail) => Err(CheckNatErr { detail }),
    }
}

} // verus!
