//! The texts handed to the host's firewall tools when a listener's port is
//! opened. Invoking the tools is the driver's work; the rule texts are the
//! library's.

use vstd::prelude::*;

use crate::text::{spec_nat_string, u64_to_string};

verus! {

/// The port as decimal text.
pub fn port_string(port: u16) -> (r: String)
    ensures
        r@ == spec_nat_string(port as int),
{
    u64_to_string(port as u64)
}

/// The `port/tcp` rule text.
pub fn tcp_rule(port: u16) -> (r: String)
    ensures
        r@ == spec_nat_string(port as int) + "/tcp"@,
{
    let mut s = u64_to_string(port as u64);
    s.append("/tcp");
    s
}

/// The `port/udp` rule text.
pub fn udp_rule(port: u16) -> (r: String)
    ensures
        r@ == spec_nat_string(port as int) + "/udp"@,
{
    let mut s = u64_to_string(port as u64);
    s.append("/udp");
    s
}

/// The permanent-port argument for the firewall daemon, for one protocol
/// rule text (`port/tcp` or `port/udp`).
pub fn add_port_arg(rule: &str) -> (r: String)
    ensures
        r@ == "--add-port="@ + rule@,
{
    let mut s = String::from_str("--add-port=");
    s.append(rule);
    s
}

} // verus!
