//! UDP probe.
use vstd::prelude::*;

use crate::configuration::Config;
use crate::modes::{PortStatus, ScanTypeTrait};

verus! {

/// Probe that sends an empty datagram and waits for any answer.
#[derive(Debug, Clone)]
pub struct UdpScan {
    pub name: String,
    pub timeout: u64,
}

/// How a UDP exchange ended.
#[derive(Debug, Clone, Copy, PartialEq, Eq, Structural)]
pub enum UdpOutcome {
    /// No local socket could be bound.
    BindFailed,
    /// The empty datagram could not be sent.
    SendFailed,
    /// A datagram came back within the timeout.
    Reply,
    /// Receiving failed within the timeout, e.g. port unreachable.
    ReceiveFailed,
    /// Nothing came back within the timeout.
    NoReply,
}

/// Status of a target whose UDP exchange ended with `outcome`.
pub open spec fn udp_status(outcome: UdpOutcome) -> PortStatus {
    match outcome {
        UdpOutcome::Reply => PortStatus::Open,
        UdpOutcome::ReceiveFailed => PortStatus::Closed,
        _ => PortStatus::Filtered,
    }
}

/// Classifies a UDP exchange: a reply is `Open`, a receive error is
/// `Closed`, and a local failure or silence is `Filtered`.
pub fn classify_udp(outcome: UdpOutcome) -> (r: PortStatus)
    ensures
        r == udp_status(outcome),
{
    match outcome {
        UdpOutcome::Reply => PortStatus::Open,
        UdpOutcome::ReceiveFailed => PortStatus::Closed,
        UdpOutcome::BindFailed => PortStatus::Filtered,
        UdpOutcome::SendFailed => PortStatus::Filtered,
        UdpOutcome::NoReply => PortStatus::Filtered,
    }
}

impl UdpScan {
    pub fn new(config: &Config) -> (r: Self)
        ensures
            r.name@ == "UDP scan"@,
            r.timeout == config.timeout,
    {
        UdpScan { name: String::from_str("UDP scan"), timeout: config.timeout }
    }
}

impl ScanTypeTrait for UdpScan {
    open spec fn spec_name(&self) -> Seq<char> {
        self.name@
    }

    open spec fn spec_protocol(&self) -> Seq<char> {
        "udp"@
    }

    fn name(&self) -> (r: &str) {
        self.name.as_str()
    }

    fn protocol(&self) -> (r: &str) {
        "udp"
    }
}

} // verus!
