//! Full TCP handshake probe.
use vstd::prelude::*;

use crate::configuration::Config;
use crate::modes::{PortStatus, ScanTypeTrait};

verus! {

/// Probe that completes a TCP handshake and closes the connection at once.
#[derive(Debug, Clone)]
pub struct TcpScan {
    pub name: String,
    pub timeout: u64,
}

/// How a bounded connection attempt ended.
#[derive(Debug, Clone, Copy, PartialEq, Eq, Structural)]
pub enum ConnectOutcome {
    /// The handshake completed.
    Connected,
    /// The attempt failed before the timeout, e.g. the connection was refused.
    Failed,
    /// Nothing conclusive happened within the timeout.
    TimedOut,
}

/// Status of a target whose connection attempt ended with `outcome`.
pub open spec fn connect_status(outcome: ConnectOutcome) -> PortStatus {
    match outcome {
        ConnectOutcome::Connected => PortStatus::Open,
        ConnectOutcome::Failed => PortStatus::Closed,
        ConnectOutcome::TimedOut => PortStatus::Filtered,
    }
}

/// Classifies a connection attempt: a completed handshake is `Open`, an
/// error before the timeout is `Closed`, and silence is `Filtered`.
pub fn classify_connect(outcome: ConnectOutcome) -> (r: PortStatus)
    ensures
        r == connect_status(outcome),
{
    match outcome {
        ConnectOutcome::Connected => PortStatus::Open,
        ConnectOutcome::Failed => PortStatus::Closed,
        ConnectOutcome::TimedOut => PortStatus::Filtered,
    }
}

impl TcpScan {
    pub fn new(config: &Config) -> (r: Self)
        ensures
            r.name@ == "Full TCP connection"@,
            r.timeout == config.timeout,
    {
        TcpScan { name: String::from_str("Full TCP connection"), timeout: config.timeout }
    }
}

impl ScanTypeTrait for TcpScan {
    open spec fn spec_name(&self) -> Seq<char> {
        self.name@
    }

    open spec fn spec_protocol(&self) -> Seq<char> {
        "tcp"@
    }

    fn name(&self) -> (r: &str) {
        self.name.as_str()
    }

    fn protocol(&self) -> (r: &str) {
        "tcp"
    }
}

} // verus!
