//! Round-robin enumeration.
use vstd::prelude::*;

use crate::configuration::{PortList, ScanStrategy, TargetList};
use crate::strategy::{ScanStrategyTrait, TargetSequence};

verus! {

/// Spreads one pass over every host before moving to the next port.
pub struct RoundRobinStrategy;

impl ScanStrategyTrait for RoundRobinStrategy {
    open spec fn order(&self) -> ScanStrategy {
        ScanStrategy::RoundRobin
    }

    fn create_targets<'a>(&'a self, hosts: &'a TargetList, ports: &'a PortList) -> (r:
        TargetSequence<'a>)
    {
        TargetSequence::new(&hosts.targets, &ports.ports, ScanStrategy::RoundRobin)
    }
}

} // verus!
