//! Host-first enumeration.
use vstd::prelude::*;

use crate::configuration::{PortList, ScanStrategy, TargetList};
use crate::strategy::{ScanStrategyTrait, TargetSequence};

verus! {

/// Exhausts every port of one host before moving to the next host.
pub struct HostFirstStrategy;

impl ScanStrategyTrait for HostFirstStrategy {
    open spec fn order(&self) -> ScanStrategy {
        ScanStrategy::HostFirst
    }

    fn create_targets<'a>(&'a self, hosts: &'a TargetList, ports: &'a PortList) -> (r:
        TargetSequence<'a>)
    {
        TargetSequence::new(&hosts.targets, &ports.ports, ScanStrategy::HostFirst)
    }
}

} // verus!
