use carescanner::configuration::{PortList, ScanStrategy, TargetList};
use carescanner::modes::Target;
use carescanner::strategy::host_first::HostFirstStrategy;
use carescanner::strategy::round_robin::RoundRobinStrategy;
use carescanner::strategy::{ScanStrategyTrait, TargetSequence};

fn collect(mut seq: TargetSequence) -> Vec<Target> {
    let mut out = Vec::new();
    while let Some(t) = seq.next() {
        out.push(t);
    }
    out
}

fn hosts(names: &[&str]) -> TargetList {
    TargetList { targets: names.iter().map(|s| s.to_string()).collect() }
}

#[test]
fn host_first_order() {
    let targets = TargetList { targets: vec!["192.168.1.1".to_string(), "192.168.1.2".to_string()] };
    let ports = PortList { ports: vec![80, 443] };

    let targets_iter = HostFirstStrategy.create_targets(&targets, &ports);
    let targets_vec = collect(targets_iter);

    assert_eq!(targets_vec.len(), 4);
    assert_eq!(targets_vec[0].ip, "192.168.1.1");
    assert_eq!(targets_vec[0].port, 80);
    assert_eq!(targets_vec[1].ip, "192.168.1.1");
    assert_eq!(targets_vec[1].port, 443);
    assert_eq!(targets_vec[2].ip, "192.168.1.2");
    assert_eq!(targets_vec[2].port, 80);
    assert_eq!(targets_vec[3].ip, "192.168.1.2");
    assert_eq!(targets_vec[3].port, 443);
}

#[test]
fn round_robin_order() {
    let targets = TargetList { targets: vec!["192.168.1.1".to_string(), "192.168.1.2".to_string()] };
    let ports = PortList { ports: vec![80, 443] };

    let targets = RoundRobinStrategy.create_targets(&targets, &ports);
    let targets_vec = collect(targets);

    assert_eq!(targets_vec.len(), 4);
    assert_eq!(targets_vec[0].ip, "192.168.1.1");
    assert_eq!(targets_vec[0].port, 80);
    assert_eq!(targets_vec[1].ip, "192.168.1.2");
    assert_eq!(targets_vec[1].port, 80);
    assert_eq!(targets_vec[2].ip, "192.168.1.1");
    assert_eq!(targets_vec[2].port, 443);
    assert_eq!(targets_vec[3].ip, "192.168.1.2");
    assert_eq!(targets_vec[3].port, 443);
}

#[test]
fn strategies_yield_same_pairs() {
    let h = hosts(&["a", "b", "c"]);
    let p = PortList { ports: vec![22, 80, 443, 8080] };
    let hf = collect(ScanStrategy::HostFirst.create_targets(&h, &p));
    let rr = collect(ScanStrategy::RoundRobin.create_targets(&h, &p));
    assert_eq!(hf.len(), 12);
    assert_eq!(rr.len(), 12);
    let mut a: Vec<(String, u16)> = hf.into_iter().map(|t| (t.ip, t.port)).collect();
    let mut b: Vec<(String, u16)> = rr.into_iter().map(|t| (t.ip, t.port)).collect();
    assert_ne!(a, b);
    a.sort();
    b.sort();
    assert_eq!(a, b);
}

#[test]
fn enumeration_is_restartable() {
    let h = hosts(&["10.0.0.1", "10.0.0.2"]);
    let p = PortList { ports: vec![1, 2, 3] };
    for strategy in [ScanStrategy::HostFirst, ScanStrategy::RoundRobin] {
        let first: Vec<(String, u16)> =
            collect(strategy.create_targets(&h, &p)).into_iter().map(|t| (t.ip, t.port)).collect();
        let second: Vec<(String, u16)> =
            collect(strategy.create_targets(&h, &p)).into_iter().map(|t| (t.ip, t.port)).collect();
        assert_eq!(first, second);
    }
}

#[test]
fn empty_inputs_yield_nothing() {
    let none = hosts(&[]);
    let some = hosts(&["x"]);
    let ports = PortList { ports: vec![80] };
    let no_ports = PortList { ports: vec![] };
    for strategy in [ScanStrategy::HostFirst, ScanStrategy::RoundRobin] {
        assert!(collect(strategy.create_targets(&none, &ports)).is_empty());
        assert!(collect(strategy.create_targets(&some, &no_ports)).is_empty());
    }
}

#[test]
fn exhausted_sequence_stays_exhausted() {
    let h = hosts(&["x"]);
    let p = PortList { ports: vec![7] };
    let mut seq = ScanStrategy::RoundRobin.create_targets(&h, &p);
    let t = seq.next().unwrap();
    assert_eq!((t.ip.as_str(), t.port), ("x", 7));
    assert!(seq.next().is_none());
    assert!(seq.next().is_none());
}

#[test]
fn order_matches_nested_loops() {
    let names = ["h0", "h1", "h2"];
    let h = hosts(&names);
    let ports = vec![5u16, 6, 7, 8];
    let p = PortList { ports: ports.clone() };
    let hf = collect(ScanStrategy::HostFirst.create_targets(&h, &p));
    let rr = collect(ScanStrategy::RoundRobin.create_targets(&h, &p));
    for i in 0..12 {
        assert_eq!((hf[i].ip.as_str(), hf[i].port), (names[i / 4], ports[i % 4]));
        assert_eq!((rr[i].ip.as_str(), rr[i].port), (names[i % 3], ports[i / 3]));
    }
}
