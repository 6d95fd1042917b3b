use carescanner::appstate::{AppState, Port};
use carescanner::modes::{PortStatus, Target};

fn target(ip: &str, port: u16) -> Target {
    Target { ip: ip.to_string(), port }
}

#[test]
fn aggregate_counts_every_event_and_keeps_conclusive_ones() {
    let mut state = AppState::new();
    let statuses = [PortStatus::Open, PortStatus::Filtered, PortStatus::Closed];
    let mut n = 0u64;
    for producer in 0..4u16 {
        for i in 0..25u16 {
            let host = if i % 2 == 0 { "10.0.0.1" } else { "10.0.0.2" };
            state.add_result(target(host, producer * 100 + i), statuses[(i % 3) as usize]);
            n += 1;
        }
    }
    assert_eq!(state.get_port_scanned_count(), n);
    assert_eq!(n, 100);
    let results = state.get_results();
    assert_eq!(results.len(), 2);
    let kept: usize = results.iter().map(|(_, ports)| ports.len()).sum();
    // i % 3 == 1 is Filtered: 8 of every 25 events per producer.
    assert_eq!(kept, 4 * (25 - 8));
}

#[test]
fn aggregate_keeps_order_per_host() {
    let mut state = AppState::new();
    state.add_result(target("b", 22), PortStatus::Closed);
    state.add_result(target("a", 80), PortStatus::Open);
    state.add_result(target("b", 23), PortStatus::Filtered);
    state.add_result(target("b", 443), PortStatus::Open);
    let results = state.get_results();
    assert_eq!(results.len(), 2);
    assert_eq!(results[0].0, "b");
    assert_eq!(results[0].1, vec![Port::Closed(22), Port::Open(443)]);
    assert_eq!(results[1].0, "a");
    assert_eq!(results[1].1, vec![Port::Open(80)]);
    assert_eq!(state.get_port_scanned_count(), 4);
}

#[test]
fn aggregate_filtered_only_host_has_no_entry() {
    let mut state = AppState::new();
    state.add_result(target("c", 1), PortStatus::Filtered);
    assert_eq!(state.get_port_scanned_count(), 1);
    assert!(state.get_results().is_empty());
    state.get_results_mut().clear();
    assert_eq!(state.get_port_scanned_count(), 1);
}

#[test]
fn aggregate_closed_ports_toggle() {
    let mut state = AppState::new();
    state.add_result_with(target("h", 1), PortStatus::Closed, false);
    state.add_result_with(target("h", 2), PortStatus::Open, false);
    state.add_result_with(target("h", 3), PortStatus::Closed, true);
    assert_eq!(state.get_port_scanned_count(), 3);
    assert_eq!(state.get_results()[0].1, vec![Port::Open(2), Port::Closed(3)]);
}

#[test]
fn aggregate_batch_counts_each_event_once() {
    let mut state = AppState::new();
    let events: Vec<(Target, PortStatus)> = (0..30u16)
        .map(|i| (target(if i % 3 == 0 { "x" } else { "y" }, i), if i % 2 == 0 { PortStatus::Filtered } else { PortStatus::Open }))
        .collect();
    state.add_results(&events);
    assert_eq!(state.get_port_scanned_count(), 30);
    let kept: usize = state.get_results().iter().map(|(_, p)| p.len()).sum();
    assert_eq!(kept, 15);
}
