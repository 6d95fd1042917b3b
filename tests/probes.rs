use carescanner::configuration::{ProxyList, ProxyStrategy};
use carescanner::modes::fulltcp::{classify_connect, ConnectOutcome};
use carescanner::modes::sockstcp::{classify_tunnel, ProxySelector, TunnelOutcome};
use carescanner::modes::udp::{classify_udp, UdpOutcome};
use carescanner::modes::{ConfigError, PortStatus};
use std::sync::Arc;

fn proxies(n: usize) -> ProxyList {
    ProxyList { proxies: (0..n).map(|i| format!("p{}", i)).collect() }
}

#[test]
fn connect_outcomes_classified() {
    assert_eq!(classify_connect(ConnectOutcome::Connected), PortStatus::Open);
    assert_eq!(classify_connect(ConnectOutcome::Failed), PortStatus::Closed);
    assert_eq!(classify_connect(ConnectOutcome::TimedOut), PortStatus::Filtered);
}

#[test]
fn udp_outcomes_classified() {
    assert_eq!(classify_udp(UdpOutcome::Reply), PortStatus::Open);
    assert_eq!(classify_udp(UdpOutcome::ReceiveFailed), PortStatus::Closed);
    assert_eq!(classify_udp(UdpOutcome::NoReply), PortStatus::Filtered);
    assert_eq!(classify_udp(UdpOutcome::BindFailed), PortStatus::Filtered);
    assert_eq!(classify_udp(UdpOutcome::SendFailed), PortStatus::Filtered);
}

#[test]
fn tunnel_outcomes_classified() {
    assert_eq!(classify_tunnel(TunnelOutcome::Established), PortStatus::Open);
    assert_eq!(classify_tunnel(TunnelOutcome::ConnectionRefused), PortStatus::Closed);
    assert_eq!(classify_tunnel(TunnelOutcome::TimedOut), PortStatus::Filtered);
    assert_eq!(classify_tunnel(TunnelOutcome::HostUnreachable), PortStatus::Filtered);
    assert_eq!(classify_tunnel(TunnelOutcome::ProxyFailure), PortStatus::Filtered);
}

#[test]
fn sequential_selector_in_order() {
    let mut s = ProxySelector::new(&proxies(3), ProxyStrategy::Sequential).unwrap();
    assert_eq!(s.select(), vec!["p0".to_string()]);
    assert_eq!(s.select(), vec!["p1".to_string()]);
    assert_eq!(s.select(), vec!["p2".to_string()]);
    assert_eq!(s.select(), vec!["p0".to_string()]);
}

#[test]
fn sequential_selector_under_concurrency() {
    let n = 64;
    let list = proxies(n);
    let shared = Arc::new(tokio::sync::Mutex::new(ProxySelector::new(&list, ProxyStrategy::Sequential).unwrap()));
    let rt = tokio::runtime::Builder::new_multi_thread().worker_threads(4).enable_all().build().unwrap();
    let mut picked: Vec<usize> = rt.block_on(async {
        let mut handles = Vec::new();
        for _ in 0..n {
            let s = Arc::clone(&shared);
            handles.push(tokio::spawn(async move {
                let route = s.lock().await.select();
                route[0][1..].parse::<usize>().unwrap()
            }));
        }
        let mut out = Vec::new();
        for h in handles {
            out.push(h.await.unwrap());
        }
        out
    });
    picked.sort();
    assert_eq!(picked, (0..n).collect::<Vec<usize>>());
}

#[test]
fn random_and_chain_selectors() {
    let list = proxies(5);
    let mut r = ProxySelector::new(&list, ProxyStrategy::Random).unwrap();
    for _ in 0..20 {
        let route = r.select();
        assert_eq!(route.len(), 1);
        assert!(list.proxies.contains(&route[0]));
    }
    let mut c = ProxySelector::new(&list, ProxyStrategy::Chain).unwrap();
    assert_eq!(c.select(), list.proxies);
}

#[test]
fn empty_proxy_list_refused() {
    assert_eq!(ProxySelector::new(&proxies(0), ProxyStrategy::Sequential).err(), Some(ConfigError::EmptyProxyList));
}
