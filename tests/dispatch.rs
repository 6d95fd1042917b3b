use carescanner::configuration::{
    Config, FormatScan, LoggingLevel, PortList, ProxyList, ProxyStrategy, ScanStrategy, TargetList,
};
use carescanner::dispatch::{
    build_modes, compute_ratelimit, concurrency_cap, descriptor_request, limit_or_fallback,
    order_ports, plan_scan, rate_for, total_targets, RateSource, DEFAULT_RATE,
};
use carescanner::modes::{ConfigError, ScanType, ScanTypeName};

fn config(hosts: usize, ports: Vec<u16>) -> Config {
    Config {
        logging_level: LoggingLevel::Info,
        targets: TargetList { targets: (0..hosts).map(|i| format!("10.0.0.{}", i)).collect() },
        ports: PortList { ports },
        shuffle_ports: false,
        proxies: None,
        proxy_strategy: None,
        resume_from: None,
        scan_strategy: ScanStrategy::RoundRobin,
        scan_type: vec![ScanTypeName::Tcp],
        ratelimit: None,
        ratelimit_per_host: None,
        maximum_scan_time: None,
        max_concurrent_ports: 1000,
        timeout: 3,
        disable_all: false,
        disable_progress_bar: false,
        disable_banner: false,
        output: None,
        format: FormatScan::Text,
        show_closed_ports: false,
    }
}

#[test]
fn rate_sources() {
    assert_eq!(rate_for(RateSource::Global(250), 3, 90), Ok(250));
    assert_eq!(rate_for(RateSource::PerHost(100), 3, 90), Ok(300));
    assert_eq!(rate_for(RateSource::Budget(10), 3, 95), Ok(10));
    assert_eq!(rate_for(RateSource::Budget(10), 3, 100), Ok(10));
    assert_eq!(rate_for(RateSource::Budget(10), 3, 101), Ok(11));
    assert_eq!(rate_for(RateSource::Default, 3, 90), Ok(1000));
    assert_eq!(DEFAULT_RATE, 1000);
}

#[test]
fn rate_errors() {
    assert_eq!(rate_for(RateSource::Global(0), 3, 90), Err(ConfigError::InvalidRate));
    assert_eq!(rate_for(RateSource::Budget(0), 3, 90), Err(ConfigError::InvalidRate));
    assert_eq!(rate_for(RateSource::Global(1 << 32), 1, 1), Err(ConfigError::InvalidRate));
    assert_eq!(rate_for(RateSource::PerHost(u64::MAX), 2, 1), Err(ConfigError::InvalidRate));
    assert_eq!(rate_for(RateSource::PerHost(5), 0, 1), Err(ConfigError::InvalidRate));
    assert_eq!(rate_for(RateSource::Global(u32::MAX as u64), 1, 1), Ok(u32::MAX));
}

#[test]
fn ratelimit_from_config() {
    let mut c = config(4, vec![80, 443]);
    assert_eq!(compute_ratelimit(&c, 8), Ok(1000));
    c.ratelimit_per_host = Some(50);
    assert_eq!(compute_ratelimit(&c, 8), Ok(200));
    c.ratelimit = Some(7);
    assert_eq!(compute_ratelimit(&c, 8), Ok(7));
    let mut b = config(4, vec![80]);
    b.maximum_scan_time = Some("1m".to_string());
    assert_eq!(compute_ratelimit(&b, 600), Ok(10));
    assert_eq!(compute_ratelimit(&b, 601), Ok(11));
    b.maximum_scan_time = Some("2 hours".to_string());
    assert_eq!(compute_ratelimit(&b, 7200), Ok(1));
    b.maximum_scan_time = Some("soon".to_string());
    assert_eq!(compute_ratelimit(&b, 600), Err(ConfigError::InvalidScanTime));
}

#[test]
fn per_host_rate_counts_distinct_hosts() {
    let mut c = config(1, vec![80]);
    c.targets = TargetList { targets: vec!["a".to_string(), "a".to_string(), "b".to_string()] };
    c.ratelimit_per_host = Some(10);
    assert_eq!(compute_ratelimit(&c, 3), Ok(20));
}

#[test]
fn target_totals() {
    assert_eq!(total_targets(3, 4, 2), Some(24));
    assert_eq!(total_targets(0, 65535, 3), Some(0));
    assert_eq!(total_targets(usize::MAX, 2, 1), None);
    assert_eq!(total_targets(usize::MAX, 2, 0), Some(0));
}

#[test]
fn descriptor_and_concurrency_limits() {
    assert_eq!(descriptor_request(1000), 1500);
    assert_eq!(descriptor_request(3), 5);
    assert_eq!(descriptor_request(u64::MAX), u64::MAX);
    assert_eq!(concurrency_cap(1000, 4096), 1000);
    assert_eq!(concurrency_cap(1000, 1500), 1000);
    assert_eq!(concurrency_cap(1000, 1024), 683);
    assert_eq!(concurrency_cap(0, 1024), 1);
    assert_eq!(concurrency_cap(10, 0), 1);
    assert_eq!(limit_or_fallback(Some(4096)), 4096);
    assert_eq!(limit_or_fallback(None), 1024);
}

#[test]
fn modes_built_in_order() {
    let mut c = config(1, vec![80]);
    c.scan_type = vec![ScanTypeName::Udp, ScanTypeName::Tcp];
    let modes = build_modes(&c).unwrap();
    assert_eq!(modes.len(), 2);
    assert_eq!(modes[0].protocol(), "udp");
    assert_eq!(modes[0].name(), "UDP scan");
    assert_eq!(modes[1].protocol(), "tcp");
    assert_eq!(modes[1].name(), "Full TCP connection");
    assert_eq!(modes[1].timeout(), 3);
}

#[test]
fn modes_errors() {
    let mut c = config(1, vec![80]);
    c.scan_type = vec![ScanTypeName::Tcp, ScanTypeName::Syn];
    assert_eq!(build_modes(&c).err(), Some(ConfigError::UnsupportedScanType));
    c.scan_type = vec![ScanTypeName::Socks5Tcp];
    assert_eq!(build_modes(&c).err(), Some(ConfigError::EmptyProxyList));
    c.proxies = Some(ProxyList { proxies: vec![] });
    assert_eq!(build_modes(&c).err(), Some(ConfigError::EmptyProxyList));
    c.proxies = Some(ProxyList { proxies: vec!["socks5://127.0.0.1:9050".to_string()] });
    let modes = build_modes(&c).unwrap();
    match &modes[0] {
        ScanType::Sockstcp(s) => {
            assert_eq!(s.proxy_strategy, ProxyStrategy::Sequential);
            assert_eq!(s.name, "socks5 TCP connection");
        }
        _ => panic!("expected a proxied probe"),
    }
}

#[test]
fn plan_of_a_run() {
    let mut c = config(3, vec![22, 80]);
    c.scan_type = vec![ScanTypeName::Tcp, ScanTypeName::Udp];
    c.maximum_scan_time = Some("3s".to_string());
    let plan = plan_scan(&c).unwrap();
    assert_eq!(plan.modes.len(), 2);
    assert_eq!(plan.number_of_targets, 12);
    assert_eq!(plan.rate, 4);
    c.maximum_scan_time = Some("0s".to_string());
    assert_eq!(plan_scan(&c).err(), Some(ConfigError::InvalidRate));
    c.maximum_scan_time = Some("never".to_string());
    assert_eq!(plan_scan(&c).err(), Some(ConfigError::InvalidScanTime));
}

#[test]
fn ports_shuffled_or_kept() {
    let mut p = PortList { ports: (1..=200).collect() };
    order_ports(&mut p, false);
    assert_eq!(p.ports, (1..=200).collect::<Vec<u16>>());
    order_ports(&mut p, true);
    let mut sorted = p.ports.clone();
    sorted.sort();
    assert_eq!(sorted, (1..=200).collect::<Vec<u16>>());
}
