//! Probe kinds and the values they exchange.
use vstd::prelude::*;

pub mod fulltcp;
pub mod sockstcp;
pub mod udp;

use crate::configuration::Config;

verus! {

/// One (host, port) pair to be probed.
#[derive(Debug, Clone)]
pub struct Target {
    pub ip: String,
    pub port: u16,
}

impl View for Target {
    type V = (Seq<char>, u16);

    open spec fn view(&self) -> (Seq<char>, u16) {
        (self.ip@, self.port)
    }
}

/// Outcome of one probe of one target.
#[derive(Debug, Clone, Copy, PartialEq, Eq, Structural)]
pub enum PortStatus {
    Open,
    Filtered,
    Closed,
}

/// Probe kinds that a configuration can name.
#[derive(Debug, Clone, Copy, PartialEq, Eq, Structural)]
pub enum ScanTypeName {
    Syn,
    Tcp,
    Fin,
    Ping,
    Udp,
    Socks5Tcp,
}

} // verus!

verus! {

/// Why a scan run cannot start.
#[derive(Debug, Clone, Copy, PartialEq, Eq, Structural)]
pub enum ConfigError {
    /// A proxied probe was configured without any proxy endpoint.
    EmptyProxyList,
    /// The maximum scan time could not be read as a duration.
    InvalidScanTime,
    /// The derived probe rate is zero or does not fit the limiter.
    InvalidRate,
    /// The probe kind has no driver.
    UnsupportedScanType,
    /// The number of probes of the run does not fit in 64 bits.
    TooManyTargets,
}

/// Common interface of the probe drivers.
pub trait ScanTypeTrait {
    spec fn spec_name(&self) -> Seq<char>;

    spec fn spec_protocol(&self) -> Seq<char>;

    /// Human-readable name of the probe.
    fn name(&self) -> (r: &str)
        ensures
            r@ == self.spec_name(),
    ;

    /// Transport protocol the probe uses.
    fn protocol(&self) -> (r: &str)
        ensures
            r@ == self.spec_protocol(),
    ;
}

/// The probe drivers, one variant per supported probe kind.
pub enum ScanType {
    Tcp(fulltcp::TcpScan),
    Sockstcp(sockstcp::Socks5TcpScan),
    Udp(udp::UdpScan),
}

/// Probe kinds that have a driver.
pub open spec fn is_supported(scan_type: ScanTypeName) -> bool {
    scan_type == ScanTypeName::Tcp || scan_type == ScanTypeName::Udp || scan_type
        == ScanTypeName::Socks5Tcp
}

/// A driver can be built for `scan_type` under `config`.
pub open spec fn build_ok(scan_type: ScanTypeName, config: &Config) -> bool {
    is_supported(scan_type) && (scan_type == ScanTypeName::Socks5Tcp ==> sockstcp::proxies_configured(config))
}

/// Why no driver can be built for `scan_type` under `config`.
pub open spec fn build_error(scan_type: ScanTypeName) -> ConfigError {
    if is_supported(scan_type) {
        ConfigError::EmptyProxyList
    } else {
        ConfigError::UnsupportedScanType
    }
}

/// `t` is the driver that `config` configures for its kind.
pub open spec fn built_from(t: ScanType, config: &Config) -> bool {
    match t {
        ScanType::Tcp(s) => s.name@ == "Full TCP connection"@ && s.timeout == config.timeout,
        ScanType::Udp(s) => s.name@ == "UDP scan"@ && s.timeout == config.timeout,
        ScanType::Sockstcp(s) => {
            &&& s.name@ == "socks5 TCP connection"@
            &&& s.timeout == config.timeout
            &&& s.socks5_proxies@ == config.proxies->Some_0@
            &&& s.proxy_strategy == match config.proxy_strategy {
                Some(p) => p,
                None => crate::configuration::ProxyStrategy::Sequential,
            }
        },
    }
}

impl ScanType {
    /// The probe kind this driver implements.
    pub open spec fn kind(&self) -> ScanTypeName {
        match self {
            ScanType::Tcp(_) => ScanTypeName::Tcp,
            ScanType::Sockstcp(_) => ScanTypeName::Socks5Tcp,
            ScanType::Udp(_) => ScanTypeName::Udp,
        }
    }

    pub open spec fn spec_timeout(&self) -> u64 {
        match self {
            ScanType::Tcp(s) => s.timeout,
            ScanType::Sockstcp(s) => s.timeout,
            ScanType::Udp(s) => s.timeout,
        }
    }

    /// The driver for `scan_type`, configured from `config`.
    pub fn build(scan_type: ScanTypeName, config: &Config) -> (r: Result<Self, ConfigError>)
        ensures
            r is Ok <==> build_ok(scan_type, config),
            r matches Ok(t) ==> t.kind() == scan_type && built_from(t, config),
            r matches Err(e) ==> e == build_error(scan_type),
    {
        match scan_type {
            ScanTypeName::Tcp => Ok(ScanType::Tcp(fulltcp::TcpScan::new(config))),
            ScanTypeName::Udp => Ok(ScanType::Udp(udp::UdpScan::new(config))),
            ScanTypeName::Socks5Tcp => match sockstcp::Socks5TcpScan::new(config) {
                Ok(s) => Ok(ScanType::Sockstcp(s)),
                Err(e) => Err(e),
            },
            _ => Err(ConfigError::UnsupportedScanType),
        }
    }

    /// Human-readable name of the probe.
    pub fn name(&self) -> (r: &str)
        ensures
            r@ == match self {
                ScanType::Tcp(s) => s.spec_name(),
                ScanType::Sockstcp(s) => s.spec_name(),
                ScanType::Udp(s) => s.spec_name(),
            },
    {
        match self {
            ScanType::Tcp(s) => s.name(),
            ScanType::Sockstcp(s) => s.name(),
            ScanType::Udp(s) => s.name(),
        }
    }

    /// Transport protocol of the probe.
    pub fn protocol(&self) -> (r: &str)
        ensures
            r@ == match self {
                ScanType::Tcp(s) => s.spec_protocol(),
                ScanType::Sockstcp(s) => s.spec_protocol(),
                ScanType::Udp(s) => s.spec_protocol(),
            },
    {
        match self {
            ScanType::Tcp(s) => s.protocol(),
            ScanType::Sockstcp(s) => s.protocol(),
            ScanType::Udp(s) => s.protocol(),
        }
    }

    /// Probe timeout, in seconds.
    pub fn timeout(&self) -> (r: u64)
        ensures
            r == self.spec_timeout(),
    {
        match self {
            ScanType::Tcp(s) => s.timeout,
            ScanType::Sockstcp(s) => s.timeout,
            ScanType::Udp(s) => s.timeout,
        }
    }
}

} // verus!
