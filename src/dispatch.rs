//! Preparing a scan run: probe drivers, target count, probe rate,
//! concurrency cap and descriptor limit, all settled before any probe starts.
use vstd::prelude::*;

use rand::seq::SliceRandom;

use crate::configuration::target_parsing::texts;
use crate::configuration::{Config, PortList};
use crate::modes::{build_error, build_ok, built_from, ConfigError, ScanType};

verus! {

/// Probes per second when no rate is configured.
pub const DEFAULT_RATE: u64 = 1000;

/// Descriptor limit assumed when the OS does not report one.
pub const FALLBACK_DESCRIPTOR_LIMIT: u64 = 1024;

/// Relies on rand's `SliceRandom::shuffle` with the thread-local generator:
/// the ports end up in some order, each as often as before.
#[verifier::external_body]
fn shuffle_in_place(ports: &mut Vec<u16>)
    ensures
        final(ports)@.to_multiset() == old(ports)@.to_multiset(),
{
    ports.shuffle(&mut rand::rng());
}

/// Relies on rlimit's `Resource::NOFILE.set`: asks the OS for soft and hard
/// descriptor limits of `limit`; whether it grants them depends on the
/// process's privileges, so nothing is promised.
#[verifier::external_body]
fn request_descriptor_limit(limit: u64) {
    let _ = rlimit::Resource::NOFILE.set(limit, limit);
}

/// Relies on rlimit's `Resource::NOFILE.get`: the soft descriptor limit, when
/// the OS reports one; its value depends on the machine.
#[verifier::external_body]
fn current_descriptor_limit() -> (r: Option<u64>) {
    rlimit::Resource::NOFILE.get().ok().map(|(soft, _)| soft)
}

/// Whole seconds of the duration `text` denotes, if it denotes one.
pub uninterp spec fn duration_secs(text: Seq<char>) -> Option<u64>;

/// Relies on parse_duration::parse: reads a duration such as "90", "2m" or
/// "1h 30m"; the result depends on the text alone. Whole seconds are kept.
#[verifier::external_body]
fn parse_scan_time(text: &str) -> (r: Option<u64>)
    ensures
        r == duration_secs(text@),
{
    parse_duration::parse(text).ok().map(|d| d.as_secs())
}

/// Relies on std's `HashSet` (built by `FromIterator`, read by `len`): the
/// number of distinct strings of `hosts`.
#[verifier::external_body]
fn distinct_count(hosts: &Vec<String>) -> (r: usize)
    ensures
        r == texts(hosts@).to_set().len(),
{
    hosts.iter().collect::<std::collections::HashSet<&String>>().len()
}

/// Number of distinct hosts that `config` names.
pub open spec fn distinct_hosts(config: &Config) -> nat {
    config.targets@.to_set().len()
}

/// Where the probe rate comes from.
#[derive(Debug, Clone, Copy, PartialEq, Eq, Structural)]
pub enum RateSource {
    /// A rate for the whole scan.
    Global(u64),
    /// A rate per host, multiplied by the number of distinct hosts.
    PerHost(u64),
    /// A time budget in seconds, spread over every target.
    Budget(u64),
    /// Nothing configured.
    Default,
}

/// Smallest whole number at least `a / b`.
pub open spec fn ceil_div(a: nat, b: nat) -> nat
    recommends
        b > 0,
{
    a / b + if a % b == 0 {
        0nat
    } else {
        1nat
    }
}

/// The probe rate that `source` asks for, over `hosts` hosts and `targets`
/// probes; `None` for a budget of zero seconds.
pub open spec fn requested_rate(source: RateSource, hosts: nat, targets: nat) -> Option<int> {
    match source {
        RateSource::Global(r) => Some(r as int),
        RateSource::PerHost(r) => Some(r * hosts),
        RateSource::Budget(secs) => if secs == 0 {
            None
        } else {
            Some(ceil_div(targets, secs as nat) as int)
        },
        RateSource::Default => Some(DEFAULT_RATE as int),
    }
}

/// The limiter rate for `source`: the requested rate when it is at least one
/// and fits in a `u32`, else an invalid-rate error.
pub open spec fn rate_result(source: RateSource, hosts: nat, targets: nat) -> Result<u32, ConfigError> {
    match requested_rate(source, hosts, targets) {
        Some(v) => if 1 <= v <= u32::MAX {
            Ok(v as u32)
        } else {
            Err(ConfigError::InvalidRate)
        },
        None => Err(ConfigError::InvalidRate),
    }
}

/// Limiter rate, in permits per second, for `source` over `hosts` hosts and
/// `targets` probes.
pub fn rate_for(source: RateSource, hosts: u64, targets: u64) -> (r: Result<u32, ConfigError>)
    ensures
        r == rate_result(source, hosts as nat, targets as nat),
{
    let v: u64 = match source {
        RateSource::Global(rate) => rate,
        RateSource::PerHost(rate) => match rate.checked_mul(hosts) {
            Some(v) => v,
            None => {
                return Err(ConfigError::InvalidRate);
            },
        },
        RateSource::Budget(secs) => {
            if secs == 0 {
                return Err(ConfigError::InvalidRate);
            }
            let q = targets / secs;
            let rem = targets % secs;
            if rem == 0 {
                q
            } else {
                proof {
                    vstd::arithmetic::div_mod::lemma_fundamental_div_mod(
                        targets as int,
                        secs as int,
                    );
                    assert(q < u64::MAX) by (nonlinear_arith)
                        requires
                            secs * q + rem == targets,
                            rem >= 1,
                            secs >= 1,
                            targets <= u64::MAX,
                            q >= 0,
                    ;
                }
                q + 1
            }
        },
        RateSource::Default => DEFAULT_RATE,
    };
    if v == 0 || v > u32::MAX as u64 {
        Err(ConfigError::InvalidRate)
    } else {
        Ok(v as u32)
    }
}

/// The rate source of `config`: an explicit rate first, then a per-host
/// rate, then a time budget (`Err` when its text is no duration), else the
/// default.
pub open spec fn rate_source(config: &Config) -> Result<RateSource, ConfigError> {
    if config.ratelimit is Some {
        Ok(RateSource::Global(config.ratelimit->Some_0))
    } else if config.ratelimit_per_host is Some {
        Ok(RateSource::PerHost(config.ratelimit_per_host->Some_0))
    } else if config.maximum_scan_time is Some {
        match duration_secs(config.maximum_scan_time->Some_0@) {
            Some(secs) => Ok(RateSource::Budget(secs)),
            None => Err(ConfigError::InvalidScanTime),
        }
    } else {
        Ok(RateSource::Default)
    }
}

/// Limiter rate of `config` for a scan of `targets` probes.
pub fn compute_ratelimit(config: &Config, targets: u64) -> (r: Result<u32, ConfigError>)
    ensures
        r == match rate_source(config) {
            Ok(source) => rate_result(source, distinct_hosts(config), targets as nat),
            Err(e) => Err(e),
        },
{
    let source = if let Some(rate) = config.ratelimit {
        RateSource::Global(rate)
    } else if let Some(rate) = config.ratelimit_per_host {
        RateSource::PerHost(rate)
    } else if let Some(text) = &config.maximum_scan_time {
        match parse_scan_time(text.as_str()) {
            Some(secs) => RateSource::Budget(secs),
            None => {
                return Err(ConfigError::InvalidScanTime);
            },
        }
    } else {
        RateSource::Default
    };
    let hosts: u64 = match source {
        RateSource::PerHost(_) => distinct_count(&config.targets.targets) as u64,
        _ => 0,
    };
    rate_for(source, hosts, targets)
}

/// Number of probes of a scan: hosts × ports × probe kinds, when it fits in a
/// `u64`.
pub fn total_targets(hosts: usize, ports: usize, modes: usize) -> (r: Option<u64>)
    ensures
        hosts * ports * modes <= u64::MAX ==> r == Some((hosts * ports * modes) as u64),
        hosts * ports * modes > u64::MAX ==> r is None,
{
    let h = hosts as u64;
    let p = ports as u64;
    let m = modes as u64;
    if h == 0 || p == 0 || m == 0 {
        proof {
            assert(hosts * ports * modes == 0) by (nonlinear_arith)
                requires
                    hosts == 0 || ports == 0 || modes == 0,
            ;
        }
        return Some(0);
    }
    match h.checked_mul(p) {
        Some(hp) => hp.checked_mul(m),
        None => {
            proof {
                assert(h * p * m >= h * p) by (nonlinear_arith)
                    requires
                        m >= 1,
                        h * p >= 0,
                ;
            }
            None
        },
    }
}

/// Puts the ports in a random order when `shuffle` is set; the ports
/// themselves stay the same.
pub fn order_ports(ports: &mut PortList, shuffle: bool)
    ensures
        final(ports)@.to_multiset() == old(ports)@.to_multiset(),
        !shuffle ==> final(ports)@ == old(ports)@,
{
    if shuffle {
        shuffle_in_place(&mut ports.ports);
    }
}

/// The descriptor limit the scan uses, given what the OS reported.
pub fn limit_or_fallback(reported: Option<u64>) -> (r: u64)
    ensures
        r == match reported {
            Some(l) => l,
            None => FALLBACK_DESCRIPTOR_LIMIT,
        },
{
    match reported {
        Some(l) => l,
        None => FALLBACK_DESCRIPTOR_LIMIT,
    }
}

/// Raises the process's descriptor limit to `new_size` as far as the OS
/// allows, and returns the limit in force afterwards (the fallback limit
/// when the OS reports none).
pub fn increase_ulimit(new_size: u64) -> (r: u64) {
    request_descriptor_limit(new_size);
    let reported = current_descriptor_limit();
    limit_or_fallback(reported)
}

/// Descriptors to ask for when up to `max_concurrent` probes run at once:
/// half as many again, for safety, rounded up (saturating).
pub fn descriptor_request(max_concurrent: u64) -> (r: u64)
    ensures
        r == if max_concurrent + ceil_div(max_concurrent as nat, 2) <= u64::MAX {
            max_concurrent + ceil_div(max_concurrent as nat, 2)
        } else {
            u64::MAX as int
        },
{
    let half = max_concurrent / 2 + max_concurrent % 2;
    if max_concurrent > u64::MAX - half {
        u64::MAX
    } else {
        max_concurrent + half
    }
}

/// How many probes may run at once: the configured cap, lowered so that a
/// third of `granted` descriptors stays spare, and at least one.
pub fn concurrency_cap(max_concurrent: u64, granted: u64) -> (r: u64)
    ensures
        r == if max_concurrent <= granted - granted / 3 {
            if max_concurrent == 0 {
                1
            } else {
                max_concurrent as int
            }
        } else if granted - granted / 3 == 0 {
            1
        } else {
            granted - granted / 3
        },
        1 <= r <= if max_concurrent == 0 {
            1
        } else {
            max_concurrent as int
        },
{
    let usable = granted - granted / 3;
    let cap = if max_concurrent <= usable {
        max_concurrent
    } else {
        usable
    };
    if cap == 0 {
        1
    } else {
        cap
    }
}

/// The probe drivers for the configured probe kinds, in configured order;
/// the error of the first kind that has none.
pub fn build_modes(config: &Config) -> (r: Result<Vec<ScanType>, ConfigError>)
    ensures
        r is Ok <==> forall|i: int|
            0 <= i < config.scan_type@.len() ==> build_ok(#[trigger] config.scan_type@[i], config),
        r matches Ok(v) ==> {
            &&& v@.len() == config.scan_type@.len()
            &&& forall|i: int|
                0 <= i < v@.len() ==> (#[trigger] v@[i]).kind() == config.scan_type@[i]
                    && built_from(v@[i], config)
        },
        r matches Err(e) ==> exists|j: int|
            0 <= j < config.scan_type@.len() && !build_ok(#[trigger] config.scan_type@[j], config)
                && e == build_error(config.scan_type@[j]) && forall|i: int|
                0 <= i < j ==> build_ok(#[trigger] config.scan_type@[i], config),
{
    let mut modes: Vec<ScanType> = Vec::new();
    let mut i: usize = 0;
    while i < config.scan_type.len()
        invariant
            i <= config.scan_type@.len(),
            modes@.len() == i,
            forall|k: int| 0 <= k < i ==> build_ok(#[trigger] config.scan_type@[k], config),
            forall|k: int|
                0 <= k < i ==> (#[trigger] modes@[k]).kind() == config.scan_type@[k]
                    && built_from(modes@[k], config),
        decreases config.scan_type@.len() - i,
    {
        match ScanType::build(config.scan_type[i], config) {
            Ok(t) => modes.push(t),
            Err(e) => {
                return Err(e);
            },
        }
        i = i + 1;
    }
    Ok(modes)
}

/// Everything a scan run needs, settled before the first probe.
pub struct ScanPlan {
    /// One driver per configured probe kind, in configured order.
    pub modes: Vec<ScanType>,
    /// Probes in the whole run: hosts × ports × probe kinds.
    pub number_of_targets: u64,
    /// Limiter rate, in permits per second.
    pub rate: u32,
}

/// Settles a run of `config`: the drivers, the number of probes and the
/// probe rate. A driver error comes first, then a probe count beyond `u64`,
/// then the rate's errors.
pub fn plan_scan(config: &Config) -> (r: Result<ScanPlan, ConfigError>)
    ensures
        r matches Ok(plan) ==> {
            &&& forall|i: int|
                0 <= i < config.scan_type@.len() ==> build_ok(#[trigger] config.scan_type@[i], config)
            &&& plan.modes@.len() == config.scan_type@.len()
            &&& forall|i: int|
                0 <= i < plan.modes@.len() ==> (#[trigger] plan.modes@[i]).kind()
                    == config.scan_type@[i] && built_from(plan.modes@[i], config)
            &&& plan.number_of_targets == config.targets@.len() * config.ports@.len()
                * config.scan_type@.len()
            &&& rate_source(config) is Ok
            &&& rate_result(
                rate_source(config)->Ok_0,
                distinct_hosts(config),
                plan.number_of_targets as nat,
            ) == Ok::<u32, ConfigError>(plan.rate)
        },
        r is Err ==> {
            ||| exists|j: int|
                0 <= j < config.scan_type@.len() && !build_ok(#[trigger] config.scan_type@[j], config)
                    && r->Err_0 == build_error(config.scan_type@[j])
            ||| r->Err_0 == ConfigError::TooManyTargets && config.targets@.len() * config.ports@.len()
                * config.scan_type@.len() > u64::MAX
            ||| rate_source(config) == Err::<RateSource, ConfigError>(r->Err_0)
            ||| rate_source(config) is Ok && config.targets@.len() * config.ports@.len()
                * config.scan_type@.len() <= u64::MAX && rate_result(
                rate_source(config)->Ok_0,
                distinct_hosts(config),
                (config.targets@.len() * config.ports@.len() * config.scan_type@.len()) as nat,
            ) == Err::<u32, ConfigError>(r->Err_0)
        },
        ({
            &&& forall|i: int|
                0 <= i < config.scan_type@.len() ==> build_ok(#[trigger] config.scan_type@[i], config)
            &&& config.targets@.len() * config.ports@.len() * config.scan_type@.len() <= u64::MAX
            &&& rate_source(config) is Ok
            &&& rate_result(
                rate_source(config)->Ok_0,
                distinct_hosts(config),
                (config.targets@.len() * config.ports@.len() * config.scan_type@.len()) as nat,
            ) is Ok
        }) ==> r is Ok,
{
    let modes = match build_modes(config) {
        Ok(m) => m,
        Err(e) => {
            return Err(e);
        },
    };
    let number_of_targets = match total_targets(config.targets.len(), config.ports.len(), modes.len()) {
        Some(n) => n,
        None => {
            return Err(ConfigError::TooManyTargets);
        },
    };
    match compute_ratelimit(config, number_of_targets) {
        Ok(rate) => Ok(ScanPlan { modes, number_of_targets, rate }),
        Err(e) => Err(e),
    }
}

} // verus!
