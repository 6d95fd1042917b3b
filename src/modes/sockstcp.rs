//! TCP probe tunnelled through SOCKS5 proxies, and the proxy selector.
use vstd::prelude::*;

use crate::configuration::target_parsing::texts;
use crate::configuration::{Config, ProxyList, ProxyStrategy};
use crate::modes::{ConfigError, PortStatus, ScanTypeTrait};

verus! {

/// Probe that opens a SOCKS5 CONNECT tunnel to the target.
#[derive(Debug, Clone)]
pub struct Socks5TcpScan {
    pub name: String,
    pub timeout: u64,
    pub socks5_proxies: ProxyList,
    pub proxy_strategy: ProxyStrategy,
}

/// The configuration names at least one proxy endpoint.
pub open spec fn proxies_configured(config: &Config) -> bool {
    config.proxies matches Some(l) && l@.len() > 0
}

/// How an attempt to open a tunnel to the target ended.
#[derive(Debug, Clone, Copy, PartialEq, Eq, Structural)]
pub enum TunnelOutcome {
    /// The proxy connected the tunnel to the target.
    Established,
    /// Nothing conclusive happened within the timeout.
    TimedOut,
    /// The proxy reported that the target refused the connection.
    ConnectionRefused,
    /// The proxy reported the target's network unreachable.
    NetworkUnreachable,
    /// The proxy reported the target host unreachable.
    HostUnreachable,
    /// The proxy reported that the TTL expired on the way to the target.
    TtlExpired,
    /// The proxy's rules do not allow the connection.
    NotAllowed,
    /// The proxy failed in general, could not be reached, or spoke an
    /// unexpected protocol; nothing is learnt about the target.
    ProxyFailure,
}

/// Status of a target whose tunnel attempt ended with `outcome`: a tunnel is
/// `Open`, the target's explicit refusal is `Closed`, and everything else
/// (silence, unreachability, a failing proxy) is `Filtered`.
pub open spec fn tunnel_status(outcome: TunnelOutcome) -> PortStatus {
    match outcome {
        TunnelOutcome::Established => PortStatus::Open,
        TunnelOutcome::ConnectionRefused => PortStatus::Closed,
        _ => PortStatus::Filtered,
    }
}

/// Classifies a tunnel attempt as `tunnel_status` says.
pub fn classify_tunnel(outcome: TunnelOutcome) -> (r: PortStatus)
    ensures
        r == tunnel_status(outcome),
{
    match outcome {
        TunnelOutcome::Established => PortStatus::Open,
        TunnelOutcome::ConnectionRefused => PortStatus::Closed,
        TunnelOutcome::TimedOut => PortStatus::Filtered,
        TunnelOutcome::NetworkUnreachable => PortStatus::Filtered,
        TunnelOutcome::HostUnreachable => PortStatus::Filtered,
        TunnelOutcome::TtlExpired => PortStatus::Filtered,
        TunnelOutcome::NotAllowed => PortStatus::Filtered,
        TunnelOutcome::ProxyFailure => PortStatus::Filtered,
    }
}

impl Socks5TcpScan {
    /// The proxied probe of `config`; an error when it names no proxy.
    /// Without a strategy, proxies are used in sequence.
    pub fn new(config: &Config) -> (r: Result<Self, ConfigError>)
        ensures
            proxies_configured(config) <==> r is Ok,
            r is Err ==> r->Err_0 == ConfigError::EmptyProxyList,
            r matches Ok(s) ==> {
                &&& s.name@ == "socks5 TCP connection"@
                &&& s.timeout == config.timeout
                &&& s.socks5_proxies@ == config.proxies->Some_0@
                &&& s.proxy_strategy == match config.proxy_strategy {
                    Some(p) => p,
                    None => ProxyStrategy::Sequential,
                }
            },
    {
        let proxies = match &config.proxies {
            Some(l) => l.vec(),
            None => Vec::new(),
        };
        if proxies.len() == 0 {
            return Err(ConfigError::EmptyProxyList);
        }
        let proxy_strategy = match config.proxy_strategy {
            Some(p) => p,
            None => ProxyStrategy::Sequential,
        };
        Ok(
            Socks5TcpScan {
                name: String::from_str("socks5 TCP connection"),
                timeout: config.timeout,
                socks5_proxies: ProxyList { proxies },
                proxy_strategy,
            },
        )
    }

    /// A fresh selector over this probe's proxies and strategy.
    pub fn selector(&self) -> (r: ProxySelector)
        requires
            self.socks5_proxies@.len() > 0,
        ensures
            r.wf(),
            r.proxies() == self.socks5_proxies@,
            r.strategy() == self.proxy_strategy,
            r.cursor() == 0,
            r.taken() == 0,
    {
        let r = ProxySelector {
            proxies: self.socks5_proxies.vec(),
            strategy: self.proxy_strategy,
            cursor: 0,
            taken: Ghost(0),
        };
        proof {
            vstd::arithmetic::div_mod::lemma_small_mod(0, r.proxies().len());
        }
        r
    }
}

impl ScanTypeTrait for Socks5TcpScan {
    open spec fn spec_name(&self) -> Seq<char> {
        self.name@
    }

    open spec fn spec_protocol(&self) -> Seq<char> {
        "tcp"@
    }

    fn name(&self) -> (r: &str) {
        self.name.as_str()
    }

    fn protocol(&self) -> (r: &str) {
        "tcp"
    }
}

/// Picks the proxy route of each proxied probe. Callers that share it across
/// tasks serialise `select` so that each call sees the cursor its
/// predecessor left.
pub struct ProxySelector {
    proxies: Vec<String>,
    strategy: ProxyStrategy,
    cursor: usize,
    taken: Ghost<nat>,
}

/// Relies on rand::random_range: a value of the half-open range `0..n`,
/// drawn from the thread-local generator.
#[verifier::external_body]
fn random_index(n: usize) -> (r: usize)
    requires
        n > 0,
    ensures
        r < n,
{
    rand::random_range(0..n)
}

impl ProxySelector {
    pub closed spec fn proxies(&self) -> Seq<Seq<char>> {
        texts(self.proxies@)
    }

    pub closed spec fn strategy(&self) -> ProxyStrategy {
        self.strategy
    }

    /// Index of the proxy the next sequential selection returns.
    pub closed spec fn cursor(&self) -> nat {
        self.cursor as nat
    }

    /// How many sequential selections were made: the ticket of the next one.
    pub closed spec fn taken(&self) -> nat {
        self.taken@
    }

    pub open spec fn wf(&self) -> bool {
        &&& 0 < self.proxies().len()
        &&& self.cursor() < self.proxies().len()
        &&& self.cursor() == self.taken() % self.proxies().len()
    }

    /// A selector over `list`; an error when the list is empty.
    pub fn new(list: &ProxyList, strategy: ProxyStrategy) -> (r: Result<Self, ConfigError>)
        ensures
            list@.len() > 0 <==> r is Ok,
            r is Err ==> r->Err_0 == ConfigError::EmptyProxyList,
            r matches Ok(s) ==> s.wf() && s.proxies() == list@ && s.strategy() == strategy
                && s.cursor() == 0 && s.taken() == 0,
    {
        if list.len() == 0 {
            return Err(ConfigError::EmptyProxyList);
        }
        let r = ProxySelector { proxies: list.vec(), strategy, cursor: 0, taken: Ghost(0) };
        proof {
            vstd::arithmetic::div_mod::lemma_small_mod(0, r.proxies().len());
        }
        Ok(r)
    }

    /// The proxy endpoints for the next probe, in the order the tunnel goes
    /// through them. `Sequential` gives the proxy under the cursor and moves
    /// the cursor on by one, wrapping at the end of the list; `Random` gives
    /// one proxy of the list; `Chain` gives the whole list.
    pub fn select(&mut self) -> (r: Vec<String>)
        requires
            old(self).wf(),
        ensures
            final(self).wf(),
            final(self).proxies() == old(self).proxies(),
            final(self).strategy() == old(self).strategy(),
            old(self).strategy() == ProxyStrategy::Sequential ==> sequential_step(
                *old(self),
                *final(self),
                texts(r@),
            ),
            old(self).strategy() == ProxyStrategy::Random ==> {
                &&& r@.len() == 1
                &&& old(self).proxies().contains(r@[0]@)
                &&& final(self).cursor() == old(self).cursor()
                &&& final(self).taken() == old(self).taken()
            },
            old(self).strategy() == ProxyStrategy::Chain ==> {
                &&& texts(r@) == old(self).proxies()
                &&& final(self).cursor() == old(self).cursor()
                &&& final(self).taken() == old(self).taken()
            },
    {
        let mut r: Vec<String> = Vec::new();
        match self.strategy {
            ProxyStrategy::Sequential => {
                r.push(self.proxies[self.cursor].clone());
                let ghost len = self.proxies@.len();
                proof {
                    lemma_mod_succ(self.taken@ as int, len as int);
                }
                self.taken = Ghost(self.taken@ + 1);
                if self.cursor < self.proxies.len() - 1 {
                    self.cursor = self.cursor + 1;
                    proof {
                        vstd::arithmetic::div_mod::lemma_small_mod(self.cursor as nat, len);
                    }
                } else {
                    self.cursor = 0;
                    proof {
                        vstd::arithmetic::div_mod::lemma_mod_self_0(len as int);
                    }
                }
                proof {
                    assert(texts(r@) =~= seq![old(self).proxies()[old(self).cursor() as int]]);
                }
            },
            ProxyStrategy::Random => {
                let k = random_index(self.proxies.len());
                r.push(self.proxies[k].clone());
                proof {
                    assert(self.proxies()[k as int] == r@[0]@);
                }
            },
            ProxyStrategy::Chain => {
                r = self.proxies.clone();
                proof {
                    assert(texts(r@) =~= self.proxies());
                }
            },
        }
        r
    }
}

/// One sequential selection: `before` hands out ticket `before.taken()`,
/// whose proxy is the one at that ticket modulo the list length, and
/// `after` holds the next ticket.
pub open spec fn sequential_step(before: ProxySelector, after: ProxySelector, route: Seq<Seq<char>>) -> bool {
    &&& after.proxies() == before.proxies()
    &&& after.strategy() == before.strategy()
    &&& route == seq![before.proxies()[(before.taken() % before.proxies().len()) as int]]
    &&& after.taken() == before.taken() + 1
    &&& after.cursor() == (before.cursor() + 1) % before.proxies().len()
}

proof fn lemma_mod_succ(c: int, m: int)
    requires
        c >= 0,
        m > 0,
    ensures
        ((c % m) + 1) % m == (c + 1) % m,
{
    vstd::arithmetic::div_mod::lemma_fundamental_div_mod(c, m);
    vstd::arithmetic::div_mod::lemma_mod_multiples_vanish(c / m, (c % m) + 1, m);
}

/// Sequential selections serialised through one selector, in whatever order
/// the callers reach it, hand out tickets in turn. Starting from a fresh
/// selector over `L` proxies, the `k`-th of `n` selections takes ticket `k`
/// and gets proxy `k mod L`: every ticket below `n` goes to exactly one
/// call, none twice and none skipped, and the cursor ends at `n mod L`.
pub proof fn lemma_sequential_tickets(states: Seq<ProxySelector>, routes: Seq<Seq<Seq<char>>>)
    requires
        states.len() == routes.len() + 1,
        states[0].wf(),
        states[0].taken() == 0,
        forall|k: int|
            0 <= k < routes.len() ==> sequential_step(states[k], #[trigger] states[k + 1], routes[k]),
    ensures
        forall|k: int| 0 <= k < states.len() ==> (#[trigger] states[k]).taken() == k,
        forall|k: int|
            0 <= k < states.len() ==> (#[trigger] states[k]).proxies() == states[0].proxies(),
        forall|k: int|
            0 <= k < routes.len() ==> #[trigger] routes[k] == seq![
                states[0].proxies()[k % states[0].proxies().len() as int],
            ],
        states.last().cursor() == routes.len() % states[0].proxies().len(),
    decreases routes.len(),
{
    let n = routes.len() as int;
    let len = states[0].proxies().len() as int;
    if n == 0 {
        vstd::arithmetic::div_mod::lemma_small_mod(0, len as nat);
    } else {
        let s2 = states.drop_last();
        let r2 = routes.drop_last();
        assert forall|k: int| 0 <= k < r2.len() implies sequential_step(
            s2[k],
            #[trigger] s2[k + 1],
            r2[k],
        ) by {
            assert(sequential_step(states[k], states[k + 1], routes[k]));
        }
        lemma_sequential_tickets(s2, r2);
        assert(sequential_step(states[n - 1], states[n], routes[n - 1]));
        assert forall|k: int| 0 <= k < states.len() implies (#[trigger] states[k]).taken() == k by {
            if k < n {
                assert(s2[k] == states[k]);
            }
        }
        assert forall|k: int| 0 <= k < states.len() implies (#[trigger] states[k]).proxies()
            == states[0].proxies() by {
            if k < n {
                assert(s2[k] == states[k]);
            } else {
                assert(s2[n - 1] == states[n - 1]);
            }
        }
        assert forall|k: int|
            0 <= k < routes.len() implies #[trigger] routes[k] == seq![
                states[0].proxies()[k % len],
            ] by {
            if k < n - 1 {
                assert(r2[k] == routes[k]);
            } else {
                assert(states[n - 1].proxies() == states[0].proxies());
            }
        }
        lemma_mod_succ(n - 1, len);
        assert(s2.last() == states[n - 1]);
    }
}

} // verus!
