//! Target enumeration: the (host, port) pairs of a scan, in strategy order,
//! produced lazily.
use vstd::prelude::*;

pub mod host_first;
pub mod round_robin;

use crate::configuration::target_parsing::texts;
use crate::configuration::{PortList, ScanStrategy, TargetList};
use crate::modes::Target;

verus! {

/// The pairs of one host with every port, in port order.
pub open spec fn host_row(host: Seq<char>, ports: Seq<u16>) -> Seq<(Seq<char>, u16)> {
    ports.map_values(|p: u16| (host, p))
}

/// The pairs of every host with one port, in host order.
pub open spec fn port_column(hosts: Seq<Seq<char>>, port: u16) -> Seq<(Seq<char>, u16)> {
    hosts.map_values(|h: Seq<char>| (h, port))
}

/// Host-first order: for each host in turn, all ports.
pub open spec fn host_first_order(hosts: Seq<Seq<char>>, ports: Seq<u16>) -> Seq<(Seq<char>, u16)> {
    hosts.flat_map(|h: Seq<char>| host_row(h, ports))
}

/// Round-robin order: for each port in turn, all hosts.
pub open spec fn round_robin_order(hosts: Seq<Seq<char>>, ports: Seq<u16>) -> Seq<(Seq<char>, u16)> {
    ports.flat_map(|p: u16| port_column(hosts, p))
}

/// The full target sequence of a scan over `hosts` and `ports`.
pub open spec fn enumerate(hosts: Seq<Seq<char>>, ports: Seq<u16>, strategy: ScanStrategy) -> Seq<
    (Seq<char>, u16),
> {
    match strategy {
        ScanStrategy::HostFirst => host_first_order(hosts, ports),
        ScanStrategy::RoundRobin => round_robin_order(hosts, ports),
    }
}

/// Flattening the first `o` rows gives a prefix of flattening them all.
proof fn lemma_flat_map_take_prefix<A, B>(s: Seq<A>, f: spec_fn(A) -> Seq<B>, o: int)
    requires
        0 <= o <= s.len(),
    ensures
        s.take(o).flat_map(f).is_prefix_of(s.flat_map(f)),
    decreases s.len() - o,
{
    if o == s.len() {
        assert(s.take(o) =~= s);
    } else {
        lemma_flat_map_take_prefix(s, f, o + 1);
        s.lemma_flat_map_take_append(f, o);
        let a = s.take(o).flat_map(f);
        let b = s.take(o + 1).flat_map(f);
        let c = s.flat_map(f);
        assert(a =~= c.subrange(0, a.len() as int)) by {
            assert forall|k: int| 0 <= k < a.len() implies a[k] == c[k] by {
                assert(b[k] == a[k]);
                assert(c[k] == b[k]);
            }
        }
    }
}

/// Flattening all rows before row `o`, then the first `i + 1` items of row
/// `o`, gives a prefix of flattening every row.
proof fn lemma_flat_map_step<A, B>(s: Seq<A>, f: spec_fn(A) -> Seq<B>, o: int, i: int)
    requires
        0 <= o < s.len(),
        0 <= i < f(s[o]).len(),
    ensures
        (s.take(o).flat_map(f) + f(s[o]).take(i + 1)) =~= (s.take(o).flat_map(f) + f(s[o]).take(
            i,
        )).push(f(s[o])[i]),
        (s.take(o).flat_map(f) + f(s[o]).take(i + 1)).is_prefix_of(s.flat_map(f)),
{
    lemma_flat_map_take_prefix(s, f, o + 1);
    s.lemma_flat_map_take_append(f, o);
    let a = s.take(o).flat_map(f);
    let p = a + f(s[o]).take(i + 1);
    let b = s.take(o + 1).flat_map(f);
    let c = s.flat_map(f);
    assert forall|k: int| 0 <= k < p.len() implies p[k] == c[k] by {
        assert(p[k] == b[k]);
        assert(c[k] == b[k]);
    }
    assert(p =~= c.subrange(0, p.len() as int));
}

/// A lazily produced target sequence: hands out one target per call of
/// `next`, without building the whole cross product.
pub struct TargetSequence<'a> {
    hosts: &'a Vec<String>,
    ports: &'a Vec<u16>,
    strategy: ScanStrategy,
    outer: usize,
    inner: usize,
}

impl<'a> TargetSequence<'a> {
    /// The hosts the sequence runs over.
    pub closed spec fn hosts(&self) -> Seq<Seq<char>> {
        texts(self.hosts@)
    }

    /// The ports the sequence runs over.
    pub closed spec fn ports(&self) -> Seq<u16> {
        self.ports@
    }

    pub closed spec fn strategy(&self) -> ScanStrategy {
        self.strategy
    }

    /// Every target of the sequence, from the first to the last.
    pub open spec fn targets(&self) -> Seq<(Seq<char>, u16)> {
        enumerate(self.hosts(), self.ports(), self.strategy())
    }

    spec fn outer_len(&self) -> int {
        match self.strategy {
            ScanStrategy::HostFirst => self.hosts@.len() as int,
            ScanStrategy::RoundRobin => self.ports@.len() as int,
        }
    }

    spec fn inner_len(&self) -> int {
        match self.strategy {
            ScanStrategy::HostFirst => self.ports@.len() as int,
            ScanStrategy::RoundRobin => self.hosts@.len() as int,
        }
    }

    spec fn row(&self, o: int) -> Seq<(Seq<char>, u16)> {
        match self.strategy {
            ScanStrategy::HostFirst => host_row(self.hosts()[o], self.ports()),
            ScanStrategy::RoundRobin => port_column(self.hosts(), self.ports()[o]),
        }
    }

    spec fn rows_before(&self, o: int) -> Seq<(Seq<char>, u16)> {
        match self.strategy {
            ScanStrategy::HostFirst => host_first_order(self.hosts().take(o), self.ports()),
            ScanStrategy::RoundRobin => round_robin_order(self.hosts(), self.ports().take(o)),
        }
    }

    /// The targets handed out so far.
    pub closed spec fn produced(&self) -> Seq<(Seq<char>, u16)> {
        if self.outer < self.outer_len() {
            self.rows_before(self.outer as int) + self.row(self.outer as int).take(
                self.inner as int,
            )
        } else {
            self.targets()
        }
    }

    /// How many targets have been handed out.
    pub open spec fn position(&self) -> int {
        self.produced().len() as int
    }

    pub closed spec fn wf(&self) -> bool {
        &&& self.produced().is_prefix_of(self.targets())
        &&& (self.outer < self.outer_len() && self.inner < self.inner_len()) || (self.outer
            == self.outer_len() && self.inner == 0)
    }

    /// Starts the sequence of `hosts` × `ports` in `strategy` order.
    pub fn new(hosts: &'a Vec<String>, ports: &'a Vec<u16>, strategy: ScanStrategy) -> (r:
        TargetSequence<'a>)
        ensures
            r.wf(),
            r.hosts() == texts(hosts@),
            r.ports() == ports@,
            r.strategy() == strategy,
            r.position() == 0,
    {
        let (outer_len, inner_len) = match strategy {
            ScanStrategy::HostFirst => (hosts.len(), ports.len()),
            ScanStrategy::RoundRobin => (ports.len(), hosts.len()),
        };
        let outer = if inner_len == 0 {
            outer_len
        } else {
            0
        };
        let r = TargetSequence { hosts, ports, strategy, outer, inner: 0 };
        proof {
            if outer == 0 && outer_len > 0 {
                assert(r.hosts().take(0) =~= Seq::empty());
                assert(r.ports().take(0) =~= Seq::empty());
                assert(r.row(0).take(0) =~= Seq::empty());
                assert(r.produced() =~= Seq::empty());
            } else {
                match strategy {
                    ScanStrategy::HostFirst => {
                        lemma_flat_map_empty_rows(r.hosts(), |h: Seq<char>| host_row(h, r.ports()));
                    },
                    ScanStrategy::RoundRobin => {
                        lemma_flat_map_empty_rows(r.ports(), |p: u16| port_column(r.hosts(), p));
                    },
                }
            }
        }
        r
    }

    /// Hands out the next target, or `None` once every target was handed out.
    pub fn next(&mut self) -> (r: Option<Target>)
        requires
            old(self).wf(),
        ensures
            final(self).wf(),
            final(self).hosts() == old(self).hosts(),
            final(self).ports() == old(self).ports(),
            final(self).strategy() == old(self).strategy(),
            old(self).position() < old(self).targets().len() ==> {
                &&& r is Some
                &&& r->Some_0@ == old(self).targets()[old(self).position()]
                &&& final(self).position() == old(self).position() + 1
            },
            old(self).position() >= old(self).targets().len() ==> {
                &&& r is None
                &&& final(self).position() == old(self).position()
            },
    {
        let outer_len = match self.strategy {
            ScanStrategy::HostFirst => self.hosts.len(),
            ScanStrategy::RoundRobin => self.ports.len(),
        };
        if self.outer >= outer_len {
            return None;
        }
        let (h, p) = match self.strategy {
            ScanStrategy::HostFirst => (self.outer, self.inner),
            ScanStrategy::RoundRobin => (self.inner, self.outer),
        };
        let t = Target { ip: self.hosts[h].clone(), port: self.ports[p] };
        let ghost o = self.outer as int;
        let ghost i = self.inner as int;
        let ghost before = self.produced();
        let ghost row = self.row(o);
        proof {
            self.lemma_rows(o);
            self.lemma_row_step(o, i);
            assert(row[i] == t@);
            let nxt = before.push(t@);
            assert(nxt.is_prefix_of(self.targets()));
            assert(self.targets()[before.len() as int] == nxt[before.len() as int]);
        }
        let inner_len = match self.strategy {
            ScanStrategy::HostFirst => self.ports.len(),
            ScanStrategy::RoundRobin => self.hosts.len(),
        };
        if self.inner + 1 < inner_len {
            self.inner = self.inner + 1;
        } else {
            self.outer = self.outer + 1;
            self.inner = 0;
        }
        proof {
            self.lemma_rows(o);
            if self.outer as int == o {
                assert(self.produced() =~= before.push(t@));
            } else {
                assert(row.take(i + 1) =~= row);
                if o + 1 == self.outer_len() {
                    self.lemma_rows_all();
                } else {
                    assert(self.row(o + 1).take(0) =~= Seq::empty());
                }
                assert(self.produced() =~= before.push(t@));
            }
        }
        Some(t)
    }

    proof fn lemma_rows(&self, o: int)
        requires
            0 <= o < self.outer_len(),
        ensures
            self.rows_before(o + 1) == self.rows_before(o) + self.row(o),
            self.row(o).len() == self.inner_len(),
    {
        match self.strategy {
            ScanStrategy::HostFirst => {
                let f = |x: Seq<char>| host_row(x, self.ports());
                self.hosts().lemma_flat_map_take_append(f, o);
            },
            ScanStrategy::RoundRobin => {
                let f = |x: u16| port_column(self.hosts(), x);
                self.ports().lemma_flat_map_take_append(f, o);
            },
        }
    }

    proof fn lemma_rows_all(&self)
        ensures
            self.rows_before(self.outer_len()) == self.targets(),
    {
        match self.strategy {
            ScanStrategy::HostFirst => {
                assert(self.hosts().take(self.outer_len()) =~= self.hosts());
            },
            ScanStrategy::RoundRobin => {
                assert(self.ports().take(self.outer_len()) =~= self.ports());
            },
        }
    }

    proof fn lemma_row_step(&self, o: int, i: int)
        requires
            0 <= o < self.outer_len(),
            0 <= i < self.inner_len(),
        ensures
            (self.rows_before(o) + self.row(o).take(i + 1)) =~= (self.rows_before(o) + self.row(
                o,
            ).take(i)).push(self.row(o)[i]),
            (self.rows_before(o) + self.row(o).take(i + 1)).is_prefix_of(self.targets()),
    {
        match self.strategy {
            ScanStrategy::HostFirst => {
                let f = |x: Seq<char>| host_row(x, self.ports());
                lemma_flat_map_step(self.hosts(), f, o, i);
            },
            ScanStrategy::RoundRobin => {
                let f = |x: u16| port_column(self.hosts(), x);
                lemma_flat_map_step(self.ports(), f, o, i);
            },
        }
    }
}

/// Flattening rows that are all empty gives the empty sequence.
proof fn lemma_flat_map_empty_rows<A, B>(s: Seq<A>, f: spec_fn(A) -> Seq<B>)
    requires
        forall|k: int| 0 <= k < s.len() ==> f(#[trigger] s[k]).len() == 0,
    ensures
        s.flat_map(f).len() == 0,
    decreases s.len(),
{
    if s.len() > 0 {
        let t = s.drop_last();
        assert forall|k: int| 0 <= k < t.len() implies f(#[trigger] t[k]).len() == 0 by {
            assert(t[k] == s[k]);
        }
        lemma_flat_map_empty_rows(t, f);
        t.lemma_flat_map_push(f, s.last());
        assert(t.push(s.last()) =~= s);
    }
}

} // verus!

verus! {

/// A strategy that orders the targets of a scan.
pub trait ScanStrategyTrait {
    /// The order this strategy produces.
    spec fn order(&self) -> ScanStrategy;

    /// The targets `hosts` × `ports`, lazily, in this strategy's order.
    fn create_targets<'a>(&'a self, hosts: &'a TargetList, ports: &'a PortList) -> (r:
        TargetSequence<'a>)
        ensures
            r.wf(),
            r.position() == 0,
            r.targets() == enumerate(hosts@, ports@, self.order()),
    ;
}

impl ScanStrategyTrait for ScanStrategy {
    open spec fn order(&self) -> ScanStrategy {
        *self
    }

    fn create_targets<'a>(&'a self, hosts: &'a TargetList, ports: &'a PortList) -> (r:
        TargetSequence<'a>)
    {
        TargetSequence::new(&hosts.targets, &ports.ports, *self)
    }
}

/// Both orders hold `|hosts| · |ports|` targets, and the same ones: only the
/// order differs.
pub proof fn lemma_strategies_same_targets(hosts: Seq<Seq<char>>, ports: Seq<u16>)
    ensures
        enumerate(hosts, ports, ScanStrategy::HostFirst).len() == hosts.len() * ports.len(),
        enumerate(hosts, ports, ScanStrategy::RoundRobin).len() == hosts.len() * ports.len(),
        enumerate(hosts, ports, ScanStrategy::HostFirst).to_multiset() == enumerate(
            hosts,
            ports,
            ScanStrategy::RoundRobin,
        ).to_multiset(),
    decreases hosts.len(),
{
    broadcast use vstd::seq_lib::lemma_multiset_commutative;

    let hf = host_first_order(hosts, ports);
    let rr = round_robin_order(hosts, ports);
    if hosts.len() == 0 {
        assert(hosts =~= Seq::<Seq<char>>::empty());
        lemma_flat_map_empty_rows(hosts, |h: Seq<char>| host_row(h, ports));
        lemma_flat_map_empty_rows(ports, |p: u16| port_column(hosts, p));
        assert(hf =~= rr);
    } else {
        let rest = hosts.drop_last();
        let h = hosts.last();
        assert(rest.push(h) =~= hosts);
        lemma_strategies_same_targets(rest, ports);
        rest.lemma_flat_map_push(|x: Seq<char>| host_row(x, ports), h);
        lemma_round_robin_add_host(rest, h, ports);
        lemma_round_robin_len(hosts, ports);
        assert(hf.len() == rest.len() * ports.len() + ports.len());
        assert(rest.len() * ports.len() + ports.len() == hosts.len() * ports.len()) by (
        nonlinear_arith)
            requires
                rest.len() + 1 == hosts.len(),
        ;
    }
}

proof fn lemma_round_robin_len(hosts: Seq<Seq<char>>, ports: Seq<u16>)
    ensures
        round_robin_order(hosts, ports).len() == hosts.len() * ports.len(),
    decreases ports.len(),
{
    if ports.len() == 0 {
        lemma_flat_map_empty_rows(ports, |p: u16| port_column(hosts, p));
    } else {
        let rest = ports.drop_last();
        let p = ports.last();
        assert(rest.push(p) =~= ports);
        lemma_round_robin_len(hosts, rest);
        rest.lemma_flat_map_push(|x: u16| port_column(hosts, x), p);
        assert(hosts.len() * rest.len() + hosts.len() == hosts.len() * ports.len()) by (
        nonlinear_arith)
            requires
                rest.len() + 1 == ports.len(),
        ;
    }
}

proof fn lemma_round_robin_add_host(hosts: Seq<Seq<char>>, h: Seq<char>, ports: Seq<u16>)
    ensures
        round_robin_order(hosts.push(h), ports).to_multiset() =~= round_robin_order(
            hosts,
            ports,
        ).to_multiset().add(host_row(h, ports).to_multiset()),
    decreases ports.len(),
{
    broadcast use vstd::seq_lib::lemma_multiset_commutative;
    broadcast use vstd::seq::group_seq_axioms;
    broadcast use vstd::multiset::group_multiset_axioms;

    let more = hosts.push(h);
    if ports.len() == 0 {
        lemma_flat_map_empty_rows(ports, |p: u16| port_column(more, p));
        lemma_flat_map_empty_rows(ports, |p: u16| port_column(hosts, p));
        assert(round_robin_order(more, ports) =~= Seq::empty());
        assert(round_robin_order(hosts, ports) =~= Seq::empty());
        assert(host_row(h, ports) =~= Seq::empty());
        Seq::<(Seq<char>, u16)>::empty().to_multiset_ensures();
    } else {
        let rest = ports.drop_last();
        let p = ports.last();
        assert(rest.push(p) =~= ports);
        lemma_round_robin_add_host(hosts, h, rest);
        rest.lemma_flat_map_push(|x: u16| port_column(more, x), p);
        rest.lemma_flat_map_push(|x: u16| port_column(hosts, x), p);
        assert(port_column(more, p) =~= port_column(hosts, p).push((h, p)));
        assert(host_row(h, ports) =~= host_row(h, rest).push((h, p)));
        port_column(hosts, p).to_multiset_ensures();
        host_row(h, rest).to_multiset_ensures();
        let a = round_robin_order(more, rest);
        let b = round_robin_order(hosts, rest);
        let c = port_column(hosts, p);
        let r = host_row(h, rest);
        assert(round_robin_order(more, ports) == a + c.push((h, p)));
        assert(round_robin_order(hosts, ports) == b + c);
        assert(round_robin_order(more, ports).to_multiset() =~= b.to_multiset().add(
            r.to_multiset(),
        ).add(c.to_multiset().insert((h, p))));
        assert(round_robin_order(hosts, ports).to_multiset().add(
            host_row(h, ports).to_multiset(),
        ) =~= b.to_multiset().add(c.to_multiset()).add(r.to_multiset().insert((h, p))));
    }
}

} // verus!

verus! {

/// Enumeration is restartable: two sequences started on the same hosts,
/// ports and strategy hand out the same targets in the same order.
pub proof fn lemma_enumeration_restartable(
    hosts: TargetList,
    ports: PortList,
    strategy: ScanStrategy,
    first: TargetSequence,
    second: TargetSequence,
)
    requires
        first.targets() == enumerate(hosts@, ports@, strategy),
        second.targets() == enumerate(hosts@, ports@, strategy),
    ensures
        first.targets().len() == second.targets().len(),
        forall|k: int| 0 <= k < first.targets().len() ==> first.targets()[k] == second.targets()[k],
{
}

} // verus!

verus! {

proof fn lemma_flat_map_index<A, B>(s: Seq<A>, f: spec_fn(A) -> Seq<B>, m: int, i: int)
    requires
        m > 0,
        forall|k: int| 0 <= k < s.len() ==> f(#[trigger] s[k]).len() == m,
        0 <= i < s.len() * m,
    ensures
        s.flat_map(f).len() == s.len() * m,
        s.flat_map(f)[i] == f(s[i / m])[i % m],
    decreases s.len(),
{
    let rest = s.drop_last();
    let x = s.last();
    assert(rest.push(x) =~= s);
    rest.lemma_flat_map_push(f, x);
    assert forall|k: int| 0 <= k < rest.len() implies f(#[trigger] rest[k]).len() == m by {
        assert(rest[k] == s[k]);
    }
    assert(s.len() * m == rest.len() * m + m) by (nonlinear_arith)
        requires
            rest.len() + 1 == s.len(),
    ;
    if rest.len() == 0 {
        assert(rest.flat_map(f) =~= Seq::empty()) by {
            lemma_flat_map_empty_rows(rest, f);
        }
        vstd::arithmetic::div_mod::lemma_fundamental_div_mod_converse(i, m, 0, i);
    } else {
        if i < rest.len() * m {
            lemma_flat_map_index(rest, f, m, i);
            assert(i / m < rest.len()) by {
                assert(rest.len() * m - 1 == (rest.len() - 1) * m + (m - 1)) by (nonlinear_arith);
                vstd::arithmetic::div_mod::lemma_div_is_ordered(i, rest.len() * m - 1, m);
                vstd::arithmetic::div_mod::lemma_fundamental_div_mod_converse(
                    rest.len() * m - 1,
                    m,
                    rest.len() - 1,
                    m - 1,
                );
            }
            vstd::arithmetic::div_mod::lemma_div_pos_is_pos(i, m);
        } else {
            lemma_flat_map_index_len(rest, f, m);
            vstd::arithmetic::div_mod::lemma_fundamental_div_mod_converse(
                i,
                m,
                rest.len() as int,
                i - rest.len() * m,
            );
        }
    }
}

proof fn lemma_flat_map_index_len<A, B>(s: Seq<A>, f: spec_fn(A) -> Seq<B>, m: int)
    requires
        m > 0,
        forall|k: int| 0 <= k < s.len() ==> f(#[trigger] s[k]).len() == m,
    ensures
        s.flat_map(f).len() == s.len() * m,
    decreases s.len(),
{
    if s.len() == 0 {
        lemma_flat_map_empty_rows(s, f);
    } else {
        let rest = s.drop_last();
        assert(rest.push(s.last()) =~= s);
        rest.lemma_flat_map_push(f, s.last());
        assert forall|k: int| 0 <= k < rest.len() implies f(#[trigger] rest[k]).len() == m by {
            assert(rest[k] == s[k]);
        }
        lemma_flat_map_index_len(rest, f, m);
        assert(s.len() * m == rest.len() * m + m) by (nonlinear_arith)
            requires
                rest.len() + 1 == s.len(),
        ;
    }
}

/// The two orders as loops: target `i` of host-first order is host
/// `i / |ports|` on port `i % |ports|` (hosts outside, ports inside); target
/// `i` of round-robin order is host `i % |hosts|` on port `i / |hosts|`
/// (ports outside, hosts inside).
pub proof fn lemma_enumeration_order(hosts: Seq<Seq<char>>, ports: Seq<u16>, i: int)
    requires
        0 <= i < hosts.len() * ports.len(),
    ensures
        enumerate(hosts, ports, ScanStrategy::HostFirst)[i] == (
            hosts[i / ports.len() as int],
            ports[i % ports.len() as int],
        ),
        enumerate(hosts, ports, ScanStrategy::RoundRobin)[i] == (
            hosts[i % hosts.len() as int],
            ports[i / hosts.len() as int],
        ),
{
    let n = hosts.len() as int;
    let m = ports.len() as int;
    assert(n > 0 && m > 0) by (nonlinear_arith)
        requires
            0 <= i < n * m,
            n >= 0,
            m >= 0,
    ;
    lemma_flat_map_index(hosts, |h: Seq<char>| host_row(h, ports), m, i);
    assert(i < m * n) by (nonlinear_arith)
        requires
            i < n * m,
    ;
    lemma_flat_map_index(ports, |p: u16| port_column(hosts, p), n, i);
    vstd::arithmetic::div_mod::lemma_mod_pos_bound(i, m);
    vstd::arithmetic::div_mod::lemma_mod_pos_bound(i, n);
}

} // verus!
