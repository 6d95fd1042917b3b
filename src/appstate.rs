//! Result aggregation: per-host open/closed ports and the scanned count.
use vstd::prelude::*;

use crate::modes::{PortStatus, Target};

verus! {

/// A port that answered conclusively. Filtered ports are not kept.
#[derive(Debug, Clone, Copy, PartialEq, Eq, Structural)]
pub enum Port {
    Open(u16),
    Closed(u16),
}

/// What a probe outcome leaves in the per-host results, if anything.
pub open spec fn retained_port(port: u16, status: PortStatus) -> Option<Port> {
    match status {
        PortStatus::Open => Some(Port::Open(port)),
        PortStatus::Closed => Some(Port::Closed(port)),
        PortStatus::Filtered => None,
    }
}

/// Abstract aggregate: one entry per host, in order of first retained
/// result, with that host's retained ports in order of recording.
pub struct AggregateView {
    pub entries: Seq<(Seq<char>, Seq<Port>)>,
    pub scanned: nat,
}

/// No host has two entries.
pub open spec fn hosts_unique(entries: Seq<(Seq<char>, Seq<Port>)>) -> bool {
    forall|i: int, j: int|
        0 <= i < entries.len() && 0 <= j < entries.len() && i != j ==> entries[i].0 != entries[j].0
}

/// Index of the entry of `host`, or -1 when it has none.
pub open spec fn find_host(entries: Seq<(Seq<char>, Seq<Port>)>, host: Seq<char>) -> int
    decreases entries.len(),
{
    if entries.len() == 0 {
        -1
    } else if entries.last().0 == host {
        entries.len() - 1
    } else {
        find_host(entries.drop_last(), host)
    }
}

/// The retained ports of `host`.
pub open spec fn ports_of(v: AggregateView, host: Seq<char>) -> Seq<Port> {
    let i = find_host(v.entries, host);
    if i >= 0 {
        v.entries[i].1
    } else {
        Seq::empty()
    }
}

/// The aggregate after recording one probe outcome.
pub open spec fn recorded(v: AggregateView, host: Seq<char>, port: u16, status: PortStatus) -> AggregateView {
    match retained_port(port, status) {
        None => AggregateView { entries: v.entries, scanned: v.scanned + 1 },
        Some(p) => {
            let i = find_host(v.entries, host);
            AggregateView {
                entries: if i >= 0 {
                    v.entries.update(i, (host, v.entries[i].1.push(p)))
                } else {
                    v.entries.push((host, seq![p]))
                },
                scanned: v.scanned + 1,
            }
        },
    }
}

proof fn lemma_find_host(entries: Seq<(Seq<char>, Seq<Port>)>, host: Seq<char>)
    ensures
        -1 <= find_host(entries, host) < entries.len(),
        find_host(entries, host) >= 0 ==> entries[find_host(entries, host)].0 == host,
        find_host(entries, host) == -1 ==> forall|j: int|
            0 <= j < entries.len() ==> entries[j].0 != host,
        hosts_unique(entries) ==> forall|j: int|
            0 <= j < entries.len() && entries[j].0 == host ==> find_host(entries, host) == j,
    decreases entries.len(),
{
    if entries.len() > 0 {
        let rest = entries.drop_last();
        lemma_find_host(rest, host);
        assert forall|j: int| 0 <= j < rest.len() implies rest[j] == entries[j] by {}
    }
}

/// Aggregated scan results. Only one writer records into it; readers take
/// copies.
#[derive(Debug, Clone)]
pub struct AppState {
    results: Vec<(String, Vec<Port>)>,
    port_scanned: u64,
}

impl View for AppState {
    type V = AggregateView;

    closed spec fn view(&self) -> AggregateView {
        AggregateView {
            entries: self.results@.map_values(|e: (String, Vec<Port>)| (e.0@, e.1@)),
            scanned: self.port_scanned as nat,
        }
    }
}

impl AppState {
    pub open spec fn wf(&self) -> bool {
        hosts_unique(self@.entries)
    }

    /// An empty aggregate.
    pub fn new() -> (r: Self)
        ensures
            r.wf(),
            r@.entries.len() == 0,
            r@.scanned == 0,
            r@ == replay(Seq::empty()),
    {
        let r = AppState { results: Vec::new(), port_scanned: 0 };
        proof {
            assert(r@.entries =~= Seq::empty());
        }
        r
    }

    /// Records one probe outcome: counts it, and keeps the port under its
    /// host unless the outcome is `Filtered`.
    pub fn add_result(&mut self, target: Target, port_status: PortStatus)
        requires
            old(self).wf(),
            old(self)@.scanned < u64::MAX,
        ensures
            final(self).wf(),
            final(self)@ == recorded(old(self)@, target.ip@, target.port, port_status),
    {
        let ghost before = self@;
        self.port_scanned = self.port_scanned + 1;
        let port = match port_status {
            PortStatus::Open => Port::Open(target.port),
            PortStatus::Closed => Port::Closed(target.port),
            PortStatus::Filtered => {
                proof {
                    assert(self@.entries =~= before.entries);
                }
                return;
            },
        };
        let mut i: usize = 0;
        while i < self.results.len()
            invariant
                i <= self.results.len(),
                self@.entries == before.entries,
                hosts_unique(before.entries),
                before == old(self)@,
                retained_port(target.port, port_status) == Some(port),
                self.port_scanned == before.scanned + 1,
                forall|j: int| 0 <= j < i ==> before.entries[j].0 != target.ip@,
            decreases self.results.len() - i,
        {
            if self.results[i].0 == target.ip {
                proof {
                    lemma_find_host(before.entries, target.ip@);
                }
                self.results[i].1.push(port);
                proof {
                    assert(self@.entries =~= before.entries.update(
                        i as int,
                        (target.ip@, before.entries[i as int].1.push(port)),
                    ));
                }
                return;
            }
            i = i + 1;
        }
        proof {
            lemma_find_host(before.entries, target.ip@);
        }
        let mut ports: Vec<Port> = Vec::new();
        ports.push(port);
        self.results.push((target.ip, ports));
        proof {
            assert(ports@ =~= seq![port]);
            assert(self@.entries =~= before.entries.push((target.ip@, seq![port])));
        }
    }

    /// Records one probe outcome like `add_result`, keeping closed ports
    /// only when `keep_closed` is set; others are counted only.
    pub fn add_result_with(&mut self, target: Target, port_status: PortStatus, keep_closed: bool)
        requires
            old(self).wf(),
            old(self)@.scanned < u64::MAX,
        ensures
            final(self).wf(),
            final(self)@ == recorded(
                old(self)@,
                target.ip@,
                target.port,
                kept_status(port_status, keep_closed),
            ),
    {
        let status = if port_status == PortStatus::Closed && !keep_closed {
            PortStatus::Filtered
        } else {
            port_status
        };
        self.add_result(target, status);
    }

    /// Records `events` in order, as that many calls of `add_result` do.
    pub fn add_results(&mut self, events: &Vec<(Target, PortStatus)>)
        requires
            old(self).wf(),
            old(self)@.scanned + events@.len() <= u64::MAX,
        ensures
            final(self).wf(),
            final(self)@ == replay_from(old(self)@, event_views(events@)),
    {
        let ghost start = self@;
        let mut i: usize = 0;
        proof {
            assert(event_views(events@).take(0) =~= Seq::<Event>::empty());
        }
        while i < events.len()
            invariant
                i <= events@.len(),
                self.wf(),
                start.scanned + events@.len() <= u64::MAX,
                self@ == replay_from(start, event_views(events@).take(i as int)),
                self@.scanned == start.scanned + i,
            decreases events@.len() - i,
        {
            let target = Target { ip: events[i].0.ip.clone(), port: events[i].0.port };
            let status = events[i].1;
            self.add_result(target, status);
            proof {
                let all = event_views(events@);
                assert(all.take(i + 1).drop_last() =~= all.take(i as int));
                assert(all.take(i + 1).last() == all[i as int]);
            }
            i = i + 1;
        }
        proof {
            assert(event_views(events@).take(i as int) =~= event_views(events@));
        }
    }

    /// How many outcomes were recorded, whatever their status.
    pub fn get_port_scanned_count(&self) -> (r: u64)
        ensures
            r == self@.scanned,
    {
        self.port_scanned
    }

    /// The per-host retained ports, in order of each host's first retained
    /// result.
    pub fn get_results(&self) -> (r: &Vec<(String, Vec<Port>)>)
        ensures
            r@.map_values(|e: (String, Vec<Port>)| (e.0@, e.1@)) == self@.entries,
    {
        &self.results
    }

    /// Direct access to the per-host entries. A caller that changes them must
    /// keep each host in one entry for the aggregate to stay well formed.
    pub fn get_results_mut(&mut self) -> (r: &mut Vec<(String, Vec<Port>)>)
        ensures
            r@.map_values(|e: (String, Vec<Port>)| (e.0@, e.1@)) == old(self)@.entries,
            final(self)@.entries == final(r)@.map_values(|e: (String, Vec<Port>)| (e.0@, e.1@)),
            final(self)@.scanned == old(self)@.scanned,
    {
        &mut self.results
    }
}

/// One recorded event: a target (host text and port) and its outcome.
pub type Event = ((Seq<char>, u16), PortStatus);

/// The aggregate after recording `events` in order into an empty one.
pub open spec fn replay(events: Seq<Event>) -> AggregateView {
    replay_from(AggregateView { entries: Seq::empty(), scanned: 0 }, events)
}

/// The aggregate after recording `events` in order into `v`.
pub open spec fn replay_from(v: AggregateView, events: Seq<Event>) -> AggregateView
    decreases events.len(),
{
    if events.len() == 0 {
        v
    } else {
        let e = events.last();
        recorded(replay_from(v, events.drop_last()), e.0.0, e.0.1, e.1)
    }
}

/// The events of `events` as targets' text and port with their outcomes.
pub open spec fn event_views(events: Seq<(Target, PortStatus)>) -> Seq<Event> {
    events.map_values(|e: (Target, PortStatus)| (e.0@, e.1))
}

/// The outcome recorded for `status` when closed ports are kept only if
/// `keep_closed` is set: a closed port that is not kept counts as filtered.
pub open spec fn kept_status(status: PortStatus, keep_closed: bool) -> PortStatus {
    if status == PortStatus::Closed && !keep_closed {
        PortStatus::Filtered
    } else {
        status
    }
}

/// The ports of `host` that `events` leave in the results, in event order:
/// every `Open` and `Closed` outcome for that host, and no `Filtered` one.
pub open spec fn retained_for(events: Seq<Event>, host: Seq<char>) -> Seq<Port>
    decreases events.len(),
{
    if events.len() == 0 {
        Seq::empty()
    } else {
        let e = events.last();
        let rest = retained_for(events.drop_last(), host);
        if e.0.0 == host {
            match retained_port(e.0.1, e.1) {
                Some(p) => rest.push(p),
                None => rest,
            }
        } else {
            rest
        }
    }
}

/// Recording one outcome keeps hosts unique and changes only the ports of
/// its own host, by appending the retained port if there is one.
pub proof fn lemma_recorded(v: AggregateView, host: Seq<char>, port: u16, status: PortStatus)
    requires
        hosts_unique(v.entries),
    ensures
        hosts_unique(recorded(v, host, port, status).entries),
        recorded(v, host, port, status).scanned == v.scanned + 1,
        forall|h: Seq<char>|
            #[trigger] ports_of(recorded(v, host, port, status), h) == if h == host {
                match retained_port(port, status) {
                    Some(p) => ports_of(v, h).push(p),
                    None => ports_of(v, h),
                }
            } else {
                ports_of(v, h)
            },
{
    let w = recorded(v, host, port, status);
    lemma_find_host(v.entries, host);
    if retained_port(port, status) is Some {
        assert(hosts_unique(w.entries));
        lemma_find_host(w.entries, host);
        assert forall|h: Seq<char>| #[trigger]
            ports_of(w, h) == if h == host {
                match retained_port(port, status) {
                    Some(p) => ports_of(v, h).push(p),
                    None => ports_of(v, h),
                }
            } else {
                ports_of(v, h)
            } by {
            lemma_find_host(v.entries, h);
            lemma_find_host(w.entries, h);
            let i = find_host(v.entries, host);
            let p = retained_port(port, status)->Some_0;
            if i >= 0 {
                assert(w.entries == v.entries.update(i, (host, v.entries[i].1.push(p))));
                if h == host {
                    assert(w.entries[i].0 == host);
                    assert(find_host(w.entries, h) == i);
                    assert(ports_of(w, h) == ports_of(v, h).push(p));
                } else {
                    let j = find_host(v.entries, h);
                    if j >= 0 {
                        assert(w.entries[j].0 == h);
                        assert(find_host(w.entries, h) == j);
                    } else {
                        assert(find_host(w.entries, h) == -1);
                    }
                    assert(ports_of(w, h) == ports_of(v, h));
                }
            } else {
                assert(w.entries == v.entries.push((host, seq![p])));
                assert(w.entries.drop_last() =~= v.entries);
                if h == host {
                    assert(Seq::<Port>::empty().push(p) =~= seq![p]);
                    assert(ports_of(w, h) == ports_of(v, h).push(p));
                } else {
                    assert(ports_of(w, h) == ports_of(v, h));
                }
            }
        }
    }
}

/// Recording any events, from any number of producers in any interleaving,
/// into an empty aggregate counts each event exactly once, and keeps for
/// each host exactly its `Open` and `Closed` outcomes in recording order;
/// `Filtered` outcomes are counted but never kept.
pub proof fn lemma_aggregate_replay(events: Seq<Event>)
    ensures
        replay(events).scanned == events.len(),
        hosts_unique(replay(events).entries),
        forall|h: Seq<char>| #[trigger] ports_of(replay(events), h) == retained_for(events, h),
    decreases events.len(),
{
    if events.len() > 0 {
        let rest = events.drop_last();
        let e = events.last();
        lemma_aggregate_replay(rest);
        lemma_recorded(replay(rest), e.0.0, e.0.1, e.1);
        assert forall|h: Seq<char>| #[trigger] ports_of(replay(events), h) == retained_for(events, h) by {
            assert(ports_of(replay(rest), h) == retained_for(rest, h));
        }
    }
}

} // verus!
