//! Scan configuration: the knobs a scan run is started with.
use vstd::prelude::*;

pub mod port_parsing;
pub mod proxy;
pub mod target_parsing;

pub use port_parsing::PortList;
pub use proxy::{ProxyList, ProxyStrategy};
pub use target_parsing::TargetList;

use crate::configuration::target_parsing::texts;
use crate::modes::ScanTypeName;
use crate::text::{chars_of, split, split_bounds, trim, trim_bounds};

verus! {

/// Output format of a finished scan.
#[derive(Debug, Clone, Copy, PartialEq, Eq, Structural)]
pub enum FormatScan {
    NmapXml,
    Json,
    Text,
    All,
}

/// Verbosity of the scanner's log.
#[derive(Debug, Clone, Copy, PartialEq, Eq, Structural)]
pub enum LoggingLevel {
    Off,
    Trace,
    Debug,
    Info,
    Warning,
    Error,
}

/// Order in which the (host, port) pairs of a scan are produced.
#[derive(Debug, Clone, Copy, PartialEq, Eq, Structural)]
pub enum ScanStrategy {
    /// Every port of one host before the next host.
    HostFirst,
    /// Every host on one port before the next port.
    RoundRobin,
}

/// One element of a port list: a single port or an inclusive range.
#[derive(Debug, Clone, Copy, PartialEq, Eq, Structural)]
pub enum PortItem {
    Single(u16),
    Range(u16, u16),
}

/// Everything a scan run is configured with.
#[derive(Debug, Clone)]
pub struct Config {
    pub logging_level: LoggingLevel,
    pub targets: TargetList,
    pub ports: PortList,
    pub shuffle_ports: bool,
    pub proxies: Option<ProxyList>,
    pub proxy_strategy: Option<ProxyStrategy>,
    pub resume_from: Option<String>,
    pub scan_strategy: ScanStrategy,
    pub scan_type: Vec<ScanTypeName>,
    pub ratelimit: Option<u64>,
    pub ratelimit_per_host: Option<u64>,
    pub maximum_scan_time: Option<String>,
    pub max_concurrent_ports: u64,
    pub timeout: u64,
    pub disable_all: bool,
    pub disable_progress_bar: bool,
    pub disable_banner: bool,
    pub output: Option<String>,
    pub format: FormatScan,
    pub show_closed_ports: bool,
}

/// The marker that makes a list argument name a file.
pub open spec fn file_marker() -> Seq<char> {
    seq!['f', 'i', 'l', 'e', ':']
}

/// The path a list argument of the form `file:<path>` names (after
/// trimming the argument).
pub open spec fn file_path_of(s: Seq<char>) -> Option<Seq<char>> {
    let t = trim(s);
    if t.len() >= 5 && t.take(5) == file_marker() {
        Some(t.skip(5))
    } else {
        None
    }
}

/// The items of a list argument written inline: the trimmed argument split
/// at commas, each item trimmed.
pub open spec fn list_items(s: Seq<char>) -> Seq<Seq<char>> {
    split(trim(s), ',').map_values(|p: Seq<char>| trim(p))
}

/// The path of a `file:<path>` list argument, if it is one.
pub fn list_file_path(s: &str) -> (r: Option<String>)
    ensures
        match r {
            Some(p) => file_path_of(s@) == Some(p@),
            None => file_path_of(s@) is None,
        },
{
    let v = chars_of(s);
    let (a, b) = trim_bounds(&v, 0, v.len());
    proof {
        assert(v@.subrange(0, v@.len() as int) =~= s@);
    }
    if b - a >= 5 && v[a] == 'f' && v[a + 1] == 'i' && v[a + 2] == 'l' && v[a + 3] == 'e' && v[a
        + 4] == ':' {
        let p = String::from_str(s.substring_char(a + 5, b));
        proof {
            let t = v@.subrange(a as int, b as int);
            assert(t.take(5) =~= file_marker());
            assert(p@ =~= t.skip(5));
        }
        Some(p)
    } else {
        proof {
            let t = v@.subrange(a as int, b as int);
            if t.len() >= 5 && t.take(5) == file_marker() {
                assert(t.take(5)[0] == 'f' && t.take(5)[1] == 'i' && t.take(5)[2] == 'l'
                    && t.take(5)[3] == 'e' && t.take(5)[4] == ':');
            }
        }
        None
    }
}

/// The items of an inline list argument, as `list_items` says.
pub fn split_list(s: &str) -> (r: Vec<String>)
    ensures
        texts(r@) == list_items(s@),
{
    let v = chars_of(s);
    let (a, b) = trim_bounds(&v, 0, v.len());
    proof {
        assert(v@.subrange(0, v@.len() as int) =~= s@);
    }
    let trimmed = s.substring_char(a, b);
    let t = chars_of(trimmed);
    let bounds = split_bounds(&t, ',');
    let ghost items = split(t@, ',');
    let mut r: Vec<String> = Vec::new();
    let mut i: usize = 0;
    while i < bounds.len()
        invariant
            t@ == trimmed@,
            t@ == trim(s@),
            items == split(t@, ','),
            i <= bounds@.len(),
            bounds@.len() == items.len(),
            forall|j: int| 0 <= j < bounds@.len() ==> (#[trigger] bounds@[j]).0 <= bounds@[j].1 <= t@.len(),
            forall|j: int|
                0 <= j < bounds@.len() ==> t@.subrange(
                    (#[trigger] bounds@[j]).0 as int,
                    bounds@[j].1 as int,
                ) == items[j],
            texts(r@) == items.take(i as int).map_values(|p: Seq<char>| trim(p)),
        decreases bounds@.len() - i,
    {
        let (lo, hi) = bounds[i];
        let (x, y) = trim_bounds(&t, lo, hi);
        let item = String::from_str(trimmed.substring_char(x, y));
        proof {
            assert(item@ == t@.subrange(x as int, y as int));
            assert(item@ == trim(items[i as int]));
        }
        let ghost prev = r@;
        r.push(item);
        i = i + 1;
        proof {
            assert(texts(r@) =~= texts(prev).push(item@));
            assert(items.take(i as int).map_values(|p: Seq<char>| trim(p)) =~= items.take(
                i as int - 1,
            ).map_values(|p: Seq<char>| trim(p)).push(trim(items[i as int - 1])));
            assert(texts(r@) =~= items.take(i as int).map_values(|p: Seq<char>| trim(p)));
        }
    }
    proof {
        assert(items.take(i as int) =~= items);
    }
    r
}

} // verus!
