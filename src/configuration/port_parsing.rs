//! Port lists: `80,443`, ranges such as `22-25`, in any mix.
use vstd::prelude::*;

use crate::configuration::target_parsing::texts;
use crate::text::{
    chars_of, find_char, find_char_in, parse_u16, parse_u16_in, split, split_bounds, trim,
    trim_bounds,
};

verus! {

/// The ports `a` to `b`, both included, in increasing order.
pub open spec fn port_range(a: u16, b: u16) -> Seq<u16> {
    Seq::new((b - a + 1) as nat, |i: int| (a + i) as u16)
}

/// Ports that one list item stands for: after trimming, either `a-b` with
/// `a <= b` (split at the first `-`, each side trimmed) or a single port.
pub open spec fn item_ports(item: Seq<char>) -> Option<Seq<u16>> {
    let p = trim(item);
    match find_char(p, '-') {
        Some(m) => match (
            parse_u16(trim(p.subrange(0, m as int))),
            parse_u16(trim(p.subrange(m as int + 1, p.len() as int))),
        ) {
            (Some(a), Some(b)) => if a <= b {
                Some(port_range(a, b))
            } else {
                None
            },
            _ => None,
        },
        None => match parse_u16(p) {
            Some(v) => Some(seq![v]),
            None => None,
        },
    }
}

/// Ports of every item in order; `None` when some item is no port or range.
pub open spec fn items_ports(items: Seq<Seq<char>>) -> Option<Seq<u16>>
    decreases items.len(),
{
    if items.len() == 0 {
        Some(Seq::empty())
    } else {
        match (items_ports(items.drop_last()), item_ports(items.last())) {
            (Some(a), Some(b)) => Some(a + b),
            _ => None,
        }
    }
}

/// `s` with every repeated port removed, first occurrences kept in order.
pub open spec fn dedup(s: Seq<u16>) -> Seq<u16>
    decreases s.len(),
{
    if s.len() == 0 {
        Seq::empty()
    } else if s.drop_last().contains(s.last()) {
        dedup(s.drop_last())
    } else {
        dedup(s.drop_last()).push(s.last())
    }
}

/// Ports of a comma-separated port list, without repeats.
pub open spec fn port_list(s: Seq<char>) -> Option<Seq<u16>> {
    match items_ports(split(s, ',')) {
        Some(p) => Some(dedup(p)),
        None => None,
    }
}

/// The lines of `lines` that hold more than whitespace.
pub open spec fn non_blank(lines: Seq<Seq<char>>) -> Seq<Seq<char>>
    decreases lines.len(),
{
    if lines.len() == 0 {
        Seq::empty()
    } else if trim(lines.last()).len() > 0 {
        non_blank(lines.drop_last()).push(lines.last())
    } else {
        non_blank(lines.drop_last())
    }
}

/// Ports of a port file, one item per non-blank line, without repeats.
pub open spec fn port_lines(lines: Seq<Seq<char>>) -> Option<Seq<u16>> {
    match items_ports(non_blank(lines)) {
        Some(p) => Some(dedup(p)),
        None => None,
    }
}

proof fn lemma_items_ports_step(items: Seq<Seq<char>>, i: int)
    requires
        0 <= i < items.len(),
    ensures
        items_ports(items.take(i + 1)) == match (items_ports(items.take(i)), item_ports(items[i])) {
            (Some(a), Some(b)) => Some(a + b),
            _ => None,
        },
{
    assert(items.take(i + 1).drop_last() =~= items.take(i));
}

proof fn lemma_items_ports_fail(items: Seq<Seq<char>>, i: int)
    requires
        0 <= i < items.len(),
        items_ports(items.take(i + 1)) is None,
    ensures
        items_ports(items) is None,
    decreases items.len(),
{
    if i + 1 == items.len() {
        assert(items.take(i + 1) =~= items);
    } else {
        assert(items.drop_last().take(i + 1) =~= items.take(i + 1));
        lemma_items_ports_fail(items.drop_last(), i);
    }
}

proof fn lemma_non_blank_fail(lines: Seq<Seq<char>>, j: int)
    requires
        0 <= j <= lines.len(),
        items_ports(non_blank(lines.take(j))) is None,
    ensures
        items_ports(non_blank(lines)) is None,
    decreases lines.len(),
{
    if j == lines.len() {
        assert(lines.take(j) =~= lines);
    } else {
        let rest = lines.drop_last();
        assert(rest.take(j) =~= lines.take(j));
        lemma_non_blank_fail(rest, j);
        assert(non_blank(rest).push(lines.last()).drop_last() =~= non_blank(rest));
    }
}

/// Appends the ports of the item `v[lo..hi]` to `out`; `false`, with `out`
/// unchanged, when the item is no port or range.
fn push_item_ports(v: &Vec<char>, lo: usize, hi: usize, out: &mut Vec<u16>) -> (ok: bool)
    requires
        lo <= hi <= v@.len(),
    ensures
        ok == item_ports(v@.subrange(lo as int, hi as int)) is Some,
        ok ==> final(out)@ == old(out)@ + item_ports(v@.subrange(lo as int, hi as int))->Some_0,
        !ok ==> final(out)@ == old(out)@,
{
    let ghost item = v@.subrange(lo as int, hi as int);
    let (a, b) = trim_bounds(v, lo, hi);
    let ghost p = v@.subrange(a as int, b as int);
    match find_char_in(v, a, b, '-') {
        Some(m) => {
            let (sa, sb) = trim_bounds(v, a, m);
            let (ea, eb) = trim_bounds(v, m + 1, b);
            proof {
                assert(p.subrange(0, m - a) =~= v@.subrange(a as int, m as int));
                assert(p.subrange(m - a + 1, p.len() as int) =~= v@.subrange(m + 1, b as int));
            }
            let first = parse_u16_in(v, sa, sb);
            let last = parse_u16_in(v, ea, eb);
            match (first, last) {
                (Some(x), Some(y)) => {
                    if x > y {
                        return false;
                    }
                    let ghost start = out@;
                    let mut port: u32 = x as u32;
                    while port <= y as u32
                        invariant
                            x <= y,
                            x <= port <= y as u32 + 1,
                            out@ == start + Seq::new(
                                (port - x) as nat,
                                |i: int| (x + i) as u16,
                            ),
                        decreases y as u32 + 1 - port,
                    {
                        out.push(port as u16);
                        port = port + 1;
                        proof {
                            assert(out@ =~= start + Seq::new(
                                (port - x) as nat,
                                |i: int| (x + i) as u16,
                            ));
                        }
                    }
                    proof {
                        assert(Seq::new((port - x) as nat, |i: int| (x + i) as u16) =~= port_range(
                            x,
                            y,
                        ));
                    }
                    true
                },
                _ => false,
            }
        },
        None => match parse_u16_in(v, a, b) {
            Some(x) => {
                let ghost start = out@;
                out.push(x);
                proof {
                    assert(out@ =~= start + seq![x]);
                }
                true
            },
            None => false,
        },
    }
}

/// `flat` with repeated ports removed, first occurrences kept in order.
fn dedup_ports(flat: &Vec<u16>) -> (r: Vec<u16>)
    ensures
        r@ == dedup(flat@),
{
    let mut seen: Vec<bool> = vec![false; 65536];
    let mut out: Vec<u16> = Vec::new();
    let mut k: usize = 0;
    proof {
        assert(flat@.take(0) =~= Seq::<u16>::empty());
        assert(out@ =~= dedup(flat@.take(0)));
    }
    while k < flat.len()
        invariant
            k <= flat@.len(),
            seen@.len() == 65536,
            out@ == dedup(flat@.take(k as int)),
            forall|p: int| 0 <= p < 65536 ==> #[trigger] seen@[p] == flat@.take(k as int).contains(
                p as u16,
            ),
        decreases flat@.len() - k,
    {
        let x = flat[k];
        let ghost before = flat@.take(k as int);
        let ghost after = flat@.take(k as int + 1);
        proof {
            assert(after.drop_last() =~= before);
            assert(after.last() == x);
            assert forall|p: u16| after.contains(p) <==> before.contains(p) || p == x by {
                if after.contains(p) {
                    let j = choose|j: int| 0 <= j < after.len() && after[j] == p;
                    if j < before.len() {
                        assert(before[j] == p);
                    }
                }
                if before.contains(p) {
                    let j = choose|j: int| 0 <= j < before.len() && before[j] == p;
                    assert(after[j] == p);
                }
                if p == x {
                    assert(after[k as int] == p);
                }
            }
        }
        if !seen[x as usize] {
            seen.set(x as usize, true);
            out.push(x);
        }
        k = k + 1;
    }
    proof {
        assert(flat@.take(k as int) =~= flat@);
    }
    out
}

/// Reads a comma-separated list of ports and ranges such as `80,443,8000-8010`
/// into its ports, repeats removed, first occurrences kept in order. An item
/// that is no port or range makes the whole list an error.
pub fn parse_ports_string_to_vec(s: &str) -> (r: Result<Vec<u16>, String>)
    ensures
        r is Ok <==> port_list(s@) is Some,
        r matches Ok(v) ==> v@ == port_list(s@)->Some_0,
{
    let v = chars_of(s);
    let bounds = split_bounds(&v, ',');
    let ghost items = split(v@, ',');
    let mut flat: Vec<u16> = Vec::new();
    let mut i: usize = 0;
    proof {
        assert(items.take(0) =~= Seq::<Seq<char>>::empty());
    }
    while i < bounds.len()
        invariant
            v@ == s@,
            items == split(v@, ','),
            i <= bounds@.len(),
            bounds@.len() == items.len(),
            forall|j: int| 0 <= j < bounds@.len() ==> (#[trigger] bounds@[j]).0 <= bounds@[j].1 <= v@.len(),
            forall|j: int|
                0 <= j < bounds@.len() ==> v@.subrange(
                    (#[trigger] bounds@[j]).0 as int,
                    bounds@[j].1 as int,
                ) == items[j],
            items_ports(items.take(i as int)) == Some(flat@),
        decreases bounds@.len() - i,
    {
        let (lo, hi) = bounds[i];
        proof {
            lemma_items_ports_step(items, i as int);
        }
        if !push_item_ports(&v, lo, hi, &mut flat) {
            proof {
                lemma_items_ports_fail(items, i as int);
            }
            let mut msg = String::from_str("invalid port or range: '");
            msg.append(s.substring_char(lo, hi));
            msg.append("'");
            return Err(msg);
        }
        i = i + 1;
    }
    proof {
        assert(items.take(i as int) =~= items);
    }
    Ok(dedup_ports(&flat))
}

/// Reads the lines of a port file: each line that holds more than
/// whitespace is one item of a port list.
pub fn parse_port_lines(lines: &Vec<String>) -> (r: Result<Vec<u16>, String>)
    ensures
        r is Ok <==> port_lines(texts(lines@)) is Some,
        r matches Ok(v) ==> v@ == port_lines(texts(lines@))->Some_0,
{
    let ghost all = texts(lines@);
    let mut flat: Vec<u16> = Vec::new();
    let mut i: usize = 0;
    proof {
        assert(all.take(0) =~= Seq::<Seq<char>>::empty());
    }
    while i < lines.len()
        invariant
            all == texts(lines@),
            i <= lines@.len(),
            items_ports(non_blank(all.take(i as int))) == Some(flat@),
        decreases lines@.len() - i,
    {
        let v = chars_of(lines[i].as_str());
        let ghost line = all[i as int];
        proof {
            assert(all.take(i as int + 1).drop_last() =~= all.take(i as int));
            assert(v@.subrange(0, v@.len() as int) =~= line);
        }
        let (a, b) = trim_bounds(&v, 0, v.len());
        if a < b {
            let ghost kept = non_blank(all.take(i as int));
            proof {
                assert(non_blank(all.take(i as int + 1)) == kept.push(line));
                assert(kept.push(line).drop_last() =~= kept);
            }
            if !push_item_ports(&v, 0, v.len(), &mut flat) {
                proof {
                    lemma_non_blank_fail(all, i as int + 1);
                }
                let mut msg = String::from_str("invalid port or range: '");
                msg.append(lines[i].as_str());
                msg.append("'");
                return Err(msg);
            }
        }
        i = i + 1;
    }
    proof {
        assert(all.take(i as int) =~= all);
    }
    Ok(dedup_ports(&flat))
}

/// An ordered list of ports to scan.
#[derive(Debug, Clone)]
pub struct PortList {
    pub ports: Vec<u16>,
}

impl View for PortList {
    type V = Seq<u16>;

    open spec fn view(&self) -> Seq<u16> {
        self.ports@
    }
}

impl PortList {
    pub fn len(&self) -> (r: usize)
        ensures
            r == self@.len(),
    {
        self.ports.len()
    }

    pub fn vec(&self) -> (r: Vec<u16>)
        ensures
            r@ == self@,
    {
        self.ports.clone()
    }
}

impl std::str::FromStr for PortList {
    type Err = String;

    fn from_str(s: &str) -> Result<Self, Self::Err> {
        match parse_ports_string_to_vec(s) {
            Ok(ports) => Ok(PortList { ports }),
            Err(e) => Err(e),
        }
    }
}

} // verus!
