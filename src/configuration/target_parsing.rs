//! Host lists.
use vstd::prelude::*;

use crate::configuration::{file_path_of, list_items, split_list};
use crate::text::{chars_of, find_char, find_char_in, trim, trim_bounds};

verus! {

/// The text of each string of `v`, in order.
pub open spec fn texts(v: Seq<String>) -> Seq<Seq<char>> {
    v.map_values(|s: String| s@)
}

/// Every address of the network written `text` in CIDR notation, in order,
/// as text.
pub uninterp spec fn network_hosts(text: Seq<char>) -> Option<Seq<Seq<char>>>;

/// Family (`true` for IPv4) and prefix length of the network written `text`
/// in CIDR notation.
pub uninterp spec fn network_shape(text: Seq<char>) -> Option<(bool, u8)>;

/// Relies on ipnetwork's `IpNetwork` parsing (`FromStr`), `is_ipv4` and
/// `prefix`: whether `text` is a network, and which family and prefix
/// length it has; the result depends on the text alone.
#[verifier::external_body]
fn network_kind(text: &str) -> (r: Option<(bool, u8)>)
    ensures
        r == network_shape(text@),
{
    text.parse::<ipnetwork::IpNetwork>().ok().map(|n| (n.is_ipv4(), n.prefix()))
}

/// A well-formed network other than the whole IPv4 space, whose address
/// count ipnetwork cannot compute.
pub open spec fn listable(text: Seq<char>) -> bool {
    network_shape(text) matches Some(shape) && !(shape.0 && shape.1 == 0)
}

/// Relies on ipnetwork's `IpNetwork` parsing (`FromStr`) and `iter`: reads an
/// IPv4 or IPv6 network in CIDR notation and lists each of its addresses;
/// the result depends on the text alone. Parsing is the same as in
/// `network_kind`. An IPv4 network of prefix 0 is left out: `iter` overflows
/// computing its size.
#[verifier::external_body]
fn network_addresses(text: &str) -> (r: Option<Vec<String>>)
    requires
        network_shape(text@) matches Some(shape) ==> !(shape.0 && shape.1 == 0),
    ensures
        r is Some <==> network_shape(text@) is Some,
        match r {
            Some(v) => network_hosts(text@) == Some(texts(v@)),
            None => network_hosts(text@) is None,
        },
{
    text.parse::<ipnetwork::IpNetwork>().ok().map(|n| n.iter().map(|ip| ip.to_string()).collect())
}

/// Relies on dns_lookup::lookup_host: asks the system resolver for the
/// addresses of a host name or address; the answer depends on the network,
/// so nothing is promised of it.
#[verifier::external_body]
fn resolve_host(name: &str) -> (r: Option<Vec<String>>) {
    dns_lookup::lookup_host(name).ok().map(|a| a.iter().map(|ip| ip.to_string()).collect())
}

/// The item is written in CIDR notation.
pub open spec fn is_network(item: Seq<char>) -> bool {
    find_char(item, '/') is Some
}

/// The addresses `item` stands for: a network's addresses, or for a host
/// what the resolver `answer`ed; `None` when there are none to be had.
pub open spec fn item_addresses(item: Seq<char>, answer: Option<Seq<Seq<char>>>) -> Option<
    Seq<Seq<char>>,
> {
    if is_network(item) {
        if listable(item) {
            network_hosts(item)
        } else {
            None
        }
    } else {
        answer
    }
}

/// The error for an item that stands for no addresses.
pub open spec fn item_error(item: Seq<char>) -> Seq<char> {
    if is_network(item) {
        if network_shape(item) is None {
            "Invalid CIDR notation '"@ + item + "'"@
        } else {
            "Network too large '"@ + item + "'"@
        }
    } else {
        "Failed to lookup host '"@ + item + "'"@
    }
}

/// The addresses of `items` in order, given the resolver's answer for each
/// item at the same index; the error of the first item without addresses.
pub open spec fn expansion(items: Seq<Seq<char>>, answers: Seq<Option<Seq<Seq<char>>>>) -> Result<
    Seq<Seq<char>>,
    Seq<char>,
>
    decreases items.len(),
{
    if items.len() == 0 {
        Ok(Seq::empty())
    } else {
        match expansion(items.drop_last(), answers) {
            Err(e) => Err(e),
            Ok(a) => match item_addresses(items.last(), answers[items.len() - 1]) {
                Some(b) => Ok(a + b),
                None => Err(item_error(items.last())),
            },
        }
    }
}

/// The text of the resolver's answer.
pub open spec fn answer_texts(answer: Option<Vec<String>>) -> Option<Seq<Seq<char>>> {
    match answer {
        Some(l) => Some(texts(l@)),
        None => None,
    }
}

/// The text of each list of `lists`, in order.
pub open spec fn lists_texts(lists: Seq<Vec<String>>) -> Seq<Seq<Seq<char>>> {
    lists.map_values(|l: Vec<String>| texts(l@))
}

proof fn lemma_expansion_answers(
    items: Seq<Seq<char>>,
    a1: Seq<Option<Seq<Seq<char>>>>,
    a2: Seq<Option<Seq<Seq<char>>>>,
)
    requires
        forall|k: int| 0 <= k < items.len() && !is_network(#[trigger] items[k]) ==> a1[k] == a2[k],
    ensures
        expansion(items, a1) == expansion(items, a2),
    decreases items.len(),
{
    if items.len() > 0 {
        let rest = items.drop_last();
        assert forall|k: int| 0 <= k < rest.len() && !is_network(#[trigger] rest[k]) implies a1[k]
            == a2[k] by {
            assert(rest[k] == items[k]);
        }
        lemma_expansion_answers(rest, a1, a2);
    }
}

proof fn lemma_expansion_err(items: Seq<Seq<char>>, answers: Seq<Option<Seq<Seq<char>>>>, j: int)
    requires
        0 <= j <= items.len(),
        expansion(items.take(j), answers) is Err,
    ensures
        expansion(items, answers) == expansion(items.take(j), answers),
    decreases items.len(),
{
    if j == items.len() {
        assert(items.take(j) =~= items);
    } else {
        assert(items.drop_last().take(j) =~= items.take(j));
        lemma_expansion_err(items.drop_last(), answers, j);
    }
}

/// The item is written in CIDR notation.
fn is_network_item(item: &str) -> (r: bool)
    ensures
        r == is_network(item@),
{
    let c = chars_of(item);
    proof {
        assert(c@.subrange(0, c@.len() as int) =~= item@);
    }
    find_char_in(&c, 0, c.len(), '/').is_some()
}

/// The addresses of one target item, given the resolver's `answer` for it
/// (looked at for host items only): a network is expanded to its
/// addresses, a host takes the answer; an error names the item.
pub fn item_expansion(item: &str, answer: Option<Vec<String>>) -> (r: Result<Vec<String>, String>)
    ensures
        match item_addresses(item@, answer_texts(answer)) {
            Some(a) => r matches Ok(l) && texts(l@) == a,
            None => r matches Err(e) && e@ == item_error(item@),
        },
{
    if is_network_item(item) {
        let kind = network_kind(item);
        let (v4, prefix) = match kind {
            Some(k) => k,
            None => {
                let mut msg = String::from_str("Invalid CIDR notation '");
                msg.append(item);
                msg.append("'");
                return Err(msg);
            },
        };
        if v4 && prefix == 0 {
            let mut msg = String::from_str("Network too large '");
            msg.append(item);
            msg.append("'");
            return Err(msg);
        }
        match network_addresses(item) {
            Some(l) => Ok(l),
            None => {
                let mut msg = String::from_str("Invalid CIDR notation '");
                msg.append(item);
                msg.append("'");
                Err(msg)
            },
        }
    } else {
        match answer {
            Some(l) => Ok(l),
            None => {
                let mut msg = String::from_str("Failed to lookup host '");
                msg.append(item);
                msg.append("'");
                Err(msg)
            },
        }
    }
}

/// The lists of `lists` one after the other.
pub fn concat_addresses(lists: &Vec<Vec<String>>) -> (r: Vec<String>)
    ensures
        texts(r@) == lists_texts(lists@).flatten(),
{
    let mut r: Vec<String> = Vec::new();
    let mut i: usize = 0;
    proof {
        assert(lists_texts(lists@).take(0) =~= Seq::<Seq<Seq<char>>>::empty());
        assert(texts(r@) =~= Seq::<Seq<char>>::empty());
    }
    while i < lists.len()
        invariant
            i <= lists@.len(),
            texts(r@) == lists_texts(lists@).take(i as int).flatten(),
        decreases lists@.len() - i,
    {
        let ghost prev = texts(r@);
        let ghost list = texts(lists@[i as int]@);
        let mut k: usize = 0;
        while k < lists[i].len()
            invariant
                i < lists@.len(),
                list == texts(lists@[i as int]@),
                k <= list.len(),
                texts(r@) == prev + list.take(k as int),
            decreases list.len() - k,
        {
            let address = lists[i][k].clone();
            let ghost before = r@;
            r.push(address);
            k = k + 1;
            proof {
                assert(texts(r@) =~= texts(before).push(address@));
                assert(list.take(k as int) =~= list.take(k as int - 1).push(address@));
            }
        }
        proof {
            assert(list.take(k as int) =~= list);
            let t = lists_texts(lists@);
            assert(t.take(i as int + 1) =~= t.take(i as int).push(list));
            t.take(i as int).lemma_flatten_push(list);
        }
        i = i + 1;
    }
    proof {
        assert(lists_texts(lists@).take(i as int) =~= lists_texts(lists@));
    }
    r
}

/// Reads an inline target list such as `10.0.0.0/30, scanme.example`: each
/// trimmed comma-separated item is a network in CIDR notation, expanded to
/// its addresses, or a host, resolved to its addresses. Whatever the
/// resolver answers, the result is `expansion` of the items for some
/// answers: the addresses in item order, or the error of the first item
/// without addresses (a malformed or whole-IPv4 network, or a failed
/// lookup). An argument that holds only whitespace is an error too.
pub fn parse_target_input(s: &str) -> (r: Result<TargetList, String>)
    requires
        file_path_of(s@) is None,
    ensures
        trim(s@).len() == 0 ==> (r matches Err(e) && e@ == "No target specified"@),
        trim(s@).len() > 0 ==> exists|answers: Seq<Option<Seq<Seq<char>>>>|
            answers.len() == list_items(s@).len() && #[trigger] expansion(list_items(s@), answers)
                == match r {
                Ok(l) => Ok::<Seq<Seq<char>>, Seq<char>>(l@),
                Err(e) => Err(e@),
            },
        trim(s@).len() > 0 && (forall|i: int|
            0 <= i < list_items(s@).len() ==> is_network(#[trigger] list_items(s@)[i]))
            ==> expansion(list_items(s@), Seq::new(list_items(s@).len(), |k: int| None)) == match r {
            Ok(l) => Ok::<Seq<Seq<char>>, Seq<char>>(l@),
            Err(e) => Err(e@),
        },
{
    let v = chars_of(s);
    let (a, b) = trim_bounds(&v, 0, v.len());
    proof {
        assert(v@.subrange(0, v@.len() as int) =~= s@);
    }
    if a == b {
        return Err(String::from_str("No target specified"));
    }
    let items = split_list(s);
    let ghost all = list_items(s@);
    let ghost mut answers: Seq<Option<Seq<Seq<char>>>> = Seq::empty();
    let mut lists: Vec<Vec<String>> = Vec::new();
    let mut i: usize = 0;
    proof {
        assert(all.take(0) =~= Seq::<Seq<char>>::empty());
        assert(lists_texts(lists@) =~= Seq::<Seq<Seq<char>>>::empty());
    }
    while i < items.len()
        invariant
            texts(items@) == all,
            all == list_items(s@),
            trim(s@).len() > 0,
            i <= items@.len(),
            answers.len() == i,
            lists@.len() == i,
            expansion(all.take(i as int), answers) == Ok::<Seq<Seq<char>>, Seq<char>>(
                lists_texts(lists@).flatten(),
            ),
        decreases items@.len() - i,
    {
        let item = items[i].as_str();
        proof {
            assert(all[i as int] == item@);
        }
        let answer = if is_network_item(item) {
            None
        } else {
            resolve_host(item)
        };
        let ghost seen = answer_texts(answer);
        let ghost old_answers = answers;
        proof {
            answers = answers.push(seen);
            let t = all.take(i as int + 1);
            assert(t.drop_last() =~= all.take(i as int));
            lemma_expansion_answers(all.take(i as int), old_answers, answers);
        }
        match item_expansion(item, answer) {
            Ok(l) => {
                let ghost before = lists@;
                lists.push(l);
                proof {
                    assert(lists_texts(lists@) =~= lists_texts(before).push(texts(l@)));
                    lists_texts(before).lemma_flatten_push(texts(l@));
                }
            },
            Err(e) => {
                proof {
                    let full = answers + Seq::new((all.len() - answers.len()) as nat, |k: int| None);
                    lemma_expansion_answers(all.take(i as int + 1), answers, full);
                    lemma_expansion_err(all, full, i as int + 1);
                    assert(expansion(all, full) == Err::<Seq<Seq<char>>, Seq<char>>(e@));
                    all_networks_case(all, full);
                }
                return Err(e);
            },
        }
        i = i + 1;
    }
    let targets = concat_addresses(&lists);
    proof {
        assert(all.take(i as int) =~= all);
        assert(expansion(all, answers) == Ok::<Seq<Seq<char>>, Seq<char>>(texts(targets@)));
        all_networks_case(all, answers);
    }
    Ok(TargetList { targets })
}

/// With network items only, the resolver's answers play no part.
proof fn all_networks_case(items: Seq<Seq<char>>, answers: Seq<Option<Seq<Seq<char>>>>)
    ensures
        (forall|i: int| 0 <= i < items.len() ==> is_network(#[trigger] items[i])) ==> expansion(
            items,
            Seq::new(items.len(), |k: int| None),
        ) == expansion(items, answers),
{
    if forall|i: int| 0 <= i < items.len() ==> is_network(#[trigger] items[i]) {
        lemma_expansion_answers(items, Seq::new(items.len(), |k: int| None), answers);
    }
}

/// An ordered list of hosts to scan.
#[derive(Debug, Clone)]
pub struct TargetList {
    pub targets: Vec<String>,
}

impl View for TargetList {
    type V = Seq<Seq<char>>;

    open spec fn view(&self) -> Seq<Seq<char>> {
        texts(self.targets@)
    }
}

impl TargetList {
    pub fn len(&self) -> (r: usize)
        ensures
            r == self@.len(),
    {
        self.targets.len()
    }

    pub fn vec(&self) -> (r: Vec<String>)
        ensures
            texts(r@) == self@,
    {
        let r = self.targets.clone();
        proof {
            assert(texts(r@) =~= self@);
        }
        r
    }
}

} // verus!
