//! Proxy endpoint lists.
use vstd::prelude::*;

use crate::configuration::target_parsing::texts;
use crate::configuration::{file_path_of, list_items, split_list};
use crate::text::{chars_of, trim, trim_bounds};

verus! {

/// An ordered list of SOCKS5 proxy endpoints.
#[derive(Debug, Clone)]
pub struct ProxyList {
    pub proxies: Vec<String>,
}

impl View for ProxyList {
    type V = Seq<Seq<char>>;

    open spec fn view(&self) -> Seq<Seq<char>> {
        texts(self.proxies@)
    }
}

impl ProxyList {
    pub fn len(&self) -> (r: usize)
        ensures
            r == self@.len(),
    {
        self.proxies.len()
    }

    pub fn vec(&self) -> (r: Vec<String>)
        ensures
            texts(r@) == self@,
    {
        let r = self.proxies.clone();
        proof {
            assert(texts(r@) =~= self@);
        }
        r
    }
}

/// Reads an inline proxy list such as `socks5://a:1080, socks5://b:1080`:
/// its trimmed comma-separated items, in order. An argument that holds only
/// whitespace is an error. Lists read from a file go through `ProxyList`'s
/// fields directly.
pub fn parse_proxy_input(s: &str) -> (r: Result<ProxyList, String>)
    requires
        file_path_of(s@) is None,
    ensures
        r is Err <==> trim(s@).len() == 0,
        r matches Ok(l) ==> l@ == list_items(s@),
{
    let v = chars_of(s);
    let (a, b) = trim_bounds(&v, 0, v.len());
    proof {
        assert(v@.subrange(0, v@.len() as int) =~= s@);
    }
    if a == b {
        return Err(String::from_str("No proxy specified"));
    }
    Ok(ProxyList { proxies: split_list(s) })
}

/// How the next proxy endpoint is picked for a proxied probe.
#[derive(Debug, Clone, Copy, PartialEq, Eq, Structural)]
pub enum ProxyStrategy {
    /// The endpoints in list order, wrapping around at the end.
    Sequential,
    /// A uniformly random endpoint for every probe.
    Random,
    /// Every endpoint of the list, in order, for one probe.
    Chain,
}

} // verus!
