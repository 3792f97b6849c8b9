//! The hosts list of the standalone lookup tool: hostnames with optionally
//! cached address text, fillable through the external HTTP lookup.
use vstd::prelude::*;

use crate::resolver::{
    capture_ip_from_html_plain, captured_ipv4, fetch_ip_lookup_html, spec_parse_ipv4,
    ResolvedAddr,
};

verus! {

/// One hostname and, once looked up, its address text.
#[derive(Debug)]
pub struct Dns {
    pub hostname: String,
    pub address: Option<String>,
}

/// A list of hostnames to look up.
#[derive(Debug)]
pub struct Hosts {
    pub dns: Option<Vec<Dns>>,
}

impl Dns {
    /// An entry for `hostname` with no address yet.
    pub fn new(hostname: &str) -> (r: Dns)
        ensures
            r.hostname@ == hostname@,
            r.address == None::<String>,
    {
        Dns { hostname: hostname.to_owned(), address: None }
    }

    /// The cached address as an endpoint on port zero, if one is cached.
    pub fn addr(&self) -> (r: Option<ResolvedAddr>)
        requires
            match self.address {
                Some(s) => spec_parse_ipv4(s@) is Some,
                None => true,
            },
        ensures
            match self.address {
                Some(s) => r is Some && r->0@.ip == s@ && r->0@.port == 0,
                None => r is None,
            },
    {
        match &self.address {
            Some(s) => Some(ResolvedAddr { ip: s.clone(), port: 0 }),
            None => None,
        }
    }

    /// Records `ip` unless an address is already cached: the first address
    /// wins.
    pub fn set_address_if_empty(&mut self, ip: String)
        ensures
            final(self).hostname == old(self).hostname,
            old(self).address is Some ==> final(self).address == old(self).address,
            old(self).address is None ==> final(self).address == Some(ip),
    {
        if self.address.is_none() {
            self.address = Some(ip);
        }
    }

    /// Fills the address through the external HTTP lookup when none is
    /// cached yet; an address already cached is never replaced, and a failed
    /// lookup leaves the entry unchanged.
    pub fn lookup(&mut self)
        ensures
            final(self).hostname == old(self).hostname,
            old(self).address is Some ==> final(self).address == old(self).address,
            final(self).address is Some || final(self).address == old(self).address,
            old(self).address is None && final(self).address is Some ==> exists|html: Seq<char>|
                captured_ipv4(html) == Some(final(self).address->0@),
    {
        if self.address.is_none() {
            match fetch_ip_lookup_html(self.hostname.as_str()) {
                Some(html) => {
                    match capture_ip_from_html_plain(html.as_str()) {
                        Some(ip) => {
                            let ghost html_chars = html@;
                            let ghost ip_chars = ip@;
                            self.set_address_if_empty(ip);
                            proof {
                                assert(captured_ipv4(html_chars) == Some(ip_chars));
                            }
                        },
                        None => {},
                    }
                },
                None => {},
            }
        }
    }
}

impl Hosts {
    /// Looks up every entry in turn: hostnames are kept, addresses already
    /// cached are kept, entries without one get at most one new address, and
    /// any new address is a capture from some lookup reply page.
    pub fn lookup_all(&mut self)
        ensures
            old(self).dns is None ==> final(self).dns == old(self).dns,
            old(self).dns is Some ==> {
                &&& final(self).dns is Some
                &&& final(self).dns->0@.len() == old(self).dns->0@.len()
                &&& forall|j: int|
                    0 <= j < old(self).dns->0@.len() ==> (#[trigger] final(self).dns->0@[j].hostname)
                        == old(self).dns->0@[j].hostname
                &&& forall|j: int|
                    0 <= j < old(self).dns->0@.len() && old(self).dns->0@[j].address is Some
                        ==> (#[trigger] final(self).dns->0@[j].address)
                        == old(self).dns->0@[j].address
                &&& forall|j: int|
                    0 <= j < old(self).dns->0@.len() && old(self).dns->0@[j].address is None
                        && (#[trigger] final(self).dns->0@[j].address) is Some ==> exists|
                        html: Seq<char>,
                    |
                        captured_ipv4(html) == Some(final(self).dns->0@[j].address->0@)
            },
    {
        let taken = self.dns.take();
        match taken {
            Some(mut v) => {
                let ghost orig = v@;
                let mut i: usize = 0;
                while i < v.len()
                    invariant
                        i <= v@.len(),
                        v@.len() == orig.len(),
                        forall|j: int|
                            0 <= j < orig.len() ==> (#[trigger] v@[j].hostname)
                                == orig[j].hostname,
                        forall|j: int|
                            0 <= j < orig.len() && orig[j].address is Some ==> (#[trigger] v@[
                                j
                            ].address) == orig[j].address,
                        forall|j: int|
                            0 <= j < orig.len() && orig[j].address is None && (#[trigger] v@[
                                j
                            ].address) is Some ==> exists|html: Seq<char>|
                                captured_ipv4(html) == Some(v@[j].address->0@),
                        forall|j: int| i <= j < orig.len() ==> v@[j] == orig[j],
                    decreases v@.len() - i,
                {
                    let ghost v0 = v@;
                    let mut d = v.remove(i);
                    d.lookup();
                    v.insert(i, d);
                    proof {
                        assert(v@ =~= v0.update(i as int, v@[i as int]));
                    }
                    i += 1;
                }
                self.dns = Some(v);
            },
            None => {},
        }
    }
}

} // verus!
