//! Hostname resolution for the proxy: origin hostnames are redirected to the
//! loopback address by the hosts file, so they must be resolved through an
//! external HTTP-based lookup, while fronting names use the system resolver.
//! Results are cached per hostname; the first resolved address wins.
use vstd::prelude::*;

use crate::snimap::{has_override, SniMap};
use crate::text::{contains_string, in_strings, lowered, split_char, split_str, to_lowercase_ascii};

verus! {

/// Whether `c` is a decimal digit.
pub open spec fn is_digit(c: char) -> bool {
    48 <= c as int <= 57
}

/// The value of a decimal digit.
pub open spec fn digit_val(c: char) -> int {
    c as int - 48
}

/// The number written by a digit sequence, most significant first.
pub open spec fn group_val(g: Seq<char>) -> int
    decreases g.len(),
{
    if g.len() == 0 {
        0
    } else {
        group_val(g.drop_last()) * 10 + digit_val(g.last())
    }
}

/// A well-formed dotted-quad component: one to three digits, no leading
/// zero, value at most 255.
pub open spec fn group_ok(g: Seq<char>) -> bool {
    &&& 1 <= g.len() <= 3
    &&& forall|i: int| 0 <= i < g.len() ==> is_digit(#[trigger] g[i])
    &&& g.len() > 1 ==> g[0] != '0'
    &&& group_val(g) <= 255
}

/// The address written as a dotted quad in `s`, as a 32-bit number, or
/// nothing when `s` is not a well-formed IPv4 address.
pub open spec fn spec_parse_ipv4(s: Seq<char>) -> Option<u32> {
    let ps = split_char(s, '.');
    if ps.len() == 4 && group_ok(ps[0]) && group_ok(ps[1]) && group_ok(ps[2]) && group_ok(
        ps[3],
    ) {
        Some(
            (group_val(ps[0]) * 16777216 + group_val(ps[1]) * 65536 + group_val(ps[2]) * 256
                + group_val(ps[3])) as u32,
        )
    } else {
        None
    }
}

proof fn lemma_group_val_bounds(g: Seq<char>)
    requires
        forall|i: int| 0 <= i < g.len() ==> is_digit(#[trigger] g[i]),
    ensures
        group_val(g) >= 0,
        g.len() <= 1 ==> group_val(g) <= 9,
        g.len() <= 2 ==> group_val(g) <= 99,
        g.len() <= 3 ==> group_val(g) <= 999,
    decreases g.len(),
{
    if g.len() > 0 {
        lemma_group_val_bounds(g.drop_last());
    }
}

/// Parses one dotted-quad component.
fn parse_group(g: &str) -> (r: Option<u32>)
    ensures
        r == if group_ok(g@) {
            Some(group_val(g@) as u32)
        } else {
            None::<u32>
        },
{
    let n = g.unicode_len();
    if n == 0 || n > 3 {
        return None;
    }
    if n > 1 && g.get_char(0) == '0' {
        return None;
    }
    let mut v: u32 = 0;
    let mut i: usize = 0;
    proof {
        assert(g@.subrange(0, 0) =~= Seq::<char>::empty());
    }
    while i < n
        invariant
            i <= n,
            n == g@.len(),
            1 <= n <= 3,
            forall|j: int| 0 <= j < i ==> is_digit(#[trigger] g@[j]),
            v == group_val(g@.subrange(0, i as int)),
        decreases n - i,
    {
        let c = g.get_char(i);
        let d = c as u32;
        if d < 48 || d > 57 {
            return None;
        }
        proof {
            lemma_group_val_bounds(g@.subrange(0, i as int));
            assert(g@.subrange(0, i as int + 1).drop_last() =~= g@.subrange(0, i as int));
            assert(g@.subrange(0, i as int + 1).last() == g@[i as int]);
        }
        v = v * 10 + (d - 48);
        i += 1;
    }
    proof {
        assert(g@.subrange(0, n as int) =~= g@);
        lemma_group_val_bounds(g@);
    }
    if v > 255 {
        None
    } else {
        Some(v)
    }
}

/// Parses a dotted-quad IPv4 address, exactly as strict as the standard
/// library's address parser: no empty or oversized components, no leading
/// zeros, each component at most 255.
pub fn parse_ipv4(s: &str) -> (r: Option<u32>)
    ensures
        r == spec_parse_ipv4(s@),
{
    let parts = split_str(s, '.');
    let ghost ps = split_char(s@, '.');
    if parts.len() != 4 {
        return None;
    }
    proof {
        assert(ps[0] == parts@[0]@ && ps[1] == parts@[1]@ && ps[2] == parts@[2]@ && ps[3]
            == parts@[3]@);
    }
    let a = match parse_group(parts[0].as_str()) {
        Some(x) => x,
        None => {
            return None;
        },
    };
    let b = match parse_group(parts[1].as_str()) {
        Some(x) => x,
        None => {
            return None;
        },
    };
    let c = match parse_group(parts[2].as_str()) {
        Some(x) => x,
        None => {
            return None;
        },
    };
    let d = match parse_group(parts[3].as_str()) {
        Some(x) => x,
        None => {
            return None;
        },
    };
    proof {
        lemma_group_val_bounds(ps[0]);
        lemma_group_val_bounds(ps[1]);
        lemma_group_val_bounds(ps[2]);
        lemma_group_val_bounds(ps[3]);
    }
    Some(a * 16777216 + b * 65536 + c * 256 + d)
}

/// A resolved upstream endpoint: the address text as the lookup produced it,
/// and the port the proxy will dial.
#[derive(Debug)]
pub struct ResolvedAddr {
    pub ip: String,
    pub port: u16,
}

/// Ghost mirror of `ResolvedAddr`.
pub struct AddrView {
    pub ip: Seq<char>,
    pub port: u16,
}

impl View for ResolvedAddr {
    type V = AddrView;

    open spec fn view(&self) -> AddrView {
        AddrView { ip: self.ip@, port: self.port }
    }
}

impl PartialEq for ResolvedAddr {
    fn eq(&self, other: &ResolvedAddr) -> bool {
        self.ip == other.ip && self.port == other.port
    }
}

impl vstd::std_specs::cmp::PartialEqSpecImpl for ResolvedAddr {
    open spec fn obeys_eq_spec() -> bool {
        true
    }

    open spec fn eq_spec(&self, other: &ResolvedAddr) -> bool {
        self@ == other@
    }
}

impl ResolvedAddr {
    /// A copy of the endpoint.
    pub fn duplicate(&self) -> (r: ResolvedAddr)
        ensures
            r == *self,
    {
        ResolvedAddr { ip: self.ip.clone(), port: self.port }
    }
}

/// What the external HTTP lookup's reply page names: the first IPv4 capture,
/// as a function of the page text alone.
pub uninterp spec fn captured_ipv4(html: Seq<char>) -> Option<Seq<char>>;

/// Relies on `regex::Regex::captures` with the fixed pattern
/// `ipaddress.com/ipv4/((\d+\.){3}\d+)`: the first match's dotted-quad
/// capture group, a function of the text alone.
#[verifier::external_body]
fn re_capture_ipv4(html: &str) -> (r: Option<String>)
    ensures
        match r {
            Some(s) => captured_ipv4(html@) == Some(s@),
            None => captured_ipv4(html@) is None,
        },
{
    match regex::Regex::new(r"ipaddress.com/ipv4/((\d+\.){3}\d+)") {
        Ok(re) => re.captures(html).and_then(|c| c.get(1)).map(|m| m.as_str().to_owned()),
        Err(_) => None,
    }
}

/// The IPv4 capture of a lookup reply page, if the page holds one.
pub fn capture_ip_from_html_plain(html: &str) -> (r: Option<String>)
    ensures
        match r {
            Some(s) => captured_ipv4(html@) == Some(s@),
            None => captured_ipv4(html@) is None,
        },
{
    re_capture_ipv4(html)
}

/// Relies on `attohttpc::post` and its request builder: performs the
/// external HTTP lookup `POST https://www.ipaddress.com/ip-lookup` with form
/// field `host` and returns the reply text. A network call: nothing is
/// promised of the outcome.
#[verifier::external_body]
pub(crate) fn fetch_ip_lookup_html(host: &str) -> (r: Option<String>) {
    let built = attohttpc::post("https://www.ipaddress.com/ip-lookup")
        .header("Referer", "https://www.ipaddress.com/ip-lookup")
        .header("Accept-Encoding", "br")
        .form(&[("host", host)]);
    match built {
        Ok(req) => match req.send() {
            Ok(resp) => resp.text().ok(),
            Err(_) => None,
        },
        Err(_) => None,
    }
}

/// Relies on `dns_lookup::lookup_host`: the system resolver's addresses for
/// `host`, the first rendered as text. Depends on the environment: nothing
/// is promised of the outcome.
#[verifier::external_body]
fn system_lookup_first(host: &str) -> (r: Option<String>) {
    match dns_lookup::lookup_host(host) {
        Ok(addrs) => addrs.into_iter().next().map(|ip| ip.to_string()),
        Err(_) => None,
    }
}

/// The endpoint the external lookup reply designates: the captured dotted
/// quad, on the caller's port, provided it is a well-formed IPv4 address.
pub open spec fn spec_lookup_addr(c: Option<Seq<char>>, port: u16) -> Option<AddrView> {
    match c {
        Some(s) => if spec_parse_ipv4(s) is Some {
            Some(AddrView { ip: s, port })
        } else {
            None
        },
        None => None,
    }
}

/// Reads the endpoint out of an external lookup reply page.
pub fn addr_from_lookup_html(html: &str, port: u16) -> (r: Option<ResolvedAddr>)
    ensures
        match r {
            Some(a) => spec_lookup_addr(captured_ipv4(html@), port) == Some(a@),
            None => spec_lookup_addr(captured_ipv4(html@), port) is None,
        },
{
    match capture_ip_from_html_plain(html) {
        Some(s) => match parse_ipv4(s.as_str()) {
            Some(_) => Some(ResolvedAddr { ip: s, port }),
            None => None,
        },
        None => None,
    }
}

/// Performs one lookup without touching any cache: a whitelisted hostname
/// through the external HTTP lookup -- the reply's captured dotted quad,
/// when it is a well-formed IPv4 address -- and any other through the system
/// resolver. The result carries the caller's port. A caller that holds a
/// lock around a cache can release it across this call and re-acquire it to
/// record the result.
pub fn lookup_fresh(whitelisted: bool, host: &str, port: u16) -> (r: Option<ResolvedAddr>)
    ensures
        match r {
            Some(a) => a@.port == port && (whitelisted ==> spec_parse_ipv4(a@.ip) is Some
                && exists|html: Seq<char>|
                spec_lookup_addr(captured_ipv4(html), port) == Some(a@)),
            None => true,
        },
{
    if whitelisted {
        match fetch_ip_lookup_html(host) {
            Some(html) => {
                let got = addr_from_lookup_html(html.as_str(), port);
                proof {
                    if got is Some {
                        assert(spec_lookup_addr(captured_ipv4(html@), port) == Some(got->0@));
                    }
                }
                got
            },
            None => None,
        }
    } else {
        match system_lookup_first(host) {
            Some(text) => Some(ResolvedAddr { ip: text, port }),
            None => None,
        }
    }
}

/// The cache as a map: the first entry for a hostname wins, as the first
/// racer's insert does.
pub open spec fn cache_map(s: Seq<(String, ResolvedAddr)>) -> Map<Seq<char>, AddrView>
    decreases s.len(),
{
    if s.len() == 0 {
        Map::empty()
    } else {
        cache_map(s.drop_first()).insert(s[0].0@, s[0].1@)
    }
}

proof fn lemma_cache_map_contains(s: Seq<(String, ResolvedAddr)>, k: Seq<char>)
    ensures
        cache_map(s).contains_key(k) <==> (exists|i: int| 0 <= i < s.len() && s[i].0@ == k),
    decreases s.len(),
{
    if s.len() > 0 {
        lemma_cache_map_contains(s.drop_first(), k);
        if s[0].0@ == k {
        } else {
            if exists|i: int| 0 <= i < s.len() && s[i].0@ == k {
                let i = choose|i: int| 0 <= i < s.len() && s[i].0@ == k;
                assert(s.drop_first()[i - 1].0@ == k);
            }
            if exists|i: int| 0 <= i < s.drop_first().len() && s.drop_first()[i].0@ == k {
                let i = choose|i: int|
                    0 <= i < s.drop_first().len() && s.drop_first()[i].0@ == k;
                assert(s[i + 1].0@ == k);
            }
        }
    }
}

proof fn lemma_cache_map_first(s: Seq<(String, ResolvedAddr)>, i: int)
    requires
        0 <= i < s.len(),
        forall|j: int| 0 <= j < i ==> s[j].0@ != s[i].0@,
    ensures
        cache_map(s).contains_key(s[i].0@),
        cache_map(s)[s[i].0@] == s[i].1@,
    decreases s.len(),
{
    if i == 0 {
    } else {
        assert(s.drop_first()[i - 1] == s[i]);
        lemma_cache_map_first(s.drop_first(), i - 1);
        assert(s[0].0@ != s[i].0@);
    }
}

/// What an insert does to the cache: the first result for a hostname stands,
/// and a later insert for the same hostname changes nothing.
pub open spec fn cache_commit(m: Map<Seq<char>, AddrView>, h: Seq<char>, a: AddrView) -> Map<
    Seq<char>,
    AddrView,
> {
    if m.contains_key(h) {
        m
    } else {
        m.insert(h, a)
    }
}

/// Concurrent lookups of one hostname settle on a single cached address:
/// once some racer's result is cached, any later insert -- with the same or
/// a different resolved address -- leaves the cache unchanged, so after the
/// race every read returns the same address.
pub proof fn lemma_cache_commit_stable(
    m: Map<Seq<char>, AddrView>,
    h: Seq<char>,
    a: AddrView,
    b: AddrView,
)
    ensures
        cache_commit(m, h, a).contains_key(h),
        cache_commit(cache_commit(m, h, a), h, b) == cache_commit(m, h, a),
        cache_commit(m, h, a)[h] == if m.contains_key(h) {
            m[h]
        } else {
            a
        },
{
}

/// Ghost model of the resolver: which hostnames use the external lookup,
/// which use the system resolver, and what is cached.
pub struct ResolverView {
    pub whitelist: Set<Seq<char>>,
    pub system_hosts: Set<Seq<char>>,
    pub cache: Map<Seq<char>, AddrView>,
}

/// The resolver knows `host`: it is whitelisted or system-resolved.
pub open spec fn resolver_known(v: ResolverView, host: Seq<char>) -> bool {
    v.whitelist.contains(host) || v.system_hosts.contains(host)
}

/// Every cached key is the lowercase of some hostname the resolver knows:
/// the cache never grows beyond the set fixed at construction.
pub open spec fn cache_keys_known(v: ResolverView) -> bool {
    forall|k: Seq<char>| #[trigger]
        v.cache.contains_key(k) ==> exists|n: Seq<char>| resolver_known(v, n) && lowered(n) == k
}

/// The cache holds at most 1024 entries.
pub open spec fn cache_bounded(v: ResolverView) -> bool {
    v.cache.dom().finite() && v.cache.dom().len() <= 1024
}

/// What recording a result does to the cache: the hostname is lowercased,
/// an unknown hostname or a full cache changes nothing, and otherwise the
/// first result for the key stands.
pub open spec fn spec_commit(v: ResolverView, host: Seq<char>, a: AddrView) -> Map<
    Seq<char>,
    AddrView,
> {
    if resolver_known(v, host) && (v.cache.contains_key(lowered(host)) || v.cache.dom().len()
        < 1024) {
        cache_commit(v.cache, lowered(host), a)
    } else {
        v.cache
    }
}

/// Once a hostname has a cached address, recording any further result for it
/// -- the same or a different one -- leaves the cache unchanged.
pub proof fn lemma_spec_commit_stable(v: ResolverView, host: Seq<char>, b: AddrView)
    requires
        v.cache.contains_key(lowered(host)),
    ensures
        spec_commit(v, host, b) == v.cache,
{
}

/// The resolver shared by both TLS clients: per-hostname lookup policy and a
/// first-result-wins cache, keyed by lowercase hostname and bounded at 1024
/// entries.
pub struct SniMapResolver {
    externals: Vec<String>,
    systems: Vec<String>,
    cache: Vec<(String, ResolvedAddr)>,
}

impl View for SniMapResolver {
    type V = ResolverView;

    closed spec fn view(&self) -> ResolverView {
        ResolverView {
            whitelist: Set::new(|h: Seq<char>| in_strings(self.externals@, h)),
            system_hosts: Set::new(|h: Seq<char>| in_strings(self.systems@, h)),
            cache: cache_map(self.cache@),
        }
    }
}

impl SniMapResolver {
    /// Each hostname holds at most one cache entry; constructors establish
    /// this and every method preserves it.
    pub closed spec fn wf(&self) -> bool {
        forall|i: int, j: int|
            0 <= i < j < self.cache@.len() ==> self.cache@[i].0@ != self.cache@[j].0@
    }

    /// Seeds the resolver from the decision table: the external-lookup
    /// whitelist is exactly the table's hostnames, the fronting names that
    /// are not themselves origins go to the system resolver, and nothing is
    /// resolved yet.
    pub fn from_snimap(snimap: &SniMap) -> (r: SniMapResolver)
        ensures
            r.wf(),
            r@.whitelist == snimap@.dom(),
            r@.system_hosts == Set::new(
                |s: Seq<char>| has_override(snimap@, s) && !snimap@.dom().contains(s),
            ),
            r@.cache == Map::<Seq<char>, AddrView>::empty(),
            cache_keys_known(r@),
            cache_bounded(r@),
    {
        let externals = snimap.hostnames();
        let overridden = snimap.overrided_sni();
        let mut systems: Vec<String> = Vec::new();
        let mut i: usize = 0;
        while i < overridden.len()
            invariant
                i <= overridden@.len(),
                forall|a: int| 0 <= a < systems@.len() ==> !in_strings(
                    externals@,
                    #[trigger] systems@[a]@,
                ) && exists|b: int| 0 <= b < i && overridden@[b]@ == systems@[a]@,
                forall|b: int|
                    0 <= b < i && !in_strings(externals@, #[trigger] overridden@[b]@)
                        ==> in_strings(systems@, overridden@[b]@),
            decreases overridden@.len() - i,
        {
            let ghost sys0 = systems@;
            let s = &overridden[i];
            if !contains_string(&externals, s.as_str()) {
                systems.push(s.clone());
            }
            proof {
                assert forall|b: int|
                    0 <= b < i + 1 && !in_strings(externals@, #[trigger] overridden@[b]@)
                        implies in_strings(systems@, overridden@[b]@) by {
                    if b < i {
                        let a = choose|a: int| 0 <= a < sys0.len() && sys0[a]@ == overridden@[b]@;
                        assert(systems@[a]@ == overridden@[b]@);
                    } else {
                        assert(systems@[systems@.len() - 1]@ == overridden@[b]@);
                    }
                }
            }
            i += 1;
        }
        let r = SniMapResolver { externals, systems, cache: Vec::new() };
        proof {
            assert(r@.whitelist =~= snimap@.dom());
            assert(r@.system_hosts =~= Set::new(
                |s: Seq<char>| has_override(snimap@, s) && !snimap@.dom().contains(s),
            ));
            broadcast use vstd::set::axiom_set_empty_len;

            assert(r@.cache.dom() =~= Set::<Seq<char>>::empty());
        }
        r
    }

    /// Whether `host` is resolved through the external lookup.
    pub fn is_whitelisted(&self, host: &str) -> (r: bool)
        ensures
            r == self@.whitelist.contains(host@),
    {
        contains_string(&self.externals, host)
    }

    /// Whether the resolver knows `host` at all.
    pub fn knows(&self, host: &str) -> (r: bool)
        ensures
            r == (self@.whitelist.contains(host@) || self@.system_hosts.contains(host@)),
    {
        contains_string(&self.externals, host) || contains_string(&self.systems, host)
    }

    /// The cached endpoint of `host`, if a lookup already resolved it. The
    /// cache is keyed by the lowercase hostname, so lookups that differ only
    /// in case share one slot.
    pub fn cached(&self, host: &str) -> (r: Option<ResolvedAddr>)
        ensures
            match r {
                Some(a) => self@.cache.contains_key(lowered(host@)) && a@ == self@.cache[lowered(
                    host@,
                )],
                None => !self@.cache.contains_key(lowered(host@)),
            },
    {
        let key = to_lowercase_ascii(host);
        let n = self.cache.len();
        let mut i: usize = 0;
        while i < n
            invariant
                i <= n,
                n == self.cache@.len(),
                key@ == lowered(host@),
                forall|j: int| 0 <= j < i ==> self.cache@[j].0@ != key@,
            decreases n - i,
        {
            if crate::text::str_eq(self.cache[i].0.as_str(), key.as_str()) {
                proof {
                    lemma_cache_map_first(self.cache@, i as int);
                }
                return Some(self.cache[i].1.duplicate());
            }
            i += 1;
        }
        proof {
            lemma_cache_map_contains(self.cache@, key@);
        }
        None
    }

    /// Records a resolved endpoint for `host`, under its lowercase name. The
    /// first recorded endpoint wins, a hostname the resolver does not know
    /// is never cached, and a full cache takes no new hostname.
    pub fn commit(&mut self, host: &str, addr: ResolvedAddr)
        requires
            old(self).wf(),
        ensures
            final(self).wf(),
            final(self)@.whitelist == old(self)@.whitelist,
            final(self)@.system_hosts == old(self)@.system_hosts,
            final(self)@.cache == spec_commit(old(self)@, host@, addr@),
            cache_keys_known(old(self)@) ==> cache_keys_known(final(self)@),
            cache_bounded(old(self)@) ==> cache_bounded(final(self)@),
    {
        let known = contains_string(&self.externals, host) || contains_string(
            &self.systems,
            host,
        );
        if !known {
            return;
        }
        let hit = self.cached(host);
        match hit {
            Some(_) => {},
            None => {
                proof {
                    lemma_cache_map_len(self.cache@);
                }
                if self.cache.len() >= 1024 {
                    return;
                }
                let ghost v0 = self@;
                let ghost c0 = self.cache@;
                let key = to_lowercase_ascii(host);
                self.cache.push((key, addr));
                proof {
                    lemma_cache_map_push(c0, self.cache@.last());
                    lemma_cache_map_contains(c0, lowered(host@));
                    assert(self.cache@.drop_last() =~= c0);
                    assert(self.cache@[self.cache@.len() - 1].0@ == lowered(host@));
                    assert forall|i: int, j: int|
                        0 <= i < j < self.cache@.len() implies self.cache@[i].0@
                        != self.cache@[j].0@ by {
                        if j == self.cache@.len() - 1 {
                            assert(c0[i].0@ != lowered(host@));
                        } else {
                            assert(c0[i].0@ != c0[j].0@);
                        }
                    }
                    assert(cache_map(self.cache@).dom() =~= cache_map(c0).dom().insert(
                        lowered(host@),
                    ));
                    vstd::set::axiom_set_insert_len(cache_map(c0).dom(), lowered(host@));
                    if cache_keys_known(v0) {
                        assert forall|k: Seq<char>| #[trigger]
                            self@.cache.contains_key(k) implies exists|n: Seq<char>|
                            resolver_known(self@, n) && lowered(n) == k by {
                            if k == lowered(host@) {
                                assert(resolver_known(self@, host@) && lowered(host@) == k);
                            } else {
                                assert(v0.cache.contains_key(k));
                                let n = choose|n: Seq<char>|
                                    resolver_known(v0, n) && lowered(n) == k;
                                assert(resolver_known(self@, n) && lowered(n) == k);
                            }
                        }
                    }
                }
            },
        }
    }

    /// Resolves `host` as its policy asks: a cached endpoint is returned as
    /// it stands; otherwise a whitelisted hostname goes through the external
    /// HTTP lookup and any other known hostname through the system resolver,
    /// and a fresh result on the caller's port is cached under the lowercase
    /// hostname, the first one winning while the cache has room. A failed
    /// lookup returns nothing and caches nothing.
    pub fn get(&mut self, host: &str, port: u16) -> (r: Option<ResolvedAddr>)
        requires
            old(self).wf(),
            old(self)@.whitelist.contains(host@) || old(self)@.system_hosts.contains(host@),
        ensures
            final(self).wf(),
            final(self)@.whitelist == old(self)@.whitelist,
            final(self)@.system_hosts == old(self)@.system_hosts,
            cache_keys_known(old(self)@) ==> cache_keys_known(final(self)@),
            cache_bounded(old(self)@) ==> cache_bounded(final(self)@),
            match r {
                Some(a) => {
                    &&& final(self)@.cache == spec_commit(old(self)@, host@, a@)
                    &&& old(self)@.cache.contains_key(lowered(host@)) ==> a@ == old(
                        self,
                    )@.cache[lowered(host@)] && final(self)@.cache == old(self)@.cache
                    &&& !old(self)@.cache.contains_key(lowered(host@)) ==> a@.port == port
                    &&& (!old(self)@.cache.contains_key(lowered(host@)) && old(
                        self,
                    )@.cache.dom().len() < 1024) ==> final(self)@.cache.contains_key(
                        lowered(host@),
                    ) && final(self)@.cache[lowered(host@)] == a@
                    &&& (!old(self)@.cache.contains_key(lowered(host@)) && old(
                        self,
                    )@.whitelist.contains(host@)) ==> spec_parse_ipv4(a@.ip) is Some && exists|
                        html: Seq<char>,
                    |
                        spec_lookup_addr(captured_ipv4(html), port) == Some(a@)
                },
                None => {
                    &&& !old(self)@.cache.contains_key(lowered(host@))
                    &&& final(self)@.cache == old(self)@.cache
                },
            },
    {
        match self.cached(host) {
            Some(a) => {
                proof {
                    lemma_spec_commit_stable(self@, host@, a@);
                }
                return Some(a);
            },
            None => {},
        }
        let fresh = lookup_fresh(self.is_whitelisted(host), host, port);
        match fresh {
            Some(a) => {
                let out = a.duplicate();
                self.commit(host, a);
                Some(out)
            },
            None => None,
        }
    }
}

proof fn lemma_cache_map_len(s: Seq<(String, ResolvedAddr)>)
    requires
        forall|i: int, j: int| 0 <= i < j < s.len() ==> s[i].0@ != s[j].0@,
    ensures
        cache_map(s).dom().finite(),
        cache_map(s).dom().len() == s.len(),
    decreases s.len(),
{
    broadcast use vstd::set::axiom_set_empty_len;

    if s.len() == 0 {
        assert(cache_map(s).dom() =~= Set::<Seq<char>>::empty());
    } else {
        let rest = s.drop_first();
        assert forall|i: int, j: int| 0 <= i < j < rest.len() implies rest[i].0@
            != rest[j].0@ by {
            assert(rest[i] == s[i + 1] && rest[j] == s[j + 1]);
        }
        lemma_cache_map_len(rest);
        lemma_cache_map_contains(rest, s[0].0@);
        assert(!cache_map(rest).contains_key(s[0].0@)) by {
            if exists|i: int| 0 <= i < rest.len() && rest[i].0@ == s[0].0@ {
                let i = choose|i: int| 0 <= i < rest.len() && rest[i].0@ == s[0].0@;
                assert(s[i + 1].0@ == s[0].0@);
            }
        }
        assert(cache_map(s).dom() =~= cache_map(rest).dom().insert(s[0].0@));
        vstd::set::axiom_set_insert_len(cache_map(rest).dom(), s[0].0@);
    }
}

proof fn lemma_cache_map_push(s: Seq<(String, ResolvedAddr)>, e: (String, ResolvedAddr))
    ensures
        cache_map(s.push(e)) == if cache_map(s).contains_key(e.0@) {
            cache_map(s)
        } else {
            cache_map(s).insert(e.0@, e.1@)
        },
    decreases s.len(),
{
    lemma_cache_map_contains(s, e.0@);
    if s.len() == 0 {
        assert(s.push(e).drop_first() =~= s);
        assert(cache_map(s.push(e)) == Map::<Seq<char>, AddrView>::empty().insert(e.0@, e.1@));
        assert(Map::<Seq<char>, AddrView>::empty().insert(e.0@, e.1@) =~= cache_map(s).insert(
            e.0@,
            e.1@,
        ));
    } else {
        assert(s.push(e).drop_first() =~= s.drop_first().push(e));
        assert(s.push(e)[0] == s[0]);
        lemma_cache_map_push(s.drop_first(), e);
        lemma_cache_map_contains(s.drop_first(), e.0@);
        if cache_map(s.drop_first()).contains_key(e.0@) {
            assert(cache_map(s.push(e)) == cache_map(s));
            assert(cache_map(s).contains_key(e.0@));
        } else {
            if s[0].0@ == e.0@ {
                assert(cache_map(s.push(e)) == cache_map(s.drop_first()).insert(
                    e.0@,
                    e.1@,
                ).insert(s[0].0@, s[0].1@));
                assert(cache_map(s.drop_first()).insert(e.0@, e.1@).insert(s[0].0@, s[0].1@)
                    =~= cache_map(s.drop_first()).insert(s[0].0@, s[0].1@));
                assert(cache_map(s).contains_key(e.0@));
            } else {
                assert(cache_map(s.drop_first()).insert(e.0@, e.1@).insert(s[0].0@, s[0].1@)
                    =~= cache_map(s.drop_first()).insert(s[0].0@, s[0].1@).insert(e.0@, e.1@));
                lemma_cache_map_contains(s, e.0@);
            }
        }
    }
}

} // verus!
