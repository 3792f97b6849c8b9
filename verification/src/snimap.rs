//! The flattened decision table: origin hostname to SNI policy, together with
//! the flattening of a configuration tree into it.
use vstd::prelude::*;

use crate::config::{enabled_of, Config, Group, Mapping, Sni, SniView, Switchable};
use crate::text::{contains_string, in_strings, str_eq};

verus! {

/// The mathematical content of an entry list: a map from hostname to policy,
/// where a later entry for the same hostname wins.
pub open spec fn entries_map(s: Seq<(String, Sni)>) -> Map<Seq<char>, SniView>
    decreases s.len(),
{
    if s.len() == 0 {
        Map::empty()
    } else {
        entries_map(s.drop_last()).insert(s.last().0@, s.last().1@)
    }
}

/// A hostname is in the map exactly when some entry carries it.
pub proof fn lemma_entries_map_contains(s: Seq<(String, Sni)>, k: Seq<char>)
    ensures
        entries_map(s).contains_key(k) <==> (exists|i: int|
            0 <= i < s.len() && s[i].0@ == k),
    decreases s.len(),
{
    if s.len() > 0 {
        lemma_entries_map_contains(s.drop_last(), k);
        if s.last().0@ == k {
            assert(s[s.len() - 1].0@ == k);
        } else {
            if exists|i: int| 0 <= i < s.len() && s[i].0@ == k {
                let i = choose|i: int| 0 <= i < s.len() && s[i].0@ == k;
                assert(s.drop_last()[i].0@ == k);
            }
        }
    }
}

/// The map's value for a hostname is the value of its last entry.
pub proof fn lemma_entries_map_value(s: Seq<(String, Sni)>, i: int)
    requires
        0 <= i < s.len(),
        forall|j: int| i < j < s.len() ==> s[j].0@ != s[i].0@,
    ensures
        entries_map(s).contains_key(s[i].0@),
        entries_map(s)[s[i].0@] == s[i].1@,
    decreases s.len(),
{
    if i == s.len() - 1 {
    } else {
        assert(s.drop_last()[i] == s[i]);
        lemma_entries_map_value(s.drop_last(), i);
        assert(s.last().0@ != s[i].0@);
    }
}

/// Appending entry lists unions their maps, later list preferred.
pub proof fn lemma_entries_map_append(a: Seq<(String, Sni)>, b: Seq<(String, Sni)>)
    ensures
        entries_map(a + b) == entries_map(a).union_prefer_right(entries_map(b)),
    decreases b.len(),
{
    if b.len() == 0 {
        assert(a + b =~= a);
        assert(entries_map(a).union_prefer_right(entries_map(b)) =~= entries_map(a));
    } else {
        lemma_entries_map_append(a, b.drop_last());
        assert((a + b).drop_last() =~= a + b.drop_last());
        assert((a + b).last() == b.last());
        assert(entries_map(a).union_prefer_right(entries_map(b.drop_last())).insert(
            b.last().0@,
            b.last().1@,
        ) =~= entries_map(a).union_prefer_right(entries_map(b)));
    }
}

/// Some hostname of `m` is fronted by the name `s`.
pub open spec fn has_override(m: Map<Seq<char>, SniView>, s: Seq<char>) -> bool {
    exists|h: Seq<char>| m.contains_key(h) && m[h] == SniView::Override(s)
}

/// The flattened decision table, keyed by origin hostname.
pub struct SniMap {
    entries: Vec<(String, Sni)>,
}

impl View for SniMap {
    type V = Map<Seq<char>, SniView>;

    closed spec fn view(&self) -> Map<Seq<char>, SniView> {
        entries_map(self.entries@)
    }
}

impl SniMap {
    /// An empty decision table.
    pub fn new() -> (r: SniMap)
        ensures
            r@ == Map::<Seq<char>, SniView>::empty(),
    {
        SniMap { entries: Vec::new() }
    }

    /// Binds `k` to `v`, replacing any earlier binding of `k`.
    pub fn insert(&mut self, k: String, v: Sni)
        ensures
            final(self)@ == old(self)@.insert(k@, v@),
    {
        let ghost s0 = self.entries@;
        self.entries.push((k, v));
        proof {
            assert(self.entries@.drop_last() =~= s0);
        }
    }

    /// The policy recorded for `hostname`, if any.
    pub fn get(&self, hostname: &str) -> (r: Option<&Sni>)
        ensures
            match r {
                Some(v) => self@.contains_key(hostname@) && v@ == self@[hostname@],
                None => !self@.contains_key(hostname@),
            },
    {
        let n = self.entries.len();
        let mut i: usize = n;
        while i > 0
            invariant
                i <= n,
                n == self.entries@.len(),
                forall|j: int| i <= j < n ==> self.entries@[j].0@ != hostname@,
            decreases i,
        {
            i = i - 1;
            if str_eq(self.entries[i].0.as_str(), hostname) {
                proof {
                    lemma_entries_map_value(self.entries@, i as int);
                }
                return Some(&self.entries[i].1);
            }
        }
        proof {
            lemma_entries_map_contains(self.entries@, hostname@);
        }
        None
    }

    /// Folds every binding of `other` into `self`; on a common hostname the
    /// binding of `other` wins.
    pub fn merge(&mut self, other: SniMap)
        ensures
            final(self)@ == old(self)@.union_prefer_right(other@),
    {
        proof {
            lemma_entries_map_append(self.entries@, other.entries@);
        }
        let mut o = other;
        self.entries.append(&mut o.entries);
    }

    /// The hostnames of the table, each once, in first-seen order.
    pub fn hostnames(&self) -> (r: Vec<String>)
        ensures
            forall|i: int, j: int| 0 <= i < j < r@.len() ==> r@[i]@ != r@[j]@,
            forall|i: int| 0 <= i < r@.len() ==> self@.contains_key(#[trigger] r@[i]@),
            forall|k: Seq<char>| self@.contains_key(k) ==> in_strings(r@, k),
    {
        let n = self.entries.len();
        let mut r: Vec<String> = Vec::new();
        let mut i: usize = 0;
        while i < n
            invariant
                i <= n,
                n == self.entries@.len(),
                forall|a: int, b: int| 0 <= a < b < r@.len() ==> r@[a]@ != r@[b]@,
                forall|a: int| 0 <= a < r@.len() ==> exists|e: int|
                    0 <= e < i && self.entries@[e].0@ == #[trigger] r@[a]@,
                forall|e: int| 0 <= e < i ==> in_strings(r@, #[trigger] self.entries@[e].0@),
            decreases n - i,
        {
            let ghost r0 = r@;
            let k = &self.entries[i].0;
            let already = contains_string(&r, k.as_str());
            if !already {
                r.push(k.clone());
            }
            proof {
                assert forall|e: int| 0 <= e < i + 1 implies in_strings(
                    r@,
                    #[trigger] self.entries@[e].0@,
                ) by {
                    if e < i {
                        let a = choose|a: int| 0 <= a < r0.len() && r0[a]@ == self.entries@[e].0@;
                        assert(r@[a]@ == self.entries@[e].0@);
                    } else {
                        if already {
                            let a = choose|a: int| 0 <= a < r0.len() && r0[a]@ == k@;
                            assert(r@[a]@ == self.entries@[e].0@);
                        } else {
                            assert(r@[r@.len() - 1]@ == self.entries@[e].0@);
                        }
                    }
                }
            }
            i += 1;
        }
        proof {
            assert forall|a: int| 0 <= a < r@.len() implies self@.contains_key(r@[a]@) by {
                lemma_entries_map_contains(self.entries@, r@[a]@);
            }
            assert forall|k: Seq<char>| self@.contains_key(k) implies in_strings(r@, k) by {
                lemma_entries_map_contains(self.entries@, k);
            }
        }
        r
    }

    /// The set of fronting names appearing in `Override` policies, each once.
    pub fn overrided_sni(&self) -> (r: Vec<String>)
        ensures
            forall|i: int, j: int| 0 <= i < j < r@.len() ==> r@[i]@ != r@[j]@,
            forall|i: int| 0 <= i < r@.len() ==> has_override(self@, #[trigger] r@[i]@),
            forall|h: Seq<char>, s: Seq<char>|
                self@.contains_key(h) && self@[h] == SniView::Override(s) ==> exists|i: int|
                    0 <= i < r@.len() && r@[i]@ == s,
    {
        let hs = self.hostnames();
        let mut r: Vec<String> = Vec::new();
        let mut i: usize = 0;
        while i < hs.len()
            invariant
                i <= hs@.len(),
                forall|a: int, b: int| 0 <= a < b < r@.len() ==> r@[a]@ != r@[b]@,
                forall|a: int| 0 <= a < r@.len() ==> has_override(self@, #[trigger] r@[a]@),
                forall|e: int| 0 <= e < i ==> match self@[#[trigger] hs@[e]@] {
                    SniView::Override(s) => exists|a: int| 0 <= a < r@.len() && r@[a]@ == s,
                    _ => true,
                },
                forall|a: int, b: int| 0 <= a < b < hs@.len() ==> hs@[a]@ != hs@[b]@,
                forall|a: int| 0 <= a < hs@.len() ==> self@.contains_key(#[trigger] hs@[a]@),
                forall|k: Seq<char>| self@.contains_key(k) ==> in_strings(hs@, k),
            decreases hs@.len() - i,
        {
            let ghost r0 = r@;
            match self.get(hs[i].as_str()) {
                Some(Sni::Override(s)) => {
                    proof {
                        assert(self@[hs@[i as int]@] == SniView::Override(s@));
                    }
                    let already = contains_string(&r, s.as_str());
                    if !already {
                        r.push(s.clone());
                    }
                    proof {
                        assert forall|a: int, b: int| 0 <= a < b < r@.len() implies r@[a]@
                            != r@[b]@ by {
                            if b < r0.len() {
                                assert(r0[a]@ != r0[b]@);
                            } else {
                                assert(!already);
                                assert(r@[b]@ == s@);
                            }
                        }
                        assert forall|a: int| 0 <= a < r@.len() implies has_override(
                            self@,
                            #[trigger] r@[a]@,
                        ) by {
                            if a < r0.len() {
                                assert(has_override(self@, r0[a]@));
                            } else {
                                assert(r@[a]@ == s@);
                                assert(self@.contains_key(hs@[i as int]@) && self@[hs@[
                                    i as int
                                ]@] == SniView::Override(s@));
                            }
                        }
                        assert(match self@[hs@[i as int]@] {
                            SniView::Override(s2) => exists|a: int|
                                0 <= a < r@.len() && r@[a]@ == s2,
                            _ => true,
                        }) by {
                            if already {
                                let a = choose|a: int| 0 <= a < r0.len() && r0[a]@ == s@;
                                assert(r@[a]@ == s@);
                            } else {
                                assert(r@[r@.len() - 1]@ == s@);
                            }
                        }
                    }
                },
                Some(v) => {
                    proof {
                        assert(match self@[hs@[i as int]@] {
                            SniView::Override(s2) => exists|a: int|
                                0 <= a < r@.len() && r@[a]@ == s2,
                            _ => true,
                        }) by {
                            assert(v@ == self@[hs@[i as int]@]);
                            assert(!(v@ is Override));
                        }
                    }
                },
                None => {
                    proof {
                        assert(self@.contains_key(hs@[i as int]@));
                        assert(false);
                    }
                },
            }
            proof {
                assert forall|e: int| 0 <= e < i + 1 implies match self@[#[trigger] hs@[e]@] {
                    SniView::Override(s2) => exists|a: int| 0 <= a < r@.len() && r@[a]@ == s2,
                    _ => true,
                } by {
                    if e < i {
                        match self@[hs@[e]@] {
                            SniView::Override(s2) => {
                                let a = choose|a: int| 0 <= a < r0.len() && r0[a]@ == s2;
                                assert(r@[a]@ == s2);
                            },
                            _ => {},
                        }
                    } else {
                        assert(match self@[hs@[i as int]@] {
                            SniView::Override(s2) => exists|a: int|
                                0 <= a < r@.len() && r@[a]@ == s2,
                            _ => true,
                        });
                    }
                }
            }
            i += 1;
        }
        proof {
            assert forall|h: Seq<char>, s: Seq<char>|
                self@.contains_key(h) && self@[h] == SniView::Override(s) implies exists|i: int|
                0 <= i < r@.len() && r@[i]@ == s by {
                assert(in_strings(hs@, h));
                let e = choose|e: int| 0 <= e < hs@.len() && hs@[e]@ == h;
                assert(match self@[hs@[e]@] {
                    SniView::Override(s2) => exists|a: int| 0 <= a < r@.len() && r@[a]@ == s2,
                    _ => true,
                });
            }
        }
        r
    }
}


/// The policy a single mapping asks for, once its own toggles are settled.
pub open spec fn mapping_decision(m: Mapping) -> SniView {
    if enabled_of(m.enable_sni) {
        match m.sni {
            Some(s) => if s@ == m.hostname@ {
                SniView::Remain(m.hostname@)
            } else {
                SniView::Override(s@)
            },
            None => SniView::Remain(m.hostname@),
        }
    } else {
        SniView::Disable
    }
}

/// The decision table a single mapping contributes: empty when disabled.
pub open spec fn flatten_mapping(m: Mapping) -> Map<Seq<char>, SniView> {
    if enabled_of(m.enable) {
        Map::empty().insert(m.hostname@, mapping_decision(m))
    } else {
        Map::empty()
    }
}

/// A mapping as its group hands it down: the group's `sni` overrides the
/// mapping's own while group-level SNI is enabled; otherwise SNI is forced
/// off and the name cleared.
pub open spec fn group_adjust(gsni_enabled: bool, gsni: Option<String>, m: Mapping) -> Mapping {
    if gsni_enabled {
        match gsni {
            Some(s) => Mapping {
                enable: m.enable,
                enable_sni: m.enable_sni,
                hostname: m.hostname,
                sni: Some(s),
            },
            None => m,
        }
    } else {
        Mapping { enable: m.enable, enable_sni: Some(false), hostname: m.hostname, sni: None }
    }
}

/// The table contributed by the first `n` mappings of a group, later
/// mappings preferred.
pub open spec fn flatten_mappings_prefix(
    gsni_enabled: bool,
    gsni: Option<String>,
    ms: Seq<Mapping>,
    n: int,
) -> Map<Seq<char>, SniView>
    decreases n,
{
    if n <= 0 {
        Map::empty()
    } else {
        flatten_mappings_prefix(gsni_enabled, gsni, ms, n - 1).union_prefer_right(
            flatten_mapping(group_adjust(gsni_enabled, gsni, ms[n - 1])),
        )
    }
}

/// The table a group contributes under a root whose SNI toggle resolves to
/// `csni_enabled`: empty when the group is disabled.
pub open spec fn flatten_group(csni_enabled: bool, g: Group) -> Map<Seq<char>, SniView> {
    if enabled_of(g.enable) {
        flatten_mappings_prefix(
            csni_enabled && enabled_of(g.enable_sni),
            if csni_enabled {
                g.sni
            } else {
                None
            },
            g.mappings@,
            g.mappings@.len() as int,
        )
    } else {
        Map::empty()
    }
}

/// The table contributed by the first `n` groups, later groups preferred.
pub open spec fn flatten_groups_prefix(csni_enabled: bool, gs: Seq<Group>, n: int) -> Map<
    Seq<char>,
    SniView,
>
    decreases n,
{
    if n <= 0 {
        Map::empty()
    } else {
        flatten_groups_prefix(csni_enabled, gs, n - 1).union_prefer_right(
            flatten_group(csni_enabled, gs[n - 1]),
        )
    }
}

/// The whole configuration flattened to a decision table: empty when the
/// root is disabled, and with a later declaration of a hostname winning.
pub open spec fn flatten_config(c: Config) -> Map<Seq<char>, SniView> {
    if enabled_of(c.enable) {
        flatten_groups_prefix(enabled_of(c.enable_sni), c.groups@, c.groups@.len() as int)
    } else {
        Map::empty()
    }
}

/// A copy of an optional string.
fn clone_opt_string(o: &Option<String>) -> (r: Option<String>)
    ensures
        r == *o,
{
    match o {
        Some(s) => Some(s.clone()),
        None => None,
    }
}

impl SniMap {
    /// The table of a single mapping taken on its own.
    pub fn from_mapping(m: Mapping) -> (r: SniMap)
        ensures
            r@ == flatten_mapping(m),
    {
        let mut sm = SniMap::new();
        if m.enabled() {
            let sni_enabled = m.enabled_sni();
            let Mapping { hostname, sni, enable, enable_sni } = m;
            let v: Sni = if sni_enabled {
                match sni {
                    Some(s) => {
                        if s == hostname {
                            Sni::Remain(hostname.clone())
                        } else {
                            Sni::Override(s)
                        }
                    },
                    None => Sni::Remain(hostname.clone()),
                }
            } else {
                Sni::Disable
            };
            sm.insert(hostname, v);
        }
        sm
    }

    /// The table of one group under a root whose SNI toggle resolves to
    /// `csni_enabled`.
    fn from_group_under(csni_enabled: bool, g: &Group) -> (r: SniMap)
        ensures
            r@ == flatten_group(csni_enabled, *g),
    {
        let ghost gsni: Option<String> = if csni_enabled {
            g.sni
        } else {
            None
        };
        let mut sm = SniMap::new();
        if g.enabled() {
            let gsni_enabled = csni_enabled && g.enabled_sni();
            let n = g.mappings.len();
            let mut i: usize = 0;
            while i < n
                invariant
                    i <= n,
                    n == g.mappings@.len(),
                    gsni_enabled == (csni_enabled && enabled_of(g.enable_sni)),
                    gsni == (if csni_enabled {
                        g.sni
                    } else {
                        None::<String>
                    }),
                    sm@ == flatten_mappings_prefix(gsni_enabled, gsni, g.mappings@, i as int),
                decreases n - i,
            {
                let m = &g.mappings[i];
                let adjusted: Mapping = if gsni_enabled {
                    match &g.sni {
                        Some(gs) => Mapping {
                            enable: m.enable,
                            enable_sni: m.enable_sni,
                            hostname: m.hostname.clone(),
                            sni: Some(gs.clone()),
                        },
                        None => Mapping {
                            enable: m.enable,
                            enable_sni: m.enable_sni,
                            hostname: m.hostname.clone(),
                            sni: clone_opt_string(&m.sni),
                        },
                    }
                } else {
                    Mapping {
                        enable: m.enable,
                        enable_sni: Some(false),
                        hostname: m.hostname.clone(),
                        sni: None,
                    }
                };
                proof {
                    assert(adjusted == group_adjust(gsni_enabled, gsni, g.mappings@[i as int]));
                }
                sm.merge(SniMap::from_mapping(adjusted));
                i += 1;
            }
        }
        sm
    }

    /// The table of one group taken on its own.
    pub fn from_group(g: Group) -> (r: SniMap)
        ensures
            r@ == flatten_group(true, g),
    {
        SniMap::from_group_under(true, &g)
    }

    /// Flattens a whole configuration into its decision table.
    pub fn from_config(c: Config) -> (r: SniMap)
        ensures
            r@ == flatten_config(c),
    {
        let mut sm = SniMap::new();
        if c.enabled() {
            let csni_enabled = c.enabled_sni();
            let n = c.groups.len();
            let mut i: usize = 0;
            while i < n
                invariant
                    i <= n,
                    n == c.groups@.len(),
                    csni_enabled == enabled_of(c.enable_sni),
                    sm@ == flatten_groups_prefix(csni_enabled, c.groups@, i as int),
                decreases n - i,
            {
                sm.merge(SniMap::from_group_under(csni_enabled, &c.groups[i]));
                i += 1;
            }
        }
        sm
    }
}


/// Ghost mirror of `Route`.
pub enum RouteView {
    NoHost,
    NotEnabled(Seq<char>),
    UseNoSni(Seq<char>),
    UseSni(Seq<char>),
}

/// The forwarder's decision for one request: answer that the host is
/// missing, answer that it is not enabled, or forward through one of the two
/// clients toward a connect target.
#[derive(Debug)]
pub enum Route {
    NoHost,
    NotEnabled(String),
    UseNoSni(String),
    UseSni(String),
}

impl View for Route {
    type V = RouteView;

    open spec fn view(&self) -> RouteView {
        match self {
            Route::NoHost => RouteView::NoHost,
            Route::NotEnabled(h) => RouteView::NotEnabled(h@),
            Route::UseNoSni(t) => RouteView::UseNoSni(t@),
            Route::UseSni(t) => RouteView::UseSni(t@),
        }
    }
}

impl PartialEq for Route {
    fn eq(&self, other: &Route) -> bool {
        match (self, other) {
            (Route::NoHost, Route::NoHost) => true,
            (Route::NotEnabled(a), Route::NotEnabled(b)) => *a == *b,
            (Route::UseNoSni(a), Route::UseNoSni(b)) => *a == *b,
            (Route::UseSni(a), Route::UseSni(b)) => *a == *b,
            _ => false,
        }
    }
}

impl vstd::std_specs::cmp::PartialEqSpecImpl for Route {
    open spec fn obeys_eq_spec() -> bool {
        true
    }

    open spec fn eq_spec(&self, other: &Route) -> bool {
        self@ == other@
    }
}

/// The routing table: no host means a not-found answer; a host without a
/// policy means a not-enabled answer; `Disable` selects the no-SNI client
/// dialing the origin itself; `Override` and `Remain` select the SNI client
/// dialing the name to present.
pub open spec fn spec_route(host: Option<Seq<char>>, policy: Option<SniView>) -> RouteView {
    match host {
        Some(h) => match policy {
            Some(p) => match p {
                SniView::Disable => RouteView::UseNoSni(h),
                SniView::Override(s) => RouteView::UseSni(s),
                SniView::Remain(s) => RouteView::UseSni(s),
            },
            None => RouteView::NotEnabled(h),
        },
        None => RouteView::NoHost,
    }
}

/// Decides where one request goes from its host and the host's policy.
pub fn route(host: Option<&str>, policy: Option<&Sni>) -> (r: Route)
    ensures
        r@ == spec_route(
            match host {
                Some(h) => Some(h@),
                None => None,
            },
            match policy {
                Some(p) => Some(p@),
                None => None,
            },
        ),
{
    match host {
        Some(h) => match policy {
            Some(p) => match p {
                Sni::Disable => Route::UseNoSni(h.to_owned()),
                Sni::Override(s) => Route::UseSni(s.clone()),
                Sni::Remain(s) => Route::UseSni(s.clone()),
            },
            None => Route::NotEnabled(h.to_owned()),
        },
        None => Route::NoHost,
    }
}

} // verus!
