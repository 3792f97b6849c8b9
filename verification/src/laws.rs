//! Properties of the flattening from a configuration tree to its decision
//! table, and the write-back that makes flattening idempotent.
use vstd::prelude::*;

use crate::config::{enabled_of, Config, Group, Mapping, Sni, SniView};
use crate::text::in_strings;
use crate::snimap::{
    flatten_config, flatten_group, flatten_groups_prefix, flatten_mapping,
    flatten_mappings_prefix, group_adjust, mapping_decision, SniMap,
};

verus! {

/// The enable toggles along the path to mapping `j` of group `i` all resolve
/// to true.
pub open spec fn effective_enable(c: Config, i: int, j: int) -> bool {
    &&& enabled_of(c.enable)
    &&& enabled_of(c.groups@[i].enable)
    &&& enabled_of(c.groups@[i].mappings@[j].enable)
}

/// The SNI toggles along the path to mapping `j` of group `i` all resolve to
/// true.
pub open spec fn effective_enable_sni(c: Config, i: int, j: int) -> bool {
    &&& enabled_of(c.enable_sni)
    &&& enabled_of(c.groups@[i].enable_sni)
    &&& enabled_of(c.groups@[i].mappings@[j].enable_sni)
}

/// Some effectively enabled mapping of `c` carries the hostname `h`.
pub open spec fn config_provides(c: Config, h: Seq<char>) -> bool {
    exists|i: int, j: int|
        0 <= i < c.groups@.len() && 0 <= j < c.groups@[i].mappings@.len()
            && c.groups@[i].mappings@[j].hostname@ == h && effective_enable(c, i, j)
}

proof fn lemma_mappings_prefix_dom(
    gsni_enabled: bool,
    gsni: Option<String>,
    ms: Seq<Mapping>,
    n: int,
    h: Seq<char>,
)
    requires
        0 <= n <= ms.len(),
        flatten_mappings_prefix(gsni_enabled, gsni, ms, n).contains_key(h),
    ensures
        exists|j: int|
            0 <= j < n && ms[j].hostname@ == h && enabled_of(ms[j].enable),
    decreases n,
{
    let last = group_adjust(gsni_enabled, gsni, ms[n - 1]);
    if flatten_mapping(last).contains_key(h) {
        assert(last.hostname@ == ms[n - 1].hostname@);
        assert(enabled_of(last.enable) == enabled_of(ms[n - 1].enable));
        assert(ms[n - 1].hostname@ == h && enabled_of(ms[n - 1].enable));
    } else {
        lemma_mappings_prefix_dom(gsni_enabled, gsni, ms, n - 1, h);
    }
}

proof fn lemma_groups_prefix_dom(csni_enabled: bool, gs: Seq<Group>, n: int, h: Seq<char>)
    requires
        0 <= n <= gs.len(),
        flatten_groups_prefix(csni_enabled, gs, n).contains_key(h),
    ensures
        exists|i: int, j: int|
            0 <= i < n && 0 <= j < gs[i].mappings@.len() && gs[i].mappings@[j].hostname@ == h
                && enabled_of(gs[i].enable) && enabled_of(gs[i].mappings@[j].enable),
    decreases n,
{
    let g = gs[n - 1];
    if flatten_group(csni_enabled, g).contains_key(h) {
        assert(enabled_of(g.enable));
        lemma_mappings_prefix_dom(
            csni_enabled && enabled_of(g.enable_sni),
            if csni_enabled {
                g.sni
            } else {
                None
            },
            g.mappings@,
            g.mappings@.len() as int,
            h,
        );
        let j = choose|j: int|
            0 <= j < g.mappings@.len() && g.mappings@[j].hostname@ == h && enabled_of(
                g.mappings@[j].enable,
            );
        assert(0 <= n - 1 < n && 0 <= j < gs[n - 1].mappings@.len() && gs[n
            - 1].mappings@[j].hostname@ == h && enabled_of(gs[n - 1].enable) && enabled_of(
            gs[n - 1].mappings@[j].enable,
        ));
    } else {
        lemma_groups_prefix_dom(csni_enabled, gs, n - 1, h);
    }
}

/// Every hostname of the flattened table is the hostname of some mapping of
/// the configuration whose effective enable is true.
pub proof fn lemma_hostnames_from_enabled_mappings(c: Config)
    ensures
        forall|h: Seq<char>| #[trigger]
            flatten_config(c).contains_key(h) ==> config_provides(c, h),
{
    assert forall|h: Seq<char>| #[trigger]
        flatten_config(c).contains_key(h) implies config_provides(c, h) by {
        assert(enabled_of(c.enable));
        lemma_groups_prefix_dom(
            enabled_of(c.enable_sni),
            c.groups@,
            c.groups@.len() as int,
            h,
        );
        let (i, j) = choose|i: int, j: int|
            0 <= i < c.groups@.len() && 0 <= j < c.groups@[i].mappings@.len()
                && c.groups@[i].mappings@[j].hostname@ == h && enabled_of(c.groups@[i].enable)
                && enabled_of(c.groups@[i].mappings@[j].enable);
        assert(effective_enable(c, i, j));
    }
}

/// A mapping whose effective SNI toggle resolves to false flattens to the
/// `Disable` policy, whatever the names around it say.
pub proof fn lemma_effective_sni_off_yields_disable(c: Config, i: int, j: int)
    requires
        0 <= i < c.groups@.len(),
        0 <= j < c.groups@[i].mappings@.len(),
        !effective_enable_sni(c, i, j),
    ensures
        mapping_decision(
            group_adjust(
                enabled_of(c.enable_sni) && enabled_of(c.groups@[i].enable_sni),
                if enabled_of(c.enable_sni) {
                    c.groups@[i].sni
                } else {
                    None
                },
                c.groups@[i].mappings@[j],
            ),
        ) == SniView::Disable,
{
}

/// Every policy in `m` is `Disable`, an `Override` of a name other than its
/// own hostname, or a `Remain` of exactly its hostname.
pub open spec fn decision_wf(m: Map<Seq<char>, SniView>) -> bool {
    forall|h: Seq<char>| #[trigger] m.contains_key(h) ==> match m[h] {
        SniView::Disable => true,
        SniView::Override(s) => s != h,
        SniView::Remain(x) => x == h,
    }
}

proof fn lemma_decision_wf_union(a: Map<Seq<char>, SniView>, b: Map<Seq<char>, SniView>)
    requires
        decision_wf(a),
        decision_wf(b),
    ensures
        decision_wf(a.union_prefer_right(b)),
{
}

proof fn lemma_mappings_prefix_wf(gsni_enabled: bool, gsni: Option<String>, ms: Seq<Mapping>, n: int)
    requires
        0 <= n <= ms.len(),
    ensures
        decision_wf(flatten_mappings_prefix(gsni_enabled, gsni, ms, n)),
    decreases n,
{
    if n > 0 {
        lemma_mappings_prefix_wf(gsni_enabled, gsni, ms, n - 1);
        let last = group_adjust(gsni_enabled, gsni, ms[n - 1]);
        assert(decision_wf(flatten_mapping(last)));
        lemma_decision_wf_union(
            flatten_mappings_prefix(gsni_enabled, gsni, ms, n - 1),
            flatten_mapping(last),
        );
    }
}

proof fn lemma_groups_prefix_wf(csni_enabled: bool, gs: Seq<Group>, n: int)
    requires
        0 <= n <= gs.len(),
    ensures
        decision_wf(flatten_groups_prefix(csni_enabled, gs, n)),
    decreases n,
{
    if n > 0 {
        lemma_groups_prefix_wf(csni_enabled, gs, n - 1);
        let g = gs[n - 1];
        if enabled_of(g.enable) {
            lemma_mappings_prefix_wf(
                csni_enabled && enabled_of(g.enable_sni),
                if csni_enabled {
                    g.sni
                } else {
                    None
                },
                g.mappings@,
                g.mappings@.len() as int,
            );
        }
        lemma_decision_wf_union(
            flatten_groups_prefix(csni_enabled, gs, n - 1),
            flatten_group(csni_enabled, g),
        );
    }
}

/// Flattening only ever produces well-formed policies: an `Override` never
/// names its own hostname, and a `Remain` names exactly its hostname.
pub proof fn lemma_flatten_decision_wf(c: Config)
    ensures
        decision_wf(flatten_config(c)),
{
    if enabled_of(c.enable) {
        lemma_groups_prefix_wf(enabled_of(c.enable_sni), c.groups@, c.groups@.len() as int);
    }
}



/// Every policy in `m` is `Disable`.
pub open spec fn all_disable(m: Map<Seq<char>, SniView>) -> bool {
    forall|h: Seq<char>| #[trigger] m.contains_key(h) ==> m[h] == SniView::Disable
}

proof fn lemma_all_disable_union(a: Map<Seq<char>, SniView>, b: Map<Seq<char>, SniView>)
    requires
        all_disable(a),
        all_disable(b),
    ensures
        all_disable(a.union_prefer_right(b)),
{
}

proof fn lemma_mappings_prefix_all_disable(gsni: Option<String>, ms: Seq<Mapping>, n: int)
    requires
        0 <= n <= ms.len(),
    ensures
        all_disable(flatten_mappings_prefix(false, gsni, ms, n)),
    decreases n,
{
    if n > 0 {
        lemma_mappings_prefix_all_disable(gsni, ms, n - 1);
        let last = group_adjust(false, gsni, ms[n - 1]);
        assert(all_disable(flatten_mapping(last)));
        lemma_all_disable_union(
            flatten_mappings_prefix(false, gsni, ms, n - 1),
            flatten_mapping(last),
        );
    }
}

proof fn lemma_groups_prefix_all_disable(gs: Seq<Group>, n: int)
    requires
        0 <= n <= gs.len(),
    ensures
        all_disable(flatten_groups_prefix(false, gs, n)),
    decreases n,
{
    if n > 0 {
        lemma_groups_prefix_all_disable(gs, n - 1);
        let g = gs[n - 1];
        if enabled_of(g.enable) {
            lemma_mappings_prefix_all_disable(None, g.mappings@, g.mappings@.len() as int);
        }
        lemma_all_disable_union(
            flatten_groups_prefix(false, gs, n - 1),
            flatten_group(false, g),
        );
    }
}

/// With the root's SNI toggle off, every entry of the flattened table is the
/// `Disable` policy.
pub proof fn lemma_root_sni_off_yields_all_disable(c: Config)
    requires
        !enabled_of(c.enable_sni),
    ensures
        all_disable(flatten_config(c)),
{
    if enabled_of(c.enable) {
        lemma_groups_prefix_all_disable(c.groups@, c.groups@.len() as int);
    }
}

proof fn lemma_plain_prefix_contains(ms: Seq<Mapping>, n: int, h: Seq<char>)
    requires
        0 <= n <= ms.len(),
        forall|j: int| 0 <= j < ms.len() ==> enabled_of(#[trigger] ms[j].enable),
    ensures
        flatten_mappings_prefix(true, None, ms, n).contains_key(h) <==> exists|j: int|
            0 <= j < n && ms[j].hostname@ == h,
    decreases n,
{
    if n > 0 {
        lemma_plain_prefix_contains(ms, n - 1, h);
        assert(group_adjust(true, None, ms[n - 1]) == ms[n - 1]);
        if ms[n - 1].hostname@ == h {
        } else {
            if exists|j: int| 0 <= j < n && ms[j].hostname@ == h {
                let j = choose|j: int| 0 <= j < n && ms[j].hostname@ == h;
                assert(0 <= j < n - 1 && ms[j].hostname@ == h);
            }
        }
    }
}

proof fn lemma_plain_prefix_value(ms: Seq<Mapping>, n: int, j: int)
    requires
        0 <= j < n <= ms.len(),
        forall|a: int| 0 <= a < ms.len() ==> enabled_of(#[trigger] ms[a].enable),
        forall|a: int| j < a < n ==> ms[a].hostname@ != ms[j].hostname@,
    ensures
        flatten_mappings_prefix(true, None, ms, n).contains_key(ms[j].hostname@),
        flatten_mappings_prefix(true, None, ms, n)[ms[j].hostname@] == mapping_decision(ms[j]),
    decreases n,
{
    assert(group_adjust(true, None, ms[n - 1]) == ms[n - 1]);
    if j == n - 1 {
    } else {
        lemma_plain_prefix_value(ms, n - 1, j);
        assert(ms[n - 1].hostname@ != ms[j].hostname@);
    }
}

impl SniMap {
    /// Writes the table back as a configuration: one group, one mapping per
    /// hostname, each mapping restating the recorded policy.
    ///
    /// Flattening is idempotent: for any table whose policies are well
    /// formed -- which `lemma_flatten_decision_wf` shows of every flattened
    /// configuration -- flattening the written-back configuration yields the
    /// table itself.
    pub fn to_config(&self) -> (c: Config)
        ensures
            decision_wf(self@) ==> flatten_config(c) == self@,
    {
        let hs = self.hostnames();
        let mut mappings: Vec<Mapping> = Vec::new();
        let mut i: usize = 0;
        while i < hs.len()
            invariant
                i <= hs@.len(),
                mappings@.len() == i,
                forall|a: int, b: int| 0 <= a < b < hs@.len() ==> hs@[a]@ != hs@[b]@,
                forall|a: int| 0 <= a < hs@.len() ==> self@.contains_key(#[trigger] hs@[a]@),
                forall|k: Seq<char>| self@.contains_key(k) ==> in_strings(hs@, k),
                forall|a: int| 0 <= a < i ==> (#[trigger] mappings@[a].hostname@) == hs@[a]@,
                forall|a: int| 0 <= a < i ==> (#[trigger] mappings@[a].enable) == None::<bool>,
                decision_wf(self@) ==> forall|a: int| 0 <= a < i ==> mapping_decision(
                    #[trigger] mappings@[a],
                ) == self@[hs@[a]@],
            decreases hs@.len() - i,
        {
            match self.get(hs[i].as_str()) {
                Some(Sni::Disable) => {
                    mappings.push(
                        Mapping {
                            enable: None,
                            enable_sni: Some(false),
                            hostname: hs[i].clone(),
                            sni: None,
                        },
                    );
                },
                Some(Sni::Override(s)) => {
                    mappings.push(
                        Mapping {
                            enable: None,
                            enable_sni: None,
                            hostname: hs[i].clone(),
                            sni: Some(s.clone()),
                        },
                    );
                },
                Some(Sni::Remain(_)) => {
                    mappings.push(
                        Mapping {
                            enable: None,
                            enable_sni: None,
                            hostname: hs[i].clone(),
                            sni: None,
                        },
                    );
                },
                None => {
                    proof {
                        assert(false);
                    }
                },
            }
            i += 1;
        }
        let group = Group::new("decisions", mappings);
        let ghost ms = group.mappings@;
        let groups = vec![group];
        let c = Config::new(groups);
        proof {
            if decision_wf(self@) {
                let m = flatten_mappings_prefix(true, None, ms, ms.len() as int);
                assert forall|h: Seq<char>| m.contains_key(h) <==> self@.contains_key(h) by {
                    lemma_plain_prefix_contains(ms, ms.len() as int, h);
                    if self@.contains_key(h) {
                        assert(in_strings(hs@, h));
                        let a = choose|a: int| 0 <= a < hs@.len() && hs@[a]@ == h;
                        assert(ms[a].hostname@ == h);
                    }
                }
                assert forall|h: Seq<char>| #[trigger]
                    m.contains_key(h) implies m[h] == self@[h] by {
                    lemma_plain_prefix_contains(ms, ms.len() as int, h);
                    let j = choose|j: int| 0 <= j < ms.len() && ms[j].hostname@ == h;
                    assert forall|a: int| j < a < ms.len() implies ms[a].hostname@
                        != ms[j].hostname@ by {
                        assert(hs@[a]@ != hs@[j]@);
                    }
                    lemma_plain_prefix_value(ms, ms.len() as int, j);
                    assert(mapping_decision(ms[j]) == self@[hs@[j]@]);
                }
                assert(m =~= self@);
                assert(c.groups@.len() == 1);
                assert(c.groups@[0] == group);
                assert(flatten_group(true, group) == m);
                assert(flatten_groups_prefix(true, c.groups@, 0) == Map::<Seq<char>,
                    SniView,
                >::empty());
                assert(flatten_groups_prefix(true, c.groups@, 1) == flatten_groups_prefix(
                    true,
                    c.groups@,
                    0,
                ).union_prefer_right(flatten_group(true, c.groups@[0])));
                assert(Map::<Seq<char>, SniView>::empty().union_prefer_right(m) =~= m);
                assert(flatten_config(c) == m);
            }
        }
        c
    }
}

} // verus!
