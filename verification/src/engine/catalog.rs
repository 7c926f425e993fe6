//! The model catalog a client sees: what each provider of its scope lists,
//! merged in scope order, each public model once.

use vstd::prelude::*;

verus! {

/// What the routing snapshot says of one model name for a provider: the
/// model it maps to, whether the client's scope allows that target on the
/// provider, and whether the snapshot can route the name to the provider.
#[derive(Debug, Clone, PartialEq, Eq)]
pub struct CatalogModelFacts {
    pub target: String,
    pub target_allowed: bool,
    pub routable: bool,
}

/// One model of a provider's native catalog, in the provider's order.
#[derive(Debug, Clone, PartialEq, Eq)]
pub struct NativeCatalogEntry {
    pub model: String,
    pub facts: CatalogModelFacts,
}

/// One public model the snapshot routes to a provider.
#[derive(Debug, Clone, PartialEq, Eq)]
pub struct PublicCatalogModel {
    pub model: String,
    pub facts: CatalogModelFacts,
}

/// One adapted model profile of a provider, and whether the client's scope
/// allows it.
#[derive(Debug, Clone, PartialEq, Eq)]
pub struct AdaptedCatalogModel {
    pub model: String,
    pub allowed: bool,
}

/// What one provider of the scope contributes: its native catalog with the
/// snapshot's public models for it, or, without a native catalog, the
/// adapted profiles.
#[derive(Debug, Clone, PartialEq, Eq)]
pub enum ProviderCatalog {
    Native { entries: Vec<NativeCatalogEntry>, public_models: Vec<PublicCatalogModel> },
    Adapted(Vec<AdaptedCatalogModel>),
}

/// Where a listed model's descriptor comes from: an adapted profile, or the
/// complete native entry of its target; both by provider and position.
#[derive(Debug, Clone, Copy, PartialEq, Eq, Structural)]
pub enum CatalogSource {
    Adapted { provider: usize, profile: usize },
    Native { provider: usize, entry: usize },
}

/// One model the client sees.
#[derive(Debug, Clone, PartialEq, Eq)]
pub struct CatalogItem {
    pub model: String,
    pub source: CatalogSource,
}

/// The last of the first `n` native entries named `target`; a later entry
/// of the same name replaces an earlier one.
pub open spec fn last_entry(entries: Seq<NativeCatalogEntry>, target: Seq<char>, n: int) -> Option<int>
    decreases n,
{
    if n <= 0 || n > entries.len() {
        None
    } else if entries[n - 1].model@ == target {
        Some(n - 1)
    } else {
        last_entry(entries, target, n - 1)
    }
}

/// The native entry a model's target names, if the catalog has one.
pub open spec fn target_entry(entries: Seq<NativeCatalogEntry>, facts: CatalogModelFacts) -> Option<int> {
    last_entry(entries, facts.target@, entries.len() as int)
}

/// The models the first `n` native entries offer: an entry whose target the
/// scope allows, the catalog holds and the snapshot routes, under its own
/// name, described by the target's entry.
pub open spec fn native_candidates(p: usize, entries: Seq<NativeCatalogEntry>, n: int) -> Seq<(Seq<char>, CatalogSource)>
    decreases n,
{
    if n <= 0 || n > entries.len() {
        Seq::empty()
    } else {
        let rest = native_candidates(p, entries, n - 1);
        let e = entries[n - 1];
        match target_entry(entries, e.facts) {
            Some(j) => if e.facts.target_allowed && e.facts.routable {
                rest.push((e.model@, CatalogSource::Native { provider: p, entry: j as usize }))
            } else {
                rest
            },
            None => rest,
        }
    }
}

/// The models the first `n` public models of the snapshot add: a public
/// model mapped to another target that the scope allows, the snapshot
/// routes and the native catalog holds, described by the target's entry.
pub open spec fn mapped_candidates(
    p: usize,
    entries: Seq<NativeCatalogEntry>,
    models: Seq<PublicCatalogModel>,
    n: int,
) -> Seq<(Seq<char>, CatalogSource)>
    decreases n,
{
    if n <= 0 || n > models.len() {
        Seq::empty()
    } else {
        let rest = mapped_candidates(p, entries, models, n - 1);
        let m = models[n - 1];
        match target_entry(entries, m.facts) {
            Some(j) => if m.facts.target_allowed && m.facts.target@ != m.model@ && m.facts.routable {
                rest.push((m.model@, CatalogSource::Native { provider: p, entry: j as usize }))
            } else {
                rest
            },
            None => rest,
        }
    }
}

/// The models the first `n` adapted profiles offer: those the scope allows.
pub open spec fn adapted_candidates(p: usize, profiles: Seq<AdaptedCatalogModel>, n: int) -> Seq<(Seq<char>, CatalogSource)>
    decreases n,
{
    if n <= 0 || n > profiles.len() {
        Seq::empty()
    } else {
        let rest = adapted_candidates(p, profiles, n - 1);
        if profiles[n - 1].allowed {
            rest.push((profiles[n - 1].model@, CatalogSource::Adapted { provider: p, profile: (n - 1) as usize }))
        } else {
            rest
        }
    }
}

/// What provider `p` offers, in order.
pub open spec fn provider_candidates(p: usize, catalog: ProviderCatalog) -> Seq<(Seq<char>, CatalogSource)> {
    match catalog {
        ProviderCatalog::Native { entries, public_models } => native_candidates(p, entries@, entries@.len() as int)
            + mapped_candidates(p, entries@, public_models@, public_models@.len() as int),
        ProviderCatalog::Adapted(profiles) => adapted_candidates(p, profiles@, profiles@.len() as int),
    }
}

/// What the first `n` providers offer, in scope order.
pub open spec fn catalog_candidates(catalogs: Seq<ProviderCatalog>, n: int) -> Seq<(Seq<char>, CatalogSource)>
    decreases n,
{
    if n <= 0 || n > catalogs.len() {
        Seq::empty()
    } else {
        catalog_candidates(catalogs, n - 1) + provider_candidates((n - 1) as usize, catalogs[n - 1])
    }
}

/// A model name occurs among the candidates.
pub open spec fn offered(s: Seq<(Seq<char>, CatalogSource)>, model: Seq<char>) -> bool {
    exists|k: int| 0 <= k < s.len() && (#[trigger] s[k]).0 == model
}

/// The candidates with each model kept at its first offer only.
pub open spec fn first_offers(s: Seq<(Seq<char>, CatalogSource)>) -> Seq<(Seq<char>, CatalogSource)>
    decreases s.len(),
{
    if s.len() == 0 {
        Seq::empty()
    } else if offered(s.drop_last(), s.last().0) {
        first_offers(s.drop_last())
    } else {
        first_offers(s.drop_last()).push(s.last())
    }
}

proof fn lemma_first_offers_models(s: Seq<(Seq<char>, CatalogSource)>, model: Seq<char>)
    ensures
        offered(first_offers(s), model) == offered(s, model),
    decreases s.len(),
{
    if s.len() > 0 {
        let t = s.drop_last();
        lemma_first_offers_models(t, model);
        lemma_first_offers_models(t, s.last().0);
        if offered(s, model) && !offered(t, model) {
            assert(s.last().0 == model) by {
                let k = choose|k: int| 0 <= k < s.len() && (#[trigger] s[k]).0 == model;
                if k < t.len() {
                    assert(t[k] == s[k]);
                }
            }
        }
        if offered(t, model) {
            let k = choose|k: int| 0 <= k < t.len() && (#[trigger] t[k]).0 == model;
            assert(s[k] == t[k]);
        }
        if !offered(t, s.last().0) {
            let f = first_offers(t);
            if offered(f, model) {
                let k = choose|k: int| 0 <= k < f.len() && (#[trigger] f[k]).0 == model;
                assert(f.push(s.last())[k] == f[k]);
            }
            if s.last().0 == model {
                assert(f.push(s.last())[f.len() as int] == s.last());
            }
            if offered(f.push(s.last()), model) {
                let k = choose|k: int| 0 <= k < f.push(s.last()).len() && (#[trigger] f.push(s.last())[k]).0 == model;
                if k < f.len() {
                    assert(f.push(s.last())[k] == f[k]);
                }
            }
        }
        if offered(s, model) {
            let k = choose|k: int| 0 <= k < s.len() && (#[trigger] s[k]).0 == model;
            if k < t.len() {
                assert(t[k] == s[k]);
            }
        }
    }
}

fn last_entry_exec(entries: &Vec<NativeCatalogEntry>, target: &str) -> (r: Option<usize>)
    ensures
        r matches Some(j) ==> last_entry(entries@, target@, entries@.len() as int) == Some(j as int),
        r is None ==> last_entry(entries@, target@, entries@.len() as int) is None,
{
    let mut n: usize = entries.len();
    while n > 0
        invariant
            n <= entries@.len(),
            last_entry(entries@, target@, entries@.len() as int) == last_entry(entries@, target@, n as int),
        decreases n,
    {
        if crate::text::str_equal(entries[n - 1].model.as_str(), target) {
            return Some(n - 1);
        }
        n = n - 1;
    }
    None
}

fn push_candidate(out: &mut Vec<(String, CatalogSource)>, model: &String, source: CatalogSource)
    ensures
        final(out)@.len() == old(out)@.len() + 1,
        forall|k: int| 0 <= k < old(out)@.len() ==> #[trigger] final(out)@[k] == old(out)@[k],
        final(out)@[old(out)@.len() as int].0@ == model@,
        final(out)@[old(out)@.len() as int].1 == source,
{
    out.push((model.clone(), source));
}

/// The candidates as text, for the contract.
pub open spec fn candidate_views(v: Seq<(String, CatalogSource)>) -> Seq<(Seq<char>, CatalogSource)> {
    v.map_values(|c: (String, CatalogSource)| (c.0@, c.1))
}

proof fn lemma_views_push(v: Seq<(String, CatalogSource)>, w: Seq<(String, CatalogSource)>, c: (Seq<char>, CatalogSource))
    requires
        w.len() == v.len() + 1,
        forall|k: int| 0 <= k < v.len() ==> #[trigger] w[k] == v[k],
        w[v.len() as int].0@ == c.0,
        w[v.len() as int].1 == c.1,
    ensures
        candidate_views(w) == candidate_views(v).push(c),
{
    assert(candidate_views(w) =~= candidate_views(v).push(c));
}

fn collect_provider(p: usize, catalog: &ProviderCatalog, out: &mut Vec<(String, CatalogSource)>)
    ensures
        candidate_views(final(out)@) == candidate_views(old(out)@) + provider_candidates(p, *catalog),
{
    match catalog {
        ProviderCatalog::Native { entries, public_models } => {
            let ghost start = candidate_views(out@);
            let mut i: usize = 0;
            while i < entries.len()
                invariant
                    i <= entries@.len(),
                    candidate_views(out@) == start + native_candidates(p, entries@, i as int),
                decreases entries@.len() - i,
            {
                let e = &entries[i];
                let ghost before = out@;
                match last_entry_exec(entries, e.facts.target.as_str()) {
                    Some(j) => {
                        if e.facts.target_allowed && e.facts.routable {
                            push_candidate(out, &e.model, CatalogSource::Native { provider: p, entry: j });
                            proof {
                                lemma_views_push(before, out@, (e.model@, CatalogSource::Native { provider: p, entry: j }));
                            }
                        }
                    },
                    None => {},
                }
                proof {
                    assert(start + native_candidates(p, entries@, i + 1) =~= candidate_views(out@));
                }
                i = i + 1;
            }
            let ghost middle = candidate_views(out@);
            let mut i: usize = 0;
            while i < public_models.len()
                invariant
                    i <= public_models@.len(),
                    candidate_views(out@) == middle + mapped_candidates(p, entries@, public_models@, i as int),
                decreases public_models@.len() - i,
            {
                let m = &public_models[i];
                let ghost before = out@;
                if m.facts.target_allowed && !crate::text::str_equal(m.facts.target.as_str(), m.model.as_str())
                    && m.facts.routable {
                    match last_entry_exec(entries, m.facts.target.as_str()) {
                        Some(j) => {
                            push_candidate(out, &m.model, CatalogSource::Native { provider: p, entry: j });
                            proof {
                                lemma_views_push(before, out@, (m.model@, CatalogSource::Native { provider: p, entry: j }));
                            }
                        },
                        None => {},
                    }
                }
                proof {
                    assert(middle + mapped_candidates(p, entries@, public_models@, i + 1) =~= candidate_views(out@));
                }
                i = i + 1;
            }
            proof {
                assert(candidate_views(out@) =~= start + provider_candidates(p, *catalog));
            }
        },
        ProviderCatalog::Adapted(profiles) => {
            let ghost start = candidate_views(out@);
            let mut i: usize = 0;
            while i < profiles.len()
                invariant
                    i <= profiles@.len(),
                    candidate_views(out@) == start + adapted_candidates(p, profiles@, i as int),
                decreases profiles@.len() - i,
            {
                let ghost before = out@;
                if profiles[i].allowed {
                    push_candidate(out, &profiles[i].model, CatalogSource::Adapted { provider: p, profile: i });
                    proof {
                        lemma_views_push(before, out@, (profiles@[i as int].model@, CatalogSource::Adapted { provider: p, profile: i }));
                    }
                }
                proof {
                    assert(start + adapted_candidates(p, profiles@, i + 1) =~= candidate_views(out@));
                }
                i = i + 1;
            }
        },
    }
}

/// Merges the catalogs of the providers in the client's scope, in scope
/// order. Each model is listed once, at its first offer: native entries in
/// the provider's order under their own names, described by their target's
/// entry; then the snapshot's public models mapped onto a native entry; or,
/// without a native catalog, the allowed adapted profiles.
pub fn merge_client_catalog(catalogs: &Vec<ProviderCatalog>) -> (r: Vec<CatalogItem>)
    ensures
        r@.len() == first_offers(catalog_candidates(catalogs@, catalogs@.len() as int)).len(),
        forall|k: int|
            0 <= k < r@.len() ==> (#[trigger] r@[k]).model@ == first_offers(
                catalog_candidates(catalogs@, catalogs@.len() as int),
            )[k].0 && r@[k].source == first_offers(catalog_candidates(catalogs@, catalogs@.len() as int))[k].1,
{
    let mut candidates: Vec<(String, CatalogSource)> = Vec::new();
    let mut p: usize = 0;
    while p < catalogs.len()
        invariant
            p <= catalogs@.len(),
            candidate_views(candidates@) == catalog_candidates(catalogs@, p as int),
        decreases catalogs@.len() - p,
    {
        collect_provider(p, &catalogs[p], &mut candidates);
        p = p + 1;
    }
    let ghost all = candidate_views(candidates@);
    let mut result: Vec<CatalogItem> = Vec::new();
    let mut i: usize = 0;
    while i < candidates.len()
        invariant
            i <= candidates@.len(),
            all == candidate_views(candidates@),
            result@.len() == first_offers(all.take(i as int)).len(),
            forall|k: int|
                0 <= k < result@.len() ==> (#[trigger] result@[k]).model@ == first_offers(all.take(i as int))[k].0
                    && result@[k].source == first_offers(all.take(i as int))[k].1,
        decreases candidates@.len() - i,
    {
        let model = &candidates[i].0;
        let mut seen = false;
        let mut k: usize = 0;
        while k < result.len()
            invariant
                k <= result@.len(),
                seen == exists|j: int| 0 <= j < k && (#[trigger] result@[j]).model@ == model@,
            decreases result@.len() - k,
        {
            if crate::text::str_equal(result[k].model.as_str(), model.as_str()) {
                seen = true;
            }
            k = k + 1;
        }
        let ghost prefix = all.take(i as int);
        proof {
            assert(all.take(i + 1) =~= prefix.push(all[i as int]));
            assert(all.take(i + 1).drop_last() =~= prefix);
            assert(all[i as int].0 == model@);
            lemma_first_offers_models(prefix, model@);
            let f = first_offers(prefix);
            if seen {
                let j = choose|j: int| 0 <= j < result@.len() && (#[trigger] result@[j]).model@ == model@;
                assert(f[j].0 == model@);
            } else {
                assert forall|j: int| 0 <= j < f.len() implies (#[trigger] f[j]).0 != model@ by {
                    assert(result@[j].model@ == f[j].0);
                }
            }
        }
        if !seen {
            result.push(CatalogItem { model: model.clone(), source: candidates[i].1 });
        }
        i = i + 1;
    }
    proof {
        assert(all.take(candidates@.len() as int) =~= all);
    }
    result
}

} // verus!
