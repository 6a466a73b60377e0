//! The catalog resolver and its per-provider cache.
//!
//! `list_models` is the entry point.  The resolver never performs the
//! remote fetch itself: when one is required it answers
//! `StartFetch`, the caller performs the (blocking) fetch and hands
//! the outcome to `finish_fetch`, which updates the cache and returns
//! the resolved list.  While a fetch is in flight for a key, further
//! calls for that key answer `AwaitInFlight` instead of starting a
//! second fetch, so concurrent callers coalesce onto one fetch; after
//! `finish_fetch`, waiters read the same answer from
//! `resolve_cached`.

use crate::catalog::all_wf;
use crate::catalog::builtin_model_presets;
use crate::catalog::default_count;
use crate::catalog::defaults_api_ok;
use crate::catalog::ids_distinct;
use crate::catalog::upgrade_refs_ok;
use crate::catalog::validate_catalog;
use crate::catalog::CatalogError;
use crate::catalog::catalog_ok;
use crate::catalog::is_builtin_catalog;
use crate::catalog::resolved_ok;
use crate::catalog::views;
use crate::catalog::ModelPreset;
use crate::catalog::PresetView;
use crate::policy::refresh_decision;
use crate::policy::spec_refresh_decision;
use crate::policy::AuthMode;
use crate::policy::FetchDecision;
use crate::policy::RefreshStrategy;
use crate::resolve::lemma_fallback_is_builtin;
use crate::resolve::overlay_views;
use crate::resolve::resolve_presets;
use crate::resolve::spec_resolve;
use vstd::prelude::*;

verus! {

/// One per-provider cache slot: the last successfully fetched preset
/// list, when it was fetched, and whether a fetch is under way.
pub struct CacheEntry {
    pub provider_key: String,
    pub value: Option<Vec<ModelPreset>>,
    pub fetched_at: u64,
    pub fetch_in_flight: bool,
}

/// What the caller of `list_models` must do next.
#[derive(Debug, PartialEq, Eq)]
pub enum ListModelsStep {
    /// The resolved list; no fetch was required.
    Ready(Vec<ModelPreset>),
    /// The caller must perform the fetch for this key and report the
    /// outcome through `finish_fetch`.
    StartFetch,
    /// Another caller's fetch for this key is in flight: wait for it,
    /// then read the answer with `resolve_cached`.
    AwaitInFlight,
}

/// The cache keys are pairwise distinct.
pub open spec fn keys_distinct(c: Seq<CacheEntry>) -> bool {
    forall|i: int, j: int| 0 <= i < j < c.len() ==> c[i].provider_key@ != c[j].provider_key@
}

/// Whether the cache holds a slot for `key`.
pub open spec fn has_entry(c: Seq<CacheEntry>, key: Seq<char>) -> bool {
    exists|i: int| 0 <= i < c.len() && c[i].provider_key@ == key
}

/// The overlay the cache holds for `key`: the views of the fetched
/// list in the first slot for `key`, if that slot holds one.
pub open spec fn cached_overlay(c: Seq<CacheEntry>, key: Seq<char>) -> Option<Seq<PresetView>>
    decreases c.len(),
{
    if c.len() == 0 {
        None
    } else if c[0].provider_key@ == key {
        overlay_views(c[0].value)
    } else {
        cached_overlay(c.drop_first(), key)
    }
}

/// Whether a prior successful fetch for `key` is cached.
pub open spec fn cache_has_value(c: Seq<CacheEntry>, key: Seq<char>) -> bool {
    cached_overlay(c, key) is Some
}

/// Whether a fetch for `key` is under way.
pub open spec fn in_flight(c: Seq<CacheEntry>, key: Seq<char>) -> bool
    decreases c.len(),
{
    if c.len() == 0 {
        false
    } else if c[0].provider_key@ == key {
        c[0].fetch_in_flight
    } else {
        in_flight(c.drop_first(), key)
    }
}

/// A key matched by no slot of a prefix is resolved by the rest.
proof fn lemma_cache_skip(c: Seq<CacheEntry>, key: Seq<char>, i: int)
    requires
        0 <= i <= c.len(),
        forall|k: int| 0 <= k < i ==> c[k].provider_key@ != key,
    ensures
        cached_overlay(c, key) == cached_overlay(c.skip(i), key),
        in_flight(c, key) == in_flight(c.skip(i), key),
    decreases i,
{
    if i == 0 {
        assert(c.skip(0) =~= c);
    } else {
        assert(c.drop_first().skip(i - 1) =~= c.skip(i));
        assert forall|k: int| 0 <= k < i - 1 implies
            c.drop_first()[k].provider_key@ != key by {
            assert(c.drop_first()[k] == c[k + 1]);
        }
        lemma_cache_skip(c.drop_first(), key, i - 1);
    }
}

/// A key matched by no slot at all has no overlay and no fetch in
/// flight.
proof fn lemma_cache_absent(c: Seq<CacheEntry>, key: Seq<char>)
    requires
        forall|k: int| 0 <= k < c.len() ==> c[k].provider_key@ != key,
    ensures
        cached_overlay(c, key) is None,
        !in_flight(c, key),
{
    lemma_cache_skip(c, key, c.len() as int);
    assert(c.skip(c.len() as int) =~= Seq::<CacheEntry>::empty());
}

/// Replacing the first slot for a key, keeping its key, changes what
/// the cache says for that key exactly to the new slot's content and
/// changes nothing for any other key.
proof fn lemma_cache_update(c: Seq<CacheEntry>, i: int, e: CacheEntry)
    requires
        0 <= i < c.len(),
        e.provider_key@ == c[i].provider_key@,
        forall|k: int| 0 <= k < i ==> c[k].provider_key@ != e.provider_key@,
    ensures
        cached_overlay(c.update(i, e), e.provider_key@) == overlay_views(e.value),
        in_flight(c.update(i, e), e.provider_key@) == e.fetch_in_flight,
        forall|key: Seq<char>| key != e.provider_key@ ==>
            cached_overlay(c.update(i, e), key) == cached_overlay(c, key),
        forall|key: Seq<char>| key != e.provider_key@ ==>
            in_flight(c.update(i, e), key) == in_flight(c, key),
    decreases c.len(),
{
    let c2 = c.update(i, e);
    if i == 0 {
        assert(c2[0] == e);
        assert(c2.drop_first() =~= c.drop_first());
        assert forall|key: Seq<char>| key != e.provider_key@ implies
            cached_overlay(c2, key) == cached_overlay(c, key) && in_flight(c2, key)
                == in_flight(c, key) by {
            assert(cached_overlay(c2, key) == cached_overlay(c2.drop_first(), key));
            assert(cached_overlay(c, key) == cached_overlay(c.drop_first(), key));
            assert(in_flight(c2, key) == in_flight(c2.drop_first(), key));
            assert(in_flight(c, key) == in_flight(c.drop_first(), key));
        }
    } else {
        assert(c2[0] == c[0]);
        assert(c2.drop_first() =~= c.drop_first().update(i - 1, e));
        assert forall|k: int| 0 <= k < i - 1 implies
            c.drop_first()[k].provider_key@ != e.provider_key@ by {
            assert(c.drop_first()[k] == c[k + 1]);
        }
        lemma_cache_update(c.drop_first(), i - 1, e);
        assert(c[0].provider_key@ != e.provider_key@);
        assert forall|key: Seq<char>| key != e.provider_key@ implies
            cached_overlay(c2, key) == cached_overlay(c, key) && in_flight(c2, key)
                == in_flight(c, key) by {
            if c[0].provider_key@ == key {
            } else {
                assert(cached_overlay(c2.drop_first(), key) == cached_overlay(
                    c.drop_first().update(i - 1, e),
                    key,
                ));
                assert(cached_overlay(c.drop_first().update(i - 1, e), key)
                    == cached_overlay(c.drop_first(), key));
                assert(in_flight(c.drop_first().update(i - 1, e), key)
                    == in_flight(c.drop_first(), key));
            }
        }
    }
}

/// Appending a slot for a fresh key makes the cache say exactly the
/// new slot's content for that key and changes nothing for any other
/// key.
proof fn lemma_cache_push(c: Seq<CacheEntry>, e: CacheEntry)
    requires
        forall|k: int| 0 <= k < c.len() ==> c[k].provider_key@ != e.provider_key@,
    ensures
        cached_overlay(c.push(e), e.provider_key@) == overlay_views(e.value),
        in_flight(c.push(e), e.provider_key@) == e.fetch_in_flight,
        forall|key: Seq<char>| key != e.provider_key@ ==>
            cached_overlay(c.push(e), key) == cached_overlay(c, key),
        forall|key: Seq<char>| key != e.provider_key@ ==>
            in_flight(c.push(e), key) == in_flight(c, key),
    decreases c.len(),
{
    let c2 = c.push(e);
    if c.len() == 0 {
        assert(c2[0] == e);
        assert(c2.drop_first() =~= Seq::<CacheEntry>::empty());
        assert forall|key: Seq<char>| key != e.provider_key@ implies
            cached_overlay(c2, key) == cached_overlay(c, key) && in_flight(c2, key)
                == in_flight(c, key) by {
            assert(cached_overlay(c2, key) == cached_overlay(c2.drop_first(), key));
            assert(in_flight(c2, key) == in_flight(c2.drop_first(), key));
        }
    } else {
        assert(c2[0] == c[0]);
        assert(c2.drop_first() =~= c.drop_first().push(e));
        assert forall|k: int| 0 <= k < c.drop_first().len() implies
            c.drop_first()[k].provider_key@ != e.provider_key@ by {
            assert(c.drop_first()[k] == c[k + 1]);
        }
        lemma_cache_push(c.drop_first(), e);
        assert(c[0].provider_key@ != e.provider_key@);
        assert forall|key: Seq<char>| key != e.provider_key@ implies
            cached_overlay(c2, key) == cached_overlay(c, key) && in_flight(c2, key)
                == in_flight(c, key) by {
            if c[0].provider_key@ == key {
            } else {
                assert(cached_overlay(c2.drop_first(), key) == cached_overlay(
                    c.drop_first().push(e),
                    key,
                ));
                assert(cached_overlay(c.drop_first().push(e), key)
                    == cached_overlay(c.drop_first(), key));
                assert(in_flight(c.drop_first().push(e), key)
                    == in_flight(c.drop_first(), key));
            }
        }
    }
}

/// The catalog resolver: the immutable built-in catalog and the
/// per-provider cache.  The cache is the only mutable state, and all
/// of its mutation goes through `list_models` and `finish_fetch`.
pub struct ModelsManager {
    pub builtin: Vec<ModelPreset>,
    pub cache: Vec<CacheEntry>,
}

impl ModelsManager {
    /// The resolver's invariant: a valid catalog, distinct cache keys.
    pub open spec fn wf(self) -> bool {
        &&& catalog_ok(views(self.builtin@))
        &&& keys_distinct(self.cache@)
    }

    /// The list this resolver answers for `key` under `auth` without
    /// fetching: the built-in catalog merged with the cached overlay,
    /// if any, filtered by auth mode.
    pub open spec fn spec_answer(self, auth: Option<AuthMode>, key: Seq<char>) -> Seq<PresetView> {
        spec_resolve(views(self.builtin@), cached_overlay(self.cache@, key), auth)
    }

    /// Whether the refresh policy demands a fetch for `key`.
    pub open spec fn spec_needs_fetch(self, key: Seq<char>, strategy: RefreshStrategy) -> bool {
        spec_refresh_decision(strategy, cache_has_value(self.cache@, key))
            == FetchDecision::FetchThenCache
    }

    /// Whether a `list_models` call for `key` starts a new fetch: one
    /// is demanded and none is in flight.
    pub open spec fn spec_starts_fetch(self, key: Seq<char>, strategy: RefreshStrategy) -> bool {
        self.spec_needs_fetch(key, strategy) && !in_flight(self.cache@, key)
    }

    /// A fresh resolver over the built-in catalog, with an empty
    /// cache.
    pub fn new() -> (m: ModelsManager)
        ensures
            m.wf(),
            is_builtin_catalog(views(m.builtin@)),
            m.cache@.len() == 0,
    {
        ModelsManager { builtin: builtin_model_presets(None), cache: Vec::new() }
    }

    /// A resolver over a caller-supplied catalog.  The catalog is
    /// validated first; a violated invariant refuses the whole
    /// catalog rather than serving an inconsistent one.
    pub fn with_catalog(catalog: Vec<ModelPreset>) -> (r: Result<ModelsManager, CatalogError>)
        ensures
            r is Ok <==> catalog_ok(views(catalog@)),
            match r {
                Ok(m) => m.wf() && views(m.builtin@) == views(catalog@) && m.cache@.len() == 0,
                Err(e) => {
                    &&& (e == CatalogError::DuplicateId <==> !ids_distinct(views(catalog@)))
                    &&& (e == CatalogError::WrongDefaultCount <==> ids_distinct(views(catalog@))
                        && default_count(views(catalog@)) != 1)
                    &&& (e == CatalogError::IllFormedEfforts <==> ids_distinct(views(catalog@))
                        && default_count(views(catalog@)) == 1 && !all_wf(views(catalog@)))
                    &&& (e == CatalogError::HiddenDefault <==> ids_distinct(views(catalog@))
                        && default_count(views(catalog@)) == 1 && all_wf(views(catalog@))
                        && !defaults_api_ok(views(catalog@)))
                    &&& (e == CatalogError::DanglingUpgrade <==> ids_distinct(views(catalog@))
                        && default_count(views(catalog@)) == 1 && all_wf(views(catalog@))
                        && defaults_api_ok(views(catalog@)) && !upgrade_refs_ok(views(catalog@)))
                },
            },
    {
        match validate_catalog(&catalog) {
            Ok(()) => Ok(ModelsManager { builtin: catalog, cache: Vec::new() }),
            Err(e) => Err(e),
        }
    }

    /// The index of the cache slot for `key`, if one exists, together
    /// with what the cache says for `key`.
    fn find_entry(&self, key: &String) -> (r: Option<usize>)
        requires
            keys_distinct(self.cache@),
        ensures
            match r {
                Some(i) => {
                    &&& i < self.cache@.len()
                    &&& self.cache@[i as int].provider_key@ == key@
                    &&& has_entry(self.cache@, key@)
                    &&& cached_overlay(self.cache@, key@)
                        == overlay_views(self.cache@[i as int].value)
                    &&& in_flight(self.cache@, key@)
                        == self.cache@[i as int].fetch_in_flight
                    &&& forall|k: int| 0 <= k < i ==> self.cache@[k].provider_key@ != key@
                },
                None => {
                    &&& !has_entry(self.cache@, key@)
                    &&& cached_overlay(self.cache@, key@) is None
                    &&& !in_flight(self.cache@, key@)
                },
            },
    {
        let mut i: usize = 0;
        while i < self.cache.len()
            invariant
                i <= self.cache@.len(),
                forall|k: int| 0 <= k < i ==> self.cache@[k].provider_key@ != key@,
            decreases self.cache.len() - i,
        {
            if self.cache[i].provider_key == *key {
                proof {
                    lemma_cache_skip(self.cache@, key@, i as int);
                    assert(self.cache@.skip(i as int)[0] == self.cache@[i as int]);
                }
                return Some(i);
            }
            i += 1;
        }
        proof {
            lemma_cache_absent(self.cache@, key@);
        }
        None
    }

    /// Resolve for `key` under `auth` from the current cache alone,
    /// without changing anything.  This is what waiters read once an
    /// in-flight fetch has finished.
    pub fn resolve_cached(&self, auth_mode: Option<AuthMode>, provider_key: &String) -> (r: Vec<
        ModelPreset,
    >)
        requires
            self.wf(),
        ensures
            views(r@) == self.spec_answer(auth_mode, provider_key@),
            resolved_ok(views(r@)),
    {
        match self.find_entry(provider_key) {
            Some(i) => resolve_presets(&self.builtin, &self.cache[i].value, auth_mode),
            None => {
                let no_overlay: Option<Vec<ModelPreset>> = None;
                resolve_presets(&self.builtin, &no_overlay, auth_mode)
            },
        }
    }

    /// The sole entry point.  Applies the refresh policy to the cache
    /// state for this provider: either answers at once from the cache
    /// and the built-in catalog, or directs the caller to fetch, or
    /// tells it to wait for the fetch already in flight.  Never starts
    /// a fetch while one is in flight for the same key.
    pub fn list_models(
        &mut self,
        auth_mode: Option<AuthMode>,
        provider_key: &String,
        strategy: RefreshStrategy,
    ) -> (r: ListModelsStep)
        requires
            old(self).wf(),
        ensures
            final(self).wf(),
            final(self).builtin == old(self).builtin,
            !old(self).spec_needs_fetch(provider_key@, strategy) ==> *final(self) == *old(self)
                && (r matches ListModelsStep::Ready(list)
                && views(list@) == old(self).spec_answer(auth_mode, provider_key@)
                && resolved_ok(views(list@))),
            old(self).spec_needs_fetch(provider_key@, strategy)
                && in_flight(old(self).cache@, provider_key@) ==> *final(self) == *old(self)
                && r is AwaitInFlight,
            old(self).spec_starts_fetch(provider_key@, strategy) ==> r is StartFetch
                && in_flight(final(self).cache@, provider_key@)
                && cached_overlay(final(self).cache@, provider_key@)
                    == cached_overlay(old(self).cache@, provider_key@)
                && (forall|k: Seq<char>|
                    k != provider_key@ ==> cached_overlay(final(self).cache@, k)
                        == cached_overlay(old(self).cache@, k))
                && (forall|k: Seq<char>|
                    k != provider_key@ ==> in_flight(final(self).cache@, k)
                        == in_flight(old(self).cache@, k)),
    {
        let idx = self.find_entry(provider_key);
        let present = match idx {
            Some(i) => self.cache[i].value.is_some(),
            None => false,
        };
        proof {
            assert(present == cache_has_value(self.cache@, provider_key@));
        }
        let decision = refresh_decision(strategy, present);
        match decision {
            FetchDecision::UseCache | FetchDecision::SkipFetch => {
                let list = match idx {
                    Some(i) => resolve_presets(&self.builtin, &self.cache[i].value, auth_mode),
                    None => {
                        let no_overlay: Option<Vec<ModelPreset>> = None;
                        resolve_presets(&self.builtin, &no_overlay, auth_mode)
                    },
                };
                ListModelsStep::Ready(list)
            },
            FetchDecision::FetchThenCache => {
                match idx {
                    Some(i) => {
                        if self.cache[i].fetch_in_flight {
                            ListModelsStep::AwaitInFlight
                        } else {
                            let ghost cache0 = self.cache@;
                            let mut entry = self.cache.remove(i);
                            entry.fetch_in_flight = true;
                            self.cache.insert(i, entry);
                            proof {
                                assert(self.cache@ =~= cache0.update(i as int, entry));
                                lemma_cache_update(cache0, i as int, entry);
                                assert(keys_distinct(self.cache@));
                            }
                            ListModelsStep::StartFetch
                        }
                    },
                    None => {
                        let ghost cache0 = self.cache@;
                        let entry = CacheEntry {
                            provider_key: provider_key.clone(),
                            value: None,
                            fetched_at: 0,
                            fetch_in_flight: true,
                        };
                        self.cache.push(entry);
                        proof {
                            lemma_cache_push(cache0, entry);
                            assert(keys_distinct(self.cache@));
                        }
                        ListModelsStep::StartFetch
                    },
                }
            },
        }
    }

    /// Record the outcome of the fetch that `list_models` directed,
    /// and return the resolved list every coalesced caller receives.
    /// On success the overlay is cached, replacing any prior one; on
    /// failure the cache keeps its prior value and the answer falls
    /// back to it, or—with an empty cache—to the built-in catalog.
    /// The failure is not surfaced: the built-in catalog is the
    /// guaranteed floor.
    pub fn finish_fetch(
        &mut self,
        auth_mode: Option<AuthMode>,
        provider_key: &String,
        outcome: Option<Vec<ModelPreset>>,
        now: u64,
    ) -> (r: Vec<ModelPreset>)
        requires
            old(self).wf(),
        ensures
            final(self).wf(),
            final(self).builtin == old(self).builtin,
            !in_flight(final(self).cache@, provider_key@),
            forall|k: Seq<char>|
                k != provider_key@ ==> cached_overlay(final(self).cache@, k)
                    == cached_overlay(old(self).cache@, k),
            forall|k: Seq<char>|
                k != provider_key@ ==> in_flight(final(self).cache@, k)
                    == in_flight(old(self).cache@, k),
            match outcome {
                Some(remote) => cached_overlay(final(self).cache@, provider_key@)
                    == Some(views(remote@)) && views(r@) == spec_resolve(
                    views(old(self).builtin@),
                    Some(views(remote@)),
                    auth_mode,
                ),
                None => cached_overlay(final(self).cache@, provider_key@)
                    == cached_overlay(old(self).cache@, provider_key@) && views(r@)
                    == old(self).spec_answer(auth_mode, provider_key@),
            },
            views(r@) == final(self).spec_answer(auth_mode, provider_key@),
            resolved_ok(views(r@)),
    {
        let idx = self.find_entry(provider_key);
        match outcome {
            Some(remote) => {
                let value = Some(remote);
                let list = resolve_presets(&self.builtin, &value, auth_mode);
                match idx {
                    Some(i) => {
                        let ghost cache0 = self.cache@;
                        let mut entry = self.cache.remove(i);
                        entry.value = value;
                        entry.fetched_at = now;
                        entry.fetch_in_flight = false;
                        self.cache.insert(i, entry);
                        proof {
                            assert(self.cache@ =~= cache0.update(i as int, entry));
                            lemma_cache_update(cache0, i as int, entry);
                            assert(keys_distinct(self.cache@));
                        }
                        list
                    },
                    None => {
                        let ghost cache0 = self.cache@;
                        let entry = CacheEntry {
                            provider_key: provider_key.clone(),
                            value,
                            fetched_at: now,
                            fetch_in_flight: false,
                        };
                        self.cache.push(entry);
                        proof {
                            lemma_cache_push(cache0, entry);
                            assert(keys_distinct(self.cache@));
                        }
                        list
                    },
                }
            },
            None => {
                let list = match idx {
                    Some(i) => resolve_presets(&self.builtin, &self.cache[i].value, auth_mode),
                    None => {
                        let no_overlay: Option<Vec<ModelPreset>> = None;
                        resolve_presets(&self.builtin, &no_overlay, auth_mode)
                    },
                };
                match idx {
                    Some(i) => {
                        let ghost cache0 = self.cache@;
                        let mut entry = self.cache.remove(i);
                        entry.fetch_in_flight = false;
                        self.cache.insert(i, entry);
                        proof {
                            assert(self.cache@ =~= cache0.update(i as int, entry));
                            lemma_cache_update(cache0, i as int, entry);
                            assert(keys_distinct(self.cache@));
                        }
                    },
                    None => {},
                }
                list
            },
        }
    }
}

/// Serving with the `Offline` strategy never fetches and never
/// changes the resolver, so two consecutive `Offline` calls with no
/// intervening state change return identical results: by
/// `list_models`'s contract each returns `spec_answer` of the same
/// unchanged state.
pub proof fn lemma_offline_idempotent(
    m: ModelsManager,
    auth: Option<AuthMode>,
    key: Seq<char>,
    first: Seq<PresetView>,
    second: Seq<PresetView>,
)
    requires
        first == m.spec_answer(auth, key),
        second == m.spec_answer(auth, key),
    ensures
        !m.spec_needs_fetch(key, RefreshStrategy::Offline),
        first == second,
{
}

/// While a fetch for a key is in flight, no `list_models` call for
/// that key starts another, whatever the strategy: concurrent callers
/// coalesce onto the one in-flight fetch.
pub proof fn lemma_fetch_coalescing(m: ModelsManager, key: Seq<char>, strategy: RefreshStrategy)
    requires
        in_flight(m.cache@, key),
    ensures
        !m.spec_starts_fetch(key, strategy),
{
}

/// With nothing cached and nothing in flight, `OnlineIfUncached`
/// starts exactly one fetch: the first caller is told to fetch, and
/// every later caller for the same key coalesces while it runs.
pub proof fn lemma_first_call_fetches(m: ModelsManager, key: Seq<char>)
    requires
        !cache_has_value(m.cache@, key),
        !in_flight(m.cache@, key),
    ensures
        m.spec_starts_fetch(key, RefreshStrategy::OnlineIfUncached),
{
}

/// When the fetch fails and nothing was cached for the key, the
/// answer is the built-in catalog exactly (the current catalog hides
/// nothing from API-key callers).
pub proof fn lemma_failed_fetch_serves_builtin(
    m: ModelsManager,
    auth: Option<AuthMode>,
    key: Seq<char>,
)
    requires
        m.wf(),
        cached_overlay(m.cache@, key) is None,
        forall|i: int|
            0 <= i < views(m.builtin@).len() ==> (#[trigger] views(m.builtin@)[i]).supported_in_api,
    ensures
        m.spec_answer(auth, key) == views(m.builtin@),
{
    lemma_fallback_is_builtin(views(m.builtin@), auth);
}

} // verus!
