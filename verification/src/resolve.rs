//! Merging a remote-derived overlay into the built-in catalog and
//! filtering the result by the caller's authentication mode.
//!
//! The merge rule: the union is keyed by id; the built-in entry wins
//! on conflicting metadata; remote-only ids are appended in remote
//! order; built-in ordering is preserved.  An appended entry is taken
//! only if it is well formed and its id is new, and its default flag
//! is cleared, so a resolved list keeps the catalog's invariants
//! whatever the remote provider returned.

use crate::catalog::all_wf;
use crate::catalog::catalog_ok;
use crate::catalog::clone_preset;
use crate::catalog::clone_presets;
use crate::catalog::default_count;
use crate::catalog::defaults_api_ok;
use crate::catalog::has_id;
use crate::catalog::has_id_exec;
use crate::catalog::ids_distinct;
use crate::catalog::preset_wf;
use crate::catalog::preset_wf_exec;
use crate::catalog::resolved_ok;
use crate::catalog::views;
use crate::catalog::ModelPreset;
use crate::catalog::PresetView;
use crate::policy::AuthMode;
use vstd::prelude::*;

verus! {

/// A remote-only entry as it is appended: its metadata is kept, but it
/// can never displace the built-in default.
pub open spec fn spec_sanitize(p: PresetView) -> PresetView {
    PresetView { is_default: false, ..p }
}

/// The merged list: `builtin` followed by those entries of `remote`,
/// in order, that are well formed and whose id is not already present.
pub open spec fn spec_merge(builtin: Seq<PresetView>, remote: Seq<PresetView>) -> Seq<PresetView>
    decreases remote.len(),
{
    if remote.len() == 0 {
        builtin
    } else {
        let prev = spec_merge(builtin, remote.drop_last());
        let p = remote.last();
        if preset_wf(p) && !has_id(prev, p.id@) {
            prev.push(spec_sanitize(p))
        } else {
            prev
        }
    }
}

/// Whether `p` may be served to a caller authenticated as `auth`.
/// API-key callers only see presets supported in the API; session
/// callers (and callers of unknown mode) see everything.
pub open spec fn spec_visible(p: PresetView, auth: Option<AuthMode>) -> bool {
    match auth {
        Some(AuthMode::ApiKey) => p.supported_in_api,
        _ => true,
    }
}

/// The entries of `s`, in order, visible under `auth`.
pub open spec fn spec_auth_filter(s: Seq<PresetView>, auth: Option<AuthMode>) -> Seq<PresetView>
    decreases s.len(),
{
    if s.len() == 0 {
        Seq::empty()
    } else {
        let prev = spec_auth_filter(s.drop_last(), auth);
        if spec_visible(s.last(), auth) {
            prev.push(s.last())
        } else {
            prev
        }
    }
}

/// The resolved list: the merge of the built-in catalog with the
/// remote overlay, if any, filtered by auth mode.
pub open spec fn spec_resolve(
    builtin: Seq<PresetView>,
    remote: Option<Seq<PresetView>>,
    auth: Option<AuthMode>,
) -> Seq<PresetView> {
    match remote {
        Some(r) => spec_auth_filter(spec_merge(builtin, r), auth),
        None => spec_auth_filter(builtin, auth),
    }
}

/// The merge keeps every catalog invariant of the built-in list and
/// keeps the built-in entries as a prefix, in their order.
pub proof fn lemma_merge_preserves(builtin: Seq<PresetView>, remote: Seq<PresetView>)
    ensures
        spec_merge(builtin, remote).len() >= builtin.len(),
        forall|i: int|
            0 <= i < builtin.len() ==> spec_merge(builtin, remote)[i] == builtin[i],
        ids_distinct(builtin) ==> ids_distinct(spec_merge(builtin, remote)),
        default_count(spec_merge(builtin, remote)) == default_count(builtin),
        all_wf(builtin) ==> all_wf(spec_merge(builtin, remote)),
        defaults_api_ok(builtin) ==> defaults_api_ok(spec_merge(builtin, remote)),
    decreases remote.len(),
{
    if remote.len() == 0 {
    } else {
        lemma_merge_preserves(builtin, remote.drop_last());
        let prev = spec_merge(builtin, remote.drop_last());
        let p = remote.last();
        if preset_wf(p) && !has_id(prev, p.id@) {
            let q = spec_sanitize(p);
            let merged = prev.push(q);
            assert(merged.drop_last() =~= prev);
            assert(merged.last() == q);
            assert(default_count(merged) == default_count(prev));
            if ids_distinct(builtin) {
                assert forall|i: int, j: int| 0 <= i < j < merged.len() implies
                    merged[i].id@ != merged[j].id@ by {
                    if j == merged.len() - 1 {
                        assert(merged[i] == prev[i]);
                        assert(!(exists|k: int|
                            0 <= k < prev.len() && prev[k].id@ == p.id@));
                    }
                }
            }
            if all_wf(builtin) {
                assert(preset_wf(q));
                assert forall|i: int| 0 <= i < merged.len() implies
                    preset_wf(#[trigger] merged[i]) by {
                    if i < merged.len() - 1 {
                        assert(merged[i] == prev[i]);
                    }
                }
            }
            if defaults_api_ok(builtin) {
                assert forall|i: int|
                    0 <= i < merged.len() && (#[trigger] merged[i]).is_default implies
                    merged[i].supported_in_api by {
                    assert(i < merged.len() - 1);
                    assert(merged[i] == prev[i]);
                }
            }
        }
    }
}

/// An id found in the filtered list was already present before the
/// filter.
proof fn lemma_filter_id_source(s: Seq<PresetView>, auth: Option<AuthMode>, id: Seq<char>)
    requires
        has_id(spec_auth_filter(s, auth), id),
    ensures
        has_id(s, id),
    decreases s.len(),
{
    if s.len() == 0 {
    } else {
        let prev = spec_auth_filter(s.drop_last(), auth);
        if spec_visible(s.last(), auth) {
            let f = prev.push(s.last());
            let j = choose|j: int| 0 <= j < f.len() && f[j].id@ == id;
            if j == f.len() - 1 {
                assert(s[s.len() - 1].id@ == id);
            } else {
                lemma_filter_id_source(s.drop_last(), auth, id);
                let k = choose|k: int|
                    0 <= k < s.drop_last().len() && s.drop_last()[k].id@ == id;
                assert(s[k].id@ == id);
            }
        } else {
            lemma_filter_id_source(s.drop_last(), auth, id);
            let k = choose|k: int|
                0 <= k < s.drop_last().len() && s.drop_last()[k].id@ == id;
            assert(s[k].id@ == id);
        }
    }
}

/// The auth filter keeps distinct ids distinct, keeps well-formedness,
/// and—because a valid catalog's defaults are never filtered out—keeps
/// the default count.
pub proof fn lemma_filter_preserves(s: Seq<PresetView>, auth: Option<AuthMode>)
    ensures
        ids_distinct(s) ==> ids_distinct(spec_auth_filter(s, auth)),
        all_wf(s) ==> all_wf(spec_auth_filter(s, auth)),
        defaults_api_ok(s) ==> default_count(spec_auth_filter(s, auth)) == default_count(s),
    decreases s.len(),
{
    if s.len() == 0 {
    } else {
        let s0 = s.drop_last();
        let p = s.last();
        assert(ids_distinct(s) ==> ids_distinct(s0));
        assert(all_wf(s) ==> all_wf(s0)) by {
            if all_wf(s) {
                assert forall|i: int| 0 <= i < s0.len() implies
                    preset_wf(#[trigger] s0[i]) by {
                    assert(s0[i] == s[i]);
                }
            }
        }
        assert(defaults_api_ok(s) ==> defaults_api_ok(s0)) by {
            if defaults_api_ok(s) {
                assert forall|i: int|
                    0 <= i < s0.len() && (#[trigger] s0[i]).is_default implies
                    s0[i].supported_in_api by {
                    assert(s0[i] == s[i]);
                }
            }
        }
        lemma_filter_preserves(s0, auth);
        let prev = spec_auth_filter(s0, auth);
        if spec_visible(p, auth) {
            let f = prev.push(p);
            assert(f.drop_last() =~= prev);
            if ids_distinct(s) {
                assert forall|i: int, j: int| 0 <= i < j < f.len() implies
                    f[i].id@ != f[j].id@ by {
                    if j == f.len() - 1 {
                        if f[i].id@ == p.id@ {
                            assert(has_id(prev, p.id@));
                            lemma_filter_id_source(s0, auth, p.id@);
                            let k = choose|k: int|
                                0 <= k < s0.len() && s0[k].id@ == p.id@;
                            assert(s[k].id@ == s[s.len() - 1].id@);
                        }
                    }
                }
            }
            if all_wf(s) {
                assert forall|i: int| 0 <= i < f.len() implies
                    preset_wf(#[trigger] f[i]) by {
                    if i == f.len() - 1 {
                        assert(f[i] == s[s.len() - 1]);
                    }
                }
            }
            if defaults_api_ok(s) {
                assert(default_count(f) == default_count(prev) + if p.is_default {
                    1int
                } else {
                    0int
                });
            }
        } else {
            if defaults_api_ok(s) {
                assert(spec_visible(p, auth) == false);
                assert(p.is_default ==> p.supported_in_api);
                assert(!p.is_default);
            }
        }
    }
}

/// Exactly one entry of any resolved list is the default, whatever the
/// remote overlay held.
pub proof fn lemma_resolved_one_default(
    builtin: Seq<PresetView>,
    remote: Option<Seq<PresetView>>,
    auth: Option<AuthMode>,
)
    requires
        catalog_ok(builtin),
    ensures
        default_count(spec_resolve(builtin, remote, auth)) == 1,
{
    match remote {
        Some(r) => {
            lemma_merge_preserves(builtin, r);
            lemma_filter_preserves(spec_merge(builtin, r), auth);
        },
        None => {
            lemma_filter_preserves(builtin, auth);
        },
    }
}

/// The ids of any resolved list are pairwise distinct.
pub proof fn lemma_resolved_ids_distinct(
    builtin: Seq<PresetView>,
    remote: Option<Seq<PresetView>>,
    auth: Option<AuthMode>,
)
    requires
        catalog_ok(builtin),
    ensures
        ids_distinct(spec_resolve(builtin, remote, auth)),
{
    match remote {
        Some(r) => {
            lemma_merge_preserves(builtin, r);
            lemma_filter_preserves(spec_merge(builtin, r), auth);
        },
        None => {
            lemma_filter_preserves(builtin, auth);
        },
    }
}

/// Every entry of any resolved list is well formed: its effort list is
/// non-empty, repeats no level, and contains its default effort.
pub proof fn lemma_resolved_efforts_wf(
    builtin: Seq<PresetView>,
    remote: Option<Seq<PresetView>>,
    auth: Option<AuthMode>,
)
    requires
        catalog_ok(builtin),
    ensures
        all_wf(spec_resolve(builtin, remote, auth)),
{
    match remote {
        Some(r) => {
            lemma_merge_preserves(builtin, r);
            lemma_filter_preserves(spec_merge(builtin, r), auth);
        },
        None => {
            lemma_filter_preserves(builtin, auth);
        },
    }
}

/// Any resolved list satisfies all three catalog invariants.
pub proof fn lemma_resolve_ok(
    builtin: Seq<PresetView>,
    remote: Option<Seq<PresetView>>,
    auth: Option<AuthMode>,
)
    requires
        catalog_ok(builtin),
    ensures
        resolved_ok(spec_resolve(builtin, remote, auth)),
{
    lemma_resolved_one_default(builtin, remote, auth);
    lemma_resolved_ids_distinct(builtin, remote, auth);
    lemma_resolved_efforts_wf(builtin, remote, auth);
}

/// The default count never exceeds the length.
pub proof fn lemma_default_count_bounds(s: Seq<PresetView>)
    ensures
        0 <= default_count(s) <= s.len(),
    decreases s.len(),
{
    if s.len() > 0 {
        lemma_default_count_bounds(s.drop_last());
    }
}

/// A resolved list is never empty when the catalog is valid: the
/// built-in catalog is the guaranteed floor, whatever the overlay and
/// the auth mode.
pub proof fn lemma_resolved_nonempty(
    builtin: Seq<PresetView>,
    remote: Option<Seq<PresetView>>,
    auth: Option<AuthMode>,
)
    requires
        catalog_ok(builtin),
    ensures
        spec_resolve(builtin, remote, auth).len() >= 1,
{
    lemma_resolved_one_default(builtin, remote, auth);
    lemma_default_count_bounds(spec_resolve(builtin, remote, auth));
}

/// When every entry of a catalog is supported in the API, no auth mode
/// filters anything: resolving with no remote overlay returns the
/// catalog exactly.
pub proof fn lemma_fallback_is_builtin(builtin: Seq<PresetView>, auth: Option<AuthMode>)
    requires
        forall|i: int| 0 <= i < builtin.len() ==> (#[trigger] builtin[i]).supported_in_api,
    ensures
        spec_resolve(builtin, None, auth) == builtin,
    decreases builtin.len(),
{
    if builtin.len() == 0 {
        assert(spec_auth_filter(builtin, auth) =~= builtin);
    } else {
        let s0 = builtin.drop_last();
        assert forall|i: int| 0 <= i < s0.len() implies
            (#[trigger] s0[i]).supported_in_api by {
            assert(s0[i] == builtin[i]);
        }
        lemma_fallback_is_builtin(s0, auth);
        assert(spec_visible(builtin.last(), auth));
        assert(spec_auth_filter(builtin, auth) =~= builtin);
    }
}

/// The appended form of a remote-only entry: the same preset with the
/// default flag cleared.
pub fn sanitize_preset(p: &ModelPreset) -> (q: ModelPreset)
    ensures
        q@ == spec_sanitize(p@),
{
    let mut q = clone_preset(p);
    q.is_default = false;
    q
}

/// Merge a remote overlay into the built-in list: built-in entries
/// first, in order and unchanged, then each well-formed remote entry
/// whose id is new, in remote order, with its default flag cleared.
pub fn merge_presets(builtin: &Vec<ModelPreset>, remote: &Vec<ModelPreset>) -> (r: Vec<ModelPreset>)
    ensures
        views(r@) == spec_merge(views(builtin@), views(remote@)),
{
    let mut out = clone_presets(builtin);
    let mut j: usize = 0;
    while j < remote.len()
        invariant
            j <= remote.len(),
            views(out@) == spec_merge(views(builtin@), views(remote@).take(j as int)),
        decreases remote.len() - j,
    {
        let ghost taken = views(remote@).take(j as int);
        let ghost taken1 = views(remote@).take(j + 1);
        proof {
            assert(taken1.drop_last() =~= taken);
            assert(taken1.last() == views(remote@)[j as int]);
        }
        let p = &remote[j];
        if preset_wf_exec(p) && !has_id_exec(&out, &p.id) {
            let q = sanitize_preset(p);
            out.push(q);
            proof {
                assert(views(out@) =~= spec_merge(views(builtin@), taken).push(spec_sanitize(p@)));
            }
        }
        j += 1;
    }
    proof {
        assert(views(remote@).take(remote@.len() as int) =~= views(remote@));
    }
    out
}

/// Keep the entries visible under `auth`, in order.
pub fn auth_filter(s: &Vec<ModelPreset>, auth: Option<AuthMode>) -> (r: Vec<ModelPreset>)
    ensures
        views(r@) == spec_auth_filter(views(s@), auth),
{
    let mut out: Vec<ModelPreset> = Vec::new();
    let mut i: usize = 0;
    while i < s.len()
        invariant
            i <= s.len(),
            views(out@) == spec_auth_filter(views(s@).take(i as int), auth),
        decreases s.len() - i,
    {
        let ghost taken = views(s@).take(i as int);
        let ghost taken1 = views(s@).take(i + 1);
        proof {
            assert(taken1.drop_last() =~= taken);
            assert(taken1.last() == views(s@)[i as int]);
        }
        let visible = match auth {
            Some(AuthMode::ApiKey) => s[i].supported_in_api,
            _ => true,
        };
        if visible {
            out.push(clone_preset(&s[i]));
            proof {
                assert(views(out@) =~= spec_auth_filter(taken, auth).push(s@[i as int]@));
            }
        }
        i += 1;
    }
    proof {
        assert(views(s@).take(s@.len() as int) =~= views(s@));
    }
    out
}

/// The views of an optional remote overlay.
pub open spec fn overlay_views(o: Option<Vec<ModelPreset>>) -> Option<Seq<PresetView>> {
    match o {
        Some(v) => Some(views(v@)),
        None => None,
    }
}

/// Resolve a catalog against an optional remote overlay and an auth
/// mode.  The result always satisfies the three resolved-list
/// invariants when the catalog is valid.
pub fn resolve_presets(
    builtin: &Vec<ModelPreset>,
    remote: &Option<Vec<ModelPreset>>,
    auth: Option<AuthMode>,
) -> (r: Vec<ModelPreset>)
    ensures
        views(r@) == spec_resolve(views(builtin@), overlay_views(*remote), auth),
        catalog_ok(views(builtin@)) ==> resolved_ok(views(r@)),
{
    let r = match remote {
        Some(overlay) => {
            let merged = merge_presets(builtin, overlay);
            auth_filter(&merged, auth)
        },
        None => auth_filter(builtin, auth),
    };
    proof {
        if catalog_ok(views(builtin@)) {
            lemma_resolve_ok(views(builtin@), overlay_views(*remote), auth);
        }
    }
    r
}

} // verus!
