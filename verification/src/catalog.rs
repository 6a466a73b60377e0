//! The preset catalog: the data model of a model preset, the
//! well-formedness conditions a catalog must satisfy, the immutable
//! built-in catalog, and its validation.

use crate::policy::AuthMode;
use vstd::prelude::*;

verus! {

/// How much reasoning a model applies to a request.
#[derive(Clone, Copy, Debug, PartialEq, Eq, Structural)]
pub enum ReasoningEffort {
    Low,
    Medium,
    High,
}

/// One selectable reasoning-effort level of a preset.
#[derive(Clone, Debug, PartialEq, Eq)]
pub struct ReasoningEffortPreset {
    pub effort: ReasoningEffort,
    pub description: String,
}

/// One model preset as the client sees it.
#[derive(Clone, Debug, PartialEq, Eq)]
pub struct ModelPreset {
    /// Stable, globally unique key of the preset.
    pub id: String,
    /// Provider-facing model identifier.
    pub model: String,
    pub display_name: String,
    pub description: String,
    pub default_reasoning_effort: ReasoningEffort,
    /// Ordered, non-empty, at most one entry per effort level, and it
    /// contains `default_reasoning_effort`.
    pub supported_reasoning_efforts: Vec<ReasoningEffortPreset>,
    pub supports_personality: bool,
    /// Exactly one preset of a resolved list carries `true` here.
    pub is_default: bool,
    /// Optional id of a successor preset.
    pub upgrade: Option<String>,
    pub show_in_picker: bool,
    /// Whether the preset may be served to API-key-authenticated callers.
    pub supported_in_api: bool,
}

/// The mathematical value of a `ModelPreset`: the same fields, with
/// the effort list abstracted to a sequence.
#[verifier::ext_equal]
pub struct PresetView {
    pub id: String,
    pub model: String,
    pub display_name: String,
    pub description: String,
    pub default_reasoning_effort: ReasoningEffort,
    pub supported_reasoning_efforts: Seq<ReasoningEffortPreset>,
    pub supports_personality: bool,
    pub is_default: bool,
    pub upgrade: Option<String>,
    pub show_in_picker: bool,
    pub supported_in_api: bool,
}

impl View for ModelPreset {
    type V = PresetView;

    open spec fn view(&self) -> PresetView {
        PresetView {
            id: self.id,
            model: self.model,
            display_name: self.display_name,
            description: self.description,
            default_reasoning_effort: self.default_reasoning_effort,
            supported_reasoning_efforts: self.supported_reasoning_efforts@,
            supports_personality: self.supports_personality,
            is_default: self.is_default,
            upgrade: self.upgrade,
            show_in_picker: self.show_in_picker,
            supported_in_api: self.supported_in_api,
        }
    }
}

/// The values of a whole preset list.
pub open spec fn views(s: Seq<ModelPreset>) -> Seq<PresetView> {
    Seq::new(s.len(), |i: int| s[i]@)
}

/// Why a catalog failed validation.
#[derive(Clone, Copy, Debug, PartialEq, Eq, Structural)]
pub enum CatalogError {
    /// Two entries share an `id`.
    DuplicateId,
    /// The number of entries with `is_default` set is not exactly one.
    WrongDefaultCount,
    /// Some entry's reasoning-effort list is empty, repeats an effort
    /// level, or omits the entry's default effort.
    IllFormedEfforts,
    /// The default entry would be hidden from API-key callers.
    HiddenDefault,
    /// Some entry's `upgrade` does not reference an `id` of the catalog.
    DanglingUpgrade,
}

/// Whether `s` holds an entry whose id reads `id`.
pub open spec fn has_id(s: Seq<PresetView>, id: Seq<char>) -> bool {
    exists|i: int| 0 <= i < s.len() && s[i].id@ == id
}

/// All ids of `s` are pairwise distinct.
pub open spec fn ids_distinct(s: Seq<PresetView>) -> bool {
    forall|i: int, j: int| 0 <= i < j < s.len() ==> s[i].id@ != s[j].id@
}

/// How many entries of `s` carry `is_default`.
pub open spec fn default_count(s: Seq<PresetView>) -> int
    decreases s.len(),
{
    if s.len() == 0 {
        0
    } else {
        default_count(s.drop_last()) + if s.last().is_default {
            1int
        } else {
            0int
        }
    }
}

/// Effort level `e` occurs in the list `efforts`.
pub open spec fn effort_supported(efforts: Seq<ReasoningEffortPreset>, e: ReasoningEffort) -> bool {
    exists|i: int| 0 <= i < efforts.len() && efforts[i].effort == e
}

/// No effort level occurs twice in `efforts`.
pub open spec fn efforts_distinct(efforts: Seq<ReasoningEffortPreset>) -> bool {
    forall|i: int, j: int| 0 <= i < j < efforts.len() ==> efforts[i].effort != efforts[j].effort
}

/// A single preset is well formed: its effort list is non-empty,
/// repeats no level, and contains the preset's default effort.
pub open spec fn preset_wf(p: PresetView) -> bool {
    &&& p.supported_reasoning_efforts.len() > 0
    &&& efforts_distinct(p.supported_reasoning_efforts)
    &&& effort_supported(p.supported_reasoning_efforts, p.default_reasoning_effort)
}

/// Every preset of `s` is well formed.
pub open spec fn all_wf(s: Seq<PresetView>) -> bool {
    forall|i: int| 0 <= i < s.len() ==> preset_wf(#[trigger] s[i])
}

/// Every default entry of `s` is servable to API-key callers, so the
/// default survives visibility filtering under every auth mode.
pub open spec fn defaults_api_ok(s: Seq<PresetView>) -> bool {
    forall|i: int| 0 <= i < s.len() && (#[trigger] s[i]).is_default ==> s[i].supported_in_api
}

/// Every `upgrade` reference of `s` points at an id present in `s`.
pub open spec fn upgrade_refs_ok(s: Seq<PresetView>) -> bool {
    forall|i: int| 0 <= i < s.len() ==> match (#[trigger] s[i]).upgrade {
        Some(u) => has_id(s, u@),
        None => true,
    }
}

/// A catalog fit to serve from: the startup-time invariant of the
/// built-in data, and the precondition of resolution.
pub open spec fn catalog_ok(s: Seq<PresetView>) -> bool {
    &&& ids_distinct(s)
    &&& default_count(s) == 1
    &&& all_wf(s)
    &&& defaults_api_ok(s)
    &&& upgrade_refs_ok(s)
}

/// The three invariants every resolved list must satisfy: exactly one
/// default, pairwise-distinct ids, well-formed effort lists.
pub open spec fn resolved_ok(s: Seq<PresetView>) -> bool {
    &&& default_count(s) == 1
    &&& ids_distinct(s)
    &&& all_wf(s)
}

/// The shape of the shared reasoning-effort list of the built-in
/// presets: Low, Medium, High, in that order, with fixed descriptions.
pub open spec fn is_default_efforts(efforts: Seq<ReasoningEffortPreset>) -> bool {
    &&& efforts.len() == 3
    &&& efforts[0].effort == ReasoningEffort::Low
    &&& efforts[0].description@ == "Faster responses with lighter reasoning"@
    &&& efforts[1].effort == ReasoningEffort::Medium
    &&& efforts[1].description@ == "Balanced speed and reasoning depth"@
    &&& efforts[2].effort == ReasoningEffort::High
    &&& efforts[2].description@ == "More reasoning for complex problems"@
}

/// The shape of one built-in entry: id, model and display name all
/// read `id`, the default effort is Medium over the standard list, and
/// the remaining flags are fixed.
pub open spec fn is_builtin_entry(
    p: PresetView,
    id: Seq<char>,
    description: Seq<char>,
    is_def: bool,
) -> bool {
    &&& p.id@ == id
    &&& p.model@ == id
    &&& p.display_name@ == id
    &&& p.description@ == description
    &&& p.default_reasoning_effort == ReasoningEffort::Medium
    &&& is_default_efforts(p.supported_reasoning_efforts)
    &&& p.supports_personality
    &&& p.is_default == is_def
    &&& p.upgrade is None
    &&& p.show_in_picker
    &&& p.supported_in_api
}

/// The full content of the built-in catalog: four presets, the first
/// the sole default.
pub open spec fn is_builtin_catalog(s: Seq<PresetView>) -> bool {
    &&& s.len() == 4
    &&& is_builtin_entry(
        s[0],
        "openai/gpt-oss-120b:nitro"@,
        "OpenRouter GPT-OSS 120B (nitro)."@,
        true,
    )
    &&& is_builtin_entry(
        s[1],
        "minimax/minimax-m2.1:nitro"@,
        "OpenRouter Minimax M2.1 (nitro)."@,
        false,
    )
    &&& is_builtin_entry(
        s[2],
        "moonshotai/kimi-k2.5:nitro"@,
        "OpenRouter Kimi K2.5 (nitro)."@,
        false,
    )
    &&& is_builtin_entry(
        s[3],
        "z-ai/glm-4.7:nitro"@,
        "OpenRouter GLM-4.7 (nitro)."@,
        false,
    )
}

/// The built-in catalog is a valid catalog.
pub proof fn lemma_builtin_catalog_ok(s: Seq<PresetView>)
    requires
        is_builtin_catalog(s),
    ensures
        catalog_ok(s),
{
    reveal_strlit("openai/gpt-oss-120b:nitro");
    reveal_strlit("minimax/minimax-m2.1:nitro");
    reveal_strlit("moonshotai/kimi-k2.5:nitro");
    reveal_strlit("z-ai/glm-4.7:nitro");
    assert(s[0].id@.len() == 25);
    assert(s[1].id@.len() == 26);
    assert(s[2].id@.len() == 26);
    assert(s[3].id@.len() == 18);
    assert(s[1].id@[1] == 'i');
    assert(s[2].id@[1] == 'o');
    assert(ids_distinct(s));
    assert(default_count(s) == 1) by {
        reveal_with_fuel(default_count, 5);
        assert(s.drop_last().drop_last().drop_last().drop_last().len() == 0);
    }
    assert forall|i: int| 0 <= i < s.len() implies preset_wf(#[trigger] s[i]) by {
        assert(s[i].supported_reasoning_efforts[1].effort == ReasoningEffort::Medium);
    }
}

/// The shared reasoning-effort list of the built-in presets.
pub fn default_reasoning_efforts() -> (r: Vec<ReasoningEffortPreset>)
    ensures
        is_default_efforts(r@),
{
    let mut v: Vec<ReasoningEffortPreset> = Vec::new();
    v.push(ReasoningEffortPreset {
        effort: ReasoningEffort::Low,
        description: "Faster responses with lighter reasoning".to_owned(),
    });
    v.push(ReasoningEffortPreset {
        effort: ReasoningEffort::Medium,
        description: "Balanced speed and reasoning depth".to_owned(),
    });
    v.push(ReasoningEffortPreset {
        effort: ReasoningEffort::High,
        description: "More reasoning for complex problems".to_owned(),
    });
    v
}

fn builtin_entry(id: &str, description: &str, is_def: bool) -> (p: ModelPreset)
    ensures
        is_builtin_entry(p@, id@, description@, is_def),
{
    ModelPreset {
        id: id.to_owned(),
        model: id.to_owned(),
        display_name: id.to_owned(),
        description: description.to_owned(),
        default_reasoning_effort: ReasoningEffort::Medium,
        supported_reasoning_efforts: default_reasoning_efforts(),
        supports_personality: true,
        is_default: is_def,
        upgrade: None,
        show_in_picker: true,
        supported_in_api: true,
    }
}

/// A copy of one effort entry, equal to the original.
pub fn clone_effort(e: &ReasoningEffortPreset) -> (r: ReasoningEffortPreset)
    ensures
        r == *e,
{
    ReasoningEffortPreset { effort: e.effort, description: e.description.clone() }
}

/// A copy of an effort list with the same entries.
pub fn clone_efforts(v: &Vec<ReasoningEffortPreset>) -> (r: Vec<ReasoningEffortPreset>)
    ensures
        r@ == v@,
{
    let mut out: Vec<ReasoningEffortPreset> = Vec::new();
    let mut i: usize = 0;
    while i < v.len()
        invariant
            i <= v.len(),
            out@ =~= v@.take(i as int),
        decreases v.len() - i,
    {
        out.push(clone_effort(&v[i]));
        proof {
            assert(out@ =~= v@.take(i + 1));
        }
        i += 1;
    }
    proof {
        assert(v@.take(v@.len() as int) =~= v@);
    }
    out
}

/// A copy of one preset with the same value.
pub fn clone_preset(p: &ModelPreset) -> (r: ModelPreset)
    ensures
        r@ == p@,
{
    ModelPreset {
        id: p.id.clone(),
        model: p.model.clone(),
        display_name: p.display_name.clone(),
        description: p.description.clone(),
        default_reasoning_effort: p.default_reasoning_effort,
        supported_reasoning_efforts: clone_efforts(&p.supported_reasoning_efforts),
        supports_personality: p.supports_personality,
        is_default: p.is_default,
        upgrade: match &p.upgrade {
            Some(u) => Some(u.clone()),
            None => None,
        },
        show_in_picker: p.show_in_picker,
        supported_in_api: p.supported_in_api,
    }
}

/// A copy of a preset list with the same values.
pub fn clone_presets(v: &Vec<ModelPreset>) -> (r: Vec<ModelPreset>)
    ensures
        views(r@) == views(v@),
{
    let mut out: Vec<ModelPreset> = Vec::new();
    let mut i: usize = 0;
    while i < v.len()
        invariant
            i <= v.len(),
            views(out@) =~= views(v@).take(i as int),
        decreases v.len() - i,
    {
        let c = clone_preset(&v[i]);
        let ghost out0 = out@;
        out.push(c);
        proof {
            assert(views(out0).len() == out0.len());
            assert(views(out0).len() == i);
            assert(out@ == out0.push(c));
            assert(c@ == v@[i as int]@);
            assert forall|k: int| 0 <= k < i + 1 implies
                views(out@)[k] == views(v@).take(i + 1)[k] by {
                if k < i {
                    assert(out@[k] == out0[k]);
                    assert(views(out0)[k] == views(v@).take(i as int)[k]);
                } else {
                    assert(out@[k] == c);
                }
            }
            assert(views(out@) =~= views(v@).take(i + 1));
        }
        i += 1;
    }
    proof {
        assert(views(out@) =~= views(v@));
    }
    out
}

/// Whether the preset is well formed.
pub fn preset_wf_exec(p: &ModelPreset) -> (b: bool)
    ensures
        b == preset_wf(p@),
{
    let efforts = &p.supported_reasoning_efforts;
    let n = efforts.len();
    if n == 0 {
        return false;
    }
    let mut i: usize = 1;
    while i < n
        invariant
            1 <= i <= n == efforts@.len(),
            efforts@ == p@.supported_reasoning_efforts,
            forall|a: int, b2: int| 0 <= a < b2 < i ==> efforts@[a].effort != efforts@[b2].effort,
        decreases n - i,
    {
        let mut j: usize = 0;
        while j < i
            invariant
                j <= i < n == efforts@.len(),
                efforts@ == p@.supported_reasoning_efforts,
                forall|k: int| 0 <= k < j ==> efforts@[k].effort != efforts@[i as int].effort,
            decreases i - j,
        {
            if efforts[j].effort == efforts[i].effort {
                proof {
                    assert(efforts@[j as int].effort == efforts@[i as int].effort);
                    assert(!efforts_distinct(efforts@));
                }
                return false;
            }
            j += 1;
        }
        proof {
            assert forall|a: int, b2: int| 0 <= a < b2 < i + 1 implies
                efforts@[a].effort != efforts@[b2].effort by {}
        }
        i += 1;
    }
    let mut k: usize = 0;
    while k < n
        invariant
            k <= n == efforts@.len(),
            n > 0,
            efforts@ == p@.supported_reasoning_efforts,
            efforts_distinct(efforts@),
            forall|a: int| 0 <= a < k ==> efforts@[a].effort != p@.default_reasoning_effort,
        decreases n - k,
    {
        if efforts[k].effort == p.default_reasoning_effort {
            assert(effort_supported(efforts@, p@.default_reasoning_effort));
            return true;
        }
        k += 1;
    }
    false
}

/// Validate a catalog against the startup-time invariant, naming the
/// first violated condition: duplicate ids, then default count, then
/// effort lists, then default visibility, then upgrade references.
pub fn validate_catalog(presets: &Vec<ModelPreset>) -> (r: Result<(), CatalogError>)
    ensures
        r is Ok <==> catalog_ok(views(presets@)),
        r == Err::<(), CatalogError>(CatalogError::DuplicateId) <==> !ids_distinct(views(presets@)),
        r == Err::<(), CatalogError>(CatalogError::WrongDefaultCount) <==> ids_distinct(
            views(presets@),
        ) && default_count(views(presets@)) != 1,
        r == Err::<(), CatalogError>(CatalogError::IllFormedEfforts) <==> ids_distinct(
            views(presets@),
        ) && default_count(views(presets@)) == 1 && !all_wf(views(presets@)),
        r == Err::<(), CatalogError>(CatalogError::HiddenDefault) <==> ids_distinct(views(presets@))
            && default_count(views(presets@)) == 1 && all_wf(views(presets@)) && !defaults_api_ok(
            views(presets@),
        ),
        r == Err::<(), CatalogError>(CatalogError::DanglingUpgrade) <==> ids_distinct(
            views(presets@),
        ) && default_count(views(presets@)) == 1 && all_wf(views(presets@)) && defaults_api_ok(
            views(presets@),
        ) && !upgrade_refs_ok(views(presets@)),
{
    let ghost vs = views(presets@);
    let n = presets.len();
    proof {
        assert(vs.len() == n);
    }
    let mut i: usize = 1;
    while i < n
        invariant
            n == presets@.len(),
            vs == views(presets@),
            1 <= i,
            i <= n || i == 1,
            forall|a: int, b2: int| 0 <= a < b2 < i ==> vs[a].id@ != vs[b2].id@,
        decreases n - i,
    {
        let mut j: usize = 0;
        while j < i
            invariant
                j <= i < n == presets@.len(),
                vs == views(presets@),
                forall|k: int| 0 <= k < j ==> vs[k].id@ != vs[i as int].id@,
            decreases i - j,
        {
            if presets[j].id == presets[i].id {
                proof {
                    assert(vs[j as int].id@ == vs[i as int].id@);
                    assert(!ids_distinct(vs));
                }
                return Err(CatalogError::DuplicateId);
            }
            j += 1;
        }
        proof {
            assert forall|a: int, b2: int| 0 <= a < b2 < i + 1 implies vs[a].id@ != vs[b2].id@ by {}
        }
        i += 1;
    }
    assert(ids_distinct(vs));
    let mut defaults: usize = 0;
    let mut k: usize = 0;
    while k < n
        invariant
            k <= n == presets@.len(),
            vs == views(presets@),
            defaults <= k,
            defaults == default_count(vs.take(k as int)),
        decreases n - k,
    {
        proof {
            assert(vs.take(k + 1).drop_last() =~= vs.take(k as int));
            assert(vs.take(k + 1).last() == vs[k as int]);
        }
        if presets[k].is_default {
            defaults += 1;
        }
        k += 1;
    }
    proof {
        assert(vs.take(n as int) =~= vs);
    }
    if defaults != 1 {
        return Err(CatalogError::WrongDefaultCount);
    }
    let mut w: usize = 0;
    while w < n
        invariant
            w <= n == presets@.len(),
            vs == views(presets@),
            forall|a: int| 0 <= a < w ==> preset_wf(#[trigger] vs[a]),
            ids_distinct(vs),
            default_count(vs) == 1,
        decreases n - w,
    {
        if !preset_wf_exec(&presets[w]) {
            proof {
                assert(!preset_wf(vs[w as int]));
            }
            return Err(CatalogError::IllFormedEfforts);
        }
        w += 1;
    }
    assert(all_wf(vs));
    let mut d: usize = 0;
    while d < n
        invariant
            d <= n == presets@.len(),
            vs == views(presets@),
            forall|a: int| 0 <= a < d && (#[trigger] vs[a]).is_default ==> vs[a].supported_in_api,
            ids_distinct(vs),
            default_count(vs) == 1,
            all_wf(vs),
        decreases n - d,
    {
        if presets[d].is_default && !presets[d].supported_in_api {
            proof {
                assert(vs[d as int].is_default && !vs[d as int].supported_in_api);
                assert(!defaults_api_ok(vs));
            }
            return Err(CatalogError::HiddenDefault);
        }
        d += 1;
    }
    assert(defaults_api_ok(vs));
    let mut u: usize = 0;
    while u < n
        invariant
            u <= n == presets@.len(),
            vs == views(presets@),
            forall|a: int| 0 <= a < u ==> match (#[trigger] vs[a]).upgrade {
                Some(t) => has_id(vs, t@),
                None => true,
            },
            ids_distinct(vs),
            default_count(vs) == 1,
            all_wf(vs),
            defaults_api_ok(vs),
        decreases n - u,
    {
        match &presets[u].upgrade {
            Some(target) => {
                if !has_id_exec(presets, target) {
                    proof {
                        assert(vs[u as int].upgrade matches Some(t) && !has_id(vs, t@));
                        assert(!upgrade_refs_ok(vs));
                    }
                    return Err(CatalogError::DanglingUpgrade);
                }
            },
            None => {},
        }
        u += 1;
    }
    assert(upgrade_refs_ok(vs));
    Ok(())
}

/// Whether the list holds an entry with the given id.
pub fn has_id_exec(s: &Vec<ModelPreset>, id: &String) -> (b: bool)
    ensures
        b == has_id(views(s@), id@),
{
    let mut i: usize = 0;
    while i < s.len()
        invariant
            i <= s.len(),
            forall|k: int| 0 <= k < i ==> views(s@)[k].id@ != id@,
        decreases s.len() - i,
    {
        if s[i].id == *id {
            assert(views(s@)[i as int].id@ == id@);
            return true;
        }
        i += 1;
    }
    false
}

/// The built-in presets.  `auth_mode` is accepted for forward
/// compatibility; the current catalog does not vary by it.
pub fn builtin_model_presets(auth_mode: Option<AuthMode>) -> (r: Vec<ModelPreset>)
    ensures
        is_builtin_catalog(views(r@)),
        catalog_ok(views(r@)),
{
    let mut v: Vec<ModelPreset> = Vec::new();
    v.push(builtin_entry(
        "openai/gpt-oss-120b:nitro",
        "OpenRouter GPT-OSS 120B (nitro).",
        true,
    ));
    v.push(builtin_entry(
        "minimax/minimax-m2.1:nitro",
        "OpenRouter Minimax M2.1 (nitro).",
        false,
    ));
    v.push(builtin_entry(
        "moonshotai/kimi-k2.5:nitro",
        "OpenRouter Kimi K2.5 (nitro).",
        false,
    ));
    v.push(builtin_entry(
        "z-ai/glm-4.7:nitro",
        "OpenRouter GLM-4.7 (nitro).",
        false,
    ));
    proof {
        lemma_builtin_catalog_ok(views(v@));
    }
    v
}

/// The full built-in catalog, independent of any auth mode.
pub fn all_model_presets() -> (r: Vec<ModelPreset>)
    ensures
        is_builtin_catalog(views(r@)),
        catalog_ok(views(r@)),
{
    builtin_model_presets(None)
}

} // verus!
