//! Model selection: `provider@model` ids and their validation against the
//! configured providers and profiles.
use vstd::prelude::*;
use crate::diff_ranges::index_of;
use crate::edits::string_eq;
use crate::text::{chars_of, push_all, string_of};

verus! {

/// Reasoning effort tiers of the backend.
#[derive(Clone, Copy, Debug, PartialEq, Eq, Structural)]
pub enum ReasoningEffort {
    Minimal,
    Low,
    Medium,
    High,
}

/// Provider, model name, and the reasoning effort that goes with them.
pub struct ModelContext {
    pub provider_id: String,
    pub model_name: String,
    pub effort: Option<ReasoningEffort>,
}

pub open spec fn model_id_of(provider: Seq<char>, model: Seq<char>) -> Seq<char> {
    provider + seq!['@'] + model
}

impl ModelContext {
    /// The `provider@model` id.
    pub fn to_model_id(&self) -> (r: String)
        ensures
            r@ == model_id_of(self.provider_id@, self.model_name@),
    {
        let mut v = chars_of(self.provider_id.as_str());
        v.push('@');
        push_all(&mut v, &chars_of(self.model_name.as_str()));
        string_of(&v)
    }
}

/// The model settings of a configuration profile.
pub struct ModelProfile {
    pub model: Option<String>,
    pub model_provider: Option<String>,
    pub effort: Option<ReasoningEffort>,
}

/// The two parts of `id` around its only `@`; `None` unless exactly one `@` occurs.
pub open spec fn split_model_id(id: Seq<char>) -> Option<(Seq<char>, Seq<char>)> {
    match index_of(id, '@') {
        None => None,
        Some(i) => {
            let rest = id.subrange(i + 1, id.len() as int);
            if index_of(rest, '@') is Some {
                None
            } else {
                Some((id.subrange(0, i), rest))
            }
        },
    }
}

pub open spec fn has_provider(providers: Seq<String>, p: Seq<char>) -> bool {
    exists|i: int| 0 <= i < providers.len() && providers[i]@ == p
}

pub open spec fn profile_matches(pr: ModelProfile, provider: Seq<char>, model: Seq<char>) -> bool {
    (pr.model matches Some(m) && m@ == model) && (pr.model_provider matches Some(p) && p@ == provider)
}

/// Index of the first profile naming `provider@model`.
pub open spec fn first_profile(ps: Seq<ModelProfile>, provider: Seq<char>, model: Seq<char>) -> Option<int>
    decreases ps.len(),
{
    if ps.len() == 0 {
        None
    } else {
        match first_profile(ps.drop_last(), provider, model) {
            Some(i) => Some(i),
            None => if profile_matches(ps.last(), provider, model) {
                Some(ps.len() - 1)
            } else {
                None
            },
        }
    }
}

/// The validated selection for `id`: its provider must be configured, and
/// the pair must be the current one (keeping the current effort) or named
/// by a profile (taking the first such profile's effort).
pub open spec fn validated_model(
    providers: Seq<String>,
    current: ModelContext,
    profiles: Seq<ModelProfile>,
    id: Seq<char>,
) -> Option<(Seq<char>, Seq<char>, Option<ReasoningEffort>)> {
    match split_model_id(id) {
        None => None,
        Some((p, m)) => if !has_provider(providers, p) {
            None
        } else if p == current.provider_id@ && m == current.model_name@ {
            Some((p, m, current.effort))
        } else {
            match first_profile(profiles, p, m) {
                Some(i) => Some((p, m, profiles[i].effort)),
                None => None,
            }
        },
    }
}

proof fn lemma_first_profile(ps: Seq<ModelProfile>, provider: Seq<char>, model: Seq<char>)
    ensures
        first_profile(ps, provider, model) matches Some(i) ==> 0 <= i < ps.len() && profile_matches(
            ps[i],
            provider,
            model,
        ) && forall|j: int| 0 <= j < i ==> !profile_matches(ps[j], provider, model),
        first_profile(ps, provider, model) is None ==> forall|j: int|
            0 <= j < ps.len() ==> !profile_matches(ps[j], provider, model),
    decreases ps.len(),
{
    if ps.len() > 0 {
        lemma_first_profile(ps.drop_last(), provider, model);
        assert forall|j: int| 0 <= j < ps.len() - 1 implies ps.drop_last()[j] == ps[j] by {}
    }
}

fn opt_str_eq(o: &Option<String>, s: &str) -> (r: bool)
    ensures
        r == (o matches Some(x) && x@ == s@),
{
    match o {
        Some(x) => string_eq(x, s),
        None => false,
    }
}

fn split_at_char(v: &Vec<char>, a: usize, b: usize) -> (r: String)
    requires
        a <= b <= v@.len(),
    ensures
        r@ == v@.subrange(a as int, b as int),
{
    let mut out: Vec<char> = Vec::new();
    crate::text::push_range(&mut out, v, a, b);
    string_of(&out)
}

/// Parses and validates a `provider@model` id; see `validated_model`.
pub fn parse_and_validate_model(
    providers: &[String],
    current: &ModelContext,
    profiles: &[ModelProfile],
    model_id: &str,
) -> (r: Option<ModelContext>)
    ensures
        match validated_model(providers@, *current, profiles@, model_id@) {
            None => r is None,
            Some((p, m, e)) => r matches Some(c) && c.provider_id@ == p && c.model_name@ == m
                && c.effort == e,
        },
{
    let v = chars_of(model_id);
    let n = v.len();
    let mut i: usize = 0;
    while i < n && v[i] != '@'
        invariant
            n == v@.len(),
            i <= n,
            forall|k: int| 0 <= k < i ==> v@[k] != '@',
        decreases n - i,
    {
        i = i + 1;
    }
    proof {
        crate::diff_ranges::lemma_index_of(v@, '@');
    }
    if i == n {
        return None;
    }
    let mut j: usize = i + 1;
    while j < n && v[j] != '@'
        invariant
            n == v@.len(),
            i < j <= n,
            forall|k: int| i < k < j ==> v@[k] != '@',
        decreases n - j,
    {
        j = j + 1;
    }
    let ghost rest = v@.subrange(i + 1, n as int);
    proof {
        crate::diff_ranges::lemma_index_of(rest, '@');
        if j < n {
            assert(rest[j - i - 1] == '@');
        } else {
            assert forall|k: int| 0 <= k < rest.len() implies rest[k] != '@' by {
                assert(rest[k] == v@[i + 1 + k]);
            }
        }
    }
    if j < n {
        return None;
    }
    let provider_id = split_at_char(&v, 0, i);
    let model_name = split_at_char(&v, i + 1, n);
    proof {
        assert(v@[i as int] == '@');
        match index_of(v@, '@') {
            None => {
                assert(v@[i as int] != '@');
            },
            Some(x) => {
                if x < i {
                    assert(v@[x] != '@');
                } else if x > i {
                    assert(v@[i as int] != '@');
                }
            },
        }
        assert(split_model_id(model_id@) == Some((provider_id@, model_name@)));
    }
    let mut found = false;
    let mut k: usize = 0;
    while k < providers.len()
        invariant
            k <= providers@.len(),
            !found ==> forall|q: int| 0 <= q < k ==> providers@[q]@ != provider_id@,
            found ==> has_provider(providers@, provider_id@),
        decreases providers@.len() - k,
    {
        if string_eq(&providers[k], provider_id.as_str()) {
            found = true;
        }
        k = k + 1;
    }
    if !found {
        return None;
    }
    if string_eq(&current.provider_id, provider_id.as_str()) && string_eq(&current.model_name, model_name.as_str()) {
        return Some(ModelContext { provider_id, model_name, effort: current.effort });
    }
    proof {
        lemma_first_profile(profiles@, provider_id@, model_name@);
    }
    let mut q: usize = 0;
    while q < profiles.len()
        invariant
            q <= profiles@.len(),
            split_model_id(model_id@) == Some((provider_id@, model_name@)),
            has_provider(providers@, provider_id@),
            !(provider_id@ == current.provider_id@ && model_name@ == current.model_name@),
            forall|x: int| 0 <= x < q ==> !profile_matches(profiles@[x], provider_id@, model_name@),
        decreases profiles@.len() - q,
    {
        let pr = &profiles[q];
        if opt_str_eq(&pr.model, model_name.as_str()) && opt_str_eq(&pr.model_provider, provider_id.as_str()) {
            proof {
                lemma_first_profile(profiles@, provider_id@, model_name@);
                let f = first_profile(profiles@, provider_id@, model_name@);
                if f != Some(q as int) {
                    if f is Some {
                        let fi = f->0;
                        assert(fi < q ==> !profile_matches(profiles@[fi], provider_id@, model_name@));
                    }
                }
            }
            return Some(ModelContext { provider_id, model_name, effort: pr.effort });
        }
        q = q + 1;
    }
    None
}

/// A configured provider: its id and display name.
pub struct ProviderInfo {
    pub id: String,
    pub name: String,
}

/// A model offered to the client.
pub struct ModelInfo {
    pub model_id: String,
    pub name: String,
    pub description: String,
}

/// Display name of the first provider with id `p`.
pub open spec fn provider_name(providers: Seq<ProviderInfo>, p: Seq<char>) -> Option<Seq<char>>
    decreases providers.len(),
{
    if providers.len() == 0 {
        None
    } else {
        match provider_name(providers.drop_last(), p) {
            Some(n) => Some(n),
            None => if providers.last().id@ == p {
                Some(providers.last().name@)
            } else {
                None
            },
        }
    }
}

/// Id, name and description under which a custom provider's model is offered.
pub open spec fn offered(providers: Seq<ProviderInfo>, provider: Seq<char>, model: Seq<char>) -> Option<(Seq<char>, Seq<char>, Seq<char>)> {
    if provider == "openai"@ {
        None
    } else {
        match provider_name(providers, provider) {
            None => None,
            Some(n) => Some((
                model_id_of(provider, model),
                n + seq!['@'] + model,
                "Provider: "@ + n + ", Model: "@ + model,
            )),
        }
    }
}

/// The provider and model each profile names, when it names both.
pub open spec fn profile_pairs(ps: Seq<ModelProfile>) -> Seq<(Seq<char>, Seq<char>)>
    decreases ps.len(),
{
    if ps.len() == 0 {
        Seq::empty()
    } else {
        let prev = profile_pairs(ps.drop_last());
        match (ps.last().model_provider, ps.last().model) {
            (Some(p), Some(m)) => prev.push((p@, m@)),
            _ => prev,
        }
    }
}

/// The models offered for `pairs`, in order, each id once.
pub open spec fn offered_models(providers: Seq<ProviderInfo>, pairs: Seq<(Seq<char>, Seq<char>)>) -> Seq<(Seq<char>, Seq<char>, Seq<char>)>
    decreases pairs.len(),
{
    if pairs.len() == 0 {
        Seq::empty()
    } else {
        let prev = offered_models(providers, pairs.drop_last());
        match offered(providers, pairs.last().0, pairs.last().1) {
            Some(o) => if (exists|i: int| 0 <= i < prev.len() && prev[i].0 == o.0) {
                prev
            } else {
                prev.push(o)
            },
            None => prev,
        }
    }
}

pub open spec fn model_infos_view(v: Seq<ModelInfo>) -> Seq<(Seq<char>, Seq<char>, Seq<char>)> {
    v.map_values(|m: ModelInfo| (m.model_id@, m.name@, m.description@))
}

fn provider_name_exec(providers: &[ProviderInfo], p: &str) -> (r: Option<String>)
    ensures
        match provider_name(providers@, p@) {
            Some(n) => r matches Some(x) && x@ == n,
            None => r is None,
        },
{
    proof {
        lemma_provider_name_from(providers@, p@);
    }
    let n = providers.len();
    let mut i: usize = 0;
    while i < n
        invariant
            n == providers@.len(),
            i <= n,
            provider_name(providers@, p@) == provider_name_from(providers@, p@, i as int),
        decreases n - i,
    {
        if string_eq(&providers[i].id, p) {
            return Some(providers[i].name.clone());
        }
        i = i + 1;
    }
    None
}

/// `provider_name` over the providers from index `i` on, when none before `i` matched.
pub open spec fn provider_name_from(providers: Seq<ProviderInfo>, p: Seq<char>, i: int) -> Option<Seq<char>>
    decreases providers.len() - i,
{
    if i < 0 || i >= providers.len() {
        None
    } else if providers[i].id@ == p {
        Some(providers[i].name@)
    } else {
        provider_name_from(providers, p, i + 1)
    }
}

proof fn lemma_provider_name_from(providers: Seq<ProviderInfo>, p: Seq<char>)
    ensures
        provider_name(providers, p) == provider_name_from(providers, p, 0),
    decreases providers.len(),
{
    if providers.len() > 0 {
        let prev = providers.drop_last();
        lemma_provider_name_from(prev, p);
        lemma_name_from_extend(prev, providers, p, 0);
    }
}

proof fn lemma_name_from_extend(prev: Seq<ProviderInfo>, all: Seq<ProviderInfo>, p: Seq<char>, i: int)
    requires
        all.len() == prev.len() + 1,
        prev == all.drop_last(),
        0 <= i <= prev.len(),
    ensures
        provider_name_from(all, p, i) == (match provider_name_from(prev, p, i) {
            Some(n) => Some(n),
            None => if all.last().id@ == p {
                Some(all.last().name@)
            } else {
                None
            },
        }),
    decreases prev.len() - i,
{
    if i < prev.len() {
        assert(all[i] == prev[i]);
        lemma_name_from_extend(prev, all, p, i + 1);
    } else {
        assert(all[i] == all.last());
        assert(provider_name_from(all, p, i + 1) is None);
        assert(provider_name_from(prev, p, i) is None);
    }
}

fn offered_exec(providers: &[ProviderInfo], provider: &str, model: &str) -> (r: Option<ModelInfo>)
    ensures
        match offered(providers@, provider@, model@) {
            Some(o) => r matches Some(m) && (m.model_id@, m.name@, m.description@) == o,
            None => r is None,
        },
{
    if !crate::session::is_custom_provider(provider) {
        return None;
    }
    proof {
        lemma_provider_name_from(providers@, provider@);
    }
    let n = match provider_name_exec(providers, provider) {
        None => {
            return None;
        },
        Some(n) => n,
    };
    let mut id = chars_of(provider);
    id.push('@');
    push_all(&mut id, &chars_of(model));
    let mut name = chars_of(n.as_str());
    name.push('@');
    push_all(&mut name, &chars_of(model));
    let mut desc = chars_of("Provider: ");
    push_all(&mut desc, &chars_of(n.as_str()));
    push_all(&mut desc, &chars_of(", Model: "));
    push_all(&mut desc, &chars_of(model));
    Some(ModelInfo { model_id: string_of(&id), name: string_of(&name), description: string_of(&desc) })
}

pub open spec fn pairs_view(v: Seq<(String, String)>) -> Seq<(Seq<char>, Seq<char>)> {
    v.map_values(|x: (String, String)| (x.0@, x.1@))
}

/// The models offered to the client: the current model, then each model
/// that a profile names, keeping only configured custom providers and the
/// first occurrence of each id.
pub fn available_models_from_profiles(
    providers: &[ProviderInfo],
    current: &ModelContext,
    profiles: &[ModelProfile],
) -> (r: Vec<ModelInfo>)
    ensures
        model_infos_view(r@) == offered_models(
            providers@,
            seq![(current.provider_id@, current.model_name@)] + profile_pairs(profiles@),
        ),
{
    let mut pairs: Vec<(String, String)> = Vec::new();
    pairs.push((current.provider_id.clone(), current.model_name.clone()));
    assert(pairs_view(pairs@) =~= seq![(current.provider_id@, current.model_name@)] + profile_pairs(profiles@.subrange(0, 0)));
    let n = profiles.len();
    let mut k: usize = 0;
    while k < n
        invariant
            n == profiles@.len(),
            k <= n,
            pairs_view(pairs@) == seq![(current.provider_id@, current.model_name@)] + profile_pairs(profiles@.subrange(0, k as int)),
        decreases n - k,
    {
        let pr = &profiles[k];
        let ghost before = pairs_view(pairs@);
        assert(profiles@.subrange(0, k + 1).drop_last() =~= profiles@.subrange(0, k as int));
        match (&pr.model_provider, &pr.model) {
            (Some(p), Some(m)) => {
                pairs.push((p.clone(), m.clone()));
                assert(pairs_view(pairs@) =~= before.push((p@, m@)));
            },
            _ => {},
        }
        k = k + 1;
    }
    assert(profiles@.subrange(0, n as int) =~= profiles@);
    let ghost all = pairs_view(pairs@);
    let mut out: Vec<ModelInfo> = Vec::new();
    let m = pairs.len();
    let mut i: usize = 0;
    assert(all.subrange(0, 0) =~= Seq::<(Seq<char>, Seq<char>)>::empty());
    while i < m
        invariant
            m == pairs@.len() == all.len(),
            all == pairs_view(pairs@),
            i <= m,
            model_infos_view(out@) == offered_models(providers@, all.subrange(0, i as int)),
        decreases m - i,
    {
        let ghost sub = all.subrange(0, i + 1);
        assert(sub.drop_last() =~= all.subrange(0, i as int));
        assert(sub.last() == all[i as int]);
        let (p, md) = &pairs[i];
        assert(all[i as int] == (p@, md@));
        if let Some(info) = offered_exec(providers, p.as_str(), md.as_str()) {
            let ghost prev = model_infos_view(out@);
            let mut dup = false;
            let mut j: usize = 0;
            while j < out.len()
                invariant
                    j <= out@.len(),
                    prev == model_infos_view(out@),
                    !dup ==> forall|q: int| 0 <= q < j ==> prev[q].0 != info.model_id@,
                    dup ==> exists|q: int| 0 <= q < prev.len() && prev[q].0 == info.model_id@,
                decreases out@.len() - j,
            {
                if string_eq(&out[j].model_id, info.model_id.as_str()) {
                    assert(prev[j as int].0 == out@[j as int].model_id@);
                    dup = true;
                }
                j = j + 1;
            }
            if !dup {
                out.push(info);
                assert(model_infos_view(out@) =~= prev.push((info.model_id@, info.name@, info.description@)));
            }
        }
        i = i + 1;
    }
    assert(all.subrange(0, m as int) =~= all);
    out
}

} // verus!
