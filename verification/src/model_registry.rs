//! Live model registry: `/v1/models` discovery plus capability canary cache.
//!
//! Models missing from the discovered list are skipped immediately; a registry
//! that has never been populated allows every model, so single-model deploys
//! keep working before the first discovery run.
use std::time::Instant;
use vstd::prelude::*;
use crate::ai_types::{views, ApiProtocol, ModelCapabilities};
use crate::clock::{duration_millis, instant_elapsed, instant_now};

verus! {

/// Time-to-live of a discovered model list, in milliseconds.
pub const DEFAULT_REGISTRY_TTL_MS: u64 = 300_000;

/// The capability rows keyed by model name; a later row for the same model
/// replaces an earlier one.
pub open spec fn caps_map(s: Seq<ModelCapabilities>) -> Map<Seq<char>, ModelCapabilities>
    decreases s.len(),
{
    if s.len() == 0 {
        Map::empty()
    } else {
        caps_map(s.drop_last()).insert(s.last().model@, s.last())
    }
}

/// No two rows name the same model.
pub open spec fn unique_models(s: Seq<ModelCapabilities>) -> bool {
    forall|a: int, b: int|
        0 <= a < s.len() && 0 <= b < s.len() && a != b ==> s[a].model@ != s[b].model@
}

proof fn lemma_caps_map_dom(s: Seq<ModelCapabilities>)
    ensures
        forall|k: Seq<char>|
            caps_map(s).contains_key(k) <==> exists|i: int| 0 <= i < s.len() && s[i].model@ == k,
    decreases s.len(),
{
    if s.len() > 0 {
        lemma_caps_map_dom(s.drop_last());
        assert forall|k: Seq<char>|
            caps_map(s).contains_key(k) <==> exists|i: int|
                0 <= i < s.len() && s[i].model@ == k by {
            if caps_map(s).contains_key(k) && k != s.last().model@ {
                assert(caps_map(s.drop_last()).contains_key(k));
                let i = choose|i: int| 0 <= i < s.drop_last().len() && s.drop_last()[i].model@ == k;
                assert(s[i].model@ == k);
            }
            if exists|i: int| 0 <= i < s.len() && s[i].model@ == k {
                let i = choose|i: int| 0 <= i < s.len() && s[i].model@ == k;
                if i < s.len() - 1 {
                    assert(s.drop_last()[i].model@ == k);
                    assert(caps_map(s.drop_last()).contains_key(k));
                }
            }
        }
    }
}

proof fn lemma_caps_map_value(s: Seq<ModelCapabilities>, i: int)
    requires
        unique_models(s),
        0 <= i < s.len(),
    ensures
        caps_map(s).contains_key(s[i].model@),
        caps_map(s)[s[i].model@] == s[i],
    decreases s.len(),
{
    if i < s.len() - 1 {
        assert(s.drop_last()[i] == s[i]);
        lemma_caps_map_value(s.drop_last(), i);
        assert(s.last().model@ != s[i].model@);
    }
}

proof fn lemma_caps_map_update(s: Seq<ModelCapabilities>, i: int, c: ModelCapabilities)
    requires
        unique_models(s),
        0 <= i < s.len(),
        c.model@ == s[i].model@,
    ensures
        unique_models(s.update(i, c)),
        caps_map(s.update(i, c)) == caps_map(s).insert(c.model@, c),
{
    let t = s.update(i, c);
    lemma_caps_map_dom(s);
    lemma_caps_map_dom(t);
    assert forall|a: int, b: int|
        0 <= a < t.len() && 0 <= b < t.len() && a != b implies t[a].model@ != t[b].model@ by {
        assert(t[a].model@ == s[a].model@);
        assert(t[b].model@ == s[b].model@);
    }
    assert forall|k: Seq<char>|
        #![trigger caps_map(t).contains_key(k)]
        caps_map(t).contains_key(k) implies caps_map(t)[k] == caps_map(s).insert(c.model@, c)[k] by {
        let j = choose|j: int| 0 <= j < t.len() && t[j].model@ == k;
        lemma_caps_map_value(t, j);
        if j != i {
            lemma_caps_map_value(s, j);
        }
    }
    assert forall|k: Seq<char>|
        caps_map(t).contains_key(k) <==> caps_map(s).insert(c.model@, c).contains_key(k) by {
        if caps_map(s).contains_key(k) {
            let j = choose|j: int| 0 <= j < s.len() && s[j].model@ == k;
            assert(t[j].model@ == k);
        }
        if caps_map(t).contains_key(k) {
            let j = choose|j: int| 0 <= j < t.len() && t[j].model@ == k;
            assert(s[j].model@ == k);
        }
    }
    assert(caps_map(t) =~= caps_map(s).insert(c.model@, c));
}

proof fn lemma_caps_map_push(s: Seq<ModelCapabilities>, c: ModelCapabilities)
    requires
        unique_models(s),
        forall|j: int| 0 <= j < s.len() ==> s[j].model@ != c.model@,
    ensures
        unique_models(s.push(c)),
        caps_map(s.push(c)) == caps_map(s).insert(c.model@, c),
{
    assert(s.push(c).drop_last() =~= s);
}

/// One discovery result and when it was taken.
#[derive(Debug)]
struct RegistrySnapshot {
    models: Vec<ModelCapabilities>,
    fetched_at: Instant,
    ttl_ms: u64,
}

/// A snapshot with time-to-live `ttl_ms` is fresh `elapsed_ms` milliseconds
/// after its discovery.
pub open spec fn fresh_after(ttl_ms: u64, elapsed_ms: u128) -> bool {
    elapsed_ms < ttl_ms as u128
}

/// `r` is the freshness of a snapshot with time-to-live `ttl_ms` at some
/// elapsed time: any answer when the time-to-live is positive, `false` when
/// it is zero.
pub open spec fn fresh_at_some_time(ttl_ms: u64, r: bool) -> bool {
    exists|elapsed_ms: u128| r == #[trigger] fresh_after(ttl_ms, elapsed_ms)
}

impl RegistrySnapshot {
    /// Still within its time-to-live, after `elapsed_ms` milliseconds.
    fn is_fresh_after(&self, elapsed_ms: u128) -> (r: bool)
        ensures
            r == (elapsed_ms < self.ttl_ms as u128),
    {
        elapsed_ms < self.ttl_ms as u128
    }

    /// Still within its time-to-live now: the time elapsed since the
    /// discovery, as the clock reports it, is under the time-to-live.
    fn is_fresh(&self) -> (r: bool)
        ensures
            fresh_at_some_time(self.ttl_ms, r),
    {
        let elapsed = instant_elapsed(&self.fetched_at);
        let ms = duration_millis(&elapsed);
        let r = self.is_fresh_after(ms);
        assert(r == fresh_after(self.ttl_ms, ms));
        r
    }

}

/// The position of `model`'s row in `rows`, if it has one.
fn find_model(rows: &Vec<ModelCapabilities>, model: &str) -> (r: Option<usize>)
    ensures
        match r {
            Some(i) => i < rows@.len() && rows@[i as int].model@ == model@,
            None => forall|j: int| 0 <= j < rows@.len() ==> rows@[j].model@ != model@,
        },
{
    let mut i: usize = 0;
    while i < rows.len()
        invariant
            i <= rows@.len(),
            forall|j: int| 0 <= j < i ==> rows@[j].model@ != model@,
        decreases rows@.len() - i,
    {
        if crate::text::str_eq(rows[i].model.as_str(), model) {
            return Some(i);
        }
        i = i + 1;
    }
    None
}

/// In-memory model capability cache shared by the task router.
#[derive(Debug)]
pub struct ModelRegistry {
    inner: Option<RegistrySnapshot>,
}

impl View for ModelRegistry {
    type V = Option<Map<Seq<char>, ModelCapabilities>>;

    /// `None` before the first discovery; otherwise the capability row of each
    /// known model, keyed by model name.
    closed spec fn view(&self) -> Self::V {
        match self.inner {
            None => None,
            Some(snap) => Some(caps_map(snap.models@)),
        }
    }
}

/// A model may be used: the registry was never populated, or it knows the
/// model and marks it available.
pub open spec fn spec_model_allowed(
    view: Option<Map<Seq<char>, ModelCapabilities>>,
    model: Seq<char>,
) -> bool {
    match view {
        None => true,
        Some(m) => m.contains_key(model) && m[model].available,
    }
}

/// The capability row of a model, if the registry knows it.
pub open spec fn spec_lookup(
    view: Option<Map<Seq<char>, ModelCapabilities>>,
    model: Seq<char>,
) -> Option<ModelCapabilities> {
    match view {
        None => None,
        Some(m) => if m.contains_key(model) {
            Some(m[model])
        } else {
            None
        },
    }
}

/// The rows known to a registry view (none before the first discovery).
pub open spec fn known_rows(
    view: Option<Map<Seq<char>, ModelCapabilities>>,
) -> Map<Seq<char>, ModelCapabilities> {
    match view {
        None => Map::empty(),
        Some(m) => m,
    }
}

/// `after` is `before` with `model` marked unavailable: its row keeps the
/// other flags, and a model that was not known gets an all-false row.
pub open spec fn marked_unavailable(
    before: Option<Map<Seq<char>, ModelCapabilities>>,
    after: Option<Map<Seq<char>, ModelCapabilities>>,
    model: Seq<char>,
) -> bool {
    &&& after is Some
    &&& after->0 == known_rows(before).insert(model, after->0[model])
    &&& match spec_lookup(before, model) {
        Some(c0) => after->0[model] == ModelCapabilities { available: false, ..c0 },
        None => {
            let c = after->0[model];
            &&& c.model@ == model
            &&& !c.chat_completions && !c.responses && !c.structured_json
            &&& !c.tool_calling && !c.streaming && !c.available
        },
    }
    &&& !spec_model_allowed(after, model)
}

/// `after` is `before` with a successful answer of `model` over `protocol`
/// recorded: the model is available with structured JSON and that protocol
/// enabled; its other flags are kept (a model that was not known gets them
/// off).
pub open spec fn recorded_success(
    before: Option<Map<Seq<char>, ModelCapabilities>>,
    after: Option<Map<Seq<char>, ModelCapabilities>>,
    model: Seq<char>,
    protocol: ApiProtocol,
) -> bool {
    let c = after->0[model];
    &&& after is Some
    &&& after->0 == known_rows(before).insert(model, c)
    &&& c.model@ == model
    &&& c.available
    &&& c.structured_json
    &&& (protocol == ApiProtocol::ChatCompletions ==> c.chat_completions)
    &&& (protocol == ApiProtocol::Responses ==> c.responses)
    &&& match spec_lookup(before, model) {
        Some(c0) => {
            &&& c.tool_calling == c0.tool_calling
            &&& c.streaming == c0.streaming
            &&& (protocol == ApiProtocol::ChatCompletions ==> c.responses == c0.responses)
            &&& (protocol == ApiProtocol::Responses ==> c.chat_completions == c0.chat_completions)
        },
        None => {
            &&& !c.tool_calling
            &&& !c.streaming
            &&& (protocol == ApiProtocol::ChatCompletions ==> !c.responses)
            &&& (protocol == ApiProtocol::Responses ==> !c.chat_completions)
        },
    }
}

impl ModelRegistry {
    #[verifier::type_invariant]
    spec fn unique(&self) -> bool {
        match self.inner {
            None => true,
            Some(snap) => unique_models(snap.models@),
        }
    }

    /// The time-to-live, in milliseconds, of the current discovery result;
    /// `None` before the first discovery.
    pub closed spec fn time_to_live(self) -> Option<u64> {
        match self.inner {
            None => None,
            Some(snap) => Some(snap.ttl_ms),
        }
    }

    pub fn new() -> (r: Self)
        ensures
            r@ is None,
            r.time_to_live() is None,
    {
        ModelRegistry { inner: None }
    }

    /// Replace the registry with a discovered model list; a later row for the
    /// same model wins. The list is fresh, taken now, for `ttl_ms`
    /// milliseconds.
    pub fn replace_models(&mut self, models: Vec<ModelCapabilities>, ttl_ms: u64)
        ensures
            final(self)@ == Some(caps_map(models@)),
            final(self).time_to_live() == Some(ttl_ms),
    {
        let mut rows: Vec<ModelCapabilities> = Vec::new();
        let mut i: usize = 0;
        while i < models.len()
            invariant
                i <= models@.len(),
                unique_models(rows@),
                caps_map(rows@) == caps_map(models@.take(i as int)),
            decreases models@.len() - i,
        {
            let caps = models[i].duplicate();
            let found = find_model(&rows, caps.model.as_str());
            assert(models@.take(i as int + 1).drop_last() =~= models@.take(i as int));
            match found {
                Some(j) => {
                    proof {
                        lemma_caps_map_update(rows@, j as int, caps);
                    }
                    rows.set(j, caps);
                },
                None => {
                    proof {
                        lemma_caps_map_push(rows@, caps);
                    }
                    rows.push(caps);
                },
            }
            i = i + 1;
        }
        assert(models@.take(models@.len() as int) =~= models@);
        self.inner = Some(RegistrySnapshot { models: rows, fetched_at: instant_now(), ttl_ms });
    }

    /// Seed known-good capabilities without an HTTP round-trip.
    pub fn seed(&mut self, models: Vec<ModelCapabilities>)
        ensures
            final(self)@ == Some(caps_map(models@)),
            final(self).time_to_live() == Some(DEFAULT_REGISTRY_TTL_MS),
    {
        self.replace_models(models, DEFAULT_REGISTRY_TTL_MS);
    }

    /// A discovery result exists and is within its time-to-live: the time the
    /// clock reports as elapsed since the discovery is under the time-to-live.
    /// It is never true before the first discovery, nor with a zero
    /// time-to-live.
    pub fn is_fresh(&self) -> (r: bool)
        ensures
            r ==> self@ is Some,
            match self.time_to_live() {
                None => !r,
                Some(ttl) => fresh_at_some_time(ttl, r),
            },
    {
        match &self.inner {
            None => false,
            Some(snap) => {
                let fresh = snap.is_fresh();
                assert(self.time_to_live() == Some(snap.ttl_ms));
                fresh
            },
        }
    }

    /// The capability row of `model`, if known.
    pub fn get(&self, model: &str) -> (r: Option<ModelCapabilities>)
        ensures
            r == spec_lookup(self@, model@),
    {
        proof {
            use_type_invariant(self);
        }
        match &self.inner {
            None => None,
            Some(snap) => {
                proof {
                    lemma_caps_map_dom(snap.models@);
                }
                match find_model(&snap.models, model) {
                    Some(i) => {
                        proof {
                            lemma_caps_map_value(snap.models@, i as int);
                        }
                        Some(snap.models[i].duplicate())
                    },
                    None => None,
                }
            },
        }
    }

    /// Models that passed discovery and are marked available, each once.
    pub fn available_models(&self) -> (r: Vec<String>)
        ensures
            forall|k: Seq<char>|
                #[trigger] views(r@).contains(k) <==> (self@ is Some
                    && known_rows(self@).contains_key(k) && known_rows(self@)[k].available),
            views(r@).no_duplicates(),
    {
        proof {
            use_type_invariant(self);
        }
        let mut out: Vec<String> = Vec::new();
        match &self.inner {
            None => {
                assert(views(out@) =~= Seq::<Seq<char>>::empty());
            },
            Some(snap) => {
                let ghost rows = snap.models@;
                proof {
                    lemma_caps_map_dom(rows);
                }
                let mut i: usize = 0;
                while i < snap.models.len()
                    invariant
                        rows == snap.models@,
                        unique_models(rows),
                        i <= rows.len(),
                        out@.len() <= i,
                        views(out@).no_duplicates(),
                        forall|k: Seq<char>|
                            views(out@).contains(k) <==> exists|j: int|
                                0 <= j < i && rows[j].model@ == k && rows[j].available,
                    decreases rows.len() - i,
                {
                    let ghost before = views(out@);
                    if snap.models[i].available {
                        out.push(snap.models[i].model.clone());
                        let ghost after = views(out@);
                        assert(after =~= before.push(rows[i as int].model@));
                        assert forall|a: int, b: int|
                            0 <= a < after.len() && 0 <= b < after.len() && a != b implies after[a]
                            != after[b] by {
                            if a == after.len() - 1 || b == after.len() - 1 {
                                let o = if a == after.len() - 1 { b } else { a };
                                let j = choose|j: int|
                                    0 <= j < i && rows[j].model@ == before[o] && rows[j].available;
                                assert(before.contains(before[o]));
                            }
                        }
                        assert forall|k: Seq<char>|
                            after.contains(k) <==> exists|j: int|
                                0 <= j < i + 1 && rows[j].model@ == k && rows[j].available by {
                            if after.contains(k) && !before.contains(k) {
                                let p = choose|p: int| 0 <= p < after.len() && after[p] == k;
                                assert(p == after.len() - 1);
                            }
                            if exists|j: int| 0 <= j < i + 1 && rows[j].model@ == k && rows[j].available {
                                let j = choose|j: int|
                                    0 <= j < i + 1 && rows[j].model@ == k && rows[j].available;
                                if j == i {
                                    assert(after[after.len() - 1] == k);
                                } else {
                                    assert(before.contains(k));
                                    let p = choose|p: int| 0 <= p < before.len() && before[p] == k;
                                    assert(after[p] == k);
                                }
                            }
                        }
                    }
                    i = i + 1;
                }
                proof {
                    assert forall|k: Seq<char>|
                        (exists|j: int| 0 <= j < rows.len() && rows[j].model@ == k && rows[j].available)
                            <==> (caps_map(rows).contains_key(k) && caps_map(rows)[k].available) by {
                        if caps_map(rows).contains_key(k) {
                            let j = choose|j: int| 0 <= j < rows.len() && rows[j].model@ == k;
                            lemma_caps_map_value(rows, j);
                        }
                        if exists|j: int| 0 <= j < rows.len() && rows[j].model@ == k && rows[j].available {
                            let j = choose|j: int|
                                0 <= j < rows.len() && rows[j].model@ == k && rows[j].available;
                            lemma_caps_map_value(rows, j);
                        }
                    }
                }
            },
        }
        out
    }

    /// Whether a model may be used. When the registry has never been populated,
    /// every model is allowed.
    pub fn is_model_allowed(&self, model: &str) -> (r: bool)
        ensures
            r == spec_model_allowed(self@, model@),
    {
        match self.get(model) {
            None => self.inner.is_none(),
            Some(caps) => caps.available,
        }
    }

    /// Mark a model unavailable (e.g. repeated 404 model-not-found); an unknown
    /// model gets an all-false row.
    pub fn mark_unavailable(&mut self, model: &str)
        ensures
            marked_unavailable(old(self)@, final(self)@, model@),
            !spec_model_allowed(final(self)@, model@),
            final(self).time_to_live() == match old(self).time_to_live() {
                Some(t) => Some(t),
                None => Some(DEFAULT_REGISTRY_TTL_MS),
            },
    {
        proof {
            use_type_invariant(&*self);
        }
        let mut taken: Option<RegistrySnapshot> = None;
        std::mem::swap(&mut taken, &mut self.inner);
        match taken {
            Some(snap) => {
                let RegistrySnapshot { models, fetched_at, ttl_ms } = snap;
                let mut rows = models;
                let found = find_model(&rows, model);
                match found {
                    Some(i) => {
                        let mut caps = rows[i].duplicate();
                        caps.available = false;
                        proof {
                            lemma_caps_map_value(rows@, i as int);
                            lemma_caps_map_update(rows@, i as int, caps);
                        }
                        rows.set(i, caps);
                    },
                    None => {
                        let caps = ModelCapabilities::unavailable(model);
                        proof {
                            lemma_caps_map_dom(rows@);
                            lemma_caps_map_push(rows@, caps);
                        }
                        rows.push(caps);
                    },
                }
                self.inner = Some(RegistrySnapshot { models: rows, fetched_at, ttl_ms });
            },
            None => {
                let mut rows: Vec<ModelCapabilities> = Vec::new();
                let caps = ModelCapabilities::unavailable(model);
                proof {
                    lemma_caps_map_push(rows@, caps);
                }
                rows.push(caps);
                self.inner = Some(
                    RegistrySnapshot {
                        models: rows,
                        fetched_at: instant_now(),
                        ttl_ms: DEFAULT_REGISTRY_TTL_MS,
                    },
                );
            },
        }
    }

    /// Record that `model` answered successfully over `protocol`: the model
    /// becomes available with structured JSON and that protocol enabled.
    pub fn record_protocol_success(&mut self, model: &str, protocol: ApiProtocol)
        ensures
            recorded_success(old(self)@, final(self)@, model@, protocol),
            final(self).time_to_live() == match old(self).time_to_live() {
                Some(t) => Some(t),
                None => Some(DEFAULT_REGISTRY_TTL_MS),
            },
    {
        proof {
            use_type_invariant(&*self);
        }
        let mut taken: Option<RegistrySnapshot> = None;
        std::mem::swap(&mut taken, &mut self.inner);
        let (mut rows, fetched_at, ttl_ms) = match taken {
            Some(snap) => {
                let RegistrySnapshot { models, fetched_at, ttl_ms } = snap;
                (models, fetched_at, ttl_ms)
            },
            None => (Vec::new(), instant_now(), DEFAULT_REGISTRY_TTL_MS),
        };
        let ghost start = rows@;
        assert(caps_map(start) == known_rows(old(self)@));
        let found = find_model(&rows, model);
        proof {
            lemma_caps_map_dom(rows@);
        }
        match found {
            Some(i) => {
                let mut caps = rows[i].duplicate();
                caps.available = true;
                caps.structured_json = true;
                match protocol {
                    ApiProtocol::ChatCompletions => caps.chat_completions = true,
                    ApiProtocol::Responses => caps.responses = true,
                }
                proof {
                    lemma_caps_map_value(rows@, i as int);
                    lemma_caps_map_update(rows@, i as int, caps);
                }
                rows.set(i, caps);
            },
            None => {
                let mut caps = ModelCapabilities {
                    model: crate::text::owned(model),
                    chat_completions: false,
                    responses: false,
                    structured_json: true,
                    tool_calling: false,
                    streaming: false,
                    available: true,
                };
                match protocol {
                    ApiProtocol::ChatCompletions => caps.chat_completions = true,
                    ApiProtocol::Responses => caps.responses = true,
                }
                proof {
                    lemma_caps_map_push(rows@, caps);
                }
                rows.push(caps);
            },
        }
        self.inner = Some(RegistrySnapshot { models: rows, fetched_at, ttl_ms });
    }
}

/// Optimistic capabilities for discovered model ids: both protocols and
/// structured JSON assumed, no tools or streaming, available.
pub fn capabilities_from_model_ids(ids: &[&str]) -> (r: Vec<ModelCapabilities>)
    ensures
        r@.len() == ids@.len(),
        forall|i: int|
            0 <= i < ids@.len() ==> {
                &&& (#[trigger] r@[i]).model@ == ids@[i]@
                &&& r@[i].chat_completions && r@[i].responses && r@[i].structured_json
                &&& !r@[i].tool_calling && !r@[i].streaming && r@[i].available
            },
{
    let mut out: Vec<ModelCapabilities> = Vec::new();
    let mut i: usize = 0;
    while i < ids.len()
        invariant
            i <= ids@.len(),
            out@.len() == i,
            forall|j: int|
                0 <= j < i ==> {
                    &&& (#[trigger] out@[j]).model@ == ids@[j]@
                    &&& out@[j].chat_completions && out@[j].responses && out@[j].structured_json
                    &&& !out@[j].tool_calling && !out@[j].streaming && out@[j].available
                },
        decreases ids@.len() - i,
    {
        out.push(
            ModelCapabilities {
                model: crate::text::owned(ids[i]),
                chat_completions: true,
                responses: true,
                structured_json: true,
                tool_calling: false,
                streaming: false,
                available: true,
            },
        );
        i = i + 1;
    }
    out
}

/// Apply a canary probe result onto a capability row. A failed probe disables
/// only the probed protocol, and the model only when no protocol is left; a
/// passed probe enables the protocol and the model.
pub fn apply_canary_result(caps: &mut ModelCapabilities, protocol: ApiProtocol, structured_ok: bool)
    ensures
        final(caps).model == old(caps).model,
        final(caps).tool_calling == old(caps).tool_calling,
        final(caps).streaming == old(caps).streaming,
        final(caps).chat_completions == (if protocol == ApiProtocol::ChatCompletions {
            structured_ok
        } else {
            old(caps).chat_completions
        }),
        final(caps).responses == (if protocol == ApiProtocol::Responses {
            structured_ok
        } else {
            old(caps).responses
        }),
        structured_ok ==> final(caps).available && final(caps).structured_json,
        !structured_ok ==> {
            let left = final(caps).chat_completions || final(caps).responses;
            &&& final(caps).available == (left && old(caps).available)
            &&& final(caps).structured_json == (left && old(caps).structured_json)
        },
{
    if !structured_ok {
        match protocol {
            ApiProtocol::ChatCompletions => caps.chat_completions = false,
            ApiProtocol::Responses => caps.responses = false,
        }
        if !caps.chat_completions && !caps.responses {
            caps.available = false;
            caps.structured_json = false;
        }
        return ;
    }
    caps.available = true;
    caps.structured_json = true;
    match protocol {
        ApiProtocol::ChatCompletions => caps.chat_completions = true,
        ApiProtocol::Responses => caps.responses = true,
    }
}

/// A discovered list is read by model name: a model is known exactly when
/// some row names it, and its row is the last one that does.
pub proof fn lemma_discovered_rows(s: Seq<ModelCapabilities>, j: int)
    ensures
        forall|k: Seq<char>| caps_map(s).contains_key(k) <==> exists|i: int| 0 <= i < s.len() && s[i].model@ == k,
        0 <= j < s.len() && (forall|k: int| j < k < s.len() ==> (#[trigger] s[k]).model@ != s[j].model@)
            ==> caps_map(s)[s[j].model@] == s[j],
    decreases s.len(),
{
    lemma_caps_map_dom(s);
    if s.len() > 0 && 0 <= j < s.len() && (forall|k: int| j < k < s.len() ==> (#[trigger] s[k]).model@ != s[j].model@) {
        if j < s.len() - 1 {
            let p = s.drop_last();
            assert(p[j] == s[j]);
            assert forall|k: int| j < k < p.len() implies (#[trigger] p[k]).model@ != p[j].model@ by {
                assert(p[k] == s[k]);
            }
            lemma_discovered_rows(p, j);
            assert(s[s.len() - 1].model@ != s[j].model@);
        }
    }
}

/// A model may be used when the registry was never populated, and otherwise
/// exactly when the registry knows it and marks it available.
pub proof fn lemma_model_allowed(view: Option<Map<Seq<char>, ModelCapabilities>>, model: Seq<char>)
    ensures
        view is None ==> spec_model_allowed(view, model),
        view matches Some(m) ==> (spec_model_allowed(view, model) <==> m.contains_key(model) && m[model].available),
        spec_lookup(view, model) matches Some(c) ==> view->0.contains_key(model) && c == view->0[model],
{
}

} // verus!
