//! AI task kinds, upstream protocols, per-model capabilities, task routes and
//! the AI cache key.
use std::collections::hash_map::DefaultHasher;
use std::hash::Hasher;
use vstd::prelude::*;
use vstd::std_specs::hash::DefaultHasherAdditionalSpecFns;
use crate::num::{hex_fixed, push_hex_fixed};
use crate::text::{chars_of, extend_chars, string_from_chars};

verus! {

/// High-level online/offline task kinds used in logs, routing and cache keys.
#[derive(Debug, Clone, Copy, PartialEq, Eq, Hash, Structural)]
pub enum AiTaskType {
    IntentParse,
    RankExplain,
    FeatureExtract,
    Embed,
    GameSummary,
    CompareGames,
    GroupAdvice,
    DataQuality,
}

/// Wire name of a task.
pub open spec fn task_name(t: AiTaskType) -> Seq<char> {
    match t {
        AiTaskType::IntentParse => "intent_parse"@,
        AiTaskType::RankExplain => "rank_explain"@,
        AiTaskType::FeatureExtract => "feature_extract"@,
        AiTaskType::Embed => "embed"@,
        AiTaskType::GameSummary => "game_summary"@,
        AiTaskType::CompareGames => "compare_games"@,
        AiTaskType::GroupAdvice => "group_advice"@,
        AiTaskType::DataQuality => "data_quality"@,
    }
}

impl AiTaskType {
    pub fn as_str(self) -> (r: &'static str)
        ensures
            r@ == task_name(self),
    {
        match self {
            AiTaskType::IntentParse => "intent_parse",
            AiTaskType::RankExplain => "rank_explain",
            AiTaskType::FeatureExtract => "feature_extract",
            AiTaskType::Embed => "embed",
            AiTaskType::GameSummary => "game_summary",
            AiTaskType::CompareGames => "compare_games",
            AiTaskType::GroupAdvice => "group_advice",
            AiTaskType::DataQuality => "data_quality",
        }
    }
}

/// The task a wire name stands for; `rank_analysis` is accepted as an
/// alias of `rank_explain`.
pub open spec fn task_named(s: Seq<char>) -> Option<AiTaskType> {
    if s == "intent_parse"@ {
        Some(AiTaskType::IntentParse)
    } else if s == "rank_explain"@ || s == "rank_analysis"@ {
        Some(AiTaskType::RankExplain)
    } else if s == "feature_extract"@ {
        Some(AiTaskType::FeatureExtract)
    } else if s == "embed"@ {
        Some(AiTaskType::Embed)
    } else if s == "game_summary"@ {
        Some(AiTaskType::GameSummary)
    } else if s == "compare_games"@ {
        Some(AiTaskType::CompareGames)
    } else if s == "group_advice"@ {
        Some(AiTaskType::GroupAdvice)
    } else if s == "data_quality"@ {
        Some(AiTaskType::DataQuality)
    } else {
        None
    }
}

impl AiTaskType {
    /// The task a wire name stands for (see [`task_named`]).
    pub fn from_wire_name(name: &str) -> (r: Option<AiTaskType>)
        ensures
            r == task_named(name@),
    {
        if crate::text::str_eq(name, "intent_parse") {
            Some(AiTaskType::IntentParse)
        } else if crate::text::str_eq(name, "rank_explain") || crate::text::str_eq(name, "rank_analysis") {
            Some(AiTaskType::RankExplain)
        } else if crate::text::str_eq(name, "feature_extract") {
            Some(AiTaskType::FeatureExtract)
        } else if crate::text::str_eq(name, "embed") {
            Some(AiTaskType::Embed)
        } else if crate::text::str_eq(name, "game_summary") {
            Some(AiTaskType::GameSummary)
        } else if crate::text::str_eq(name, "compare_games") {
            Some(AiTaskType::CompareGames)
        } else if crate::text::str_eq(name, "group_advice") {
            Some(AiTaskType::GroupAdvice)
        } else if crate::text::str_eq(name, "data_quality") {
            Some(AiTaskType::DataQuality)
        } else {
            None
        }
    }
}

/// Every task's wire name reads back as the task, and the `rank_analysis`
/// alias reads as `rank_explain`.
pub proof fn lemma_task_names_roundtrip(t: AiTaskType)
    ensures
        task_named(task_name(t)) == Some(t),
        task_named("rank_analysis"@) == Some(AiTaskType::RankExplain),
{
    reveal_strlit("intent_parse");
    reveal_strlit("rank_explain");
    reveal_strlit("rank_analysis");
    reveal_strlit("feature_extract");
    reveal_strlit("embed");
    reveal_strlit("game_summary");
    reveal_strlit("compare_games");
    reveal_strlit("group_advice");
    reveal_strlit("data_quality");
    let n = task_name(t);
    match t {
        AiTaskType::IntentParse => {
        },
        AiTaskType::RankExplain => {
            assert(n[0] != "intent_parse"@[0]);
        },
        AiTaskType::FeatureExtract => {
            assert(n[0] != "intent_parse"@[0]);
            assert(n[0] != "rank_explain"@[0]);
            assert(n[0] != "rank_analysis"@[0]);
        },
        AiTaskType::Embed => {
            assert(n[0] != "intent_parse"@[0]);
            assert(n[0] != "rank_explain"@[0]);
            assert(n[0] != "rank_analysis"@[0]);
            assert(n[0] != "feature_extract"@[0]);
        },
        AiTaskType::GameSummary => {
            assert(n[0] != "intent_parse"@[0]);
            assert(n[0] != "rank_explain"@[0]);
            assert(n[0] != "rank_analysis"@[0]);
            assert(n[0] != "feature_extract"@[0]);
            assert(n[0] != "embed"@[0]);
        },
        AiTaskType::CompareGames => {
            assert(n[0] != "intent_parse"@[0]);
            assert(n[0] != "rank_explain"@[0]);
            assert(n[0] != "rank_analysis"@[0]);
            assert(n[0] != "feature_extract"@[0]);
            assert(n[0] != "embed"@[0]);
            assert(n[0] != "game_summary"@[0]);
        },
        AiTaskType::GroupAdvice => {
            assert(n[0] != "intent_parse"@[0]);
            assert(n[0] != "rank_explain"@[0]);
            assert(n[0] != "rank_analysis"@[0]);
            assert(n[0] != "feature_extract"@[0]);
            assert(n[0] != "embed"@[0]);
            assert(n[1] != "game_summary"@[1]);
            assert(n[0] != "compare_games"@[0]);
        },
        AiTaskType::DataQuality => {
            assert(n[0] != "intent_parse"@[0]);
            assert(n[0] != "rank_explain"@[0]);
            assert(n[0] != "rank_analysis"@[0]);
            assert(n[0] != "feature_extract"@[0]);
            assert(n[0] != "embed"@[0]);
            assert(n[0] != "game_summary"@[0]);
            assert(n[0] != "compare_games"@[0]);
            assert(n[0] != "group_advice"@[0]);
        },
    }
    assert("rank_analysis"@[0] != "intent_parse"@[0]);
    assert("rank_analysis"@[5] != "rank_explain"@[5]);
}

/// Upstream protocol used for structured completions.
#[derive(Debug, Clone, Copy, PartialEq, Eq, Hash, Structural)]
pub enum ApiProtocol {
    ChatCompletions,
    Responses,
}

pub open spec fn protocol_name(p: ApiProtocol) -> Seq<char> {
    match p {
        ApiProtocol::ChatCompletions => "chat_completions"@,
        ApiProtocol::Responses => "responses"@,
    }
}

impl ApiProtocol {
    pub fn as_str(self) -> (r: &'static str)
        ensures
            r@ == protocol_name(self),
    {
        match self {
            ApiProtocol::ChatCompletions => "chat_completions",
            ApiProtocol::Responses => "responses",
        }
    }
}

/// Status returned to clients for AI-enhanced endpoints.
#[derive(Debug, Clone, Copy, PartialEq, Eq, Structural)]
pub enum AiStatus {
    /// Base results returned; AI enhancement still running.
    Pending,
    Used,
    Cached,
    Fallback,
    Disabled,
}

pub open spec fn status_name(s: AiStatus) -> Seq<char> {
    match s {
        AiStatus::Pending => "pending"@,
        AiStatus::Used => "used"@,
        AiStatus::Cached => "cached"@,
        AiStatus::Fallback => "fallback"@,
        AiStatus::Disabled => "disabled"@,
    }
}

impl AiStatus {
    pub fn as_str(self) -> (r: &'static str)
        ensures
            r@ == status_name(self),
    {
        match self {
            AiStatus::Pending => "pending",
            AiStatus::Used => "used",
            AiStatus::Cached => "cached",
            AiStatus::Fallback => "fallback",
            AiStatus::Disabled => "disabled",
        }
    }
}

/// An embedding request item.
#[derive(Debug, Clone, PartialEq)]
pub struct EmbeddingInput {
    pub id: String,
    pub text: String,
}

/// Capability snapshot for meta/runtime decisions.
#[derive(Debug, Clone, PartialEq, Eq)]
pub struct ProviderCapabilities {
    pub name: String,
    pub structured_output: bool,
    pub embeddings: bool,
    pub max_context_tokens: u32,
    pub embedding_dimensions: Option<usize>,
}

/// Per-model capability flags discovered via `/v1/models` and canary probes.
#[derive(Debug, Clone, PartialEq, Eq)]
pub struct ModelCapabilities {
    pub model: String,
    pub chat_completions: bool,
    pub responses: bool,
    pub structured_json: bool,
    pub tool_calling: bool,
    pub streaming: bool,
    pub available: bool,
}

/// Protocols a model should be tried with: Responses first when proven available.
pub open spec fn spec_preferred_protocols(c: ModelCapabilities) -> Seq<ApiProtocol> {
    (if c.responses {
        seq![ApiProtocol::Responses]
    } else {
        Seq::empty()
    }) + (if c.chat_completions {
        seq![ApiProtocol::ChatCompletions]
    } else {
        Seq::empty()
    })
}

impl ModelCapabilities {
    /// A capability row for a model that must not be used.
    pub fn unavailable(model: &str) -> (r: Self)
        ensures
            r.model@ == model@,
            !r.chat_completions && !r.responses && !r.structured_json,
            !r.tool_calling && !r.streaming && !r.available,
    {
        ModelCapabilities {
            model: crate::text::owned(model),
            chat_completions: false,
            responses: false,
            structured_json: false,
            tool_calling: false,
            streaming: false,
            available: false,
        }
    }

    /// Preferred protocols for this model, Responses first when proven available.
    pub fn preferred_protocols(&self) -> (r: Vec<ApiProtocol>)
        ensures
            r@ == spec_preferred_protocols(*self),
    {
        let mut protocols: Vec<ApiProtocol> = Vec::new();
        if self.responses {
            protocols.push(ApiProtocol::Responses);
        }
        if self.chat_completions {
            protocols.push(ApiProtocol::ChatCompletions);
        }
        assert(protocols@ =~= spec_preferred_protocols(*self));
        protocols
    }

    /// A field-for-field copy of this row.
    pub fn duplicate(&self) -> (r: Self)
        ensures
            r == *self,
    {
        ModelCapabilities {
            model: self.model.clone(),
            chat_completions: self.chat_completions,
            responses: self.responses,
            structured_json: self.structured_json,
            tool_calling: self.tool_calling,
            streaming: self.streaming,
            available: self.available,
        }
    }
}

/// Configured route for one AI task: primary model, fallbacks, limits.
#[derive(Debug, Clone, PartialEq)]
pub struct TaskRouteConfig {
    pub task: AiTaskType,
    pub primary_model: String,
    pub fallback_models: Vec<String>,
    /// The protocols to try, in order; when empty, each model's own preference decides.
    pub protocol_preference: Vec<ApiProtocol>,
    /// Deadline, in whole seconds, of each model and protocol attempt.
    pub timeout_secs: u64,
    pub max_output_tokens: u32,
    pub enabled: bool,
    /// Bumped when route policy changes so caches invalidate.
    pub route_version: String,
}

/// `a` and `b` configure the same route.
pub open spec fn same_route(a: TaskRouteConfig, b: TaskRouteConfig) -> bool {
    &&& a.task == b.task
    &&& a.primary_model == b.primary_model
    &&& a.fallback_models@ == b.fallback_models@
    &&& a.protocol_preference@ == b.protocol_preference@
    &&& a.timeout_secs == b.timeout_secs
    &&& a.max_output_tokens == b.max_output_tokens
    &&& a.enabled == b.enabled
    &&& a.route_version == b.route_version
}

/// The views of a list of strings.
pub open spec fn views(v: Seq<String>) -> Seq<Seq<char>> {
    v.map_values(|s: String| s@)
}

/// A copy of each string of `v`, in order.
pub fn copy_strings(v: &Vec<String>) -> (r: Vec<String>)
    ensures
        views(r@) == views(v@),
{
    let mut out: Vec<String> = Vec::new();
    let mut i: usize = 0;
    while i < v.len()
        invariant
            i <= v@.len(),
            out@.len() == i,
            forall|k: int| 0 <= k < i ==> (#[trigger] out@[k])@ == v@[k]@,
        decreases v@.len() - i,
    {
        out.push(v[i].clone());
        i = i + 1;
    }
    assert(views(out@) =~= views(v@));
    out
}

/// The primary model followed by the fallbacks, as configured.
pub open spec fn route_candidates(r: TaskRouteConfig) -> Seq<Seq<char>> {
    seq![r.primary_model@] + views(r.fallback_models@)
}

/// `s` with every element that already occurred earlier removed.
pub open spec fn first_occurrences<A>(s: Seq<A>) -> Seq<A>
    decreases s.len(),
{
    if s.len() == 0 {
        Seq::empty()
    } else {
        let p = first_occurrences(s.drop_last());
        if p.contains(s.last()) {
            p
        } else {
            p.push(s.last())
        }
    }
}

/// `first_occurrences` has no duplicates and holds exactly the elements of its input.
pub proof fn lemma_first_occurrences<A>(s: Seq<A>)
    ensures
        first_occurrences(s).no_duplicates(),
        forall|x: A| first_occurrences(s).contains(x) <==> s.contains(x),
        s.len() > 0 ==> first_occurrences(s).len() > 0 && first_occurrences(s)[0] == s[0],
        first_occurrences(s).len() <= s.len(),
    decreases s.len(),
{
    if s.len() > 0 {
        let p = first_occurrences(s.drop_last());
        lemma_first_occurrences(s.drop_last());
        assert forall|x: A| first_occurrences(s).contains(x) <==> s.contains(x) by {
            let fo = first_occurrences(s);
            if s.contains(x) {
                let i = choose|i: int| 0 <= i < s.len() && s[i] == x;
                if i < s.len() - 1 {
                    assert(s.drop_last()[i] == x);
                    assert(s.drop_last().contains(x));
                    let k = choose|k: int| 0 <= k < p.len() && p[k] == x;
                    if !p.contains(s.last()) {
                        assert(fo[k] == x);
                    }
                } else {
                    if p.contains(s.last()) {
                        assert(fo.contains(x));
                    } else {
                        assert(fo[p.len() as int] == x);
                    }
                }
            }
            if fo.contains(x) {
                if p.contains(x) {
                    assert(s.drop_last().contains(x));
                    let j = choose|j: int| 0 <= j < s.drop_last().len() && s.drop_last()[j] == x;
                    assert(s[j] == x);
                } else {
                    let k = choose|k: int| 0 <= k < fo.len() && fo[k] == x;
                    assert(x == s.last());
                    assert(s[s.len() - 1] == x);
                }
            }
        }
        if s.len() > 1 {
            assert(s.drop_last()[0] == s[0]);
        }
    }
}

fn contains_view(v: &Vec<&str>, x: &str) -> (r: bool)
    ensures
        r == v@.map_values(|s: &str| s@).contains(x@),
{
    let ghost vs = v@.map_values(|s: &str| s@);
    let mut i: usize = 0;
    while i < v.len()
        invariant
            i <= v@.len(),
            vs == v@.map_values(|s: &str| s@),
            forall|k: int| 0 <= k < i ==> vs[k] != x@,
        decreases v@.len() - i,
    {
        if crate::text::str_eq(v[i], x) {
            assert(vs[i as int] == x@);
            return true;
        }
        i = i + 1;
    }
    false
}

impl TaskRouteConfig {
    /// A field-for-field copy of this route.
    pub fn clone_route(&self) -> (r: Self)
        ensures
            same_route(r, *self),
    {
        let mut fallbacks: Vec<String> = Vec::new();
        let mut i: usize = 0;
        while i < self.fallback_models.len()
            invariant
                i <= self.fallback_models@.len(),
                fallbacks@ == self.fallback_models@.take(i as int),
            decreases self.fallback_models@.len() - i,
        {
            fallbacks.push(self.fallback_models[i].clone());
            assert(fallbacks@ =~= self.fallback_models@.take(i as int + 1));
            i = i + 1;
        }
        assert(fallbacks@ =~= self.fallback_models@);
        let mut prefs: Vec<ApiProtocol> = Vec::new();
        let mut j: usize = 0;
        while j < self.protocol_preference.len()
            invariant
                j <= self.protocol_preference@.len(),
                prefs@ == self.protocol_preference@.take(j as int),
            decreases self.protocol_preference@.len() - j,
        {
            prefs.push(self.protocol_preference[j]);
            assert(prefs@ =~= self.protocol_preference@.take(j as int + 1));
            j = j + 1;
        }
        assert(prefs@ =~= self.protocol_preference@);
        TaskRouteConfig {
            task: self.task,
            primary_model: self.primary_model.clone(),
            fallback_models: fallbacks,
            protocol_preference: prefs,
            timeout_secs: self.timeout_secs,
            max_output_tokens: self.max_output_tokens,
            enabled: self.enabled,
            route_version: self.route_version.clone(),
        }
    }

    /// The models to try, in order: the primary, then each fallback that has not
    /// appeared before.
    pub fn model_chain(&self) -> (chain: Vec<&str>)
        ensures
            chain@.map_values(|s: &str| s@) == first_occurrences(route_candidates(*self)),
    {
        let ghost cands = route_candidates(*self);
        let mut chain: Vec<&str> = Vec::new();
        chain.push(self.primary_model.as_str());
        assert(cands.take(1).drop_last() =~= Seq::<Seq<char>>::empty());
        assert(first_occurrences(cands.take(1).drop_last()) =~= Seq::<Seq<char>>::empty());
        assert(cands.take(1).last() == self.primary_model@);
        assert(chain@.map_values(|s: &str| s@) =~= first_occurrences(cands.take(1)));
        let mut i: usize = 0;
        while i < self.fallback_models.len()
            invariant
                i <= self.fallback_models@.len(),
                cands == route_candidates(*self),
                chain@.map_values(|s: &str| s@) == first_occurrences(cands.take(i + 1)),
            decreases self.fallback_models@.len() - i,
        {
            let model = self.fallback_models[i].as_str();
            assert(cands.take(i + 2).drop_last() =~= cands.take(i + 1));
            assert(cands.take(i + 2).last() == model@);
            if !contains_view(&chain, model) {
                chain.push(model);
                assert(chain@.map_values(|s: &str| s@) =~= first_occurrences(cands.take(i + 1)).push(
                    model@,
                ));
            }
            i = i + 1;
        }
        assert(cands.take(self.fallback_models@.len() as int + 1) =~= cands);
        chain
    }
}

/// A character that may stay in a cache key part.
pub open spec fn key_char(c: char) -> char {
    if ('a' <= c && c <= 'z') || ('A' <= c && c <= 'Z') || ('0' <= c && c <= '9') || c == '-'
        || c == '_' || c == '.' {
        c
    } else {
        '_'
    }
}

/// A cache key part: disallowed characters become `_`, at most 64 characters kept.
pub open spec fn sanitize_key_part(s: Seq<char>) -> Seq<char> {
    let mapped = s.map_values(|c: char| key_char(c));
    if mapped.len() <= 64 {
        mapped
    } else {
        mapped.take(64)
    }
}

fn key_char_exec(c: char) -> (r: char)
    ensures
        r == key_char(c),
{
    if ('a' <= c && c <= 'z') || ('A' <= c && c <= 'Z') || ('0' <= c && c <= '9') || c == '-'
        || c == '_' || c == '.' {
        c
    } else {
        '_'
    }
}

fn push_sanitized(out: &mut Vec<char>, s: &str)
    ensures
        final(out)@ == old(out)@ + sanitize_key_part(s@),
{
    let v = chars_of(s);
    let mut i: usize = 0;
    let ghost mapped = s@.map_values(|c: char| key_char(c));
    while i < v.len() && i < 64
        invariant
            v@ == s@,
            i <= v@.len(),
            i <= 64,
            mapped == s@.map_values(|c: char| key_char(c)),
            out@ == old(out)@ + mapped.take(i as int),
        decreases v@.len() - i,
    {
        let c = key_char_exec(v[i]);
        out.push(c);
        assert(mapped.take(i as int + 1) =~= mapped.take(i as int).push(c));
        i = i + 1;
    }
    proof {
        if mapped.len() <= 64 {
            assert(mapped.take(i as int) =~= mapped);
        }
    }
}

/// The byte groups a `DefaultHasher` receives when each text is hashed with
/// `Hash for str`: its UTF-8 bytes, then the terminator byte `0xff`.
pub open spec fn str_hash_writes(parts: Seq<Seq<char>>) -> Seq<Seq<u8>>
    decreases parts.len(),
{
    if parts.len() == 0 {
        Seq::empty()
    } else {
        str_hash_writes(parts.drop_last()).push(vstd::utf8::encode_utf8(parts.last())).push(
            seq![0xffu8],
        )
    }
}

pub(crate) fn hash_str(hasher: &mut DefaultHasher, s: &str, Ghost(prev): Ghost<Seq<Seq<char>>>)
    requires
        old(hasher)@ == str_hash_writes(prev),
    ensures
        final(hasher)@ == str_hash_writes(prev.push(s@)),
{
    let bytes = s.as_bytes();
    hasher.write(bytes);
    let terminator: [u8; 1] = [0xff];
    hasher.write(&terminator);
    assert(prev.push(s@).drop_last() =~= prev);
    assert(terminator@ =~= seq![0xffu8]);
}

pub open spec fn colon() -> Seq<char> {
    seq![':']
}

/// The AI cache key: every dimension that may change an AI answer, the readable
/// parts separated by `:`, ending in the 16-digit hexadecimal `DefaultHasher`
/// digest of all seven inputs.
pub open spec fn spec_ai_cache_key(
    task: AiTaskType,
    model: Seq<char>,
    prompt_version: Seq<char>,
    route_version: Seq<char>,
    data_snapshot_hash: Seq<char>,
    input_hash: Seq<char>,
    preference_hash: Seq<char>,
) -> Seq<char> {
    let digest = DefaultHasher::spec_finish(
        str_hash_writes(
            seq![
                task_name(task),
                model,
                prompt_version,
                route_version,
                data_snapshot_hash,
                input_hash,
                preference_hash,
            ],
        ),
    );
    seq!['a', 'i'] + (colon() + (task_name(task) + (colon() + (sanitize_key_part(model) + (colon()
        + (sanitize_key_part(prompt_version) + (colon() + (sanitize_key_part(route_version) + (
    colon() + hex_fixed(digest as nat, 16))))))))))
}

/// Build a stable AI cache key. Includes every dimension that may change the answer.
pub fn build_ai_cache_key(
    task: AiTaskType,
    model: &str,
    prompt_version: &str,
    route_version: &str,
    data_snapshot_hash: &str,
    input_hash: &str,
    preference_hash: &str,
) -> (key: String)
    ensures
        key@ == spec_ai_cache_key(
            task,
            model@,
            prompt_version@,
            route_version@,
            data_snapshot_hash@,
            input_hash@,
            preference_hash@,
        ),
{
    let mut hasher = DefaultHasher::new();
    let ghost parts: Seq<Seq<char>> = Seq::empty();
    let task_str = task.as_str();
    assert(hasher@ =~= str_hash_writes(parts));
    hash_str(&mut hasher, task_str, Ghost(parts));
    hash_str(&mut hasher, model, Ghost(parts.push(task_str@)));
    hash_str(&mut hasher, prompt_version, Ghost(parts.push(task_str@).push(model@)));
    hash_str(
        &mut hasher,
        route_version,
        Ghost(parts.push(task_str@).push(model@).push(prompt_version@)),
    );
    hash_str(
        &mut hasher,
        data_snapshot_hash,
        Ghost(parts.push(task_str@).push(model@).push(prompt_version@).push(route_version@)),
    );
    hash_str(
        &mut hasher,
        input_hash,
        Ghost(
            parts.push(task_str@).push(model@).push(prompt_version@).push(route_version@).push(
                data_snapshot_hash@,
            ),
        ),
    );
    hash_str(
        &mut hasher,
        preference_hash,
        Ghost(
            parts.push(task_str@).push(model@).push(prompt_version@).push(route_version@).push(
                data_snapshot_hash@,
            ).push(input_hash@),
        ),
    );
    let digest = hasher.finish();
    let ghost all = parts.push(task_str@).push(model@).push(prompt_version@).push(
        route_version@,
    ).push(data_snapshot_hash@).push(input_hash@).push(preference_hash@);
    assert(all =~= seq![
        task_name(task),
        model@,
        prompt_version@,
        route_version@,
        data_snapshot_hash@,
        input_hash@,
        preference_hash@,
    ]);
    let mut out: Vec<char> = Vec::new();
    out.push('a');
    out.push('i');
    out.push(':');
    let t = chars_of(task_str);
    extend_chars(&mut out, t.as_slice());
    out.push(':');
    push_sanitized(&mut out, model);
    out.push(':');
    push_sanitized(&mut out, prompt_version);
    out.push(':');
    push_sanitized(&mut out, route_version);
    out.push(':');
    push_hex_fixed(&mut out, digest, 16);
    assert(out@ =~= spec_ai_cache_key(
        task,
        model@,
        prompt_version@,
        route_version@,
        data_snapshot_hash@,
        input_hash@,
        preference_hash@,
    ));
    string_from_chars(out.as_slice())
}


proof fn lemma_task_names()
    ensures
        forall|t: AiTaskType| !(#[trigger] task_name(t)).contains(':'),
        forall|a: AiTaskType, b: AiTaskType| task_name(a) == task_name(b) ==> a == b,
{
    reveal_strlit("intent_parse");
    reveal_strlit("rank_explain");
    reveal_strlit("feature_extract");
    reveal_strlit("embed");
    reveal_strlit("game_summary");
    reveal_strlit("compare_games");
    reveal_strlit("group_advice");
    reveal_strlit("data_quality");
    assert forall|t: AiTaskType| !(#[trigger] task_name(t)).contains(':') by {
        let n = task_name(t);
        if n.contains(':') {
            let i = choose|i: int| 0 <= i < n.len() && n[i] == ':';
            match t {
                AiTaskType::IntentParse => {},
                AiTaskType::RankExplain => {},
                AiTaskType::FeatureExtract => {},
                AiTaskType::Embed => {},
                AiTaskType::GameSummary => {},
                AiTaskType::CompareGames => {},
                AiTaskType::GroupAdvice => {},
                AiTaskType::DataQuality => {},
            }
        }
    }
    assert forall|a: AiTaskType, b: AiTaskType| task_name(a) == task_name(b) implies a == b by {
        let na = task_name(a);
        let nb = task_name(b);
        assert(na.len() == nb.len());
        assert(na[0] == nb[0]);
        assert(na[na.len() - 1] == nb[nb.len() - 1]);
    }
}

proof fn lemma_sanitized_no_colon(s: Seq<char>)
    ensures
        !sanitize_key_part(s).contains(':'),
{
    let t = sanitize_key_part(s);
    if t.contains(':') {
        let i = choose|i: int| 0 <= i < t.len() && t[i] == ':';
        assert(t[i] == key_char(s[i]));
    }
}

proof fn lemma_hex_no_colon(n: nat, w: nat)
    ensures
        !hex_fixed(n, w).contains(':'),
    decreases w,
{
    if w > 0 {
        lemma_hex_no_colon(n / 16, (w - 1) as nat);
        let h = hex_fixed(n, w);
        let p = hex_fixed(n / 16, (w - 1) as nat);
        if h.contains(':') {
            let i = choose|i: int| 0 <= i < h.len() && h[i] == ':';
            if i < p.len() {
                assert(p[i] == ':');
            } else {
                let d = n % 16;
                assert(h[i] == crate::num::hex_char(d));
            }
        }
    }
}

proof fn lemma_split_at_colon(a1: Seq<char>, r1: Seq<char>, a2: Seq<char>, r2: Seq<char>)
    requires
        !a1.contains(':'),
        !a2.contains(':'),
        a1 + (colon() + r1) == a2 + (colon() + r2),
    ensures
        a1 == a2,
        r1 == r2,
{
    let x = a1 + (colon() + r1);
    let y = a2 + (colon() + r2);
    if a1.len() < a2.len() {
        assert(x[a1.len() as int] == ':');
        assert(y[a1.len() as int] == a2[a1.len() as int]);
        assert(a2.contains(':'));
    }
    if a2.len() < a1.len() {
        assert(y[a2.len() as int] == ':');
        assert(x[a2.len() as int] == a1[a2.len() as int]);
        assert(a1.contains(':'));
    }
    assert(a1 =~= x.take(a1.len() as int));
    assert(a2 =~= y.take(a2.len() as int));
    assert(r1 =~= x.skip(a1.len() as int + 1));
    assert(r2 =~= y.skip(a2.len() as int + 1));
}

/// Cache keys keep the route dimensions apart: two keys are equal only when the
/// task, the sanitized model, the sanitized prompt version and the sanitized
/// route version are all equal (so changing the model or the route changes
/// the key whenever the sanitized text changes).
pub proof fn lemma_cache_key_separates_dimensions(
    task_a: AiTaskType,
    model_a: Seq<char>,
    prompt_a: Seq<char>,
    route_a: Seq<char>,
    snap_a: Seq<char>,
    input_a: Seq<char>,
    pref_a: Seq<char>,
    task_b: AiTaskType,
    model_b: Seq<char>,
    prompt_b: Seq<char>,
    route_b: Seq<char>,
    snap_b: Seq<char>,
    input_b: Seq<char>,
    pref_b: Seq<char>,
)
    requires
        spec_ai_cache_key(task_a, model_a, prompt_a, route_a, snap_a, input_a, pref_a)
            == spec_ai_cache_key(task_b, model_b, prompt_b, route_b, snap_b, input_b, pref_b),
    ensures
        task_a == task_b,
        sanitize_key_part(model_a) == sanitize_key_part(model_b),
        sanitize_key_part(prompt_a) == sanitize_key_part(prompt_b),
        sanitize_key_part(route_a) == sanitize_key_part(route_b),
{
    lemma_task_names();
    lemma_sanitized_no_colon(model_a);
    lemma_sanitized_no_colon(model_b);
    lemma_sanitized_no_colon(prompt_a);
    lemma_sanitized_no_colon(prompt_b);
    lemma_sanitized_no_colon(route_a);
    lemma_sanitized_no_colon(route_b);
    let ka = spec_ai_cache_key(task_a, model_a, prompt_a, route_a, snap_a, input_a, pref_a);
    let kb = spec_ai_cache_key(task_b, model_b, prompt_b, route_b, snap_b, input_b, pref_b);
    let ha = hex_fixed(
        DefaultHasher::spec_finish(
            str_hash_writes(
                seq![task_name(task_a), model_a, prompt_a, route_a, snap_a, input_a, pref_a],
            ),
        ) as nat,
        16,
    );
    let hb = hex_fixed(
        DefaultHasher::spec_finish(
            str_hash_writes(
                seq![task_name(task_b), model_b, prompt_b, route_b, snap_b, input_b, pref_b],
            ),
        ) as nat,
        16,
    );
    let ta = task_name(task_a) + (colon() + (sanitize_key_part(model_a) + (colon() + (
    sanitize_key_part(prompt_a) + (colon() + (sanitize_key_part(route_a) + (colon() + ha)))))));
    let tb = task_name(task_b) + (colon() + (sanitize_key_part(model_b) + (colon() + (
    sanitize_key_part(prompt_b) + (colon() + (sanitize_key_part(route_b) + (colon() + hb)))))));
    assert(ka =~= seq!['a', 'i'] + (colon() + ta));
    assert(kb =~= seq!['a', 'i'] + (colon() + tb));
    assert(ta =~= ka.skip(3));
    assert(tb =~= kb.skip(3));
    let ma = sanitize_key_part(model_a) + (colon() + (sanitize_key_part(prompt_a) + (colon() + (
    sanitize_key_part(route_a) + (colon() + ha)))));
    let mb = sanitize_key_part(model_b) + (colon() + (sanitize_key_part(prompt_b) + (colon() + (
    sanitize_key_part(route_b) + (colon() + hb)))));
    lemma_split_at_colon(task_name(task_a), ma, task_name(task_b), mb);
    let pa = sanitize_key_part(prompt_a) + (colon() + (sanitize_key_part(route_a) + (colon() + ha)));
    let pb = sanitize_key_part(prompt_b) + (colon() + (sanitize_key_part(route_b) + (colon() + hb)));
    lemma_split_at_colon(sanitize_key_part(model_a), pa, sanitize_key_part(model_b), pb);
    let ra = sanitize_key_part(route_a) + (colon() + ha);
    let rb = sanitize_key_part(route_b) + (colon() + hb);
    lemma_split_at_colon(sanitize_key_part(prompt_a), ra, sanitize_key_part(prompt_b), rb);
    lemma_hex_no_colon(
        DefaultHasher::spec_finish(
            str_hash_writes(
                seq![task_name(task_a), model_a, prompt_a, route_a, snap_a, input_a, pref_a],
            ),
        ) as nat,
        16,
    );
    lemma_split_at_colon(sanitize_key_part(route_a), ha, sanitize_key_part(route_b), hb);
}

/// Each task is read back from its wire name, "rank_analysis" also names
/// ranking explanations, and a wire name names only its own task.
pub proof fn lemma_task_wire_names(t: AiTaskType, s: Seq<char>)
    ensures
        task_named(task_name(t)) == Some(t),
        task_named("rank_analysis"@) == Some(AiTaskType::RankExplain),
        task_named(s) matches Some(u) ==> s == task_name(u) || (u == AiTaskType::RankExplain && s == "rank_analysis"@),
{
    reveal_strlit("intent_parse");
    reveal_strlit("rank_explain");
    reveal_strlit("feature_extract");
    reveal_strlit("embed");
    reveal_strlit("game_summary");
    reveal_strlit("compare_games");
    reveal_strlit("group_advice");
    reveal_strlit("data_quality");
    reveal_strlit("rank_analysis");
    let n = task_name(t);
    assert(n.len() >= 5);
    if t == AiTaskType::RankExplain { assert(n[5] == 'e'); }
    if t == AiTaskType::CompareGames { assert(n[0] == 'c'); }
    if t == AiTaskType::GameSummary { assert(n[0] == 'g'); }
    if t == AiTaskType::GroupAdvice { assert(n[0] == 'g' && n[1] == 'r'); }
    if t == AiTaskType::DataQuality { assert(n[0] == 'd'); }
    if t == AiTaskType::IntentParse { assert(n[0] == 'i'); }
    assert("rank_analysis"@[5] == 'a');
}

/// A cache key part keeps at most 64 characters, in order, each an ASCII
/// letter or digit, `-`, `_` or `.` as given and anything else turned into
/// `_`.
pub proof fn lemma_key_part(s: Seq<char>)
    ensures
        sanitize_key_part(s).len() == if s.len() <= 64 { s.len() } else { 64 },
        forall|i: int| 0 <= i < sanitize_key_part(s).len() ==> {
            let c = s[i];
            let ok = ('a' <= c <= 'z') || ('A' <= c <= 'Z') || ('0' <= c <= '9') || c == '-' || c == '_' || c == '.';
            #[trigger] sanitize_key_part(s)[i] == if ok { c } else { '_' }
        },
{
}

/// Every AI cache key starts with "ai:", the task's wire name and ":", and
/// ends with 16 hexadecimal digits after a ":".
pub proof fn lemma_cache_key_prefix(
    task: AiTaskType,
    model: Seq<char>,
    prompt_version: Seq<char>,
    route_version: Seq<char>,
    data_snapshot_hash: Seq<char>,
    input_hash: Seq<char>,
    preference_hash: Seq<char>,
)
    ensures
        ({
            let k = spec_ai_cache_key(task, model, prompt_version, route_version, data_snapshot_hash, input_hash, preference_hash);
            let p = seq!['a', 'i', ':'] + task_name(task) + seq![':'];
            &&& k.len() >= p.len() + 17
            &&& k.subrange(0, p.len() as int) == p
            &&& k[k.len() - 17] == ':'
        }),
{
    let digest = DefaultHasher::spec_finish(
        str_hash_writes(
            seq![
                task_name(task),
                model,
                prompt_version,
                route_version,
                data_snapshot_hash,
                input_hash,
                preference_hash,
            ],
        ),
    );
    crate::num::lemma_hex_fixed_len(digest as nat, 16);
    let k = spec_ai_cache_key(task, model, prompt_version, route_version, data_snapshot_hash, input_hash, preference_hash);
    let p = seq!['a', 'i', ':'] + task_name(task) + seq![':'];
    assert(k.subrange(0, p.len() as int) =~= p);
}

} // verus!
