//! Task-level model routing configuration: the default route table and the
//! rules that apply operator overrides to it.
//!
//! Model names in the defaults are suggestions only; production selection is
//! filtered by the live model registry.
use vstd::prelude::*;
use crate::ai_error::AiError;
use crate::ai_types::{views, AiTaskType, ApiProtocol, TaskRouteConfig};
use crate::num::{parse_u64, parse_unsigned};
use crate::text::{
    ascii_lower, concat, nonempty_trimmed, owned, split_char, split_trimmed_nonempty, str_eq,
    trim, trim_str, to_ascii_lowercase,
};

verus! {

/// Shared route table version. Bump when default policy changes.
pub const DEFAULT_ROUTE_VERSION: &'static str = "m8-route-v6";

pub open spec fn default_route_version() -> Seq<char> {
    "m8-route-v6"@
}

pub open spec fn primary_default_model() -> Seq<char> {
    "grok-4.5"@
}

/// Fallbacks for generation-heavy tasks.
pub open spec fn heavy_fallbacks() -> Seq<Seq<char>> {
    seq!["grok-4.20-0309-non-reasoning"@, "grok-4.20-non-reasoning"@, "grok-4.3"@]
}

/// Fallbacks for reasoning tasks.
pub open spec fn reasoning_fallbacks() -> Seq<Seq<char>> {
    seq!["grok-4.20-0309-non-reasoning"@, "grok-4.20-0309-reasoning"@, "grok-4.3"@]
}

/// Fallbacks, timeout in seconds and output token cap of each default route;
/// `None` for tasks without a default route.
pub open spec fn default_route_shape(t: AiTaskType) -> Option<(Seq<Seq<char>>, u64, u32)> {
    match t {
        AiTaskType::IntentParse => Some((heavy_fallbacks(), 12u64, 512u32)),
        AiTaskType::RankExplain => Some((heavy_fallbacks(), 35u64, 1800u32)),
        AiTaskType::GameSummary => Some((heavy_fallbacks(), 35u64, 2000u32)),
        AiTaskType::CompareGames => Some((reasoning_fallbacks(), 40u64, 2400u32)),
        AiTaskType::GroupAdvice => Some((reasoning_fallbacks(), 40u64, 2000u32)),
        AiTaskType::DataQuality => Some((heavy_fallbacks(), 20u64, 1200u32)),
        _ => None,
    }
}

/// `r` is the default route of its task.
pub open spec fn is_default_route(r: TaskRouteConfig) -> bool {
    match default_route_shape(r.task) {
        Some((fallbacks, timeout_secs, max_output_tokens)) => {
            &&& r.primary_model@ == primary_default_model()
            &&& views(r.fallback_models@) == fallbacks
            &&& r.protocol_preference@ == seq![ApiProtocol::Responses, ApiProtocol::ChatCompletions]
            &&& r.timeout_secs == timeout_secs
            &&& r.max_output_tokens == max_output_tokens
            &&& r.enabled
            &&& r.route_version@ == default_route_version()
        },
        None => false,
    }
}

/// One route per task at most.
#[derive(Debug)]
pub struct TaskRouteTable {
    intent_parse: Option<TaskRouteConfig>,
    rank_explain: Option<TaskRouteConfig>,
    feature_extract: Option<TaskRouteConfig>,
    embed: Option<TaskRouteConfig>,
    game_summary: Option<TaskRouteConfig>,
    compare_games: Option<TaskRouteConfig>,
    group_advice: Option<TaskRouteConfig>,
    data_quality: Option<TaskRouteConfig>,
}

/// The tasks in table order.
pub open spec fn task_order() -> Seq<AiTaskType> {
    seq![
        AiTaskType::IntentParse,
        AiTaskType::RankExplain,
        AiTaskType::FeatureExtract,
        AiTaskType::Embed,
        AiTaskType::GameSummary,
        AiTaskType::CompareGames,
        AiTaskType::GroupAdvice,
        AiTaskType::DataQuality,
    ]
}

impl TaskRouteTable {
    /// The route configured for task `t`.
    pub closed spec fn entry(self, t: AiTaskType) -> Option<TaskRouteConfig> {
        match t {
            AiTaskType::IntentParse => self.intent_parse,
            AiTaskType::RankExplain => self.rank_explain,
            AiTaskType::FeatureExtract => self.feature_extract,
            AiTaskType::Embed => self.embed,
            AiTaskType::GameSummary => self.game_summary,
            AiTaskType::CompareGames => self.compare_games,
            AiTaskType::GroupAdvice => self.group_advice,
            AiTaskType::DataQuality => self.data_quality,
        }
    }

    #[verifier::type_invariant]
    spec fn keyed_by_task(self) -> bool {
        &&& self.intent_parse matches Some(r) ==> r.task == AiTaskType::IntentParse
        &&& self.rank_explain matches Some(r) ==> r.task == AiTaskType::RankExplain
        &&& self.feature_extract matches Some(r) ==> r.task == AiTaskType::FeatureExtract
        &&& self.embed matches Some(r) ==> r.task == AiTaskType::Embed
        &&& self.game_summary matches Some(r) ==> r.task == AiTaskType::GameSummary
        &&& self.compare_games matches Some(r) ==> r.task == AiTaskType::CompareGames
        &&& self.group_advice matches Some(r) ==> r.task == AiTaskType::GroupAdvice
        &&& self.data_quality matches Some(r) ==> r.task == AiTaskType::DataQuality
    }

    /// The configured routes, in task order.
    pub closed spec fn values_spec(self) -> Seq<TaskRouteConfig> {
        present(self.intent_parse) + present(self.rank_explain) + present(self.feature_extract)
            + present(self.embed) + present(self.game_summary) + present(self.compare_games)
            + present(self.group_advice) + present(self.data_quality)
    }

    pub fn new() -> (r: Self)
        ensures
            forall|t: AiTaskType| r.entry(t) is None,
    {
        TaskRouteTable {
            intent_parse: None,
            rank_explain: None,
            feature_extract: None,
            embed: None,
            game_summary: None,
            compare_games: None,
            group_advice: None,
            data_quality: None,
        }
    }

    /// Store `route` under its task, replacing any earlier route for that task.
    pub fn insert(&mut self, route: TaskRouteConfig)
        ensures
            forall|t: AiTaskType|
                #[trigger] final(self).entry(t) == if t == route.task {
                    Some(route)
                } else {
                    old(self).entry(t)
                },
    {
        proof {
            use_type_invariant(&*self);
        }
        match route.task {
            AiTaskType::IntentParse => self.intent_parse = Some(route),
            AiTaskType::RankExplain => self.rank_explain = Some(route),
            AiTaskType::FeatureExtract => self.feature_extract = Some(route),
            AiTaskType::Embed => self.embed = Some(route),
            AiTaskType::GameSummary => self.game_summary = Some(route),
            AiTaskType::CompareGames => self.compare_games = Some(route),
            AiTaskType::GroupAdvice => self.group_advice = Some(route),
            AiTaskType::DataQuality => self.data_quality = Some(route),
        }
    }

    /// Remove and return the route of `task`.
    pub fn take(&mut self, task: AiTaskType) -> (r: Option<TaskRouteConfig>)
        ensures
            r == old(self).entry(task),
            r matches Some(x) ==> x.task == task,
            forall|t: AiTaskType|
                #[trigger] final(self).entry(t) == if t == task {
                    None
                } else {
                    old(self).entry(t)
                },
    {
        proof {
            use_type_invariant(&*self);
        }
        match task {
            AiTaskType::IntentParse => {
                let mut r = None;
                std::mem::swap(&mut r, &mut self.intent_parse);
                r
            },
            AiTaskType::RankExplain => {
                let mut r = None;
                std::mem::swap(&mut r, &mut self.rank_explain);
                r
            },
            AiTaskType::FeatureExtract => {
                let mut r = None;
                std::mem::swap(&mut r, &mut self.feature_extract);
                r
            },
            AiTaskType::Embed => {
                let mut r = None;
                std::mem::swap(&mut r, &mut self.embed);
                r
            },
            AiTaskType::GameSummary => {
                let mut r = None;
                std::mem::swap(&mut r, &mut self.game_summary);
                r
            },
            AiTaskType::CompareGames => {
                let mut r = None;
                std::mem::swap(&mut r, &mut self.compare_games);
                r
            },
            AiTaskType::GroupAdvice => {
                let mut r = None;
                std::mem::swap(&mut r, &mut self.group_advice);
                r
            },
            AiTaskType::DataQuality => {
                let mut r = None;
                std::mem::swap(&mut r, &mut self.data_quality);
                r
            },
        }
    }

    /// A route is configured for `task`.
    pub fn contains_key(&self, task: &AiTaskType) -> (r: bool)
        ensures
            r == self.entry(*task) is Some,
    {
        self.get(task).is_some()
    }

    /// The route configured for `task`.
    pub fn get(&self, task: &AiTaskType) -> (r: Option<&TaskRouteConfig>)
        ensures
            match r {
                Some(x) => self.entry(*task) == Some(*x) && x.task == *task,
                None => self.entry(*task) is None,
            },
    {
        proof {
            use_type_invariant(self);
        }
        match task {
            AiTaskType::IntentParse => self.intent_parse.as_ref(),
            AiTaskType::RankExplain => self.rank_explain.as_ref(),
            AiTaskType::FeatureExtract => self.feature_extract.as_ref(),
            AiTaskType::Embed => self.embed.as_ref(),
            AiTaskType::GameSummary => self.game_summary.as_ref(),
            AiTaskType::CompareGames => self.compare_games.as_ref(),
            AiTaskType::GroupAdvice => self.group_advice.as_ref(),
            AiTaskType::DataQuality => self.data_quality.as_ref(),
        }
    }

    /// The configured routes, in task order.
    pub fn values(&self) -> (r: Vec<&TaskRouteConfig>)
        ensures
            r@.map_values(|x: &TaskRouteConfig| *x) == self.values_spec(),
    {
        let mut out: Vec<&TaskRouteConfig> = Vec::new();
        push_present(&mut out, &self.intent_parse);
        push_present(&mut out, &self.rank_explain);
        push_present(&mut out, &self.feature_extract);
        push_present(&mut out, &self.embed);
        push_present(&mut out, &self.game_summary);
        push_present(&mut out, &self.compare_games);
        push_present(&mut out, &self.group_advice);
        push_present(&mut out, &self.data_quality);
        assert(out@.map_values(|x: &TaskRouteConfig| *x) =~= self.values_spec());
        out
    }
}

fn push_present<'a>(out: &mut Vec<&'a TaskRouteConfig>, o: &'a Option<TaskRouteConfig>)
    ensures
        final(out)@.map_values(|x: &TaskRouteConfig| *x) == old(out)@.map_values(
            |x: &TaskRouteConfig| *x,
        ) + present(*o),
{
    if let Some(x) = o {
        out.push(x);
    }
    assert(out@.map_values(|x: &TaskRouteConfig| *x) =~= old(out)@.map_values(
        |x: &TaskRouteConfig| *x,
    ) + present(*o));
}

/// The route held by an optional slot, as a sequence of zero or one items.
pub open spec fn present(o: Option<TaskRouteConfig>) -> Seq<TaskRouteConfig> {
    match o {
        Some(x) => seq![x],
        None => Seq::empty(),
    }
}

fn owned_strings(names: &[&str]) -> (r: Vec<String>)
    ensures
        views(r@) == names@.map_values(|s: &str| s@),
{
    let mut out: Vec<String> = Vec::new();
    let mut i: usize = 0;
    while i < names.len()
        invariant
            i <= names@.len(),
            out@.len() == i,
            forall|k: int| 0 <= k < i ==> (#[trigger] out@[k])@ == names@[k]@,
        decreases names@.len() - i,
    {
        out.push(owned(names[i]));
        i = i + 1;
    }
    assert(views(out@) =~= names@.map_values(|s: &str| s@));
    out
}

fn heavy() -> (r: Vec<String>)
    ensures
        views(r@) == heavy_fallbacks(),
{
    let names = ["grok-4.20-0309-non-reasoning", "grok-4.20-non-reasoning", "grok-4.3"];
    let r = owned_strings(&names);
    assert(views(r@) =~= heavy_fallbacks());
    r
}

fn reasoning() -> (r: Vec<String>)
    ensures
        views(r@) == reasoning_fallbacks(),
{
    let names = ["grok-4.20-0309-non-reasoning", "grok-4.20-0309-reasoning", "grok-4.3"];
    let r = owned_strings(&names);
    assert(views(r@) =~= reasoning_fallbacks());
    r
}

fn default_route(task: AiTaskType, fallbacks: Vec<String>, timeout_secs: u64, max_output_tokens: u32) -> (r: TaskRouteConfig)
    ensures
        r.task == task,
        r.primary_model@ == primary_default_model(),
        r.fallback_models == fallbacks,
        r.protocol_preference@ == seq![ApiProtocol::Responses, ApiProtocol::ChatCompletions],
        r.timeout_secs == timeout_secs,
        r.max_output_tokens == max_output_tokens,
        r.enabled,
        r.route_version@ == default_route_version(),
{
    let mut protocols: Vec<ApiProtocol> = Vec::new();
    protocols.push(ApiProtocol::Responses);
    protocols.push(ApiProtocol::ChatCompletions);
    assert(protocols@ =~= seq![ApiProtocol::Responses, ApiProtocol::ChatCompletions]);
    TaskRouteConfig {
        task,
        primary_model: owned("grok-4.5"),
        fallback_models: fallbacks,
        protocol_preference: protocols,
        timeout_secs,
        max_output_tokens,
        enabled: true,
        route_version: owned(DEFAULT_ROUTE_VERSION),
    }
}

/// The default multi-model route table: one default route for each online
/// task, none for the rest.
pub fn default_task_routes() -> (r: TaskRouteTable)
    ensures
        forall|t: AiTaskType|
            #[trigger] r.entry(t) matches Some(x) ==> is_default_route(x) && x.task == t,
        forall|t: AiTaskType| r.entry(t) is Some <==> default_route_shape(t) is Some,
        forall|i: int|
            0 <= i < r.values_spec().len() ==> is_default_route(#[trigger] r.values_spec()[i]),
        r.values_spec().len() == 6,
{
    let mut routes = TaskRouteTable::new();
    routes.insert(default_route(AiTaskType::IntentParse, heavy(), 12, 512));
    routes.insert(default_route(AiTaskType::RankExplain, heavy(), 35, 1_800));
    routes.insert(default_route(AiTaskType::GameSummary, heavy(), 35, 2_000));
    routes.insert(default_route(AiTaskType::CompareGames, reasoning(), 40, 2_400));
    routes.insert(default_route(AiTaskType::GroupAdvice, reasoning(), 40, 2_000));
    routes.insert(default_route(AiTaskType::DataQuality, heavy(), 20, 1_200));
    proof {
        let e = |t: AiTaskType| routes.entry(t);
        assert(e(AiTaskType::IntentParse) is Some);
        assert(e(AiTaskType::RankExplain) is Some);
        assert(e(AiTaskType::FeatureExtract) is None);
        assert(e(AiTaskType::Embed) is None);
        assert(e(AiTaskType::GameSummary) is Some);
        assert(e(AiTaskType::CompareGames) is Some);
        assert(e(AiTaskType::GroupAdvice) is Some);
        assert(e(AiTaskType::DataQuality) is Some);
        assert(routes.values_spec() =~= seq![
            e(AiTaskType::IntentParse)->0,
            e(AiTaskType::RankExplain)->0,
            e(AiTaskType::GameSummary)->0,
            e(AiTaskType::CompareGames)->0,
            e(AiTaskType::GroupAdvice)->0,
            e(AiTaskType::DataQuality)->0,
        ]);
    }
    routes
}

/// The environment-variable infix naming a task's overrides.
pub open spec fn task_env_key_spec(t: AiTaskType) -> Seq<char> {
    match t {
        AiTaskType::IntentParse => "INTENT_PARSE"@,
        AiTaskType::RankExplain => "RANK_EXPLAIN"@,
        AiTaskType::FeatureExtract => "FEATURE_EXTRACT"@,
        AiTaskType::Embed => "EMBED"@,
        AiTaskType::GameSummary => "GAME_SUMMARY"@,
        AiTaskType::CompareGames => "COMPARE_GAMES"@,
        AiTaskType::GroupAdvice => "GROUP_ADVICE"@,
        AiTaskType::DataQuality => "DATA_QUALITY"@,
    }
}

pub fn task_env_key(task: AiTaskType) -> (r: &'static str)
    ensures
        r@ == task_env_key_spec(task),
{
    match task {
        AiTaskType::IntentParse => "INTENT_PARSE",
        AiTaskType::RankExplain => "RANK_EXPLAIN",
        AiTaskType::FeatureExtract => "FEATURE_EXTRACT",
        AiTaskType::Embed => "EMBED",
        AiTaskType::GameSummary => "GAME_SUMMARY",
        AiTaskType::CompareGames => "COMPARE_GAMES",
        AiTaskType::GroupAdvice => "GROUP_ADVICE",
        AiTaskType::DataQuality => "DATA_QUALITY",
    }
}

/// The texts that switch multi-model routing off (after trimming and ASCII
/// lower-casing).
pub open spec fn is_off_word(s: Seq<char>) -> bool {
    s == "0"@ || s == "false"@ || s == "no"@ || s == "off"@ || s == "single"@
}

/// The texts that switch a route on (after trimming and ASCII lower-casing).
pub open spec fn is_on_word(s: Seq<char>) -> bool {
    s == "1"@ || s == "true"@ || s == "yes"@ || s == "on"@
}

fn normalized_word(raw: &str) -> (r: String)
    ensures
        r@ == ascii_lower(trim(raw@)),
{
    let t = trim_str(raw);
    to_ascii_lowercase(t.as_str())
}

/// Whether multi-model task routes are enabled, from the value of
/// `MPGS_AI_MULTI_MODEL` (`None` when unset): on unless the value is an off word.
pub fn multi_model_enabled(raw: Option<&str>) -> (r: bool)
    ensures
        r == match raw {
            None => true,
            Some(v) => !is_off_word(ascii_lower(trim(v@))),
        },
{
    match raw {
        None => true,
        Some(v) => {
            let w = normalized_word(v);
            let s = w.as_str();
            !(str_eq(s, "0") || str_eq(s, "false") || str_eq(
                s,
                "no",
            ) || str_eq(s, "off") || str_eq(s, "single"))
        },
    }
}

/// Operator overrides of one route, as read from the environment.
#[derive(Debug)]
pub struct RouteOverride {
    /// `MPGS_AI_ROUTE_<TASK>_MODEL`
    pub model: Option<String>,
    /// `MPGS_AI_ROUTE_<TASK>_FALLBACKS`
    pub fallbacks: Option<String>,
    /// `MPGS_AI_ROUTE_<TASK>_TIMEOUT_SECS`
    pub timeout_secs: Option<String>,
    /// `MPGS_AI_ROUTE_<TASK>_ENABLED`
    pub enabled: Option<String>,
}

/// The tasks that follow the single global model when multi-model routing is off.
pub open spec fn follows_global_model(t: AiTaskType) -> bool {
    t == AiTaskType::IntentParse || t == AiTaskType::RankExplain || t == AiTaskType::CompareGames
        || t == AiTaskType::GroupAdvice || t == AiTaskType::GameSummary
}

/// An override that can be applied: an explicit model is not blank, and an
/// explicit timeout is a decimal integer that fits in 64 bits.
pub open spec fn override_valid(o: RouteOverride) -> bool {
    &&& o.model matches Some(m) ==> trim(m@).len() > 0
    &&& o.timeout_secs matches Some(raw) ==> parse_unsigned(raw@, u64::MAX as nat) is Some
}

/// The configuration error reported for an override that cannot be applied:
/// a blank model is reported before a bad timeout.
pub open spec fn override_error(t: AiTaskType, o: RouteOverride) -> Seq<char> {
    if o.model matches Some(m) && trim(m@).len() == 0 {
        "MPGS_AI_ROUTE_"@ + task_env_key_spec(t) + "_MODEL must not be empty"@
    } else {
        "MPGS_AI_ROUTE_"@ + task_env_key_spec(t) + "_TIMEOUT_SECS must be an integer"@
    }
}

/// A timeout override, clamped to 1..=120 seconds.
pub open spec fn clamp_timeout(v: nat) -> u64 {
    if v < 1 {
        1u64
    } else if v > 120 {
        120u64
    } else {
        v as u64
    }
}

/// The global model applies to this route: multi-model routing is off, a
/// global model is set, the route's own model is not overridden and the task
/// is one of the online tasks that follow it.
pub open spec fn global_applies(
    t: AiTaskType,
    o: RouteOverride,
    multi: bool,
    global_model: Option<Seq<char>>,
) -> bool {
    o.model is None && !multi && global_model is Some && follows_global_model(t)
}

/// `x` is route `r` with the valid overrides `o` applied.
pub open spec fn overridden(
    r: TaskRouteConfig,
    o: RouteOverride,
    multi: bool,
    global_model: Option<Seq<char>>,
    x: TaskRouteConfig,
) -> bool {
    &&& x.task == r.task
    &&& x.primary_model@ == match o.model {
        Some(m) => trim(m@),
        None => if global_applies(r.task, o, multi, global_model) {
            global_model->0
        } else {
            r.primary_model@
        },
    }
    &&& views(x.fallback_models@) == match o.fallbacks {
        Some(raw) => nonempty_trimmed(split_char(raw@, ',')),
        None => if global_applies(r.task, o, multi, global_model) {
            Seq::empty()
        } else {
            views(r.fallback_models@)
        },
    }
    &&& x.protocol_preference == r.protocol_preference
    &&& x.timeout_secs == match o.timeout_secs {
        None => r.timeout_secs,
        Some(raw) => clamp_timeout(parse_unsigned(raw@, u64::MAX as nat)->0),
    }
    &&& x.max_output_tokens == r.max_output_tokens
    &&& x.enabled == match o.enabled {
        None => r.enabled,
        Some(raw) => is_on_word(ascii_lower(trim(raw@))),
    }
    &&& x.route_version == r.route_version
}

/// The view of an optional string.
pub open spec fn opt_view(s: Option<&str>) -> Option<Seq<char>> {
    match s {
        Some(v) => Some(v@),
        None => None,
    }
}

/// Apply the operator overrides of one route. `global_model` is the value of
/// `MPGS_AI_MODEL` when set and not blank; `multi` whether multi-model routing
/// is on. An explicit blank model or a timeout that is not an integer is a
/// configuration error naming the offending variable.
pub fn apply_route_override(
    route: TaskRouteConfig,
    o: &RouteOverride,
    multi: bool,
    global_model: Option<&str>,
) -> (r: Result<TaskRouteConfig, AiError>)
    ensures
        r is Ok <==> override_valid(*o),
        r matches Ok(x) ==> overridden(route, *o, multi, opt_view(global_model), x),
        r matches Err(e) ==> e matches AiError::Config(msg) && msg@ == override_error(route.task, *o),
{
    let mut route = route;
    let ghost r0 = route;
    let follows = match route.task {
        AiTaskType::IntentParse | AiTaskType::RankExplain | AiTaskType::CompareGames
        | AiTaskType::GroupAdvice | AiTaskType::GameSummary => true,
        _ => false,
    };
    match &o.model {
        Some(m) => {
            let primary = trim_str(m.as_str());
            if primary.as_str().is_empty() {
                let head = concat("MPGS_AI_ROUTE_", task_env_key(route.task));
                return Err(AiError::Config(concat(head.as_str(), "_MODEL must not be empty")));
            }
            route.primary_model = primary;
        },
        None => {
            if !multi && follows {
                if let Some(g) = global_model {
                    route.primary_model = owned(g);
                    route.fallback_models = Vec::new();
                    assert(views(route.fallback_models@) =~= Seq::<Seq<char>>::empty());
                }
            }
        },
    }
    if let Some(raw) = &o.fallbacks {
        route.fallback_models = split_trimmed_nonempty(raw.as_str(), ',');
    }
    if let Some(raw) = &o.timeout_secs {
        match parse_u64(raw.as_str()) {
            Some(secs) => {
                route.timeout_secs = if secs < 1 {
                    1
                } else if secs > 120 {
                    120
                } else {
                    secs
                };
            },
            None => {
                let head = concat("MPGS_AI_ROUTE_", task_env_key(route.task));
                return Err(
                    AiError::Config(concat(head.as_str(), "_TIMEOUT_SECS must be an integer")),
                );
            },
        }
    }
    if let Some(raw) = &o.enabled {
        let w = normalized_word(raw.as_str());
        let s = w.as_str();
        route.enabled = str_eq(s, "1") || str_eq(s, "true") || str_eq(s, "yes") || str_eq(s, "on");
    }
    Ok(route)
}

/// The overrides of every task's route, as read from the environment.
#[derive(Debug)]
pub struct RouteOverrides {
    pub intent_parse: RouteOverride,
    pub rank_explain: RouteOverride,
    pub feature_extract: RouteOverride,
    pub embed: RouteOverride,
    pub game_summary: RouteOverride,
    pub compare_games: RouteOverride,
    pub group_advice: RouteOverride,
    pub data_quality: RouteOverride,
}

impl RouteOverrides {
    /// The overrides of task `t`.
    pub open spec fn for_task(self, t: AiTaskType) -> RouteOverride {
        match t {
            AiTaskType::IntentParse => self.intent_parse,
            AiTaskType::RankExplain => self.rank_explain,
            AiTaskType::FeatureExtract => self.feature_extract,
            AiTaskType::Embed => self.embed,
            AiTaskType::GameSummary => self.game_summary,
            AiTaskType::CompareGames => self.compare_games,
            AiTaskType::GroupAdvice => self.group_advice,
            AiTaskType::DataQuality => self.data_quality,
        }
    }

    fn get(&self, t: AiTaskType) -> (r: &RouteOverride)
        ensures
            *r == self.for_task(t),
    {
        match t {
            AiTaskType::IntentParse => &self.intent_parse,
            AiTaskType::RankExplain => &self.rank_explain,
            AiTaskType::FeatureExtract => &self.feature_extract,
            AiTaskType::Embed => &self.embed,
            AiTaskType::GameSummary => &self.game_summary,
            AiTaskType::CompareGames => &self.compare_games,
            AiTaskType::GroupAdvice => &self.group_advice,
            AiTaskType::DataQuality => &self.data_quality,
        }
    }
}

/// `MPGS_AI_MODEL` as it takes part in routing: set and not blank.
pub open spec fn effective_global_model(raw: Option<&str>) -> Option<Seq<char>> {
    match raw {
        Some(v) => if trim(v@).len() > 0 {
            Some(v@)
        } else {
            None
        },
        None => None,
    }
}

/// Whether multi-model routing is on for the raw value of `MPGS_AI_MULTI_MODEL`.
pub open spec fn multi_model_spec(raw: Option<&str>) -> bool {
    match raw {
        None => true,
        Some(v) => !is_off_word(ascii_lower(trim(v@))),
    }
}

/// Every default route's overrides can be applied.
pub open spec fn all_overrides_valid(o: RouteOverrides) -> bool {
    forall|t: AiTaskType| default_route_shape(t) is Some ==> override_valid(#[trigger] o.for_task(t))
}

/// Apply the override of `task` to its route in `routes`, if it has one.
fn apply_in_table(
    routes: &mut TaskRouteTable,
    task: AiTaskType,
    o: &RouteOverride,
    multi: bool,
    global_model: Option<&str>,
) -> (r: Result<(), AiError>)
    ensures
        r is Ok <==> (old(routes).entry(task) is Some ==> override_valid(*o)),
        r matches Err(e) ==> e matches AiError::Config(msg) && msg@ == override_error(task, *o),
        r is Ok ==> forall|t: AiTaskType|
            #[trigger] final(routes).entry(t) == if t == task && old(routes).entry(task) is Some {
                final(routes).entry(t)
            } else {
                old(routes).entry(t)
            },
        r is Ok ==> (final(routes).entry(task) is Some <==> old(routes).entry(task) is Some),
        r is Ok ==> (old(routes).entry(task) matches Some(d) ==> overridden(
            d,
            *o,
            multi,
            opt_view(global_model),
            final(routes).entry(task)->0,
        )),
{
    match routes.take(task) {
        None => Ok(()),
        Some(route) => {
            let ghost d = route;
            match apply_route_override(route, o, multi, global_model) {
                Ok(x) => {
                    routes.insert(x);
                    Ok(())
                },
                Err(e) => Err(e),
            }
        },
    }
}

/// The routes in effect: the defaults with every task's overrides applied.
///
/// `multi_raw` is `MPGS_AI_MULTI_MODEL` and `global_raw` `MPGS_AI_MODEL`, each
/// `None` when unset. Fails with the configuration error of an override that
/// cannot be applied.
pub fn task_routes_with_overrides(
    multi_raw: Option<&str>,
    global_raw: Option<&str>,
    overrides: &RouteOverrides,
) -> (r: Result<TaskRouteTable, AiError>)
    ensures
        r is Ok <==> all_overrides_valid(*overrides),
        r matches Err(e) ==> exists|t: AiTaskType|
            default_route_shape(t) is Some && !override_valid(#[trigger] overrides.for_task(t))
                && e == AiError::Config(e->Config_0) && e->Config_0@ == override_error(t, overrides.for_task(t)),
        r matches Ok(table) ==> forall|t: AiTaskType|
            (#[trigger] table.entry(t) is Some <==> default_route_shape(t) is Some),
        r matches Ok(table) ==> forall|t: AiTaskType|
            #[trigger] table.entry(t) matches Some(x) ==> exists|d: TaskRouteConfig|
                d.task == t && is_default_route(d) && overridden(
                    d,
                    overrides.for_task(t),
                    multi_model_spec(multi_raw),
                    effective_global_model(global_raw),
                    x,
                ),
{
    let mut routes = default_task_routes();
    let ghost defaults = routes;
    let multi = multi_model_enabled(multi_raw);
    let global_model: Option<&str> = match global_raw {
        Some(v) => {
            let t = trim_str(v);
            if t.as_str().is_empty() {
                None
            } else {
                Some(v)
            }
        },
        None => None,
    };
    assert(opt_view(global_model) == effective_global_model(global_raw));
    let tasks: [AiTaskType; 8] = [
        AiTaskType::IntentParse,
        AiTaskType::RankExplain,
        AiTaskType::FeatureExtract,
        AiTaskType::Embed,
        AiTaskType::GameSummary,
        AiTaskType::CompareGames,
        AiTaskType::GroupAdvice,
        AiTaskType::DataQuality,
    ];
    assert(tasks@ =~= task_order());
    let mut i: usize = 0;
    while i < 8
        invariant
            0 <= i <= 8,
            tasks@ == task_order(),
            multi == multi_model_spec(multi_raw),
            opt_view(global_model) == effective_global_model(global_raw),
            forall|t: AiTaskType| (#[trigger] defaults.entry(t) is Some <==> default_route_shape(t) is Some),
            forall|t: AiTaskType| #[trigger] defaults.entry(t) matches Some(x) ==> is_default_route(x) && x.task == t,
            forall|k: int| 0 <= k < i ==> (defaults.entry(#[trigger] task_order()[k]) is Some ==> override_valid(overrides.for_task(task_order()[k]))),
            forall|t: AiTaskType| (#[trigger] routes.entry(t) is Some <==> defaults.entry(t) is Some),
            forall|k: int| 0 <= k < i ==> (#[trigger] routes.entry(task_order()[k]) matches Some(x)
                ==> overridden(defaults.entry(task_order()[k])->0, overrides.for_task(task_order()[k]), multi, opt_view(global_model), x)),
            forall|k: int| i <= k < 8 ==> #[trigger] routes.entry(task_order()[k]) == defaults.entry(task_order()[k]),
        decreases 8 - i,
    {
        let task = tasks[i];
        let o = overrides.get(task);
        match apply_in_table(&mut routes, task, o, multi, global_model) {
            Ok(()) => {},
            Err(e) => {
                return Err(e);
            },
        }
        i = i + 1;
    }
    Ok(routes)
}

/// The default routes: every online task (intent parsing, ranking
/// explanations, game summaries, comparisons, group advice, data quality)
/// has one, feature extraction and embedding none; each starts with
/// "grok-4.5", prefers the Responses protocol then chat completions, is
/// enabled under route version "m8-route-v6", and has its task's fallbacks,
/// timeout and output cap.
pub proof fn lemma_default_routes(r: TaskRouteConfig)
    ensures
        is_default_route(r) ==> {
            &&& r.task != AiTaskType::FeatureExtract && r.task != AiTaskType::Embed
            &&& r.primary_model@ == "grok-4.5"@
            &&& r.protocol_preference@ == seq![ApiProtocol::Responses, ApiProtocol::ChatCompletions]
            &&& r.enabled
            &&& r.route_version@ == "m8-route-v6"@
            &&& r.task == AiTaskType::IntentParse ==> views(r.fallback_models@) == seq!["grok-4.20-0309-non-reasoning"@, "grok-4.20-non-reasoning"@, "grok-4.3"@] && r.timeout_secs == 12
                && r.max_output_tokens == 512
            &&& r.task == AiTaskType::RankExplain ==> views(r.fallback_models@) == seq!["grok-4.20-0309-non-reasoning"@, "grok-4.20-non-reasoning"@, "grok-4.3"@] && r.timeout_secs == 35
                && r.max_output_tokens == 1800
            &&& r.task == AiTaskType::GameSummary ==> views(r.fallback_models@) == seq!["grok-4.20-0309-non-reasoning"@, "grok-4.20-non-reasoning"@, "grok-4.3"@] && r.timeout_secs == 35
                && r.max_output_tokens == 2000
            &&& r.task == AiTaskType::CompareGames ==> views(r.fallback_models@) == seq!["grok-4.20-0309-non-reasoning"@, "grok-4.20-0309-reasoning"@, "grok-4.3"@] && r.timeout_secs == 40
                && r.max_output_tokens == 2400
            &&& r.task == AiTaskType::GroupAdvice ==> views(r.fallback_models@) == seq!["grok-4.20-0309-non-reasoning"@, "grok-4.20-0309-reasoning"@, "grok-4.3"@] && r.timeout_secs == 40
                && r.max_output_tokens == 2000
            &&& r.task == AiTaskType::DataQuality ==> views(r.fallback_models@) == seq!["grok-4.20-0309-non-reasoning"@, "grok-4.20-non-reasoning"@, "grok-4.3"@] && r.timeout_secs == 20
                && r.max_output_tokens == 1200
        },
{
}

/// Multi-model routing is on unless switched off by "0", "false", "no", "off"
/// or "single" (trimmed, ASCII case aside); a route override is on for "1",
/// "true", "yes" or "on"; an overridden timeout is held to 1 to 120 seconds;
/// and the single global model only replaces the routes of intent parsing,
/// ranking explanations, comparisons, group advice and game summaries.
pub proof fn lemma_route_switches(s: Seq<char>, v: nat, t: AiTaskType)
    ensures
        is_off_word(s) <==> (s == "0"@ || s == "false"@ || s == "no"@ || s == "off"@ || s == "single"@),
        is_on_word(s) <==> (s == "1"@ || s == "true"@ || s == "yes"@ || s == "on"@),
        1 <= clamp_timeout(v) <= 120,
        1 <= v <= 120 ==> clamp_timeout(v) == v,
        follows_global_model(t) <==> (t == AiTaskType::IntentParse || t == AiTaskType::RankExplain
            || t == AiTaskType::CompareGames || t == AiTaskType::GroupAdvice || t == AiTaskType::GameSummary),
{
}

} // verus!
