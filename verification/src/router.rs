//! Multi-model task routing decisions: which protocols a model is tried
//! with, which errors move on to the next protocol or model, the route
//! summaries shown in settings, and the walk along a task's model chain.
//!
//! The walk is a state machine: [`RouteWalk::next_step`] says which model and
//! protocol to call next (or that the walk is over), and
//! [`RouteWalk::on_outcome`] takes what the call returned. When every model
//! fails the walk ends in an ordinary error, never in a made-up success.
use vstd::prelude::*;
use crate::ai_error::AiError;
use crate::ai_types::{
    copy_strings, first_occurrences, protocol_name, route_candidates, spec_preferred_protocols, task_name,
    same_route, views, AiTaskType, ApiProtocol, ModelCapabilities, TaskRouteConfig,
};
use crate::breaker::{failed_once, model_failure, CircuitBreaker, RouterPolicy};
use crate::model_registry::{
    marked_unavailable, recorded_success, spec_lookup, spec_model_allowed, ModelRegistry,
};
use crate::routes::{TaskRouteTable, DEFAULT_ROUTE_VERSION};
use crate::text::{ascii_lower, chars_contain, chars_of, contains_any, lower_chars, owned, seq_contains, str_eq};

verus! {

/// Some needle occurs in the ASCII lower-cased `msg`.
pub open spec fn mentions_any(msg: Seq<char>, needles: Seq<Seq<char>>) -> bool {
    crate::text::contains_any(ascii_lower(msg), needles)
}

fn lowered_has_any(lower: &[char], needles: &[&str]) -> (r: bool)
    ensures
        r == crate::text::contains_any(lower@, needles@.map_values(|s: &str| s@)),
{
    crate::text::chars_contain_any(lower, needles)
}

/// A provider rejection that names the protocol: the next protocol of the
/// same model is tried.
pub open spec fn protocol_rejection(e: AiError) -> bool {
    match e {
        AiError::ProviderRejected(msg) => mentions_any(
            msg@,
            seq!["protocol"@, "responses"@, "chat/completions"@, "not supported"@],
        ),
        _ => false,
    }
}

/// A provider rejection saying the model does not exist: the model is marked
/// unavailable.
pub open spec fn model_missing(e: AiError) -> bool {
    match e {
        AiError::ProviderRejected(msg) => mentions_any(msg@, seq!["model"@]) && mentions_any(
            msg@,
            seq!["not found"@, "does not exist"@, "unknown"@, "http 404"@],
        ),
        _ => false,
    }
}

/// The error is a provider rejection that names the protocol.
pub fn is_protocol_rejection(error: &AiError) -> (r: bool)
    ensures
        r == protocol_rejection(*error),
{
    match error {
        AiError::ProviderRejected(msg) => {
            let raw = chars_of(msg.as_str());
            let lower = lower_chars(raw.as_slice());
            let w = ["protocol", "responses", "chat/completions", "not supported"];
            assert(w@.map_values(|s: &str| s@) =~= seq![
                "protocol"@,
                "responses"@,
                "chat/completions"@,
                "not supported"@,
            ]);
            lowered_has_any(lower.as_slice(), &w)
        },
        _ => false,
    }
}

/// The error is a provider rejection saying the model does not exist.
pub fn is_model_missing(error: &AiError) -> (r: bool)
    ensures
        r == model_missing(*error),
{
    match error {
        AiError::ProviderRejected(msg) => {
            let raw = chars_of(msg.as_str());
            let lower = lower_chars(raw.as_slice());
            let m = ["model"];
            assert(m@.map_values(|s: &str| s@) =~= seq!["model"@]);
            let w = ["not found", "does not exist", "unknown", "http 404"];
            assert(w@.map_values(|s: &str| s@) =~= seq![
                "not found"@,
                "does not exist"@,
                "unknown"@,
                "http 404"@,
            ]);
            lowered_has_any(lower.as_slice(), &m) && lowered_has_any(lower.as_slice(), &w)
        },
        _ => false,
    }
}

/// The protocols in `ps` a model with the given capability flags can use; a
/// registry that is not fresh allows every protocol.
pub open spec fn usable_protocols(ps: Seq<ApiProtocol>, chat: bool, responses: bool, fresh: bool) -> Seq<ApiProtocol>
    decreases ps.len(),
{
    if ps.len() == 0 {
        Seq::empty()
    } else {
        let prev = usable_protocols(ps.drop_last(), chat, responses, fresh);
        let ok = match ps.last() {
            ApiProtocol::ChatCompletions => chat || !fresh,
            ApiProtocol::Responses => responses || !fresh,
        };
        if ok {
            prev.push(ps.last())
        } else {
            prev
        }
    }
}

/// A model's own protocol order: Responses first when it has it, then chat.
pub open spec fn preferred_by_flags(chat: bool, responses: bool) -> Seq<ApiProtocol> {
    (if responses {
        seq![ApiProtocol::Responses]
    } else {
        Seq::empty()
    }) + (if chat {
        seq![ApiProtocol::ChatCompletions]
    } else {
        Seq::empty()
    })
}

/// The capability flags (chat, responses) the router assumes for a model:
/// the registry's row, or both protocols for a model it does not know.
pub open spec fn caps_flags(known: Option<ModelCapabilities>) -> (bool, bool) {
    match known {
        Some(c) => (c.chat_completions, c.responses),
        None => (true, true),
    }
}

/// The protocols a model is tried with, in order: the request's protocol
/// alone when it names one; else the route's preference (or, when the route
/// has none, the model's own order) that the model's capabilities allow.
pub open spec fn protocols_spec(
    known: Option<ModelCapabilities>,
    route: TaskRouteConfig,
    fresh: bool,
    request_override: Option<ApiProtocol>,
) -> Seq<ApiProtocol> {
    let (chat, responses) = caps_flags(known);
    match request_override {
        Some(p) => seq![p],
        None => usable_protocols(
            if route.protocol_preference@.len() == 0 {
                preferred_by_flags(chat, responses)
            } else {
                route.protocol_preference@
            },
            chat,
            responses,
            fresh,
        ),
    }
}

/// The protocols `model` is tried with, given its registry row (`None` when
/// the registry does not know it) and whether the registry is fresh.
pub fn protocols_for(
    known: Option<ModelCapabilities>,
    model: &str,
    route: &TaskRouteConfig,
    fresh: bool,
    request_override: Option<ApiProtocol>,
) -> (r: Vec<ApiProtocol>)
    ensures
        r@ == protocols_spec(known, *route, fresh, request_override),
{
    if let Some(p) = request_override {
        let mut v: Vec<ApiProtocol> = Vec::new();
        v.push(p);
        assert(v@ =~= seq![p]);
        return v;
    }
    let ghost flags = caps_flags(known);
    let caps = match known {
        Some(c) => c,
        None => ModelCapabilities {
            model: owned(model),
            chat_completions: true,
            responses: true,
            structured_json: true,
            tool_calling: false,
            streaming: false,
            available: true,
        },
    };
    assert(flags == (caps.chat_completions, caps.responses));
    let preferred = if route.protocol_preference.len() == 0 {
        let p = caps.preferred_protocols();
        assert(spec_preferred_protocols(caps) =~= preferred_by_flags(caps.chat_completions, caps.responses));
        p
    } else {
        route.protocol_preference.clone()
    };
    let ghost pv = preferred@;
    let mut out: Vec<ApiProtocol> = Vec::new();
    let mut i: usize = 0;
    while i < preferred.len()
        invariant
            i <= preferred@.len(),
            pv == preferred@,
            out@ == usable_protocols(pv.take(i as int), caps.chat_completions, caps.responses, fresh),
        decreases preferred@.len() - i,
    {
        assert(pv.take(i as int + 1).drop_last() =~= pv.take(i as int));
        let p = preferred[i];
        let ok = match p {
            ApiProtocol::ChatCompletions => caps.chat_completions || !fresh,
            ApiProtocol::Responses => caps.responses || !fresh,
        };
        if ok {
            out.push(p);
        }
        i = i + 1;
    }
    assert(pv.take(i as int) =~= pv);
    out
}

/// What the walk asks of its caller next.
#[derive(Debug)]
pub enum WalkStep {
    /// Call the provider with this model and protocol, capping the output.
    Attempt { model: String, protocol: ApiProtocol, max_output_tokens: u32 },
    /// A model of the chain was passed over; ask again.
    Skipped,
    /// The walk is over with this error.
    Failed(AiError),
}

/// What one provider call returned.
#[derive(Debug)]
pub enum AttemptOutcome {
    Succeeded,
    Failed(AiError),
    TimedOut,
}

/// The model and protocol that answered, and the models tried on the way.
#[derive(Debug)]
pub struct RoutedAttempt {
    pub task: AiTaskType,
    pub model: String,
    pub protocol: ApiProtocol,
    pub route_version: String,
    pub attempted_models: Vec<String>,
    pub used_fallback: bool,
}

/// A walk along one task's model chain.
#[derive(Debug)]
pub struct RouteWalk {
    task: AiTaskType,
    route: TaskRouteConfig,
    request_protocol: Option<ApiProtocol>,
    max_output_tokens: u32,
    chain: Vec<String>,
    next: usize,
    current: Option<(usize, Vec<ApiProtocol>, usize)>,
    attempted: Vec<String>,
    last_error: AiError,
}

/// The error that ends a walk in which no model was attempted.
pub open spec fn no_models_message() -> Seq<char> {
    "no available models for task after registry filter"@
}

/// The error recorded for a model without a usable protocol.
pub open spec fn no_protocol_message(model: Seq<char>, task: AiTaskType) -> Seq<char> {
    "model "@ + model + " has no usable protocol for task "@ + task_name(task)
}

/// The output cap of an attempt: the request's, at most the route's.
pub open spec fn capped_tokens(requested: u32, route_max: u32) -> u32 {
    if requested > route_max {
        route_max
    } else {
        requested
    }
}

/// `after`'s breakers are `before`'s with one failure of `model` counted when
/// `error` is a model failure.
pub open spec fn failure_counted(
    before: crate::breaker::ModelCircuits,
    after: crate::breaker::ModelCircuits,
    model: Seq<char>,
    error: AiError,
    now_ms: u64,
    policy: RouterPolicy,
) -> bool {
    forall|m: Seq<char>| #[trigger] after.breaker(m) == if m == model && model_failure(error) {
        failed_once(before.breaker(m), now_ms, policy.circuit_failure_threshold, policy.circuit_open_ms)
    } else {
        before.breaker(m)
    }
}

/// `after`'s breakers are `before`'s with `model`'s closed.
pub open spec fn success_counted(
    before: crate::breaker::ModelCircuits,
    after: crate::breaker::ModelCircuits,
    model: Seq<char>,
) -> bool {
    forall|m: Seq<char>| #[trigger] after.breaker(m) == if m == model {
        CircuitBreaker { consecutive_failures: 0, open_until_ms: 0 }
    } else {
        before.breaker(m)
    }
}

/// `after` and `r` are what [`RouteWalk::next_step`] makes of `w`, given the
/// registry's view, the breakers, whether the registry is fresh, and the time.
pub open spec fn step_taken(
    w: RouteWalk,
    after: RouteWalk,
    r: WalkStep,
    registry: Option<Map<Seq<char>, ModelCapabilities>>,
    circuits: crate::breaker::ModelCircuits,
    fresh: bool,
    now_ms: u64,
) -> bool {
    &&& after.same_plan(w)
    &&& {
        let tokens = capped_tokens(w.requested_tokens(), w.route().max_output_tokens);
        match w.current_view() {
            Some((j, ps, k)) => {
                &&& after == w
                &&& r matches WalkStep::Attempt { model, protocol, max_output_tokens }
                &&& model@ == w.chain_view()[j]
                &&& protocol == ps[k]
                &&& max_output_tokens == tokens
            },
            None => if w.next_index() >= w.chain_view().len() {
                &&& after == w
                &&& r matches WalkStep::Failed(e)
                &&& if w.attempted_view().len() == 0 {
                    e matches AiError::ProviderRejected(m) && m@ == no_models_message()
                } else {
                    e == w.last_error()
                }
            } else {
                let m = w.chain_view()[w.next_index() as int];
                let ps = protocols_spec(
                    spec_lookup(registry, m),
                    w.route(),
                    fresh,
                    w.request_protocol(),
                );
                &&& after.next_index() == w.next_index() + 1
                &&& if !spec_model_allowed(registry, m) {
                    &&& r is Skipped
                    &&& after.current_view() is None
                    &&& after.attempted_view() == w.attempted_view()
                    &&& after.last_error() == w.last_error()
                } else if circuits.breaker(m).open_until_ms > now_ms {
                    &&& r is Skipped
                    &&& after.current_view() is None
                    &&& after.attempted_view() == w.attempted_view()
                    &&& after.last_error() == AiError::CircuitOpen
                } else if ps.len() == 0 {
                    &&& r is Skipped
                    &&& after.current_view() is None
                    &&& after.attempted_view() == w.attempted_view().push(m)
                    &&& after.last_error() matches AiError::ProviderRejected(msg)
                    &&& msg@ == no_protocol_message(m, w.task())
                } else {
                    &&& after.current_view() == Some((w.next_index() as int, ps, 0int))
                    &&& after.attempted_view() == w.attempted_view().push(m)
                    &&& after.last_error() == w.last_error()
                    &&& r matches WalkStep::Attempt { model, protocol, max_output_tokens }
                    &&& model@ == m
                    &&& protocol == ps[0]
                    &&& max_output_tokens == tokens
                }
            },
        }
    }
}

/// `after`, `r`, and the registry and breakers after the call are what
/// [`RouteWalk::on_outcome`] makes of `w` and `outcome`.
pub open spec fn outcome_taken(
    w: RouteWalk,
    after: RouteWalk,
    outcome: AttemptOutcome,
    r: Option<RoutedAttempt>,
    reg_before: Option<Map<Seq<char>, ModelCapabilities>>,
    reg_after: Option<Map<Seq<char>, ModelCapabilities>>,
    circ_before: crate::breaker::ModelCircuits,
    circ_after: crate::breaker::ModelCircuits,
    now_ms: u64,
    policy: RouterPolicy,
) -> bool {
    &&& after.same_plan(w)
    &&& after.next_index() == w.next_index()
    &&& after.attempted_view() == w.attempted_view()
    &&& match w.current_view() {
        None => {
            &&& r is None
            &&& after == w
            &&& reg_after == reg_before
            &&& circ_after == circ_before
        },
        Some((j, ps, k)) => {
            let m = w.chain_view()[j];
            let p = ps[k];
            match outcome {
                AttemptOutcome::Succeeded => {
                    &&& r matches Some(a)
                    &&& a.task == w.task()
                    &&& a.model@ == m
                    &&& a.protocol == p
                    &&& a.route_version@ == w.route().route_version@
                    &&& views(a.attempted_models@) == w.attempted_view()
                    &&& a.used_fallback == (j > 0)
                    &&& after.current_view() is None
                    &&& after.last_error() == w.last_error()
                    &&& success_counted(circ_before, circ_after, m)
                    &&& recorded_success(reg_before, reg_after, m, p)
                },
                AttemptOutcome::Failed(e) => {
                    &&& r is None
                    &&& if protocol_rejection(e) && k + 1 < ps.len() {
                        &&& after.current_view() == Some((j, ps, k + 1))
                        &&& after.last_error() == w.last_error()
                        &&& circ_after == circ_before
                        &&& reg_after == reg_before
                    } else {
                        &&& after.current_view() is None
                        &&& after.last_error() == e
                        &&& failure_counted(circ_before, circ_after, m, e, now_ms, policy)
                        &&& if !protocol_rejection(e) && model_missing(e) {
                            marked_unavailable(reg_before, reg_after, m)
                        } else {
                            reg_after == reg_before
                        }
                    }
                },
                AttemptOutcome::TimedOut => {
                    &&& r is None
                    &&& after.current_view() is None
                    &&& after.last_error() == AiError::Timeout
                    &&& failure_counted(circ_before, circ_after, m, AiError::Timeout, now_ms, policy)
                    &&& reg_after == reg_before
                },
            }
        },
    }
}

/// A walk never reports success for an attempt that did not answer: every
/// failure and timeout leaves the caller without a routed answer.
pub proof fn lemma_no_success_without_answer(
    w: RouteWalk,
    after: RouteWalk,
    outcome: AttemptOutcome,
    r: Option<RoutedAttempt>,
    reg_before: Option<Map<Seq<char>, ModelCapabilities>>,
    reg_after: Option<Map<Seq<char>, ModelCapabilities>>,
    circ_before: crate::breaker::ModelCircuits,
    circ_after: crate::breaker::ModelCircuits,
    now_ms: u64,
    policy: RouterPolicy,
)
    requires
        outcome_taken(w, after, outcome, r, reg_before, reg_after, circ_before, circ_after, now_ms, policy),
    ensures
        r is Some ==> outcome is Succeeded && w.current_view() is Some,
{
}

/// A model is only ever tried when the registry allows it and its breaker is
/// closed at the time of the step.
pub proof fn lemma_attempts_allowed_models(
    w: RouteWalk,
    after: RouteWalk,
    r: WalkStep,
    registry: Option<Map<Seq<char>, ModelCapabilities>>,
    circuits: crate::breaker::ModelCircuits,
    fresh: bool,
    now_ms: u64,
)
    requires
        step_taken(w, after, r, registry, circuits, fresh, now_ms),
        w.current_view() is None,
    ensures
        r matches WalkStep::Attempt { model, .. } ==> {
            &&& spec_model_allowed(registry, model@)
            &&& circuits.breaker(model@).open_until_ms <= now_ms
            &&& after.attempted_view().last() == model@
        },
{
}

impl RouteWalk {
    #[verifier::type_invariant]
    spec fn consistent(self) -> bool {
        &&& self.next <= self.chain@.len()
        &&& self.current matches Some(c) ==> c.0 < self.chain@.len() && c.2 < c.1@.len()
    }

    /// The task of the request being routed.
    pub closed spec fn task(self) -> AiTaskType {
        self.task
    }

    /// The models to try, in order.
    pub closed spec fn chain_view(self) -> Seq<Seq<char>> {
        views(self.chain@)
    }

    /// The position in the chain of the next model to take.
    pub closed spec fn next_index(self) -> nat {
        self.next as nat
    }

    /// The model being tried, its protocols, and the next protocol's position.
    pub closed spec fn current_view(self) -> Option<(int, Seq<ApiProtocol>, int)> {
        match self.current {
            Some(c) => Some((c.0 as int, c.1@, c.2 as int)),
            None => None,
        }
    }

    /// The models attempted so far, in order.
    pub closed spec fn attempted_view(self) -> Seq<Seq<char>> {
        views(self.attempted@)
    }

    /// The error the walk fails with if nothing answers.
    pub closed spec fn last_error(self) -> AiError {
        self.last_error
    }

    pub closed spec fn route(self) -> TaskRouteConfig {
        self.route
    }

    pub closed spec fn request_protocol(self) -> Option<ApiProtocol> {
        self.request_protocol
    }

    pub closed spec fn requested_tokens(self) -> u32 {
        self.max_output_tokens
    }

    /// `self` and `other` walk the same chain for the same request and route.
    pub open spec fn same_plan(self, other: RouteWalk) -> bool {
        &&& self.task() == other.task()
        &&& self.route() == other.route()
        &&& self.request_protocol() == other.request_protocol()
        &&& self.requested_tokens() == other.requested_tokens()
        &&& self.chain_view() == other.chain_view()
    }

    /// Start walking `route` for a request of `task`, which may name its own
    /// model and protocol. A disabled route is refused.
    pub fn start(
        task: AiTaskType,
        route: TaskRouteConfig,
        request_model: Option<String>,
        request_protocol: Option<ApiProtocol>,
        max_output_tokens: u32,
    ) -> (r: Result<RouteWalk, AiError>)
        ensures
            !route.enabled ==> r == Err::<RouteWalk, AiError>(AiError::Disabled),
            route.enabled ==> (r matches Ok(w) && {
                &&& w.task() == task
                &&& w.route() == route
                &&& w.request_protocol() == request_protocol
                &&& w.requested_tokens() == max_output_tokens
                &&& w.chain_view() == match request_model {
                    Some(m) => seq![m@],
                    None => first_occurrences(route_candidates(route)),
                }
                &&& w.next_index() == 0
                &&& w.current_view() is None
                &&& w.attempted_view() == Seq::<Seq<char>>::empty()
                &&& w.last_error() matches AiError::ProviderRejected(m) && m@ == "no models attempted"@
            }),
    {
        if !route.enabled {
            return Err(AiError::Disabled);
        }
        let chain: Vec<String> = match request_model {
            Some(m) => {
                let mut v: Vec<String> = Vec::new();
                let ghost mv = m@;
                v.push(m);
                assert(views(v@) =~= seq![mv]);
                v
            },
            None => {
                let names = route.model_chain();
                let mut v: Vec<String> = Vec::new();
                let mut i: usize = 0;
                while i < names.len()
                    invariant
                        i <= names@.len(),
                        v@.len() == i,
                        forall|k: int| 0 <= k < i ==> (#[trigger] v@[k])@ == names@[k]@,
                    decreases names@.len() - i,
                {
                    v.push(owned(names[i]));
                    i = i + 1;
                }
                assert(views(v@) =~= names@.map_values(|s: &str| s@));
                v
            },
        };
        let w = RouteWalk {
            task,
            route,
            request_protocol,
            max_output_tokens,
            chain,
            next: 0,
            current: None,
            attempted: Vec::new(),
            last_error: AiError::ProviderRejected(owned("no models attempted")),
        };
        assert(w.attempted_view() =~= Seq::<Seq<char>>::empty());
        Ok(w)
    }

    /// The next thing to do. While a model is being tried, its next protocol
    /// is attempted. Otherwise the next model of the chain is taken: one the
    /// registry does not allow is skipped; one whose breaker is open at
    /// `now_ms` is skipped with `CircuitOpen` remembered; one without a usable
    /// protocol (the registry's freshness is `fresh`) is counted as attempted
    /// and skipped; else its first protocol is attempted. After the last model
    /// the walk fails with the last error, or with a rejection when no model
    /// was attempted.
    pub fn next_step(
        &mut self,
        registry: &ModelRegistry,
        circuits: &crate::breaker::ModelCircuits,
        fresh: bool,
        now_ms: u64,
    ) -> (r: WalkStep)
        ensures
            step_taken(*old(self), *final(self), r, registry@, *circuits, fresh, now_ms),
    {
        proof {
            use_type_invariant(&*self);
        }
        let tokens = if self.max_output_tokens > self.route.max_output_tokens {
            self.route.max_output_tokens
        } else {
            self.max_output_tokens
        };
        match &self.current {
            Some((j, ps, k)) => {
                let model = self.chain[*j].clone();
                return WalkStep::Attempt { model, protocol: ps[*k], max_output_tokens: tokens };
            },
            None => {},
        }
        if self.next >= self.chain.len() {
            if self.attempted.len() == 0 {
                return WalkStep::Failed(
                    AiError::ProviderRejected(owned("no available models for task after registry filter")),
                );
            }
            return WalkStep::Failed(self.last_error.clone_error());
        }
        let j = self.next;
        let model = self.chain[j].clone();
        assert(model@ == self.chain_view()[j as int]);
        self.next = j + 1;
        if !registry.is_model_allowed(model.as_str()) {
            return WalkStep::Skipped;
        }
        if circuits.is_open(model.as_str(), now_ms) {
            self.last_error = AiError::CircuitOpen;
            return WalkStep::Skipped;
        }
        let ghost before = views(self.attempted@);
        let mut attempted: Vec<String> = Vec::new();
        std::mem::swap(&mut attempted, &mut self.attempted);
        attempted.push(model.clone());
        self.attempted = attempted;
        assert(views(self.attempted@) =~= before.push(model@));
        let known = registry.get(model.as_str());
        let ps = protocols_for(known, model.as_str(), &self.route, fresh, self.request_protocol);
        if ps.len() == 0 {
            let a = crate::text::concat("model ", model.as_str());
            let b = crate::text::concat(a.as_str(), " has no usable protocol for task ");
            let msg = crate::text::concat(b.as_str(), self.task.as_str());
            self.last_error = AiError::ProviderRejected(msg);
            return WalkStep::Skipped;
        }
        let first = ps[0];
        self.current = Some((j, ps, 0));
        WalkStep::Attempt { model, protocol: first, max_output_tokens: tokens }
    }
    /// Take what the provider call handed out by the last `Attempt` returned.
    /// On success the model's breaker closes, the registry records the
    /// protocol, and the answer is returned with the models attempted. A
    /// rejection naming the protocol moves to the model's next protocol; when
    /// none is left, or on any other failure or a timeout, the failure counts
    /// against the model's breaker at `now_ms`, becomes the walk's last error,
    /// and the walk moves on to the next model; a rejection saying the model
    /// does not exist also marks it unavailable. With no attempt handed out
    /// nothing changes.
    pub fn on_outcome(
        &mut self,
        outcome: AttemptOutcome,
        registry: &mut ModelRegistry,
        circuits: &mut crate::breaker::ModelCircuits,
        now_ms: u64,
        policy: &RouterPolicy,
    ) -> (r: Option<RoutedAttempt>)
        ensures
            outcome_taken(
                *old(self),
                *final(self),
                outcome,
                r,
                old(registry)@,
                final(registry)@,
                *old(circuits),
                *final(circuits),
                now_ms,
                *policy,
            ),
    {
        proof {
            use_type_invariant(&*self);
        }
        let mut current: Option<(usize, Vec<ApiProtocol>, usize)> = None;
        std::mem::swap(&mut current, &mut self.current);
        let (j, ps, k) = match current {
            Some(c) => c,
            None => {
                return None;
            },
        };
        assert(k < ps@.len() && j < self.chain@.len());
        let model = self.chain[j].clone();
        assert(model@ == self.chain_view()[j as int]);
        let protocol = ps[k];
        let count = ps.len();
        match outcome {
            AttemptOutcome::Succeeded => {
                circuits.note_success(model.as_str());
                registry.record_protocol_success(model.as_str(), protocol);
                let attempted_models = copy_strings(&self.attempted);
                let route_version = self.route.route_version.clone();
                Some(RoutedAttempt {
                    task: self.task,
                    model,
                    protocol,
                    route_version,
                    attempted_models,
                    used_fallback: j > 0,
                })
            },
            AttemptOutcome::Failed(e) => {
                if is_protocol_rejection(&e) && k + 1 < count {
                    self.current = Some((j, ps, k + 1));
                    return None;
                }
                if !is_protocol_rejection(&e) && is_model_missing(&e) {
                    registry.mark_unavailable(model.as_str());
                }
                circuits.note_failure(model.as_str(), &e, now_ms, policy);
                self.last_error = e;
                None
            },
            AttemptOutcome::TimedOut => {
                let e = AiError::Timeout;
                circuits.note_failure(model.as_str(), &e, now_ms, policy);
                self.last_error = e;
                None
            },
        }
    }
}


/// A task route as shown in admin and settings screens (no secrets).
#[derive(Debug, Clone)]
pub struct TaskRouteSnapshot {
    pub task: String,
    pub primary_model: String,
    pub fallback_models: Vec<String>,
    pub protocol_preference: Vec<String>,
    pub timeout_ms: u64,
    pub max_output_tokens: u32,
    pub enabled: bool,
    pub route_version: String,
    pub primary_available: bool,
}

/// The tasks ordered by wire name, the order of the snapshot rows.
pub open spec fn snapshot_order() -> Seq<AiTaskType> {
    seq![
        AiTaskType::CompareGames,
        AiTaskType::DataQuality,
        AiTaskType::Embed,
        AiTaskType::FeatureExtract,
        AiTaskType::GameSummary,
        AiTaskType::GroupAdvice,
        AiTaskType::IntentParse,
        AiTaskType::RankExplain,
    ]
}

/// The routes `table` configures for the tasks of `order`, in that order.
pub open spec fn routes_in(table: TaskRouteTable, order: Seq<AiTaskType>) -> Seq<TaskRouteConfig>
    decreases order.len(),
{
    if order.len() == 0 {
        Seq::empty()
    } else {
        routes_in(table, order.drop_last()) + crate::routes::present(table.entry(order.last()))
    }
}

/// A route's timeout in milliseconds, truncated to 64 bits.
pub open spec fn timeout_ms_of(timeout_secs: u64) -> u64 {
    ((timeout_secs * 1000) % 0x1_0000_0000_0000_0000) as u64
}

/// `row` shows `route`, whose primary model the registry (`registry`) allows
/// or not.
pub open spec fn shows_route(
    row: TaskRouteSnapshot,
    route: TaskRouteConfig,
    registry: Option<Map<Seq<char>, ModelCapabilities>>,
) -> bool {
    &&& row.task@ == task_name(route.task)
    &&& row.primary_model@ == route.primary_model@
    &&& views(row.fallback_models@) == views(route.fallback_models@)
    &&& views(row.protocol_preference@) == route.protocol_preference@.map_values(|p: ApiProtocol| protocol_name(p))
    &&& row.timeout_ms == timeout_ms_of(route.timeout_secs)
    &&& row.max_output_tokens == route.max_output_tokens
    &&& row.enabled == route.enabled
    &&& row.route_version@ == route.route_version@
    &&& row.primary_available == spec_model_allowed(registry, route.primary_model@)
}

fn protocol_names(ps: &Vec<ApiProtocol>) -> (r: Vec<String>)
    ensures
        views(r@) == ps@.map_values(|p: ApiProtocol| protocol_name(p)),
{
    let mut out: Vec<String> = Vec::new();
    let mut i: usize = 0;
    while i < ps.len()
        invariant
            i <= ps@.len(),
            out@.len() == i,
            forall|k: int| 0 <= k < i ==> (#[trigger] out@[k])@ == protocol_name(ps@[k]),
        decreases ps@.len() - i,
    {
        out.push(owned(ps[i].as_str()));
        i = i + 1;
    }
    assert(views(out@) =~= ps@.map_values(|p: ApiProtocol| protocol_name(p)));
    out
}

/// The snapshot row of `route`.
fn snapshot_row(route: &TaskRouteConfig, registry: &ModelRegistry) -> (r: TaskRouteSnapshot)
    ensures
        shows_route(r, *route, registry@),
{
    let primary_available = registry.is_model_allowed(route.primary_model.as_str());
    TaskRouteSnapshot {
        task: owned(route.task.as_str()),
        primary_model: route.primary_model.clone(),
        fallback_models: copy_strings(&route.fallback_models),
        protocol_preference: protocol_names(&route.protocol_preference),
        timeout_ms: route.timeout_secs.wrapping_mul(1000),
        max_output_tokens: route.max_output_tokens,
        enabled: route.enabled,
        route_version: route.route_version.clone(),
        primary_available,
    }
}

/// One row per configured route, ordered by task wire name, saying whether
/// the registry allows the route's primary model.
pub fn route_snapshot(routes: &TaskRouteTable, registry: &ModelRegistry) -> (r: Vec<TaskRouteSnapshot>)
    ensures
        r@.len() == routes_in(*routes, snapshot_order()).len(),
        forall|i: int|
            0 <= i < r@.len() ==> shows_route(#[trigger] r@[i], routes_in(*routes, snapshot_order())[i], registry@),
{
    let order = [
        AiTaskType::CompareGames,
        AiTaskType::DataQuality,
        AiTaskType::Embed,
        AiTaskType::FeatureExtract,
        AiTaskType::GameSummary,
        AiTaskType::GroupAdvice,
        AiTaskType::IntentParse,
        AiTaskType::RankExplain,
    ];
    assert(order@ =~= snapshot_order());
    let mut rows: Vec<TaskRouteSnapshot> = Vec::new();
    let mut i: usize = 0;
    while i < 8
        invariant
            i <= 8,
            order@ == snapshot_order(),
            rows@.len() == routes_in(*routes, order@.take(i as int)).len(),
            forall|k: int|
                0 <= k < rows@.len() ==> shows_route(
                    #[trigger] rows@[k],
                    routes_in(*routes, order@.take(i as int))[k],
                    registry@,
                ),
        decreases 8 - i,
    {
        let ghost before = routes_in(*routes, order@.take(i as int));
        assert(order@.take(i as int + 1).drop_last() =~= order@.take(i as int));
        assert(order@.take(i as int + 1).last() == order@[i as int]);
        match routes.get(&order[i]) {
            Some(route) => {
                let row = snapshot_row(route, registry);
                rows.push(row);
                assert(routes_in(*routes, order@.take(i as int + 1)) =~= before.push(*route));
            },
            None => {
                assert(routes_in(*routes, order@.take(i as int + 1)) =~= before);
            },
        }
        i = i + 1;
    }
    assert(order@.take(8) =~= order@);
    rows
}

/// The tasks served online, whose routes decide whether several models are
/// in use.
pub open spec fn is_online_task(t: AiTaskType) -> bool {
    t == AiTaskType::IntentParse || t == AiTaskType::RankExplain || t == AiTaskType::CompareGames
        || t == AiTaskType::GroupAdvice
}

/// An enabled route of an online task.
pub open spec fn online_route(table: TaskRouteTable, t: AiTaskType) -> bool {
    is_online_task(t) && (table.entry(t) matches Some(r) && r.enabled)
}

/// More than one model serves online tasks: two enabled online routes name
/// different primary models, or one has fallbacks.
pub open spec fn multi_model_spec_of(table: TaskRouteTable) -> bool {
    ||| exists|a: AiTaskType, b: AiTaskType|
        online_route(table, a) && online_route(table, b) && #[trigger] table.entry(a)->0.primary_model@
            != #[trigger] table.entry(b)->0.primary_model@
    ||| exists|a: AiTaskType| online_route(table, a) && #[trigger] table.entry(a)->0.fallback_models@.len() > 0
}

/// Whether more than one model serves the online tasks of `routes`.
pub fn multi_model_active(routes: &TaskRouteTable) -> (r: bool)
    ensures
        r == multi_model_spec_of(*routes),
{
    let online = [AiTaskType::IntentParse, AiTaskType::RankExplain, AiTaskType::CompareGames, AiTaskType::GroupAdvice];
    let mut first: Option<&TaskRouteConfig> = None;
    let mut i: usize = 0;
    while i < 4
        invariant
            i <= 4,
            online@ == seq![
                AiTaskType::IntentParse,
                AiTaskType::RankExplain,
                AiTaskType::CompareGames,
                AiTaskType::GroupAdvice,
            ],
            forall|k: int| 0 <= k < i ==> !(online_route(*routes, #[trigger] online@[k]) && routes.entry(online@[k])->0.fallback_models@.len() > 0),
            match first {
                Some(f) => {
                    &&& exists|k: int| 0 <= k < i && online_route(*routes, #[trigger] online@[k]) && routes.entry(online@[k])->0 == *f
                    &&& forall|k: int| 0 <= k < i && online_route(*routes, #[trigger] online@[k]) ==> routes.entry(online@[k])->0.primary_model@ == f.primary_model@
                },
                None => forall|k: int| 0 <= k < i ==> !online_route(*routes, #[trigger] online@[k]),
            },
        decreases 4 - i,
    {
        let t = online[i];
        match routes.get(&t) {
            Some(route) => {
                if route.enabled {
                    if route.fallback_models.len() > 0 {
                        assert(online_route(*routes, t));
                        return true;
                    }
                    match first {
                        Some(f) => {
                            if !str_eq(f.primary_model.as_str(), route.primary_model.as_str()) {
                                let ghost k0 = choose|k: int| 0 <= k < i && online_route(*routes, #[trigger] online@[k]) && routes.entry(online@[k])->0 == *f;
                                assert(online_route(*routes, online@[k0]));
                                assert(routes.entry(online@[k0])->0.primary_model@ != routes.entry(t)->0.primary_model@);
                                return true;
                            }
                        },
                        None => {
                            first = Some(route);
                        },
                    }
                }
            },
            None => {},
        }
        i = i + 1;
    }
    proof {
        assert forall|a: AiTaskType| #[trigger] online_route(*routes, a) implies online@.contains(a) by {
            if a == AiTaskType::IntentParse { assert(online@[0] == a); }
            else if a == AiTaskType::RankExplain { assert(online@[1] == a); }
            else if a == AiTaskType::CompareGames { assert(online@[2] == a); }
            else { assert(online@[3] == a); }
        }
    }
    false
}

/// The route version of `task`'s route, or the shared default when the task
/// has none.
pub fn route_version<'a>(routes: &'a TaskRouteTable, task: AiTaskType) -> (r: &'a str)
    ensures
        r@ == match routes.entry(task) {
            Some(route) => route.route_version@,
            None => crate::routes::default_route_version(),
        },
{
    match routes.get(&task) {
        Some(route) => route.route_version.as_str(),
        None => DEFAULT_ROUTE_VERSION,
    }
}


/// Routes structured completions by task: primary model, then fallbacks,
/// then an error. It keeps the routes, the model registry, the per-model
/// breakers and the request budget; the provider calls themselves are made
/// by the caller, driven by a [`RouteWalk`].
#[derive(Debug)]
pub struct TaskRouter {
    routes: TaskRouteTable,
    registry: ModelRegistry,
    policy: RouterPolicy,
    circuits: crate::breaker::ModelCircuits,
    budget: crate::breaker::RequestBudget,
}

impl TaskRouter {
    pub closed spec fn routes_view(self) -> TaskRouteTable {
        self.routes
    }

    pub closed spec fn registry_view(self) -> Option<Map<Seq<char>, ModelCapabilities>> {
        self.registry@
    }

    pub closed spec fn policy_view(self) -> RouterPolicy {
        self.policy
    }

    pub closed spec fn circuits_view(self) -> crate::breaker::ModelCircuits {
        self.circuits
    }

    pub closed spec fn budget_view(self) -> crate::breaker::RequestBudget {
        self.budget
    }

    /// A router over `routes`, with no failures or requests counted yet.
    pub fn new(routes: TaskRouteTable, registry: ModelRegistry, policy: RouterPolicy) -> (r: Self)
        ensures
            r.routes_view() == routes,
            r.registry_view() == registry@,
            r.policy_view() == policy,
            forall|m: Seq<char>| #[trigger] r.circuits_view().breaker(m) == (CircuitBreaker {
                consecutive_failures: 0,
                open_until_ms: 0,
            }),
            r.budget_view() == crate::breaker::RequestBudget::new_spec(),
    {
        TaskRouter {
            routes,
            registry,
            policy,
            circuits: crate::breaker::ModelCircuits::new(),
            budget: crate::breaker::RequestBudget::new(),
        }
    }

    /// A router over the default routes, an empty registry and the default
    /// policy.
    pub fn with_defaults() -> (r: Self)
        ensures
            forall|t: AiTaskType| #[trigger] r.routes_view().entry(t) matches Some(route) ==> crate::routes::is_default_route(route) && route.task == t,
            forall|t: AiTaskType| #[trigger] r.routes_view().entry(t) is Some <==> crate::routes::default_route_shape(t) is Some,
            r.registry_view() is None,
            r.policy_view() == (RouterPolicy {
                minute_budget: 60,
                daily_budget: 2_000,
                circuit_failure_threshold: 5,
                circuit_open_ms: 30_000,
            }),
            forall|m: Seq<char>| #[trigger] r.circuits_view().breaker(m) == (CircuitBreaker {
                consecutive_failures: 0,
                open_until_ms: 0,
            }),
            r.budget_view() == crate::breaker::RequestBudget::new_spec(),
    {
        TaskRouter::new(crate::routes::default_task_routes(), ModelRegistry::new(), RouterPolicy::default())
    }

    pub fn registry(&self) -> (r: &ModelRegistry)
        ensures
            r@ == self.registry_view(),
    {
        &self.registry
    }

    pub fn routes(&self) -> (r: &TaskRouteTable)
        ensures
            *r == self.routes_view(),
    {
        &self.routes
    }

    /// The route configured for `task`.
    pub fn route_for(&self, task: AiTaskType) -> (r: Option<&TaskRouteConfig>)
        ensures
            match r {
                Some(x) => self.routes_view().entry(task) == Some(*x),
                None => self.routes_view().entry(task) is None,
            },
    {
        self.routes.get(&task)
    }

    /// The route version of `task`, or the shared default.
    pub fn route_version(&self, task: AiTaskType) -> (r: &str)
        ensures
            r@ == match self.routes_view().entry(task) {
                Some(route) => route.route_version@,
                None => crate::routes::default_route_version(),
            },
    {
        route_version(&self.routes, task)
    }

    /// The settings rows of the routes, ordered by task wire name.
    pub fn route_snapshot(&self) -> (r: Vec<TaskRouteSnapshot>)
        ensures
            r@.len() == routes_in(self.routes_view(), snapshot_order()).len(),
            forall|i: int|
                0 <= i < r@.len() ==> shows_route(
                    #[trigger] r@[i],
                    routes_in(self.routes_view(), snapshot_order())[i],
                    self.registry_view(),
                ),
    {
        route_snapshot(&self.routes, &self.registry)
    }

    /// Whether more than one model serves the online tasks.
    pub fn multi_model_active(&self) -> (r: bool)
        ensures
            r == multi_model_spec_of(self.routes_view()),
    {
        multi_model_active(&self.routes)
    }

    /// Replace the registry with the models the provider listed, valid for
    /// five minutes; returns how many were listed.
    pub fn apply_model_list(&mut self, models: Vec<ModelCapabilities>) -> (r: usize)
        ensures
            r == models@.len(),
            final(self).registry_view() == Some(crate::model_registry::caps_map(models@)),
            final(self).routes_view() == old(self).routes_view(),
            final(self).policy_view() == old(self).policy_view(),
            final(self).circuits_view() == old(self).circuits_view(),
            final(self).budget_view() == old(self).budget_view(),
    {
        let count = models.len();
        self.registry.replace_models(models, 300_000);
        count
    }

    /// Begin a structured completion of `task` at `now_ms`: refused with
    /// `Disabled` when the provider is off or the task's route is disabled,
    /// with a configuration error when the task has no route, and with
    /// `BudgetExhausted` when the request is over the minute or day budget
    /// (it is still counted). Otherwise the walk along the route's chain (or
    /// the request's own model) starts.
    pub fn begin_completion(
        &mut self,
        provider_available: bool,
        task: AiTaskType,
        request_model: Option<String>,
        request_protocol: Option<ApiProtocol>,
        max_output_tokens: u32,
        now_ms: u64,
    ) -> (r: Result<RouteWalk, AiError>)
        ensures
            final(self).routes_view() == old(self).routes_view(),
            final(self).registry_view() == old(self).registry_view(),
            final(self).policy_view() == old(self).policy_view(),
            final(self).circuits_view() == old(self).circuits_view(),
            ({
                let p = old(self).policy_view();
                let charge = crate::breaker::charged(old(self).budget_view(), now_ms, p.minute_budget, p.daily_budget);
                if !provider_available {
                    &&& r == Err::<RouteWalk, AiError>(AiError::Disabled)
                    &&& final(self).budget_view() == old(self).budget_view()
                } else {
                    match old(self).routes_view().entry(task) {
                        None => {
                            &&& r matches Err(AiError::Config(m))
                            &&& m@ == "no route configured for task "@ + task_name(task)
                            &&& final(self).budget_view() == old(self).budget_view()
                        },
                        Some(route) => if !route.enabled {
                            &&& r == Err::<RouteWalk, AiError>(AiError::Disabled)
                            &&& final(self).budget_view() == old(self).budget_view()
                        } else {
                            &&& final(self).budget_view() == charge.0
                            &&& if !charge.1 {
                                r == Err::<RouteWalk, AiError>(AiError::BudgetExhausted)
                            } else {
                                r matches Ok(w) && {
                                    &&& w.task() == task
                                    &&& same_route(w.route(), route)
                                    &&& w.request_protocol() == request_protocol
                                    &&& w.requested_tokens() == max_output_tokens
                                    &&& w.chain_view() == match request_model {
                                        Some(m) => seq![m@],
                                        None => first_occurrences(route_candidates(route)),
                                    }
                                    &&& w.next_index() == 0
                                    &&& w.current_view() is None
                                    &&& w.attempted_view() == Seq::<Seq<char>>::empty()
                                    &&& w.last_error() matches AiError::ProviderRejected(m) && m@
                                        == "no models attempted"@
                                }
                            }
                        },
                    }
                }
            }),
    {
        if !provider_available {
            return Err(AiError::Disabled);
        }
        let route = match self.routes.get(&task) {
            Some(route) => route.clone_route(),
            None => {
                let msg = crate::text::concat("no route configured for task ", task.as_str());
                return Err(AiError::Config(msg));
            },
        };
        if !route.enabled {
            return Err(AiError::Disabled);
        }
        match self.budget.consume(now_ms, self.policy.minute_budget, self.policy.daily_budget) {
            Ok(()) => {},
            Err(e) => {
                return Err(e);
            },
        }
        RouteWalk::start(task, route, request_model, request_protocol, max_output_tokens)
    }

    /// The walk's next step, against this router's registry and breakers.
    pub fn next_step(&self, walk: &mut RouteWalk, now_ms: u64) -> (r: WalkStep)
        ensures
            exists|fresh: bool|
                step_taken(*old(walk), *final(walk), r, self.registry_view(), self.circuits_view(), fresh, now_ms),
    {
        let fresh = self.registry.is_fresh();
        let r = walk.next_step(&self.registry, &self.circuits, fresh, now_ms);
        assert(step_taken(*old(walk), *walk, r, self.registry_view(), self.circuits_view(), fresh, now_ms));
        r
    }

    /// Hand the walk what its last attempt returned, updating this router's
    /// registry and breakers.
    pub fn record_outcome(&mut self, walk: &mut RouteWalk, outcome: AttemptOutcome, now_ms: u64) -> (r: Option<RoutedAttempt>)
        ensures
            final(self).routes_view() == old(self).routes_view(),
            final(self).policy_view() == old(self).policy_view(),
            final(self).budget_view() == old(self).budget_view(),
            outcome_taken(
                *old(walk),
                *final(walk),
                outcome,
                r,
                old(self).registry_view(),
                final(self).registry_view(),
                old(self).circuits_view(),
                final(self).circuits_view(),
                now_ms,
                old(self).policy_view(),
            ),
    {
        let policy = self.policy;
        walk.on_outcome(outcome, &mut self.registry, &mut self.circuits, now_ms, &policy)
    }
}

/// Which provider rejections make the router try the next protocol: those
/// whose message, lower-cased, mentions "protocol", "responses",
/// "chat/completions" or "not supported"; and which mark the model missing:
/// those mentioning "model" together with "not found", "does not exist",
/// "unknown" or "http 404". No other error does either.
pub proof fn lemma_rejection_words(e: AiError)
    ensures
        protocol_rejection(e) <==> (e matches AiError::ProviderRejected(msg) && (seq_contains(ascii_lower(msg@), "protocol"@) || seq_contains(ascii_lower(msg@), "responses"@) || seq_contains(ascii_lower(msg@), "chat/completions"@) || seq_contains(ascii_lower(msg@), "not supported"@))),
        model_missing(e) <==> (e matches AiError::ProviderRejected(msg) && seq_contains(ascii_lower(msg@), "model"@)
            && (seq_contains(ascii_lower(msg@), "not found"@) || seq_contains(ascii_lower(msg@), "does not exist"@) || seq_contains(ascii_lower(msg@), "unknown"@) || seq_contains(ascii_lower(msg@), "http 404"@))),
{
    if let AiError::ProviderRejected(msg) = e {
        let h = ascii_lower(msg@);
        let wp = seq!["protocol"@, "responses"@, "chat/completions"@, "not supported"@];
        if seq_contains(h, "protocol"@) { assert(seq_contains(h, wp[0])); }
        if seq_contains(h, "responses"@) { assert(seq_contains(h, wp[1])); }
        if seq_contains(h, "chat/completions"@) { assert(seq_contains(h, wp[2])); }
        if seq_contains(h, "not supported"@) { assert(seq_contains(h, wp[3])); }
        if contains_any(h, wp) {
            let k = choose|k: int| 0 <= k < wp.len() && seq_contains(h, #[trigger] wp[k]);
            if k == 0 {} else if k == 1 {} else if k == 2 {} else {}
        }
        let wm = seq!["not found"@, "does not exist"@, "unknown"@, "http 404"@];
        if seq_contains(h, "not found"@) { assert(seq_contains(h, wm[0])); }
        if seq_contains(h, "does not exist"@) { assert(seq_contains(h, wm[1])); }
        if seq_contains(h, "unknown"@) { assert(seq_contains(h, wm[2])); }
        if seq_contains(h, "http 404"@) { assert(seq_contains(h, wm[3])); }
        if contains_any(h, wm) {
            let k = choose|k: int| 0 <= k < wm.len() && seq_contains(h, #[trigger] wm[k]);
            if k == 0 {} else if k == 1 {} else if k == 2 {} else {}
        }
        let wo = seq!["model"@];
        if seq_contains(h, "model"@) { assert(seq_contains(h, wo[0])); }
        if contains_any(h, wo) {
            let k = choose|k: int| 0 <= k < wo.len() && seq_contains(h, #[trigger] wo[k]);
            {}
        }
    }
}

proof fn lemma_usable_contains(ps: Seq<ApiProtocol>, chat: bool, responses: bool, fresh: bool, p: ApiProtocol)
    ensures
        usable_protocols(ps, chat, responses, fresh).contains(p) <==> ps.contains(p) && match p {
            ApiProtocol::ChatCompletions => chat || !fresh,
            ApiProtocol::Responses => responses || !fresh,
        },
        !fresh ==> usable_protocols(ps, chat, responses, fresh) == ps,
    decreases ps.len(),
{
    if ps.len() > 0 {
        let prev = ps.drop_last();
        lemma_usable_contains(prev, chat, responses, fresh, p);
        let u = usable_protocols(prev, chat, responses, fresh);
        if usable_protocols(ps, chat, responses, fresh).contains(p) {
            if u.contains(p) {
                let i = choose|i: int| 0 <= i < prev.len() && prev[i] == p;
                assert(ps[i] == p);
            } else {
                let i = choose|i: int| 0 <= i < u.push(ps.last()).len() && u.push(ps.last())[i] == p;
                assert(ps[ps.len() - 1] == p);
            }
        }
        if ps.contains(p) && match p {
            ApiProtocol::ChatCompletions => chat || !fresh,
            ApiProtocol::Responses => responses || !fresh,
        } {
            let i = choose|i: int| 0 <= i < ps.len() && ps[i] == p;
            if i < ps.len() - 1 {
                assert(prev[i] == p);
                let j = choose|j: int| 0 <= j < u.len() && u[j] == p;
                assert(u.push(ps.last())[j] == p);
            } else {
                assert(u.push(p)[u.len() as int] == p);
            }
        }
        if !fresh {
            assert(prev.push(ps.last()) =~= ps);
        }
    } else {
        if !fresh {
            assert(ps =~= Seq::<ApiProtocol>::empty());
        }
    }
}

/// The protocols a model is tried with: only the request's protocol when it
/// names one; otherwise protocols of the route's preference (or, without
/// one, of the model's own order, Responses before chat completions), each
/// one the model supports while the registry is fresh, and all of them when
/// it is not. A model the registry does not know is taken to support both.
pub proof fn lemma_protocol_choice(
    known: Option<ModelCapabilities>,
    route: TaskRouteConfig,
    fresh: bool,
    request_override: Option<ApiProtocol>,
    p: ApiProtocol,
)
    ensures
        request_override matches Some(q) ==> protocols_spec(known, route, fresh, request_override) == seq![q],
        request_override is None ==> ({
            let chat = match known {
                Some(c) => c.chat_completions,
                None => true,
            };
            let responses = match known {
                Some(c) => c.responses,
                None => true,
            };
            let pref = if route.protocol_preference@.len() == 0 {
                (if responses { seq![ApiProtocol::Responses] } else { Seq::empty() }) + (if chat {
                    seq![ApiProtocol::ChatCompletions]
                } else {
                    Seq::empty()
                })
            } else {
                route.protocol_preference@
            };
            &&& protocols_spec(known, route, fresh, request_override).contains(p) <==> pref.contains(p) && match p {
                ApiProtocol::ChatCompletions => chat || !fresh,
                ApiProtocol::Responses => responses || !fresh,
            }
            &&& !fresh ==> protocols_spec(known, route, fresh, request_override) == pref
        }),
{
    let (chat, responses) = caps_flags(known);
    let pref = if route.protocol_preference@.len() == 0 {
        preferred_by_flags(chat, responses)
    } else {
        route.protocol_preference@
    };
    lemma_usable_contains(pref, chat, responses, fresh, p);
}

} // verus!
