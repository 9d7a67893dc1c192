//! Request budgets and circuit breakers around AI providers.
//!
//! Time is wall-clock milliseconds handed in by the caller. A budget counts
//! requests per minute and per day window; a breaker opens after enough
//! consecutive failures and stays open for a while.
use vstd::prelude::*;
use crate::ai_error::AiError;
use crate::text::{str_eq};

verus! {

/// Runtime policy of the single-model gateway: timeout, budgets, breaker.
#[derive(Debug, Clone, Copy, PartialEq, Eq)]
pub struct AiPolicy {
    pub online_timeout_ms: u64,
    pub minute_budget: u32,
    pub daily_budget: u32,
    pub circuit_failure_threshold: u32,
    pub circuit_open_ms: u64,
}

impl Default for AiPolicy {
    fn default() -> (r: Self)
        ensures
            r.online_timeout_ms == 12_000,
            r.minute_budget == 60,
            r.daily_budget == 2_000,
            r.circuit_failure_threshold == 5,
            r.circuit_open_ms == 30_000,
    {
        AiPolicy {
            online_timeout_ms: 12_000,
            minute_budget: 60,
            daily_budget: 2_000,
            circuit_failure_threshold: 5,
            circuit_open_ms: 30_000,
        }
    }
}

/// Budget and breaker policy of the multi-model router.
#[derive(Debug, Clone, Copy, PartialEq, Eq)]
pub struct RouterPolicy {
    pub minute_budget: u32,
    pub daily_budget: u32,
    pub circuit_failure_threshold: u32,
    pub circuit_open_ms: u64,
}

impl Default for RouterPolicy {
    fn default() -> (r: Self)
        ensures
            r.minute_budget == 60,
            r.daily_budget == 2_000,
            r.circuit_failure_threshold == 5,
            r.circuit_open_ms == 30_000,
    {
        RouterPolicy {
            minute_budget: 60,
            daily_budget: 2_000,
            circuit_failure_threshold: 5,
            circuit_open_ms: 30_000,
        }
    }
}

/// The minute window of a wall-clock time in milliseconds.
pub open spec fn minute_of(now_ms: u64) -> u64 {
    ((now_ms / 1000) / 60) as u64
}

/// The day window of a wall-clock time in milliseconds.
pub open spec fn day_of(now_ms: u64) -> u64 {
    ((now_ms / 1000) / 86_400) as u64
}

/// A counter after one more request, wrapping as an atomic add does.
pub open spec fn counted_once(c: u32) -> u32 {
    if c == u32::MAX {
        0
    } else {
        (c + 1) as u32
    }
}

/// Requests counted in the current minute and day windows.
#[derive(Debug, Clone, Copy, PartialEq, Eq, Structural)]
pub struct RequestBudget {
    pub minute_window: u64,
    pub minute_count: u32,
    pub day_window: u64,
    pub day_count: u32,
}

/// The outcome of charging one request to budget `b` at `now_ms`: the budget
/// afterwards, and whether the request is within both limits. A request over
/// the minute limit is not charged to the day.
pub open spec fn charged(b: RequestBudget, now_ms: u64, minute_budget: u32, daily_budget: u32) -> (RequestBudget, bool) {
    let minute = minute_of(now_ms);
    let day = day_of(now_ms);
    let mc = if b.minute_window != minute {
        0u32
    } else {
        b.minute_count
    };
    let b1 = RequestBudget { minute_window: minute, minute_count: counted_once(mc), ..b };
    if mc + 1 > minute_budget {
        (b1, false)
    } else {
        let dc = if b.day_window != day {
            0u32
        } else {
            b.day_count
        };
        let b2 = RequestBudget { day_window: day, day_count: counted_once(dc), ..b1 };
        (b2, dc + 1 <= daily_budget)
    }
}

impl RequestBudget {
    /// The budget before any request.
    pub open spec fn new_spec() -> RequestBudget {
        RequestBudget { minute_window: 0, minute_count: 0, day_window: 0, day_count: 0 }
    }

    /// No request counted yet.
    pub fn new() -> (r: Self)
        ensures
            r == RequestBudget::new_spec(),
    {
        RequestBudget { minute_window: 0, minute_count: 0, day_window: 0, day_count: 0 }
    }

    /// Charge one request at `now_ms`; a request over either limit is refused
    /// with `BudgetExhausted`.
    pub fn consume(&mut self, now_ms: u64, minute_budget: u32, daily_budget: u32) -> (r: Result<(), AiError>)
        ensures
            *final(self) == charged(*old(self), now_ms, minute_budget, daily_budget).0,
            r is Ok == charged(*old(self), now_ms, minute_budget, daily_budget).1,
            r matches Err(e) ==> e == AiError::BudgetExhausted,
    {
        let wall = now_ms / 1000;
        let minute = wall / 60;
        let day = wall / 86_400;
        if self.minute_window != minute {
            self.minute_window = minute;
            self.minute_count = 0;
        }
        let mc = self.minute_count;
        self.minute_count = if mc == u32::MAX {
            0
        } else {
            mc + 1
        };
        if (mc as u64) + 1 > minute_budget as u64 {
            return Err(AiError::BudgetExhausted);
        }
        if self.day_window != day {
            self.day_window = day;
            self.day_count = 0;
        }
        let dc = self.day_count;
        self.day_count = if dc == u32::MAX {
            0
        } else {
            dc + 1
        };
        if (dc as u64) + 1 > daily_budget as u64 {
            return Err(AiError::BudgetExhausted);
        }
        Ok(())
    }
}

/// Consecutive failures of a provider or model, and until when it is skipped.
#[derive(Debug, Clone, Copy, PartialEq, Eq, Structural)]
pub struct CircuitBreaker {
    pub consecutive_failures: u32,
    pub open_until_ms: u64,
}

/// `a + b`, saturating at the largest `u64`.
pub open spec fn saturating_add_u64(a: u64, b: u64) -> u64 {
    if a + b > u64::MAX {
        u64::MAX
    } else {
        (a + b) as u64
    }
}

/// The breaker after one more counted failure at `now_ms`: it opens for
/// `open_ms` once the consecutive failures reach `threshold`.
pub open spec fn failed_once(c: CircuitBreaker, now_ms: u64, threshold: u32, open_ms: u64) -> CircuitBreaker {
    CircuitBreaker {
        consecutive_failures: counted_once(c.consecutive_failures),
        open_until_ms: if c.consecutive_failures + 1 >= threshold {
            saturating_add_u64(now_ms, open_ms)
        } else {
            c.open_until_ms
        },
    }
}

/// Errors that count against the single-model gateway's breaker.
pub open spec fn gateway_failure(e: AiError) -> bool {
    e is Timeout || e is Transport || e is RateLimited || e is ProviderRejected
}

/// Errors that count against a routed model's breaker.
pub open spec fn model_failure(e: AiError) -> bool {
    gateway_failure(e) || e is InvalidOutput
}

impl CircuitBreaker {
    /// Closed, with no failures.
    pub fn new() -> (r: Self)
        ensures
            r == (CircuitBreaker { consecutive_failures: 0, open_until_ms: 0 }),
    {
        CircuitBreaker { consecutive_failures: 0, open_until_ms: 0 }
    }

    /// The breaker refuses requests at `now_ms`.
    pub fn is_open(&self, now_ms: u64) -> (r: bool)
        ensures
            r == (self.open_until_ms > now_ms),
    {
        self.open_until_ms > now_ms
    }

    /// Count one failure at `now_ms`.
    pub fn note_failure(&mut self, now_ms: u64, threshold: u32, open_ms: u64)
        ensures
            *final(self) == failed_once(*old(self), now_ms, threshold, open_ms),
    {
        let f = self.consecutive_failures;
        self.consecutive_failures = if f == u32::MAX {
            0
        } else {
            f + 1
        };
        if (f as u64) + 1 >= threshold as u64 {
            self.open_until_ms = if now_ms > u64::MAX - open_ms {
                u64::MAX
            } else {
                now_ms + open_ms
            };
        }
    }
}

/// After `threshold` counted failures in a row from a closed breaker, the
/// breaker is open until `open_ms` after the last of them (when that does
/// not pass the end of time).
pub proof fn lemma_breaker_opens(c: CircuitBreaker, threshold: u32, now_ms: u64, open_ms: u64)
    requires
        c.consecutive_failures + 1 == threshold,
        now_ms + open_ms <= u64::MAX,
        open_ms > 0,
    ensures
        failed_once(c, now_ms, threshold, open_ms).open_until_ms == now_ms + open_ms,
        failed_once(c, now_ms, threshold, open_ms).open_until_ms > now_ms,
{
}

/// Each counted failure adds one to the run of failures; below the threshold
/// it leaves the breaker's opening as it was, and from the threshold on it
/// opens the breaker until `open_ms` after the failure (held at the end of
/// time).
pub proof fn lemma_failure_counting(c: CircuitBreaker, now_ms: u64, threshold: u32, open_ms: u64)
    ensures
        c.consecutive_failures < u32::MAX ==> failed_once(c, now_ms, threshold, open_ms).consecutive_failures
            == c.consecutive_failures + 1,
        c.consecutive_failures + 1 < threshold ==> failed_once(c, now_ms, threshold, open_ms).open_until_ms
            == c.open_until_ms,
        c.consecutive_failures + 1 >= threshold ==> failed_once(c, now_ms, threshold, open_ms).open_until_ms
            == if now_ms + open_ms <= u64::MAX { (now_ms + open_ms) as u64 } else { u64::MAX },
{
}

/// A request the budget admits leaves both window counts within their limits.
pub proof fn lemma_admitted_within_budget(b: RequestBudget, now_ms: u64, minute_budget: u32, daily_budget: u32)
    ensures
        charged(b, now_ms, minute_budget, daily_budget).1 ==> {
            let after = charged(b, now_ms, minute_budget, daily_budget).0;
            &&& after.minute_count <= minute_budget
            &&& after.day_count <= daily_budget
            &&& after.minute_window == minute_of(now_ms)
            &&& after.day_window == day_of(now_ms)
        },
{
}

/// The single-model gateway's budget and breaker.
#[derive(Debug, Clone, Copy, PartialEq, Eq, Structural)]
pub struct GatewayState {
    pub budget: RequestBudget,
    pub circuit: CircuitBreaker,
}

impl GatewayState {
    pub fn new() -> (r: Self)
        ensures
            r.budget == (RequestBudget { minute_window: 0, minute_count: 0, day_window: 0, day_count: 0 }),
            r.circuit == (CircuitBreaker { consecutive_failures: 0, open_until_ms: 0 }),
    {
        GatewayState { budget: RequestBudget::new(), circuit: CircuitBreaker::new() }
    }

    /// Decide whether a request may go to the provider at `now_ms`: not when
    /// the provider is unavailable (`Disabled`), while the breaker is open
    /// (`CircuitOpen`), or over budget (`BudgetExhausted`, the request still
    /// counted). Only a request that reaches the budget check is counted.
    pub fn begin_request(&mut self, available: bool, now_ms: u64, policy: &AiPolicy) -> (r: Result<(), AiError>)
        ensures
            !available ==> r == Err::<(), AiError>(AiError::Disabled) && *final(self) == *old(self),
            available && old(self).circuit.open_until_ms > now_ms ==> r == Err::<(), AiError>(
                AiError::CircuitOpen,
            ) && *final(self) == *old(self),
            available && old(self).circuit.open_until_ms <= now_ms ==> {
                let (b, ok) = charged(old(self).budget, now_ms, policy.minute_budget, policy.daily_budget);
                &&& final(self).budget == b
                &&& final(self).circuit == old(self).circuit
                &&& (ok ==> r is Ok)
                &&& (!ok ==> r == Err::<(), AiError>(AiError::BudgetExhausted))
            },
    {
        if !available {
            return Err(AiError::Disabled);
        }
        if self.circuit.is_open(now_ms) {
            return Err(AiError::CircuitOpen);
        }
        self.budget.consume(now_ms, policy.minute_budget, policy.daily_budget)
    }

    /// A completed request closes the run of failures.
    pub fn note_success(&mut self)
        ensures
            final(self).circuit.consecutive_failures == 0,
            final(self).circuit.open_until_ms == old(self).circuit.open_until_ms,
            final(self).budget == old(self).budget,
    {
        self.circuit.consecutive_failures = 0;
    }

    /// A failed request counts against the breaker when it is a provider
    /// failure (timeout, transport, rate limit, rejection).
    pub fn note_failure(&mut self, error: &AiError, now_ms: u64, policy: &AiPolicy)
        ensures
            final(self).budget == old(self).budget,
            final(self).circuit == if gateway_failure(*error) {
                failed_once(old(self).circuit, now_ms, policy.circuit_failure_threshold, policy.circuit_open_ms)
            } else {
                old(self).circuit
            },
    {
        match error {
            AiError::Timeout | AiError::Transport(_) | AiError::RateLimited | AiError::ProviderRejected(_) => {
                self.circuit.note_failure(now_ms, policy.circuit_failure_threshold, policy.circuit_open_ms);
            },
            _ => {},
        }
    }
}

/// The breaker of `model` in `entries`; a model never seen has a closed one.
pub open spec fn breaker_of(entries: Seq<(Seq<char>, CircuitBreaker)>, model: Seq<char>) -> CircuitBreaker
    decreases entries.len(),
{
    if entries.len() == 0 {
        CircuitBreaker { consecutive_failures: 0, open_until_ms: 0 }
    } else if entries.last().0 == model {
        entries.last().1
    } else {
        breaker_of(entries.drop_last(), model)
    }
}

proof fn lemma_breaker_of_update(
    s: Seq<(Seq<char>, CircuitBreaker)>,
    i: int,
    model: Seq<char>,
    b: CircuitBreaker,
)
    requires
        0 <= i < s.len(),
        s[i].0 == model,
        forall|j: int| i < j < s.len() ==> (#[trigger] s[j]).0 != model,
    ensures
        forall|m: Seq<char>| #[trigger] breaker_of(s.update(i, (model, b)), m) == if m == model {
            b
        } else {
            breaker_of(s, m)
        },
    decreases s.len(),
{
    let t = s.update(i, (model, b));
    if i == s.len() - 1 {
        assert(t.drop_last() =~= s.drop_last());
        assert(t.last() == (model, b));
        assert(s.last() == s[i]);
        assert forall|m: Seq<char>| #[trigger] breaker_of(t, m) == if m == model {
            b
        } else {
            breaker_of(s, m)
        } by {}
    } else {
        let p = s.drop_last();
        assert forall|j: int| i < j < p.len() implies (#[trigger] p[j]).0 != model by {
            assert(p[j] == s[j]);
        }
        lemma_breaker_of_update(p, i, model, b);
        assert(t.drop_last() =~= p.update(i, (model, b)));
        assert(t.last() == s.last());
        assert(s.last().0 != model) by {
            assert(s[s.len() - 1] == s.last());
        }
        assert forall|m: Seq<char>| #[trigger] breaker_of(t, m) == if m == model {
            b
        } else {
            breaker_of(s, m)
        } by {
            assert(breaker_of(p.update(i, (model, b)), m) == if m == model {
                b
            } else {
                breaker_of(p, m)
            });
        }
    }
}

/// The breakers of the routed models.
#[derive(Debug)]
pub struct ModelCircuits {
    entries: Vec<(String, CircuitBreaker)>,
}

impl ModelCircuits {
    /// The breaker of `model`.
    pub closed spec fn breaker(self, model: Seq<char>) -> CircuitBreaker {
        breaker_of(self.entries@.map_values(|e: (String, CircuitBreaker)| (e.0@, e.1)), model)
    }

    /// No model has failed yet.
    pub fn new() -> (r: Self)
        ensures
            forall|m: Seq<char>| #[trigger] r.breaker(m) == (CircuitBreaker { consecutive_failures: 0, open_until_ms: 0 }),
    {
        let r = ModelCircuits { entries: Vec::new() };
        assert forall|m: Seq<char>| #[trigger] r.breaker(m) == (CircuitBreaker { consecutive_failures: 0, open_until_ms: 0 }) by {
            assert(r.entries@.map_values(|e: (String, CircuitBreaker)| (e.0@, e.1)) =~= Seq::<(Seq<char>, CircuitBreaker)>::empty());
        }
        r
    }

    /// The breaker of `model`.
    pub fn get(&self, model: &str) -> (r: CircuitBreaker)
        ensures
            r == self.breaker(model@),
    {
        let ghost ev = self.entries@.map_values(|e: (String, CircuitBreaker)| (e.0@, e.1));
        let mut i: usize = self.entries.len();
        assert(ev.take(ev.len() as int) =~= ev);
        while i > 0
            invariant
                i <= self.entries@.len(),
                ev == self.entries@.map_values(|e: (String, CircuitBreaker)| (e.0@, e.1)),
                breaker_of(ev, model@) == breaker_of(ev.take(i as int), model@),
            decreases i,
        {
            let ghost prefix = ev.take(i as int);
            assert(prefix.drop_last() =~= ev.take(i as int - 1));
            assert(prefix.last() == ev[i as int - 1]);
            if str_eq(self.entries[i - 1].0.as_str(), model) {
                return self.entries[i - 1].1;
            }
            i = i - 1;
        }
        assert(ev.take(0) =~= Seq::<(Seq<char>, CircuitBreaker)>::empty());
        CircuitBreaker::new()
    }

    /// Replace the breaker of `model`.
    pub fn set(&mut self, model: &str, breaker: CircuitBreaker)
        ensures
            forall|m: Seq<char>| #[trigger] final(self).breaker(m) == if m == model@ {
                breaker
            } else {
                old(self).breaker(m)
            },
    {
        let ghost before = self.entries@.map_values(|e: (String, CircuitBreaker)| (e.0@, e.1));
        let mut i: usize = self.entries.len();
        while i > 0
            invariant
                i <= self.entries@.len(),
                before == self.entries@.map_values(|e: (String, CircuitBreaker)| (e.0@, e.1)),
                before == old(self).entries@.map_values(|e: (String, CircuitBreaker)| (e.0@, e.1)),
                forall|j: int| i <= j < before.len() ==> (#[trigger] before[j]).0 != model@,
            decreases i,
        {
            assert(before[i as int - 1] == (self.entries@[i as int - 1].0@, self.entries@[i as int - 1].1));
            if str_eq(self.entries[i - 1].0.as_str(), model) {
                let name = self.entries[i - 1].0.clone();
                self.entries.set(i - 1, (name, breaker));
                proof {
                    lemma_breaker_of_update(before, i as int - 1, model@, breaker);
                    assert(self.entries@.map_values(|e: (String, CircuitBreaker)| (e.0@, e.1)) =~= before.update(
                        i as int - 1,
                        (model@, breaker),
                    ));
                }
                return;
            }
            i = i - 1;
        }
        self.entries.push((crate::text::owned(model), breaker));
        assert(self.entries@.map_values(|e: (String, CircuitBreaker)| (e.0@, e.1)) =~= before.push((model@, breaker)));
        assert(before.push((model@, breaker)).drop_last() =~= before);
    }

    /// `model` is skipped at `now_ms`.
    pub fn is_open(&self, model: &str, now_ms: u64) -> (r: bool)
        ensures
            r == (self.breaker(model@).open_until_ms > now_ms),
    {
        self.get(model).is_open(now_ms)
    }

    /// A completed request closes `model`'s breaker.
    pub fn note_success(&mut self, model: &str)
        ensures
            forall|m: Seq<char>| #[trigger] final(self).breaker(m) == if m == model@ {
                CircuitBreaker { consecutive_failures: 0, open_until_ms: 0 }
            } else {
                old(self).breaker(m)
            },
    {
        self.set(model, CircuitBreaker::new());
    }

    /// A failed request counts against `model` when it is a model failure
    /// (timeout, transport, rate limit, rejection, invalid output).
    pub fn note_failure(&mut self, model: &str, error: &AiError, now_ms: u64, policy: &RouterPolicy)
        ensures
            forall|m: Seq<char>| #[trigger] final(self).breaker(m) == if m == model@ && model_failure(*error) {
                failed_once(old(self).breaker(m), now_ms, policy.circuit_failure_threshold, policy.circuit_open_ms)
            } else {
                old(self).breaker(m)
            },
    {
        match error {
            AiError::Timeout | AiError::Transport(_) | AiError::RateLimited | AiError::ProviderRejected(_)
            | AiError::InvalidOutput(_) => {
                let mut b = self.get(model);
                b.note_failure(now_ms, policy.circuit_failure_threshold, policy.circuit_open_ms);
                self.set(model, b);
            },
            _ => {},
        }
    }
}

/// Which errors count against a breaker: timeouts, transport failures, rate
/// limiting and provider rejections count against the gateway's; a routed
/// model's also counts invalid output. No other error counts.
pub proof fn lemma_failure_kinds(e: AiError)
    ensures
        gateway_failure(e) <==> (e is Timeout || e is Transport || e is RateLimited || e is ProviderRejected),
        model_failure(e) <==> (e is Timeout || e is Transport || e is RateLimited || e is ProviderRejected
            || e is InvalidOutput),
{
}

/// A request is admitted exactly when, counting it, neither the requests of
/// its minute nor those of its day exceed their budgets (a new minute or day
/// starts from zero); it is always counted in its minute, and in its day only
/// when the minute admits it.
pub proof fn lemma_budget_admission(b: RequestBudget, now_ms: u64, minute_budget: u32, daily_budget: u32)
    ensures
        ({
            let in_minute: int = if b.minute_window == now_ms / 60_000 { b.minute_count as int } else { 0 };
            let in_day: int = if b.day_window == now_ms / 86_400_000 { b.day_count as int } else { 0 };
            let (after, ok) = charged(b, now_ms, minute_budget, daily_budget);
            &&& ok <==> (in_minute + 1 <= minute_budget && in_day + 1 <= daily_budget)
            &&& after.minute_window == now_ms / 60_000
            &&& after.minute_count == counted_once(in_minute as u32)
            &&& in_minute + 1 <= minute_budget ==> after.day_window == now_ms / 86_400_000 && after.day_count
                == counted_once(in_day as u32)
            &&& in_minute + 1 > minute_budget ==> after.day_window == b.day_window && after.day_count == b.day_count
        }),
{
    assert((now_ms / 1000) / 60 == now_ms / 60_000) by (nonlinear_arith);
    assert((now_ms / 1000) / 86_400 == now_ms / 86_400_000) by (nonlinear_arith);
}

} // verus!
