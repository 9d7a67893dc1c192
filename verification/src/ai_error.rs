//! Vendor-agnostic AI errors and the user-facing fallback reason of each.
use vstd::prelude::*;

verus! {

/// Vendor-agnostic AI errors. Never embed raw provider secrets.
#[derive(Debug, Clone, PartialEq, Eq)]
pub enum AiError {
    Disabled,
    Timeout,
    RateLimited,
    BudgetExhausted,
    CircuitOpen,
    ProviderRejected(String),
    InvalidOutput(String),
    Transport(String),
    Config(String),
}

/// Errors worth retrying: timeouts, rate limits and transport failures.
pub open spec fn spec_is_retryable(e: AiError) -> bool {
    e is Timeout || e is RateLimited || e is Transport
}

/// The message shown to users when the deterministic results replace AI output.
pub open spec fn spec_fallback_reason(e: AiError) -> Seq<char> {
    match e {
        AiError::Disabled => "AI provider is not configured; deterministic recommendations are shown"@,
        AiError::Timeout => "AI provider timed out; deterministic recommendations are shown"@,
        AiError::RateLimited => "AI provider rate limited; deterministic recommendations are shown"@,
        AiError::BudgetExhausted => "AI budget exhausted; deterministic recommendations are shown"@,
        AiError::CircuitOpen => "AI provider temporarily unavailable; deterministic recommendations are shown"@,
        AiError::ProviderRejected(_) => "AI provider rejected the request; deterministic recommendations are shown"@,
        AiError::InvalidOutput(_) => "AI output failed validation; deterministic recommendations are shown"@,
        AiError::Transport(_) => "AI provider transport failed; deterministic recommendations are shown"@,
        AiError::Config(_) => "AI provider misconfigured; deterministic recommendations are shown"@,
    }
}

impl AiError {
    pub fn is_retryable(&self) -> (r: bool)
        ensures
            r == spec_is_retryable(*self),
    {
        match self {
            AiError::Timeout | AiError::RateLimited | AiError::Transport(_) => true,
            _ => false,
        }
    }

    pub fn fallback_reason(&self) -> (r: &'static str)
        ensures
            r@ == spec_fallback_reason(*self),
    {
        match self {
            AiError::Disabled => "AI provider is not configured; deterministic recommendations are shown",
            AiError::Timeout => "AI provider timed out; deterministic recommendations are shown",
            AiError::RateLimited => "AI provider rate limited; deterministic recommendations are shown",
            AiError::BudgetExhausted => "AI budget exhausted; deterministic recommendations are shown",
            AiError::CircuitOpen => "AI provider temporarily unavailable; deterministic recommendations are shown",
            AiError::ProviderRejected(_) => "AI provider rejected the request; deterministic recommendations are shown",
            AiError::InvalidOutput(_) => "AI output failed validation; deterministic recommendations are shown",
            AiError::Transport(_) => "AI provider transport failed; deterministic recommendations are shown",
            AiError::Config(_) => "AI provider misconfigured; deterministic recommendations are shown",
        }
    }

    /// A copy of this error with the same kind and message.
    pub fn clone_error(&self) -> (r: AiError)
        ensures
            r == *self,
    {
        match self {
            AiError::Disabled => AiError::Disabled,
            AiError::Timeout => AiError::Timeout,
            AiError::RateLimited => AiError::RateLimited,
            AiError::BudgetExhausted => AiError::BudgetExhausted,
            AiError::CircuitOpen => AiError::CircuitOpen,
            AiError::ProviderRejected(m) => AiError::ProviderRejected(m.clone()),
            AiError::InvalidOutput(m) => AiError::InvalidOutput(m.clone()),
            AiError::Transport(m) => AiError::Transport(m.clone()),
            AiError::Config(m) => AiError::Config(m.clone()),
        }
    }
}

/// Only timeouts, rate limiting and transport failures are retried, and
/// every fallback message tells the user that deterministic recommendations
/// are shown.
pub proof fn lemma_retry_and_fallback(e: AiError)
    ensures
        spec_is_retryable(e) <==> (e is Timeout || e is RateLimited || e is Transport),
        crate::text::seq_ends_with(spec_fallback_reason(e), "; deterministic recommendations are shown"@),
{
    let tail = "; deterministic recommendations are shown"@;
    let m = spec_fallback_reason(e);
    reveal_strlit("; deterministic recommendations are shown");
    reveal_strlit("AI provider is not configured; deterministic recommendations are shown");
    reveal_strlit("AI provider timed out; deterministic recommendations are shown");
    reveal_strlit("AI provider rate limited; deterministic recommendations are shown");
    reveal_strlit("AI budget exhausted; deterministic recommendations are shown");
    reveal_strlit("AI provider temporarily unavailable; deterministic recommendations are shown");
    reveal_strlit("AI provider rejected the request; deterministic recommendations are shown");
    reveal_strlit("AI output failed validation; deterministic recommendations are shown");
    reveal_strlit("AI provider transport failed; deterministic recommendations are shown");
    reveal_strlit("AI provider misconfigured; deterministic recommendations are shown");
    assert(m.subrange(m.len() - tail.len(), m.len() as int) =~= tail);
}

} // verus!
