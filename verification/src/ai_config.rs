//! AI configuration read at startup: which provider serves completions and
//! embeddings, the clamped numeric settings, and the system prompts.
use vstd::prelude::*;
use crate::ai_error::AiError;
use crate::num::{parse_u64, parse_unsigned, parse_usize};
use crate::text::{ascii_lower, concat, str_eq, to_ascii_lowercase};

verus! {

pub const RANK_PROMPT_VERSION: &'static str = "rank-v5";

pub const SUMMARY_PROMPT_VERSION: &'static str = "summary-v1";

/// The completion provider chosen by `MPGS_AI_PROVIDER`.
#[derive(Debug, Clone, Copy, PartialEq, Eq, Structural)]
pub enum ProviderKind {
    Disabled,
    OpenAiCompat,
}

/// The embedding provider chosen by `MPGS_AI_EMBED_PROVIDER`.
#[derive(Debug, Clone, Copy, PartialEq, Eq, Structural)]
pub enum EmbeddingKind {
    Disabled,
    Hash,
    OpenAiCompat,
}

/// The names that turn a provider off.
pub open spec fn is_off_name(s: Seq<char>) -> bool {
    s == ""@ || s == "disabled"@ || s == "off"@ || s == "none"@
}

/// The names of the OpenAI-compatible provider.
pub open spec fn is_openai_name(s: Seq<char>) -> bool {
    s == "openai_compat"@ || s == "openai"@
}

/// The names of the local hash embedding provider.
pub open spec fn is_hash_name(s: Seq<char>) -> bool {
    s == "hash"@ || s == "hash-embed"@ || s == "local"@
}

/// The provider selected by the value of `MPGS_AI_PROVIDER` (`None` when
/// unset, which means disabled), ASCII case aside.
pub open spec fn provider_kind_spec(raw: Option<Seq<char>>) -> Result<ProviderKind, Seq<char>> {
    let v = match raw {
        Some(s) => ascii_lower(s),
        None => "disabled"@,
    };
    if is_off_name(v) {
        Ok(ProviderKind::Disabled)
    } else if is_openai_name(v) {
        Ok(ProviderKind::OpenAiCompat)
    } else {
        Err("unknown MPGS_AI_PROVIDER '"@ + v + "' (expected disabled|openai_compat)"@)
    }
}

/// The provider selected by the value of `MPGS_AI_PROVIDER`.
pub fn provider_kind(raw: Option<&str>) -> (r: Result<ProviderKind, AiError>)
    ensures
        match provider_kind_spec(
            match raw {
                Some(s) => Some(s@),
                None => None,
            },
        ) {
            Ok(k) => r == Ok::<ProviderKind, AiError>(k),
            Err(m) => r matches Err(e) && e matches AiError::Config(msg) && msg@ == m,
        },
{
    let v = match raw {
        Some(s) => to_ascii_lowercase(s),
        None => {
            proof {
                reveal_strlit("disabled");
            }
            crate::text::owned("disabled")
        },
    };
    let s = v.as_str();
    proof {
        reveal_strlit("disabled");
        assert(ascii_lower("disabled"@) =~= "disabled"@);
    }
    if str_eq(s, "") || str_eq(s, "disabled") || str_eq(s, "off") || str_eq(s, "none") {
        Ok(ProviderKind::Disabled)
    } else if str_eq(s, "openai_compat") || str_eq(s, "openai") {
        Ok(ProviderKind::OpenAiCompat)
    } else {
        let head = concat("unknown MPGS_AI_PROVIDER '", s);
        Err(AiError::Config(concat(head.as_str(), "' (expected disabled|openai_compat)")))
    }
}

/// The embedding provider selected by the value of `MPGS_AI_EMBED_PROVIDER`
/// (`None` when unset, which means the hash provider), ASCII case aside.
pub open spec fn embedding_kind_spec(raw: Option<Seq<char>>) -> Result<EmbeddingKind, Seq<char>> {
    let v = match raw {
        Some(s) => ascii_lower(s),
        None => "hash"@,
    };
    if is_off_name(v) {
        Ok(EmbeddingKind::Disabled)
    } else if is_hash_name(v) {
        Ok(EmbeddingKind::Hash)
    } else if is_openai_name(v) {
        Ok(EmbeddingKind::OpenAiCompat)
    } else {
        Err("unknown MPGS_AI_EMBED_PROVIDER '"@ + v + "' (expected disabled|hash|openai_compat)"@)
    }
}

/// The embedding provider selected by the value of `MPGS_AI_EMBED_PROVIDER`.
pub fn embedding_kind(raw: Option<&str>) -> (r: Result<EmbeddingKind, AiError>)
    ensures
        match embedding_kind_spec(
            match raw {
                Some(s) => Some(s@),
                None => None,
            },
        ) {
            Ok(k) => r == Ok::<EmbeddingKind, AiError>(k),
            Err(m) => r matches Err(e) && e matches AiError::Config(msg) && msg@ == m,
        },
{
    let v = match raw {
        Some(s) => to_ascii_lowercase(s),
        None => crate::text::owned("hash"),
    };
    let s = v.as_str();
    proof {
        reveal_strlit("hash");
        assert(ascii_lower("hash"@) =~= "hash"@);
    }
    if str_eq(s, "") || str_eq(s, "disabled") || str_eq(s, "off") || str_eq(s, "none") {
        Ok(EmbeddingKind::Disabled)
    } else if str_eq(s, "hash") || str_eq(s, "hash-embed") || str_eq(s, "local") {
        Ok(EmbeddingKind::Hash)
    } else if str_eq(s, "openai_compat") || str_eq(s, "openai") {
        Ok(EmbeddingKind::OpenAiCompat)
    } else {
        let head = concat("unknown MPGS_AI_EMBED_PROVIDER '", s);
        Err(
            AiError::Config(concat(head.as_str(), "' (expected disabled|hash|openai_compat)")),
        )
    }
}

/// A numeric setting: the value when it parses (as a number no larger than
/// `max_parse`), else `default`; then clamped to `lo..=hi`.
pub open spec fn clamped_setting(raw: Option<Seq<char>>, max_parse: nat, default: nat, lo: nat, hi: nat) -> nat {
    let v = match raw {
        Some(s) => match parse_unsigned(s, max_parse) {
            Some(n) => n,
            None => default,
        },
        None => default,
    };
    if v < lo {
        lo
    } else if v > hi {
        hi
    } else {
        v
    }
}

/// A seconds setting such as `MPGS_AI_TIMEOUT_SECS`: parsed as `u64`, else
/// `default`, clamped to `lo..=hi`.
pub fn seconds_setting(raw: Option<&str>, default: u64, lo: u64, hi: u64) -> (r: u64)
    requires
        lo <= hi,
    ensures
        r == clamped_setting(
            match raw {
                Some(s) => Some(s@),
                None => None,
            },
            u64::MAX as nat,
            default as nat,
            lo as nat,
            hi as nat,
        ),
{
    let v = match raw {
        Some(s) => match parse_u64(s) {
            Some(n) => n,
            None => default,
        },
        None => default,
    };
    if v < lo {
        lo
    } else if v > hi {
        hi
    } else {
        v
    }
}

/// A size setting such as `MPGS_AI_EMBED_DIMENSIONS`: parsed as `usize`,
/// else `default`, clamped to `lo..=hi`.
pub fn size_setting(raw: Option<&str>, default: usize, lo: usize, hi: usize) -> (r: usize)
    requires
        lo <= hi,
    ensures
        r == clamped_setting(
            match raw {
                Some(s) => Some(s@),
                None => None,
            },
            usize::MAX as nat,
            default as nat,
            lo as nat,
            hi as nat,
        ),
{
    let v = match raw {
        Some(s) => match parse_usize(s) {
            Some(n) => n,
            None => default,
        },
        None => default,
    };
    if v < lo {
        lo
    } else if v > hi {
        hi
    } else {
        v
    }
}

/// System prompt for online ranking analysis (not user-visible).
pub fn rank_analysis_system_prompt() -> (r: &'static str)
    ensures
        r@ == "You are MPGS ranking assistant. Only use provided candidate facts. Never invent AppIDs, scores outside [0,1], URLs, HTML, or evidence IDs. Return a single complete JSON object matching the schema, with at most 8 recommendations. Keep summary, summary_evidence_ids, reasons, cautions, and reason_evidence_ids empty unless strictly necessary; prefer concise output. If unsure, lower confidence and avoid concrete unsupported claims. Output JSON only, with no markdown."@,
{
    "You are MPGS ranking assistant. Only use provided candidate facts. Never invent AppIDs, scores outside [0,1], URLs, HTML, or evidence IDs. Return a single complete JSON object matching the schema, with at most 8 recommendations. Keep summary, summary_evidence_ids, reasons, cautions, and reason_evidence_ids empty unless strictly necessary; prefer concise output. If unsure, lower confidence and avoid concrete unsupported claims. Output JSON only, with no markdown."
}

/// System prompt for structured natural-language intent parsing.
pub fn intent_parse_system_prompt() -> (r: &'static str)
    ensures
        r@ == "You are MPGS intent parser. Convert the user request into structured search intent. Only set hard_constraints for fields the user stated explicitly. Low-confidence fields must be soft preferences, never hard filters. Do not invent platforms, party sizes, prices, or modes. Output JSON only."@,
{
    "You are MPGS intent parser. Convert the user request into structured search intent. Only set hard_constraints for fields the user stated explicitly. Low-confidence fields must be soft preferences, never hard filters. Do not invent platforms, party sizes, prices, or modes. Output JSON only."
}

/// System prompt for the offline game summarizer.
pub fn game_summary_system_prompt() -> (r: &'static str)
    ensures
        r@ == "You are MPGS offline game summarizer. Only use provided evidence. Produce six sections: who_it_fits, how_to_play, multiplayer_dependency, review_strengths, common_issues, unknowns. Every non-empty text needs evidence_ids. Never invent AppIDs, URLs, or uncited service claims. Output JSON only."@,
{
    "You are MPGS offline game summarizer. Only use provided evidence. Produce six sections: who_it_fits, how_to_play, multiplayer_dependency, review_strengths, common_issues, unknowns. Every non-empty text needs evidence_ids. Never invent AppIDs, URLs, or uncited service claims. Output JSON only."
}

/// The chat provider setting, ASCII case aside: unset, empty, "disabled",
/// "off" or "none" turns it off; "openai_compat" or "openai" selects the
/// OpenAI-compatible provider; anything else is refused.
pub proof fn lemma_provider_names(raw: Option<Seq<char>>)
    ensures
        ({
            let v = match raw {
                Some(s) => ascii_lower(s),
                None => "disabled"@,
            };
            &&& provider_kind_spec(raw) == Ok::<ProviderKind, Seq<char>>(ProviderKind::Disabled) <==> (v == ""@
                || v == "disabled"@ || v == "off"@ || v == "none"@)
            &&& provider_kind_spec(raw) == Ok::<ProviderKind, Seq<char>>(ProviderKind::OpenAiCompat) <==> (v
                == "openai_compat"@ || v == "openai"@)
            &&& provider_kind_spec(raw) is Err <==> !(v == ""@ || v == "disabled"@ || v == "off"@ || v == "none"@
                || v == "openai_compat"@ || v == "openai"@)
        }),
{
    reveal_strlit("");
    reveal_strlit("disabled");
    reveal_strlit("off");
    reveal_strlit("none");
    reveal_strlit("openai_compat");
    reveal_strlit("openai");
    let v = match raw {
        Some(s) => ascii_lower(s),
        None => "disabled"@,
    };
    if v == "openai"@ {
        assert(v.len() == 6);
    }
    if v == "openai_compat"@ {
        assert(v.len() == 13);
    }
}

/// The embedding provider setting, ASCII case aside: empty, "disabled",
/// "off" or "none" turns it off; unset, "hash", "hash-embed" or "local"
/// selects the local hash provider; "openai_compat" or "openai" the
/// OpenAI-compatible one; anything else is refused.
pub proof fn lemma_embedding_names(raw: Option<Seq<char>>)
    ensures
        ({
            let v = match raw {
                Some(s) => ascii_lower(s),
                None => "hash"@,
            };
            &&& embedding_kind_spec(raw) == Ok::<EmbeddingKind, Seq<char>>(EmbeddingKind::Disabled) <==> (v == ""@
                || v == "disabled"@ || v == "off"@ || v == "none"@)
            &&& embedding_kind_spec(raw) == Ok::<EmbeddingKind, Seq<char>>(EmbeddingKind::Hash) <==> (v == "hash"@
                || v == "hash-embed"@ || v == "local"@)
            &&& embedding_kind_spec(raw) == Ok::<EmbeddingKind, Seq<char>>(EmbeddingKind::OpenAiCompat) <==> (v
                == "openai_compat"@ || v == "openai"@)
            &&& embedding_kind_spec(raw) is Err <==> !(v == ""@ || v == "disabled"@ || v == "off"@ || v == "none"@
                || v == "hash"@ || v == "hash-embed"@ || v == "local"@ || v == "openai_compat"@ || v == "openai"@)
        }),
{
    reveal_strlit("");
    reveal_strlit("disabled");
    reveal_strlit("off");
    reveal_strlit("none");
    reveal_strlit("hash");
    reveal_strlit("hash-embed");
    reveal_strlit("local");
    reveal_strlit("openai_compat");
    reveal_strlit("openai");
    let v = match raw {
        Some(s) => ascii_lower(s),
        None => "hash"@,
    };
    if v == "openai"@ {
        assert(v.len() == 6);
    }
    if v == "openai_compat"@ {
        assert(v.len() == 13);
    }
    if v == "hash"@ {
        assert(v.len() == 4 && v[0] == 'h');
    }
    if v == "none"@ {
        assert(v.len() == 4 && v[0] == 'n');
    }
    if v == "hash-embed"@ {
        assert(v.len() == 10);
    }
    if v == "local"@ {
        assert(v.len() == 5);
    }
}

/// A clamped numeric setting always lies within its bounds; a value that
/// parses and already lies within them is taken as it is, and an absent or
/// unparsable one falls back to the default, clamped.
pub proof fn lemma_clamped_setting(raw: Option<Seq<char>>, max_parse: nat, default: nat, lo: nat, hi: nat)
    requires
        lo <= hi,
    ensures
        lo <= clamped_setting(raw, max_parse, default, lo, hi) <= hi,
        (raw matches Some(s) && parse_unsigned(s, max_parse) matches Some(n) && lo <= n <= hi)
            ==> clamped_setting(raw, max_parse, default, lo, hi) == parse_unsigned(raw->0, max_parse)->0,
        (raw is None || parse_unsigned(raw->0, max_parse) is None) && lo <= default <= hi ==> clamped_setting(
            raw,
            max_parse,
            default,
            lo,
            hi,
        ) == default,
{
}

} // verus!
