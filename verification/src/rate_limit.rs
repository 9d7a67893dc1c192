//! Per-route request rate limiting over one-minute windows, keyed by the
//! caller's identities and by one global counter.
//!
//! Time is a monotonic reading in nanoseconds handed in by the caller; a
//! counter's window is live while less than a minute has passed since it
//! started.
use std::collections::hash_map::DefaultHasher;
use std::hash::Hasher;
use vstd::prelude::*;
use vstd::std_specs::hash::DefaultHasherAdditionalSpecFns;
use crate::ai_types::{hash_str, str_hash_writes};
use crate::num::hex_fixed;
use crate::settings::{
    bool_error, env_bool, env_positive_u32, is_false_word, is_true_word, parse_positive,
    positive_error, ConfigError,
};
use crate::text::{
    ascii_lower, chars_of, concat, extend_chars, lemma_split_char_nonempty, owned, seq_starts_with,
    slice_range, split_char, split_chars, str_eq, str_starts_with, string_from_chars, trim,
    trim_chars,
};

verus! {

/// The length of a rate-limit window: one minute, in nanoseconds.
pub const WINDOW_NANOS: u64 = 60_000_000_000;

/// The window length in whole seconds.
pub const WINDOW_SECS: u64 = 60;

/// The most counters kept at once; beyond it every limited request is refused.
pub const MAX_IDENTITIES: usize = 100_000;

/// Requests allowed per minute for each route family, and whether proxy
/// headers may name the client.
#[derive(Debug, Clone, PartialEq, Eq)]
pub struct RateLimitConfig {
    pub enabled: bool,
    pub read_per_minute: u32,
    pub search_per_minute: u32,
    pub session_per_minute: u32,
    pub feedback_per_minute: u32,
    pub global_per_minute: u32,
    pub trust_proxy_headers: bool,
}

impl Default for RateLimitConfig {
    fn default() -> (r: Self)
        ensures
            r.enabled,
            r.read_per_minute == 120,
            r.search_per_minute == 30,
            r.session_per_minute == 20,
            r.feedback_per_minute == 60,
            r.global_per_minute == 10_000,
            !r.trust_proxy_headers,
    {
        RateLimitConfig {
            enabled: true,
            read_per_minute: 120,
            search_per_minute: 30,
            session_per_minute: 20,
            feedback_per_minute: 60,
            global_per_minute: 10_000,
            trust_proxy_headers: false,
        }
    }
}

/// A switch setting read as `env_bool` reads it, or `None` when it is invalid.
pub open spec fn bool_setting(raw: Option<&str>, default: bool) -> Option<bool> {
    match raw {
        None => Some(default),
        Some(v) => if is_true_word(ascii_lower(v@)) {
            Some(true)
        } else if is_false_word(ascii_lower(v@)) {
            Some(false)
        } else {
            None
        },
    }
}

/// A positive `u32` setting read as `env_positive_u32` reads it, or `None`
/// when it is invalid.
pub open spec fn u32_setting(raw: Option<&str>, default: u32) -> Option<u32> {
    match raw {
        None => Some(default),
        Some(v) => match parse_positive(v@, u32::MAX as nat) {
            Some(n) => Some(n as u32),
            None => None,
        },
    }
}

impl RateLimitConfig {
    /// Build from the values of the `MPGS_RATE_LIMIT_*` variables and
    /// `MPGS_TRUST_PROXY_HEADERS` (each `None` when unset), over the defaults.
    /// The first invalid value, in parameter order, is the error.
    pub fn from_env(
        enabled: Option<&str>,
        read_per_minute: Option<&str>,
        search_per_minute: Option<&str>,
        session_per_minute: Option<&str>,
        feedback_per_minute: Option<&str>,
        global_per_minute: Option<&str>,
        trust_proxy_headers: Option<&str>,
    ) -> (r: Result<Self, ConfigError>)
        ensures
            r is Ok <==> bool_setting(enabled, true) is Some && u32_setting(read_per_minute, 120)
                is Some && u32_setting(search_per_minute, 30) is Some && u32_setting(
                session_per_minute,
                20,
            ) is Some && u32_setting(feedback_per_minute, 60) is Some && u32_setting(
                global_per_minute,
                10_000,
            ) is Some && bool_setting(trust_proxy_headers, false) is Some,
            r matches Ok(c) ==> {
                &&& Some(c.enabled) == bool_setting(enabled, true)
                &&& Some(c.read_per_minute) == u32_setting(read_per_minute, 120)
                &&& Some(c.search_per_minute) == u32_setting(search_per_minute, 30)
                &&& Some(c.session_per_minute) == u32_setting(session_per_minute, 20)
                &&& Some(c.feedback_per_minute) == u32_setting(feedback_per_minute, 60)
                &&& Some(c.global_per_minute) == u32_setting(global_per_minute, 10_000)
                &&& Some(c.trust_proxy_headers) == bool_setting(trust_proxy_headers, false)
            },
            r matches Err(e) ==> e.message@ == if bool_setting(enabled, true) is None {
                bool_error("MPGS_RATE_LIMIT_ENABLED"@)
            } else if u32_setting(read_per_minute, 120) is None {
                positive_error("MPGS_RATE_LIMIT_READ_PER_MINUTE"@)
            } else if u32_setting(search_per_minute, 30) is None {
                positive_error("MPGS_RATE_LIMIT_SEARCH_PER_MINUTE"@)
            } else if u32_setting(session_per_minute, 20) is None {
                positive_error("MPGS_RATE_LIMIT_SESSION_PER_MINUTE"@)
            } else if u32_setting(feedback_per_minute, 60) is None {
                positive_error("MPGS_RATE_LIMIT_FEEDBACK_PER_MINUTE"@)
            } else if u32_setting(global_per_minute, 10_000) is None {
                positive_error("MPGS_RATE_LIMIT_GLOBAL_PER_MINUTE"@)
            } else {
                bool_error("MPGS_TRUST_PROXY_HEADERS"@)
            },
    {
        let defaults = Self::default();
        let enabled = match env_bool("MPGS_RATE_LIMIT_ENABLED", enabled, defaults.enabled) {
            Ok(v) => v,
            Err(e) => {
                return Err(e);
            },
        };
        let read_per_minute = match env_positive_u32(
            "MPGS_RATE_LIMIT_READ_PER_MINUTE",
            read_per_minute,
            defaults.read_per_minute,
        ) {
            Ok(v) => v,
            Err(e) => {
                return Err(e);
            },
        };
        let search_per_minute = match env_positive_u32(
            "MPGS_RATE_LIMIT_SEARCH_PER_MINUTE",
            search_per_minute,
            defaults.search_per_minute,
        ) {
            Ok(v) => v,
            Err(e) => {
                return Err(e);
            },
        };
        let session_per_minute = match env_positive_u32(
            "MPGS_RATE_LIMIT_SESSION_PER_MINUTE",
            session_per_minute,
            defaults.session_per_minute,
        ) {
            Ok(v) => v,
            Err(e) => {
                return Err(e);
            },
        };
        let feedback_per_minute = match env_positive_u32(
            "MPGS_RATE_LIMIT_FEEDBACK_PER_MINUTE",
            feedback_per_minute,
            defaults.feedback_per_minute,
        ) {
            Ok(v) => v,
            Err(e) => {
                return Err(e);
            },
        };
        let global_per_minute = match env_positive_u32(
            "MPGS_RATE_LIMIT_GLOBAL_PER_MINUTE",
            global_per_minute,
            defaults.global_per_minute,
        ) {
            Ok(v) => v,
            Err(e) => {
                return Err(e);
            },
        };
        let trust_proxy_headers = match env_bool(
            "MPGS_TRUST_PROXY_HEADERS",
            trust_proxy_headers,
            defaults.trust_proxy_headers,
        ) {
            Ok(v) => v,
            Err(e) => {
                return Err(e);
            },
        };
        Ok(RateLimitConfig {
            enabled,
            read_per_minute,
            search_per_minute,
            session_per_minute,
            feedback_per_minute,
            global_per_minute,
            trust_proxy_headers,
        })
    }
}

/// The counter families.
#[derive(Debug, Clone, Copy, PartialEq, Eq, Structural)]
pub enum Bucket {
    Read,
    Search,
    Session,
    Feedback,
    Global,
}

/// The family and per-minute limit of a request, or `None` for routes that
/// are not limited.
pub open spec fn classify_spec(c: RateLimitConfig, is_post: bool, path: Seq<char>) -> Option<
    (Bucket, u32),
> {
    if seq_starts_with(path, "/v1/session/"@) {
        Some((Bucket::Session, c.session_per_minute))
    } else if path == "/v1/search"@ {
        Some((Bucket::Search, c.search_per_minute))
    } else if is_post && seq_starts_with(path, "/v1/feedback"@) {
        Some((Bucket::Feedback, c.feedback_per_minute))
    } else if seq_starts_with(path, "/v1/"@) || path == "/openapi.json"@ {
        Some((Bucket::Read, c.read_per_minute))
    } else {
        None
    }
}

/// The family and per-minute limit of a request to `path` (`is_post` for the
/// `POST` method), or `None` for routes that are not limited.
pub fn classify(config: &RateLimitConfig, is_post: bool, path: &str) -> (r: Option<(Bucket, u32)>)
    ensures
        r == classify_spec(*config, is_post, path@),
{
    if str_starts_with(path, "/v1/session/") {
        return Some((Bucket::Session, config.session_per_minute));
    }
    if str_eq(path, "/v1/search") {
        return Some((Bucket::Search, config.search_per_minute));
    }
    if is_post && str_starts_with(path, "/v1/feedback") {
        return Some((Bucket::Feedback, config.feedback_per_minute));
    }
    if str_starts_with(path, "/v1/") || str_eq(path, "/openapi.json") {
        return Some((Bucket::Read, config.read_per_minute));
    }
    None
}

/// A character allowed in a device identifier.
pub open spec fn identity_char(c: char) -> bool {
    ('a' <= c && c <= 'z') || ('A' <= c && c <= 'Z') || ('0' <= c && c <= '9') || c == '-' || c
        == '_' || c == '.' || c == ':'
}

/// A usable device identifier: 1 to 128 ASCII letters, digits or `-_.:`.
pub open spec fn valid_identity_spec(s: Seq<char>) -> bool {
    &&& 0 < s.len() <= 128
    &&& forall|i: int| 0 <= i < s.len() ==> identity_char(#[trigger] s[i])
}

/// A usable device identifier: 1 to 128 ASCII letters, digits or `-_.:`
/// (all ASCII, so its byte length is its character count).
pub fn valid_identity(value: &str) -> (r: bool)
    ensures
        r == valid_identity_spec(value@),
{
    let v = chars_of(value);
    if v.len() == 0 || v.len() > 128 {
        return false;
    }
    let mut i: usize = 0;
    while i < v.len()
        invariant
            i <= v@.len(),
            v@ == value@,
            forall|k: int| 0 <= k < i ==> identity_char(#[trigger] v@[k]),
        decreases v@.len() - i,
    {
        let c = v[i];
        let ok = ('a' <= c && c <= 'z') || ('A' <= c && c <= 'Z') || ('0' <= c && c <= '9') || c
            == '-' || c == '_' || c == '.' || c == ':';
        if !ok {
            return false;
        }
        i = i + 1;
    }
    true
}

/// The `DefaultHasher` digest of a text hashed with `Hash for str`.
pub open spec fn stable_hash_spec(s: Seq<char>) -> u64 {
    DefaultHasher::spec_finish(str_hash_writes(seq![s]))
}

/// A stable digest of `value`, so raw identifiers are never kept.
pub fn stable_hash(value: &str) -> (r: u64)
    ensures
        r == stable_hash_spec(value@),
{
    let mut hasher = DefaultHasher::new();
    let ghost none: Seq<Seq<char>> = Seq::empty();
    assert(hasher@ =~= str_hash_writes(none));
    hash_str(&mut hasher, value, Ghost(none));
    assert(none.push(value@) =~= seq![value@]);
    hasher.finish()
}

/// `prefix` followed by the 16 hexadecimal digits of `stable_hash(value)`.
fn hashed_identity(prefix: &str, value: &str) -> (r: String)
    ensures
        r@ == prefix@ + hex_fixed(stable_hash_spec(value@) as nat, 16),
{
    let h = stable_hash(value);
    let mut out = chars_of(prefix);
    crate::num::push_hex_fixed(&mut out, h, 16);
    string_from_chars(out.as_slice())
}

/// The identities a request is counted under: the hashed device identifier
/// when it is valid, else the hashed bearer token when there is one; then the
/// client address when known; `unidentified` when there is none of these.
pub open spec fn identities_spec(
    device_id: Option<Seq<char>>,
    authorization: Option<Seq<char>>,
    client_ip: Option<Seq<char>>,
) -> Seq<Seq<char>> {
    let first: Seq<Seq<char>> = if device_id matches Some(d) && valid_identity_spec(d) {
        seq!["device:"@ + hex_fixed(stable_hash_spec(device_id->0) as nat, 16)]
    } else if authorization matches Some(a) && seq_starts_with(a, "Bearer "@) && a.len() > 7 {
        seq!["session:"@ + hex_fixed(stable_hash_spec(authorization->0.skip(7)) as nat, 16)]
    } else {
        Seq::empty()
    };
    let with_ip = match client_ip {
        Some(ip) => first.push("ip:"@ + ip),
        None => first,
    };
    if with_ip.len() == 0 {
        seq!["unidentified"@]
    } else {
        with_ip
    }
}

/// The view of an optional string.
pub open spec fn opt_seq(s: Option<&str>) -> Option<Seq<char>> {
    match s {
        Some(v) => Some(v@),
        None => None,
    }
}

/// The identities a request is counted under, from the `x-device-id` and
/// `Authorization` header values and the client address as text (each `None`
/// when absent).
pub fn identities(device_id: Option<&str>, authorization: Option<&str>, client_ip: Option<&str>) -> (r: Vec<String>)
    ensures
        r@.map_values(|s: String| s@) == identities_spec(
            opt_seq(device_id),
            opt_seq(authorization),
            opt_seq(client_ip),
        ),
{
    let mut out: Vec<String> = Vec::new();
    let mut done = false;
    if let Some(d) = device_id {
        if valid_identity(d) {
            out.push(hashed_identity("device:", d));
            done = true;
        }
    }
    if !done {
        if let Some(a) = authorization {
            proof {
                reveal_strlit("Bearer ");
            }
            if str_starts_with(a, "Bearer ") {
                let chars = chars_of(a);
                if chars.len() > 7 {
                    let token = string_from_chars(slice_range(chars.as_slice(), 7, chars.len()).as_slice());
                    assert(token@ =~= a@.skip(7));
                    out.push(hashed_identity("session:", token.as_str()));
                }
            }
        }
    }
    let ghost first = out@.map_values(|s: String| s@);
    if let Some(ip) = client_ip {
        out.push(concat("ip:", ip));
        assert(out@.map_values(|s: String| s@) =~= first.push("ip:"@ + ip@));
    }
    if out.len() == 0 {
        out.push(owned("unidentified"));
    }
    proof {
        let spec = identities_spec(opt_seq(device_id), opt_seq(authorization), opt_seq(client_ip));
        assert(out@.map_values(|s: String| s@) =~= spec);
    }
    out
}

/// The address text an `x-forwarded-for` value names: its first
/// comma-separated entry, trimmed.
pub open spec fn forwarded_entry_spec(value: Seq<char>) -> Seq<char> {
    trim(split_char(value, ',')[0])
}

/// The address text an `x-forwarded-for` value names (the caller parses it
/// as an IP address).
pub fn forwarded_entry(value: &str) -> (r: String)
    ensures
        r@ == forwarded_entry_spec(value@),
{
    let chars = chars_of(value);
    let parts = split_chars(chars.as_slice(), ',');
    proof {
        lemma_split_char_nonempty(value@, ',');
        assert(parts@.map_values(|p: Vec<char>| p@)[0] == parts@[0]@);
    }
    string_from_chars(trim_chars(parts[0].as_slice()).as_slice())
}

/// The view of an optional owned string.
pub open spec fn opt_string(s: Option<String>) -> Option<Seq<char>> {
    match s {
        Some(v) => Some(v@),
        None => None,
    }
}


/// What a limited request may still do in its family this minute.
#[derive(Debug, Clone, Copy, PartialEq, Eq)]
pub struct Allowance {
    pub limit: u32,
    pub remaining: u32,
}

/// A refused request: the limit it hit and when to retry, in seconds.
#[derive(Debug, Clone, Copy, PartialEq, Eq)]
pub struct Limited {
    pub limit: u32,
    pub retry_after_seconds: u64,
}

/// A counter key: the family and the identity.
spec fn key_of(e: CounterEntry) -> (Bucket, Seq<char>) {
    (e.bucket, e.identity@)
}

/// A counter: window start and requests counted in the window.
spec fn counter_of(e: CounterEntry) -> (u64, u32) {
    (e.window_started, e.count)
}

/// One stored counter.
#[derive(Debug)]
struct CounterEntry {
    bucket: Bucket,
    identity: String,
    window_started: u64,
    count: u32,
}

/// The counters held in `es`, by key.
spec fn entry_map(es: Seq<CounterEntry>) -> Map<(Bucket, Seq<char>), (u64, u32)>
    decreases es.len(),
{
    if es.len() == 0 {
        Map::empty()
    } else {
        entry_map(es.drop_last()).insert(key_of(es.last()), counter_of(es.last()))
    }
}

/// No key occurs twice in `es`.
spec fn unique_keys(es: Seq<CounterEntry>) -> bool {
    forall|i: int, j: int|
        0 <= i < j < es.len() ==> key_of(#[trigger] es[i]) != key_of(#[trigger] es[j])
}

/// Nanoseconds from `start` to `now`, zero when `now` is earlier.
pub open spec fn elapsed(now: u64, start: u64) -> nat {
    if now >= start {
        (now - start) as nat
    } else {
        0
    }
}

/// The counter's window is still open at `now`.
pub open spec fn is_live(c: (u64, u32), now: u64) -> bool {
    elapsed(now, c.0) < WINDOW_NANOS
}

/// The counters whose window is still open at `now`.
pub open spec fn pruned(m: Map<(Bucket, Seq<char>), (u64, u32)>, now: u64) -> Map<
    (Bucket, Seq<char>),
    (u64, u32),
> {
    Map::new(|k: (Bucket, Seq<char>)| m.dom().contains(k) && is_live(m[k], now), |k: (Bucket, Seq<char>)| m[k])
}

/// The request counter after one more request (wrapping, as `fetch_add`).
pub open spec fn next_requests(n: u64) -> u64 {
    if n == u64::MAX {
        0
    } else {
        (n + 1) as u64
    }
}

/// The keys a request is counted under, each with its limit: one per
/// identity in the request's family, then the global counter.
pub open spec fn request_keys(
    bucket: Bucket,
    limit: u32,
    ids: Seq<Seq<char>>,
    global_limit: u32,
) -> Seq<((Bucket, Seq<char>), u32)> {
    Seq::new(ids.len(), |i: int| ((bucket, ids[i]), limit)).push(
        ((Bucket::Global, "all"@), global_limit),
    )
}

/// The live counter of `k` has reached its limit.
pub open spec fn blocks(
    m: Map<(Bucket, Seq<char>), (u64, u32)>,
    k: ((Bucket, Seq<char>), u32),
    now: u64,
) -> bool {
    m.dom().contains(k.0) && is_live(m[k.0], now) && m[k.0].1 >= k.1
}

/// The first key whose live counter has reached its limit.
pub open spec fn first_block(
    m: Map<(Bucket, Seq<char>), (u64, u32)>,
    keys: Seq<((Bucket, Seq<char>), u32)>,
    now: u64,
) -> Option<int>
    decreases keys.len(),
{
    if keys.len() == 0 {
        None
    } else {
        match first_block(m, keys.drop_last(), now) {
            Some(j) => Some(j),
            None => if blocks(m, keys.last(), now) {
                Some(keys.len() - 1)
            } else {
                None
            },
        }
    }
}

/// Seconds until a live counter's window closes, at least one.
pub open spec fn retry_after(c: (u64, u32), now: u64) -> u64 {
    let left: nat = if elapsed(now, c.0) < WINDOW_NANOS {
        (WINDOW_NANOS - elapsed(now, c.0)) as nat
    } else {
        0
    };
    if left / 1_000_000_000 < 1 {
        1
    } else {
        (left / 1_000_000_000) as u64
    }
}

/// The counter of `k` after one more request: a closed or missing window
/// restarts at `now`, and the count grows by one (saturating).
pub open spec fn bumped(m: Map<(Bucket, Seq<char>), (u64, u32)>, k: (Bucket, Seq<char>), now: u64) -> (u64, u32) {
    let c = if m.dom().contains(k) && is_live(m[k], now) {
        m[k]
    } else {
        (now, 0u32)
    };
    (c.0, if c.1 == u32::MAX {
        u32::MAX
    } else {
        (c.1 + 1) as u32
    })
}

/// The counters after a request is admitted under `keys`, and the requests
/// left: the least room left among the keys, starting from `limit`.
pub open spec fn counted(
    m: Map<(Bucket, Seq<char>), (u64, u32)>,
    keys: Seq<((Bucket, Seq<char>), u32)>,
    now: u64,
    limit: u32,
) -> (Map<(Bucket, Seq<char>), (u64, u32)>, u32)
    decreases keys.len(),
{
    if keys.len() == 0 {
        (m, limit)
    } else {
        let (m1, r1) = counted(m, keys.drop_last(), now, limit);
        let k = keys.last();
        let c = bumped(m1, k.0, now);
        let room: u32 = if k.1 >= c.1 {
            (k.1 - c.1) as u32
        } else {
            0
        };
        (m1.insert(k.0, c), if room < r1 {
            room
        } else {
            r1
        })
    }
}

/// The counters a request finds: pruned to the open windows when the table
/// is full or every 1024th request.
pub open spec fn after_prune(m: Map<(Bucket, Seq<char>), (u64, u32)>, requests: u64, now: u64) -> Map<
    (Bucket, Seq<char>),
    (u64, u32),
> {
    if m.dom().len() >= MAX_IDENTITIES || requests % 1024 == 0 {
        pruned(m, now)
    } else {
        m
    }
}

/// The rate limiter: its settings, the counters and the number of requests seen.
#[derive(Debug)]
pub struct RateLimiter {
    config: RateLimitConfig,
    counters: Vec<CounterEntry>,
    requests: u64,
}

proof fn lemma_entry_map_dom(es: Seq<CounterEntry>, k: (Bucket, Seq<char>))
    ensures
        entry_map(es).dom().contains(k) <==> exists|i: int| 0 <= i < es.len() && key_of(#[trigger] es[i]) == k,
    decreases es.len(),
{
    if es.len() > 0 {
        lemma_entry_map_dom(es.drop_last(), k);
        if entry_map(es.drop_last()).dom().contains(k) {
            let i = choose|i: int| 0 <= i < es.drop_last().len() && key_of(#[trigger] es.drop_last()[i]) == k;
            assert(es[i] == es.drop_last()[i]);
        }
        if exists|i: int| 0 <= i < es.len() && key_of(#[trigger] es[i]) == k {
            let i = choose|i: int| 0 <= i < es.len() && key_of(#[trigger] es[i]) == k;
            if i < es.len() - 1 {
                assert(es.drop_last()[i] == es[i]);
            }
        }
    }
}

proof fn lemma_entry_map_at(es: Seq<CounterEntry>, i: int)
    requires
        unique_keys(es),
        0 <= i < es.len(),
    ensures
        entry_map(es).dom().contains(key_of(es[i])),
        entry_map(es)[key_of(es[i])] == counter_of(es[i]),
    decreases es.len(),
{
    if i < es.len() - 1 {
        assert(es.drop_last()[i] == es[i]);
        assert(unique_keys(es.drop_last()));
        lemma_entry_map_at(es.drop_last(), i);
        assert(es.last() == es[es.len() - 1]);
    }
}

proof fn lemma_entry_map_len(es: Seq<CounterEntry>)
    requires
        unique_keys(es),
    ensures
        entry_map(es).dom().finite(),
        entry_map(es).dom().len() == es.len(),
    decreases es.len(),
{
    if es.len() > 0 {
        let prev = es.drop_last();
        assert(unique_keys(prev));
        lemma_entry_map_len(prev);
        lemma_entry_map_dom(prev, key_of(es.last()));
        if entry_map(prev).dom().contains(key_of(es.last())) {
            let i = choose|i: int| 0 <= i < prev.len() && key_of(#[trigger] prev[i]) == key_of(es.last());
            assert(prev[i] == es[i]);
            assert(es.last() == es[es.len() - 1]);
        }
    }
}

proof fn lemma_entry_map_update(es: Seq<CounterEntry>, i: int, e: CounterEntry)
    requires
        unique_keys(es),
        0 <= i < es.len(),
        key_of(e) == key_of(es[i]),
    ensures
        unique_keys(es.update(i, e)),
        entry_map(es.update(i, e)) == entry_map(es).insert(key_of(e), counter_of(e)),
    decreases es.len(),
{
    let n = es.len();
    assert(unique_keys(es.update(i, e))) by {
        assert forall|a: int, b: int| 0 <= a < b < n implies key_of(#[trigger] es.update(i, e)[a])
            != key_of(#[trigger] es.update(i, e)[b]) by {
            assert(key_of(es.update(i, e)[a]) == key_of(es[a]));
            assert(key_of(es.update(i, e)[b]) == key_of(es[b]));
        }
    }
    if i == n - 1 {
        assert(es.update(i, e).drop_last() =~= es.drop_last());
        lemma_entry_map_dom(es.drop_last(), key_of(e));
        if entry_map(es.drop_last()).dom().contains(key_of(e)) {
            let j = choose|j: int| 0 <= j < es.drop_last().len() && key_of(#[trigger] es.drop_last()[j]) == key_of(e);
            assert(es.drop_last()[j] == es[j]);
        }
        assert(entry_map(es.update(i, e)) =~= entry_map(es).insert(key_of(e), counter_of(e)));
    } else {
        assert(es.update(i, e).drop_last() =~= es.drop_last().update(i, e));
        assert(unique_keys(es.drop_last()));
        assert(es.drop_last()[i] == es[i]);
        lemma_entry_map_update(es.drop_last(), i, e);
        assert(es.update(i, e).last() == es.last());
        assert(key_of(es.last()) != key_of(e)) by {
            assert(es.last() == es[n - 1]);
        }
        assert(entry_map(es.update(i, e)) =~= entry_map(es).insert(key_of(e), counter_of(e)));
    }
}

proof fn lemma_entry_map_push(es: Seq<CounterEntry>, e: CounterEntry)
    requires
        unique_keys(es),
        !entry_map(es).dom().contains(key_of(e)),
    ensures
        unique_keys(es.push(e)),
        entry_map(es.push(e)) == entry_map(es).insert(key_of(e), counter_of(e)),
{
    assert(es.push(e).drop_last() =~= es);
    lemma_entry_map_dom(es, key_of(e));
    assert forall|a: int, b: int| 0 <= a < b < es.push(e).len() implies key_of(#[trigger] es.push(e)[a])
        != key_of(#[trigger] es.push(e)[b]) by {
        assert(es.push(e)[a] == es[a]);
        if b < es.len() {
            assert(es.push(e)[b] == es[b]);
        }
    }
}

impl RateLimiter {
    #[verifier::type_invariant]
    spec fn well_formed(self) -> bool {
        unique_keys(self.counters@)
    }

    /// The counters, by family and identity: window start and count.
    pub closed spec fn counters(self) -> Map<(Bucket, Seq<char>), (u64, u32)> {
        entry_map(self.counters@)
    }

    /// The number of limited requests seen, wrapping.
    pub closed spec fn requests(self) -> u64 {
        self.requests
    }

    pub closed spec fn config(self) -> RateLimitConfig {
        self.config
    }

    /// A limiter with no counters.
    pub fn new(config: RateLimitConfig) -> (r: Self)
        ensures
            r.config() == config,
            r.counters() == Map::<(Bucket, Seq<char>), (u64, u32)>::empty(),
            r.requests() == 0,
    {
        RateLimiter { config, counters: Vec::new(), requests: 0 }
    }

    /// The client address a request is counted under, as text: when proxy
    /// headers are trusted, the address that `x-forwarded-for` names if it
    /// parsed, else the one `x-real-ip` names if it parsed; otherwise the
    /// connection's peer address. Each argument is `None` when absent or
    /// unparsable.
    pub fn client_ip(&self, forwarded: Option<String>, real_ip: Option<String>, peer: Option<String>) -> (r:
        Option<String>)
        ensures
            opt_string(r) == if self.config().trust_proxy_headers && forwarded is Some {
                opt_string(forwarded)
            } else if self.config().trust_proxy_headers && real_ip is Some {
                opt_string(real_ip)
            } else {
                opt_string(peer)
            },
    {
        if self.config.trust_proxy_headers {
            if forwarded.is_some() {
                return forwarded;
            }
            if real_ip.is_some() {
                return real_ip;
            }
        }
        peer
    }

    fn find(&self, bucket: Bucket, identity: &str) -> (r: Option<usize>)
        ensures
            match r {
                Some(i) => i < self.counters@.len() && key_of(self.counters@[i as int]) == (bucket, identity@),
                None => forall|k: int|
                    0 <= k < self.counters@.len() ==> key_of(#[trigger] self.counters@[k]) != (bucket, identity@),
            },
    {
        let mut i: usize = 0;
        while i < self.counters.len()
            invariant
                i <= self.counters@.len(),
                forall|k: int| 0 <= k < i ==> key_of(#[trigger] self.counters@[k]) != (bucket, identity@),
            decreases self.counters@.len() - i,
        {
            let e = &self.counters[i];
            if e.bucket == bucket && str_eq(e.identity.as_str(), identity) {
                return Some(i);
            }
            i = i + 1;
        }
        None
    }

    /// The counter of `bucket` and `identity`, when one is stored.
    fn lookup(&self, bucket: Bucket, identity: &str) -> (r: Option<(u64, u32)>)
        ensures
            r == if self.counters().dom().contains((bucket, identity@)) {
                Some(self.counters()[(bucket, identity@)])
            } else {
                None::<(u64, u32)>
            },
    {
        proof {
            use_type_invariant(self);
        }
        match self.find(bucket, identity) {
            Some(i) => {
                proof {
                    lemma_entry_map_at(self.counters@, i as int);
                }
                Some((self.counters[i].window_started, self.counters[i].count))
            },
            None => {
                proof {
                    lemma_entry_map_dom(self.counters@, (bucket, identity@));
                }
                None
            },
        }
    }

    /// Drop the counters whose window has closed.
    fn prune(&mut self, now: u64)
        ensures
            final(self).counters() == pruned(old(self).counters(), now),
            final(self).config() == old(self).config(),
            final(self).requests() == old(self).requests(),
    {
        proof {
            use_type_invariant(&*self);
        }
        let mut old_counters: Vec<CounterEntry> = Vec::new();
        std::mem::swap(&mut old_counters, &mut self.counters);
        let ghost es = old_counters@;
        let mut kept: Vec<CounterEntry> = Vec::new();
        let mut i: usize = 0;
        while i < old_counters.len()
            invariant
                unique_keys(es),
                es == old_counters@,
                i <= es.len(),
                unique_keys(kept@),
                entry_map(kept@) == pruned(entry_map(es.take(i as int)), now),
            decreases es.len() - i,
        {
            let src = &old_counters[i];
            let e = CounterEntry {
                bucket: src.bucket,
                identity: src.identity.clone(),
                window_started: src.window_started,
                count: src.count,
            };
            proof {
                assert(key_of(e) == key_of(es[i as int]));
                assert(counter_of(e) == counter_of(es[i as int]));
                assert(es.take(i as int + 1).drop_last() =~= es.take(i as int));
                assert(es.take(i as int + 1).last() == es[i as int]);
                lemma_entry_map_dom(es.take(i as int), key_of(e));
                if entry_map(es.take(i as int)).dom().contains(key_of(e)) {
                    let j = choose|j: int| 0 <= j < es.take(i as int).len() && key_of(#[trigger] es.take(i as int)[j]) == key_of(e);
                    assert(es.take(i as int)[j] == es[j]);
                }
            }
            let live = if now >= e.window_started {
                now - e.window_started < WINDOW_NANOS
            } else {
                0 < WINDOW_NANOS
            };
            if live {
                let ghost before = kept@;
                proof {
                    assert(!entry_map(before).dom().contains(key_of(e)));
                }
                kept.push(e);
                proof {
                    lemma_entry_map_push(before, e);
                    assert(entry_map(kept@) =~= pruned(entry_map(es.take(i as int + 1)), now));
                }
            } else {
                proof {
                    assert(entry_map(kept@) =~= pruned(entry_map(es.take(i as int + 1)), now));
                }
            }
            i = i + 1;
        }
        proof {
            assert(es.take(i as int) =~= es);
        }
        self.counters = kept;
    }

    /// Count one more request under `bucket` and `identity` and return the
    /// counter's new count.
    fn bump(&mut self, bucket: Bucket, identity: &str, now: u64) -> (r: u32)
        ensures
            final(self).counters() == old(self).counters().insert(
                (bucket, identity@),
                bumped(old(self).counters(), (bucket, identity@), now),
            ),
            r == bumped(old(self).counters(), (bucket, identity@), now).1,
            final(self).config() == old(self).config(),
            final(self).requests() == old(self).requests(),
    {
        proof {
            use_type_invariant(&*self);
        }
        match self.find(bucket, identity) {
            Some(i) => {
                proof {
                    lemma_entry_map_at(self.counters@, i as int);
                }
                let start = self.counters[i].window_started;
                let count = self.counters[i].count;
                let live = if now >= start {
                    now - start < WINDOW_NANOS
                } else {
                    0 < WINDOW_NANOS
                };
                let (new_start, base) = if live {
                    (start, count)
                } else {
                    (now, 0)
                };
                let new_count = if base == u32::MAX {
                    u32::MAX
                } else {
                    base + 1
                };
                let e = CounterEntry {
                    bucket,
                    identity: owned(identity),
                    window_started: new_start,
                    count: new_count,
                };
                proof {
                    lemma_entry_map_update(self.counters@, i as int, e);
                }
                let mut cs: Vec<CounterEntry> = Vec::new();
                std::mem::swap(&mut cs, &mut self.counters);
                cs.set(i, e);
                self.counters = cs;
                new_count
            },
            None => {
                proof {
                    lemma_entry_map_dom(self.counters@, (bucket, identity@));
                }
                let e = CounterEntry { bucket, identity: owned(identity), window_started: now, count: 1 };
                proof {
                    lemma_entry_map_push(self.counters@, e);
                }
                let mut cs: Vec<CounterEntry> = Vec::new();
                std::mem::swap(&mut cs, &mut self.counters);
                cs.push(e);
                self.counters = cs;
                1
            },
        }
    }

    /// Decide one request to `path` (`is_post` for the `POST` method) at time
    /// `now`, counting it when it is admitted. `device_id`, `authorization`
    /// and `client_ip` name the caller (see [`identities`]).
    ///
    /// Unlimited routes, or a disabled limiter, give `Ok(None)` and change
    /// nothing. Otherwise the counters are pruned to open windows when the
    /// table is full or on every 1024th request; a full table refuses the
    /// request; a key whose open window has reached its limit refuses it with
    /// the time left in that window; else every key is counted and the least
    /// room left is returned.
    pub fn check(
        &mut self,
        is_post: bool,
        path: &str,
        device_id: Option<&str>,
        authorization: Option<&str>,
        client_ip: Option<&str>,
        now: u64,
    ) -> (r: Result<Option<Allowance>, Limited>)
        ensures
            final(self).config() == old(self).config(),
            !old(self).config().enabled || classify_spec(old(self).config(), is_post, path@) is None
                ==> r == Ok::<Option<Allowance>, Limited>(None) && final(self).counters() == old(
                self,
            ).counters() && final(self).requests() == old(self).requests(),
            old(self).config().enabled && classify_spec(old(self).config(), is_post, path@) is Some
                ==> ({
                let c = old(self).config();
                let (bucket, limit) = classify_spec(c, is_post, path@)->0;
                let keys = request_keys(
                    bucket,
                    limit,
                    identities_spec(opt_seq(device_id), opt_seq(authorization), opt_seq(client_ip)),
                    c.global_per_minute,
                );
                let m0 = old(self).counters();
                let n0 = old(self).requests();
                let m1 = after_prune(m0, n0, now);
                &&& final(self).requests() == if m0.dom().len() >= MAX_IDENTITIES {
                    n0
                } else {
                    next_requests(n0)
                }
                &&& if m1.dom().len() >= MAX_IDENTITIES {
                    r == Err::<Option<Allowance>, Limited>(
                        Limited { limit, retry_after_seconds: WINDOW_SECS },
                    ) && final(self).counters() == m1
                } else {
                    match first_block(m1, keys, now) {
                        Some(j) => r == Err::<Option<Allowance>, Limited>(
                            Limited {
                                limit: keys[j].1,
                                retry_after_seconds: retry_after(m1[keys[j].0], now),
                            },
                        ) && final(self).counters() == m1,
                        None => r == Ok::<Option<Allowance>, Limited>(
                            Some(Allowance { limit, remaining: counted(m1, keys, now, limit).1 }),
                        ) && final(self).counters() == counted(m1, keys, now, limit).0,
                    }
                }
            }),
    {
        if !self.config.enabled {
            return Ok(None);
        }
        let (bucket, limit) = match classify(&self.config, is_post, path) {
            Some(x) => x,
            None => {
                return Ok(None);
            },
        };
        let global_limit = self.config.global_per_minute;
        let ids = identities(device_id, authorization, client_ip);
        let ghost idv = ids@.map_values(|s: String| s@);
        let ghost kv = request_keys(bucket, limit, idv, global_limit);
        let mut keys: Vec<(Bucket, String, u32)> = Vec::new();
        let mut t: usize = 0;
        while t < ids.len()
            invariant
                t <= ids@.len(),
                idv == ids@.map_values(|s: String| s@),
                kv == request_keys(bucket, limit, idv, global_limit),
                keys@.len() == t,
                forall|k: int| 0 <= k < t ==> ((#[trigger] keys@[k]).0, keys@[k].1@, keys@[k].2) == (kv[k].0.0, kv[k].0.1, kv[k].1),
            decreases ids@.len() - t,
        {
            keys.push((bucket, ids[t].clone(), limit));
            t = t + 1;
        }
        keys.push((Bucket::Global, owned("all"), global_limit));
        proof {
            reveal_strlit("all");
            assert forall|k: int| 0 <= k < keys@.len() implies ((#[trigger] keys@[k]).0, keys@[k].1@, keys@[k].2) == (kv[k].0.0, kv[k].0.1, kv[k].1) by {
                if k == keys@.len() - 1 {
                    assert(kv[k] == ((Bucket::Global, "all"@), global_limit));
                }
            }
            assert(kv.len() == keys@.len());
        }
        proof {
            use_type_invariant(&*self);
            lemma_entry_map_len(self.counters@);
        }
        let ghost m0 = self.counters();
        let mut should_prune = self.counters.len() >= MAX_IDENTITIES;
        if !should_prune {
            let prev = self.requests;
            self.requests = if prev == u64::MAX {
                0
            } else {
                prev + 1
            };
            should_prune = prev % 1024 == 0;
        }
        if should_prune {
            self.prune(now);
        }
        let ghost m1 = self.counters();
        assert(m1 == after_prune(m0, old(self).requests(), now));
        assert(idv == identities_spec(opt_seq(device_id), opt_seq(authorization), opt_seq(client_ip)));
        proof {
            use_type_invariant(&*self);
            lemma_entry_map_len(self.counters@);
        }
        if self.counters.len() >= MAX_IDENTITIES {
            return Err(Limited { limit, retry_after_seconds: WINDOW_SECS });
        }
        let mut j: usize = 0;
        while j < keys.len()
            invariant
                j <= keys@.len(),
                kv.len() == keys@.len(),
                forall|k: int| 0 <= k < keys@.len() ==> ((#[trigger] keys@[k]).0, keys@[k].1@, keys@[k].2) == (kv[k].0.0, kv[k].0.1, kv[k].1),
                self.counters() == m1,
                first_block(m1, kv.take(j as int), now) is None,
                self.config() == old(self).config(),
                self.config().enabled,
                classify_spec(self.config(), is_post, path@) == Some((bucket, limit)),
                global_limit == self.config().global_per_minute,
                idv == identities_spec(opt_seq(device_id), opt_seq(authorization), opt_seq(client_ip)),
                kv == request_keys(bucket, limit, idv, global_limit),
                m0 == old(self).counters(),
                m1 == after_prune(m0, old(self).requests(), now),
                m1.dom().len() < MAX_IDENTITIES,
                self.requests() == if m0.dom().len() >= MAX_IDENTITIES {
                    old(self).requests()
                } else {
                    next_requests(old(self).requests())
                },
            decreases keys@.len() - j,
        {
            let key = &keys[j];
            proof {
                assert(kv.take(j as int + 1).drop_last() =~= kv.take(j as int));
                assert(kv.take(j as int + 1).last() == kv[j as int]);
                assert(kv[j as int] == ((key.0, key.1@), key.2));
            }
            match self.lookup(key.0, key.1.as_str()) {
                Some((start, count)) => {
                    let elapsed_ns: u64 = if now >= start {
                        now - start
                    } else {
                        0
                    };
                    if elapsed_ns < WINDOW_NANOS && count >= key.2 {
                        let secs = (WINDOW_NANOS - elapsed_ns) / 1_000_000_000;
                        let retry = if secs < 1 {
                            1
                        } else {
                            secs
                        };
                        proof {
                            lemma_first_block_prefix(m1, kv, j as int + 1, now);
                        }
                        return Err(Limited { limit: key.2, retry_after_seconds: retry });
                    }
                },
                None => {},
            }
            j = j + 1;
        }
        proof {
            assert(kv.take(j as int) =~= kv);
        }
        let mut remaining = limit;
        let mut j: usize = 0;
        assert(counted(m1, kv.take(0), now, limit) == (m1, limit));
        while j < keys.len()
            invariant
                j <= keys@.len(),
                kv.len() == keys@.len(),
                forall|k: int| 0 <= k < keys@.len() ==> ((#[trigger] keys@[k]).0, keys@[k].1@, keys@[k].2) == (kv[k].0.0, kv[k].0.1, kv[k].1),
                (self.counters(), remaining) == counted(m1, kv.take(j as int), now, limit),
                first_block(m1, kv, now) is None,
                self.config() == old(self).config(),
                self.config().enabled,
                classify_spec(self.config(), is_post, path@) == Some((bucket, limit)),
                global_limit == self.config().global_per_minute,
                idv == identities_spec(opt_seq(device_id), opt_seq(authorization), opt_seq(client_ip)),
                kv == request_keys(bucket, limit, idv, global_limit),
                m0 == old(self).counters(),
                m1 == after_prune(m0, old(self).requests(), now),
                m1.dom().len() < MAX_IDENTITIES,
                self.requests() == if m0.dom().len() >= MAX_IDENTITIES {
                    old(self).requests()
                } else {
                    next_requests(old(self).requests())
                },
            decreases keys@.len() - j,
        {
            let key = &keys[j];
            proof {
                assert(kv.take(j as int + 1).drop_last() =~= kv.take(j as int));
                assert(kv.take(j as int + 1).last() == kv[j as int]);
                assert(kv[j as int] == ((key.0, key.1@), key.2));
            }
            let count = self.bump(key.0, key.1.as_str(), now);
            let room = if key.2 >= count {
                key.2 - count
            } else {
                0
            };
            if room < remaining {
                remaining = room;
            }
            j = j + 1;
        }
        proof {
            assert(kv.take(j as int) =~= kv);
        }
        Ok(Some(Allowance { limit, remaining }))
    }
}

proof fn lemma_first_block_prefix(
    m: Map<(Bucket, Seq<char>), (u64, u32)>,
    keys: Seq<((Bucket, Seq<char>), u32)>,
    n: int,
    now: u64,
)
    requires
        0 <= n <= keys.len(),
        first_block(m, keys.take(n), now) is Some,
    ensures
        first_block(m, keys, now) == first_block(m, keys.take(n), now),
    decreases keys.len() - n,
{
    if n < keys.len() {
        assert(keys.take(n + 1).drop_last() =~= keys.take(n));
        lemma_first_block_prefix(m, keys, n + 1, now);
    } else {
        assert(keys.take(n) =~= keys);
    }
}

/// The room reported to an admitted request never exceeds its family's limit.
pub proof fn lemma_remaining_within_limit(
    m: Map<(Bucket, Seq<char>), (u64, u32)>,
    keys: Seq<((Bucket, Seq<char>), u32)>,
    now: u64,
    limit: u32,
)
    ensures
        counted(m, keys, now, limit).1 <= limit,
    decreases keys.len(),
{
    if keys.len() > 0 {
        lemma_remaining_within_limit(m, keys.drop_last(), now, limit);
    }
}

/// After an admitted request every key it was counted under has an open
/// window at `now` holding at least one request.
pub proof fn lemma_counted_keys_live(
    m: Map<(Bucket, Seq<char>), (u64, u32)>,
    keys: Seq<((Bucket, Seq<char>), u32)>,
    now: u64,
    limit: u32,
)
    ensures
        forall|i: int|
            0 <= i < keys.len() ==> {
                let c = counted(m, keys, now, limit).0;
                &&& c.dom().contains(#[trigger] keys[i].0)
                &&& c[keys[i].0].1 >= 1
                &&& is_live(c[keys[i].0], now)
            },
    decreases keys.len(),
{
    if keys.len() > 0 {
        let prev = keys.drop_last();
        lemma_counted_keys_live(m, prev, now, limit);
        assert forall|i: int| 0 <= i < keys.len() implies {
            let c = counted(m, keys, now, limit).0;
            &&& c.dom().contains(#[trigger] keys[i].0)
            &&& c[keys[i].0].1 >= 1
            &&& is_live(c[keys[i].0], now)
        } by {
            if i < keys.len() - 1 {
                assert(prev[i] == keys[i]);
            }
        }
    }
}

/// Seconds a refused request is told to wait: never less than one and never
/// more than the window.
pub proof fn lemma_retry_after_bounds(c: (u64, u32), now: u64)
    ensures
        1 <= retry_after(c, now) <= WINDOW_SECS,
{
    let left: nat = if elapsed(now, c.0) < WINDOW_NANOS {
        (WINDOW_NANOS - elapsed(now, c.0)) as nat
    } else {
        0
    };
    assert(left <= 60_000_000_000);
    assert(left / 1_000_000_000 <= 60) by (nonlinear_arith)
        requires
            left <= 60_000_000_000,
    ;
}

/// The counter keys named in `keys`.
pub open spec fn key_set(keys: Seq<((Bucket, Seq<char>), u32)>) -> Set<(Bucket, Seq<char>)> {
    Set::new(|k: (Bucket, Seq<char>)| exists|i: int| 0 <= i < keys.len() && (#[trigger] keys[i]).0 == k)
}

/// No counter key is named twice in `keys`.
pub open spec fn distinct_keys(keys: Seq<((Bucket, Seq<char>), u32)>) -> bool {
    forall|i: int, j: int| 0 <= i < j < keys.len() ==> (#[trigger] keys[i]).0 != (#[trigger] keys[j]).0
}

/// The per-minute limit of the family a request falls in (meaningful when it
/// is limited).
pub open spec fn family_limit(c: RateLimitConfig, is_post: bool, path: Seq<char>) -> u32 {
    match classify_spec(c, is_post, path) {
        Some((_, limit)) => limit,
        None => 0,
    }
}

/// The keys one caller's request is counted under, with their limits.
pub open spec fn caller_keys(
    c: RateLimitConfig,
    is_post: bool,
    path: Seq<char>,
    device_id: Option<Seq<char>>,
    authorization: Option<Seq<char>>,
    client_ip: Option<Seq<char>>,
) -> Seq<((Bucket, Seq<char>), u32)> {
    let (bucket, limit) = classify_spec(c, is_post, path)->0;
    request_keys(bucket, limit, identities_spec(device_id, authorization, client_ip), c.global_per_minute)
}

/// The counters after `n` admitted requests of one caller counted under
/// `keys`, the first of them at `start`, with no other traffic: none when
/// `n` is zero, else exactly the caller's keys, each with the window opened at
/// `start` and a count of `n`.
pub open spec fn one_caller_state(
    m: Map<(Bucket, Seq<char>), (u64, u32)>,
    keys: Seq<((Bucket, Seq<char>), u32)>,
    start: u64,
    n: u32,
) -> bool {
    if n == 0 {
        m == Map::<(Bucket, Seq<char>), (u64, u32)>::empty()
    } else {
        &&& m.dom() == key_set(keys)
        &&& forall|i: int| 0 <= i < keys.len() ==> m[(#[trigger] keys[i]).0] == (start, n)
    }
}

proof fn lemma_key_set_len(keys: Seq<((Bucket, Seq<char>), u32)>)
    ensures
        key_set(keys).finite(),
        key_set(keys).len() <= keys.len(),
    decreases keys.len(),
{
    if keys.len() == 0 {
        assert(key_set(keys) =~= Set::<(Bucket, Seq<char>)>::empty());
    } else {
        let prev = keys.drop_last();
        lemma_key_set_len(prev);
        assert(key_set(keys) =~= key_set(prev).insert(keys.last().0)) by {
            assert forall|k: (Bucket, Seq<char>)| key_set(keys).contains(k) implies key_set(prev).insert(
                keys.last().0,
            ).contains(k) by {
                let i = choose|i: int| 0 <= i < keys.len() && (#[trigger] keys[i]).0 == k;
                if i < keys.len() - 1 {
                    assert(prev[i] == keys[i]);
                }
            }
            assert forall|k: (Bucket, Seq<char>)| key_set(prev).insert(keys.last().0).contains(k) implies key_set(
                keys,
            ).contains(k) by {
                if k != keys.last().0 {
                    let i = choose|i: int| 0 <= i < prev.len() && (#[trigger] prev[i]).0 == k;
                    assert(keys[i] == prev[i]);
                } else {
                    assert(keys[keys.len() - 1] == keys.last());
                }
            }
        }
    }
}

proof fn lemma_identities_distinct(
    device_id: Option<Seq<char>>,
    authorization: Option<Seq<char>>,
    client_ip: Option<Seq<char>>,
)
    ensures
        ({
            let ids = identities_spec(device_id, authorization, client_ip);
            &&& 1 <= ids.len() <= 2
            &&& ids.len() == 2 ==> ids[0] != ids[1]
        }),
{
    reveal_strlit("device:");
    reveal_strlit("session:");
    reveal_strlit("ip:");
    let ids = identities_spec(device_id, authorization, client_ip);
    if ids.len() == 2 {
        assert(ids[0][0] != ids[1][0]);
    }
}

proof fn lemma_caller_keys_shape(
    c: RateLimitConfig,
    is_post: bool,
    path: Seq<char>,
    device_id: Option<Seq<char>>,
    authorization: Option<Seq<char>>,
    client_ip: Option<Seq<char>>,
)
    requires
        classify_spec(c, is_post, path) is Some,
    ensures
        ({
            let keys = caller_keys(c, is_post, path, device_id, authorization, client_ip);
            let limit = family_limit(c, is_post, path);
            &&& distinct_keys(keys)
            &&& 2 <= keys.len() <= 3
            &&& keys[0].1 == limit
            &&& forall|i: int| 0 <= i < keys.len() - 1 ==> (#[trigger] keys[i]).1 == limit
            &&& keys[keys.len() - 1].1 == c.global_per_minute
        }),
{
    let (bucket, limit) = classify_spec(c, is_post, path)->0;
    let ids = identities_spec(device_id, authorization, client_ip);
    lemma_identities_distinct(device_id, authorization, client_ip);
    let keys = caller_keys(c, is_post, path, device_id, authorization, client_ip);
    assert(bucket != Bucket::Global);
    assert forall|i: int, j: int| 0 <= i < j < keys.len() implies (#[trigger] keys[i]).0 != (
    #[trigger] keys[j]).0 by {
        if j == keys.len() - 1 {
            assert(keys[j].0.0 == Bucket::Global);
            assert(keys[i].0.0 == bucket);
        } else {
            assert(keys[i].0.1 == ids[i]);
            assert(keys[j].0.1 == ids[j]);
        }
    }
}

proof fn lemma_first_block_none(
    m: Map<(Bucket, Seq<char>), (u64, u32)>,
    keys: Seq<((Bucket, Seq<char>), u32)>,
    now: u64,
)
    requires
        forall|i: int| 0 <= i < keys.len() ==> !blocks(m, #[trigger] keys[i], now),
    ensures
        first_block(m, keys, now) is None,
    decreases keys.len(),
{
    if keys.len() > 0 {
        let prev = keys.drop_last();
        assert forall|i: int| 0 <= i < prev.len() implies !blocks(m, #[trigger] prev[i], now) by {
            assert(prev[i] == keys[i]);
        }
        lemma_first_block_none(m, prev, now);
        assert(keys.last() == keys[keys.len() - 1]);
    }
}

proof fn lemma_first_block_first(
    m: Map<(Bucket, Seq<char>), (u64, u32)>,
    keys: Seq<((Bucket, Seq<char>), u32)>,
    now: u64,
)
    requires
        keys.len() > 0,
        blocks(m, keys[0], now),
    ensures
        first_block(m, keys, now) == Some(0int),
    decreases keys.len(),
{
    if keys.len() == 1 {
        assert(keys.drop_last().len() == 0);
        assert(keys.last() == keys[0]);
    } else {
        assert(keys.drop_last()[0] == keys[0]);
        lemma_first_block_first(m, keys.drop_last(), now);
    }
}

proof fn lemma_counted_one_caller(
    m: Map<(Bucket, Seq<char>), (u64, u32)>,
    keys: Seq<((Bucket, Seq<char>), u32)>,
    start: u64,
    n: u32,
    now: u64,
    limit: u32,
)
    requires
        distinct_keys(keys),
        n < limit,
        forall|i: int| 0 <= i < keys.len() ==> limit <= (#[trigger] keys[i]).1,
        forall|i: int|
            0 <= i < keys.len() ==> if n == 0 {
                !m.dom().contains((#[trigger] keys[i]).0)
            } else {
                m.dom().contains((#[trigger] keys[i]).0) && m[keys[i].0] == (start, n)
                    && elapsed(now, start) < WINDOW_NANOS
            },
    ensures
        ({
            let (m2, r) = counted(m, keys, now, limit);
            &&& m2.dom() == m.dom().union(key_set(keys))
            &&& forall|k: (Bucket, Seq<char>)| !key_set(keys).contains(k) ==> m2[k] == m[k]
            &&& forall|i: int|
                0 <= i < keys.len() ==> m2[(#[trigger] keys[i]).0] == (
                    if n == 0 {
                        now
                    } else {
                        start
                    },
                    (n + 1) as u32,
                )
            &&& limit - (n + 1) <= r <= limit
            &&& (exists|i: int| 0 <= i < keys.len() && (#[trigger] keys[i]).1 == limit) ==> r == limit
                - (n + 1)
        }),
    decreases keys.len(),
{
    let s2: u64 = if n == 0 {
        now
    } else {
        start
    };
    if keys.len() == 0 {
        assert(key_set(keys) =~= Set::<(Bucket, Seq<char>)>::empty());
        assert(m.dom().union(key_set(keys)) =~= m.dom());
    } else {
        let prev = keys.drop_last();
        let k = keys.last();
        assert(k == keys[keys.len() - 1]);
        assert(distinct_keys(prev)) by {
            assert forall|i: int, j: int| 0 <= i < j < prev.len() implies (#[trigger] prev[i]).0 != (
            #[trigger] prev[j]).0 by {
                assert(prev[i] == keys[i]);
                assert(prev[j] == keys[j]);
            }
        }
        assert forall|i: int| 0 <= i < prev.len() implies limit <= (#[trigger] prev[i]).1 by {
            assert(prev[i] == keys[i]);
        }
        assert forall|i: int| 0 <= i < prev.len() implies if n == 0 {
            !m.dom().contains((#[trigger] prev[i]).0)
        } else {
            m.dom().contains((#[trigger] prev[i]).0) && m[prev[i].0] == (start, n) && elapsed(now, start)
                < WINDOW_NANOS
        } by {
            assert(prev[i] == keys[i]);
        }
        lemma_counted_one_caller(m, prev, start, n, now, limit);
        let (m1, r1) = counted(m, prev, now, limit);
        assert(!key_set(prev).contains(k.0)) by {
            if key_set(prev).contains(k.0) {
                let i = choose|i: int| 0 <= i < prev.len() && (#[trigger] prev[i]).0 == k.0;
                assert(prev[i] == keys[i]);
                assert(keys[i].0 != keys[keys.len() - 1].0);
            }
        }
        assert(m1[k.0] == m[k.0]);
        assert(m1.dom().contains(k.0) == m.dom().contains(k.0));
        assert(bumped(m1, k.0, now) == (s2, (n + 1) as u32));
        let (m2, r) = counted(m, keys, now, limit);
        assert(m2 == m1.insert(k.0, (s2, (n + 1) as u32)));
        assert(key_set(keys) =~= key_set(prev).insert(k.0)) by {
            assert forall|x: (Bucket, Seq<char>)| key_set(keys).contains(x) implies key_set(prev).insert(
                k.0,
            ).contains(x) by {
                let i = choose|i: int| 0 <= i < keys.len() && (#[trigger] keys[i]).0 == x;
                if i < keys.len() - 1 {
                    assert(prev[i] == keys[i]);
                }
            }
            assert forall|x: (Bucket, Seq<char>)| key_set(prev).insert(k.0).contains(x) implies key_set(
                keys,
            ).contains(x) by {
                if x != k.0 {
                    let i = choose|i: int| 0 <= i < prev.len() && (#[trigger] prev[i]).0 == x;
                    assert(keys[i] == prev[i]);
                }
            }
        }
        assert(m2.dom() =~= m.dom().union(key_set(keys)));
        assert forall|i: int| 0 <= i < keys.len() implies m2[(#[trigger] keys[i]).0] == (s2, (n + 1) as u32) by {
            if i < keys.len() - 1 {
                assert(prev[i] == keys[i]);
            }
        }
        if exists|i: int| 0 <= i < keys.len() && (#[trigger] keys[i]).1 == limit {
            let i = choose|i: int| 0 <= i < keys.len() && (#[trigger] keys[i]).1 == limit;
            if i < keys.len() - 1 {
                assert(prev[i] == keys[i]);
            }
        }
    }
}

/// One caller alone, inside one window: while its counters are under the
/// family's limit `l` (not above the global limit), the next request is
/// admitted (nothing is pruned away and the table is far from full) with
/// `l - (n + 1)` requests left, and afterwards the counters hold `n + 1`
/// requests in the same window (opened by the first request).
pub proof fn lemma_one_caller_admitted(
    c: RateLimitConfig,
    is_post: bool,
    path: Seq<char>,
    device_id: Option<Seq<char>>,
    authorization: Option<Seq<char>>,
    client_ip: Option<Seq<char>>,
    m: Map<(Bucket, Seq<char>), (u64, u32)>,
    start: u64,
    n: u32,
    now: u64,
    requests: u64,
)
    requires
        classify_spec(c, is_post, path) is Some,
        family_limit(c, is_post, path) <= c.global_per_minute,
        n < family_limit(c, is_post, path),
        one_caller_state(m, caller_keys(c, is_post, path, device_id, authorization, client_ip), start, n),
        n > 0 ==> elapsed(now, start) < WINDOW_NANOS,
    ensures
        ({
            let keys = caller_keys(c, is_post, path, device_id, authorization, client_ip);
            let l = family_limit(c, is_post, path);
            &&& after_prune(m, requests, now) == m
            &&& m.dom().len() < MAX_IDENTITIES
            &&& first_block(m, keys, now) is None
            &&& counted(m, keys, now, l).1 == l - (n + 1)
            &&& one_caller_state(
                counted(m, keys, now, l).0,
                keys,
                if n == 0 {
                    now
                } else {
                    start
                },
                (n + 1) as u32,
            )
        }),
{
    let keys = caller_keys(c, is_post, path, device_id, authorization, client_ip);
    let l = family_limit(c, is_post, path);
    lemma_caller_keys_shape(c, is_post, path, device_id, authorization, client_ip);
    lemma_key_set_len(keys);
    assert(pruned(m, now) =~= m) by {
        if n > 0 {
            assert forall|k: (Bucket, Seq<char>)| m.dom().contains(k) implies is_live(m[k], now) by {
                let i = choose|i: int| 0 <= i < keys.len() && (#[trigger] keys[i]).0 == k;
            }
        }
    }
    if n == 0 {
        assert(m.dom() =~= Set::<(Bucket, Seq<char>)>::empty());
    }
    assert(forall|i: int| 0 <= i < keys.len() ==> limit_ok(l, #[trigger] keys[i]));
    assert forall|i: int| 0 <= i < keys.len() implies !blocks(m, #[trigger] keys[i], now) by {
        assert(limit_ok(l, keys[i]));
    }
    lemma_first_block_none(m, keys, now);
    assert forall|i: int| 0 <= i < keys.len() implies l <= (#[trigger] keys[i]).1 by {
        assert(limit_ok(l, keys[i]));
    }
    assert forall|i: int|
        0 <= i < keys.len() implies if n == 0 {
            !m.dom().contains((#[trigger] keys[i]).0)
        } else {
            m.dom().contains((#[trigger] keys[i]).0) && m[keys[i].0] == (start, n) && elapsed(now, start)
                < WINDOW_NANOS
        } by {
        if n > 0 {
            assert(key_set(keys).contains(keys[i].0));
        }
    }
    lemma_counted_one_caller(m, keys, start, n, now, l);
    assert(keys[0].1 == l);
    let m2 = counted(m, keys, now, l).0;
    assert(m2.dom() =~= key_set(keys)) by {
        assert(m.dom().union(key_set(keys)) =~= key_set(keys));
    }
}

spec fn limit_ok(l: u32, k: ((Bucket, Seq<char>), u32)) -> bool {
    l <= k.1
}

/// One caller alone, inside one window: once its counters hold as many
/// requests as the family's limit `l`, the next request is refused under its
/// first key, with limit `l` and a retry of 1 to 60 seconds (nothing is pruned
/// away and the table is far from full).
pub proof fn lemma_one_caller_refused(
    c: RateLimitConfig,
    is_post: bool,
    path: Seq<char>,
    device_id: Option<Seq<char>>,
    authorization: Option<Seq<char>>,
    client_ip: Option<Seq<char>>,
    m: Map<(Bucket, Seq<char>), (u64, u32)>,
    start: u64,
    n: u32,
    now: u64,
    requests: u64,
)
    requires
        classify_spec(c, is_post, path) is Some,
        0 < n,
        family_limit(c, is_post, path) <= n,
        one_caller_state(m, caller_keys(c, is_post, path, device_id, authorization, client_ip), start, n),
        elapsed(now, start) < WINDOW_NANOS,
    ensures
        ({
            let keys = caller_keys(c, is_post, path, device_id, authorization, client_ip);
            let l = family_limit(c, is_post, path);
            &&& after_prune(m, requests, now) == m
            &&& m.dom().len() < MAX_IDENTITIES
            &&& first_block(m, keys, now) == Some(0int)
            &&& keys[0].1 == l
            &&& 1 <= retry_after(m[keys[0].0], now) <= WINDOW_SECS
        }),
{
    let keys = caller_keys(c, is_post, path, device_id, authorization, client_ip);
    lemma_caller_keys_shape(c, is_post, path, device_id, authorization, client_ip);
    lemma_key_set_len(keys);
    assert(pruned(m, now) =~= m) by {
        assert forall|k: (Bucket, Seq<char>)| m.dom().contains(k) implies is_live(m[k], now) by {
            let i = choose|i: int| 0 <= i < keys.len() && (#[trigger] keys[i]).0 == k;
        }
    }
    assert(key_set(keys).contains(keys[0].0));
    lemma_first_block_first(m, keys, now);
    lemma_retry_after_bounds(m[keys[0].0], now);
}

/// The counters after requests at `times`, in order, are each admitted under
/// `keys`, starting from `m`.
pub open spec fn admitted_run(
    m: Map<(Bucket, Seq<char>), (u64, u32)>,
    keys: Seq<((Bucket, Seq<char>), u32)>,
    times: Seq<u64>,
    limit: u32,
) -> Map<(Bucket, Seq<char>), (u64, u32)>
    decreases times.len(),
{
    if times.len() == 0 {
        m
    } else {
        counted(admitted_run(m, keys, times.drop_last(), limit), keys, times.last(), limit).0
    }
}

/// What `check` finds for the request number `i` (from zero) at `now`, with
/// counters `m`: nothing is pruned away, the table is far from full, no key
/// blocks, and `limit - (i + 1)` requests are left after it.
pub open spec fn admitted_step(
    m: Map<(Bucket, Seq<char>), (u64, u32)>,
    keys: Seq<((Bucket, Seq<char>), u32)>,
    now: u64,
    limit: u32,
    i: nat,
) -> bool {
    &&& forall|r: u64| #[trigger] after_prune(m, r, now) == m
    &&& m.dom().len() < MAX_IDENTITIES
    &&& first_block(m, keys, now) is None
    &&& counted(m, keys, now, limit).1 == limit - (i + 1)
}

/// What `check` finds for a request at `now` with counters `m`: nothing is
/// pruned away, the table is far from full, and the first key blocks it,
/// with limit `limit` and a retry of 1 to 60 seconds.
pub open spec fn refused_step(
    m: Map<(Bucket, Seq<char>), (u64, u32)>,
    keys: Seq<((Bucket, Seq<char>), u32)>,
    now: u64,
    limit: u32,
) -> bool {
    &&& forall|r: u64| #[trigger] after_prune(m, r, now) == m
    &&& m.dom().len() < MAX_IDENTITIES
    &&& first_block(m, keys, now) == Some(0int)
    &&& keys[0].1 == limit
    &&& 1 <= retry_after(m[keys[0].0], now) <= WINDOW_SECS
}

/// One caller alone, from a fresh limiter, with every request inside the
/// window its first request opened: each of its first `l` requests (`l` the
/// family's limit, not above the global limit) is admitted with
/// `l - 1, l - 2, ..., 0` left, and the counters then hold `l` requests, so
/// any further request in that window is refused under the caller's first
/// key with limit `l` and a retry of 1 to 60 seconds.
pub proof fn lemma_one_caller_run(
    c: RateLimitConfig,
    is_post: bool,
    path: Seq<char>,
    device_id: Option<Seq<char>>,
    authorization: Option<Seq<char>>,
    client_ip: Option<Seq<char>>,
    times: Seq<u64>,
)
    requires
        classify_spec(c, is_post, path) is Some,
        family_limit(c, is_post, path) <= c.global_per_minute,
        times.len() <= family_limit(c, is_post, path),
        forall|i: int| 0 <= i < times.len() ==> elapsed(#[trigger] times[i], times[0]) < WINDOW_NANOS,
    ensures
        ({
            let keys = caller_keys(c, is_post, path, device_id, authorization, client_ip);
            let l = family_limit(c, is_post, path);
            let empty = Map::<(Bucket, Seq<char>), (u64, u32)>::empty();
            &&& forall|i: int|
                0 <= i < times.len() ==> admitted_step(
                    admitted_run(empty, keys, times.take(i), l),
                    keys,
                    #[trigger] times[i],
                    l,
                    i as nat,
                )
            &&& one_caller_state(admitted_run(empty, keys, times, l), keys, times[0], times.len() as u32)
            &&& times.len() == l && l > 0 ==> forall|now: u64|
                elapsed(now, times[0]) < WINDOW_NANOS ==> #[trigger] refused_step(
                    admitted_run(empty, keys, times, l),
                    keys,
                    now,
                    l,
                )
        }),
{
    let keys = caller_keys(c, is_post, path, device_id, authorization, client_ip);
    let l = family_limit(c, is_post, path);
    let empty = Map::<(Bucket, Seq<char>), (u64, u32)>::empty();
    assert forall|i: int| 0 <= i < times.len() implies admitted_step(
        admitted_run(empty, keys, times.take(i), l),
        keys,
        #[trigger] times[i],
        l,
        i as nat,
    ) by {
        let prefix = times.take(i);
        assert forall|j: int| 0 <= j < prefix.len() implies elapsed(#[trigger] prefix[j], prefix[0])
            < WINDOW_NANOS by {
            assert(prefix[j] == times[j]);
            assert(prefix[0] == times[0]);
        }
        lemma_run_state(c, is_post, path, device_id, authorization, client_ip, prefix);
        let m = admitted_run(empty, keys, prefix, l);
        if i > 0 {
            assert(prefix[0] == times[0]);
        }
        assert(one_caller_state(m, keys, times[0], i as u32));
        assert forall|r: u64| #[trigger] after_prune(m, r, times[i]) == m by {
            lemma_one_caller_admitted(c, is_post, path, device_id, authorization, client_ip, m, times[0], i as u32, times[i], r);
        }
        lemma_one_caller_admitted(c, is_post, path, device_id, authorization, client_ip, m, times[0], i as u32, times[i], 0);
    }
    lemma_run_state(c, is_post, path, device_id, authorization, client_ip, times);
    if times.len() == l && l > 0 {
        let mf = admitted_run(empty, keys, times, l);
        assert forall|now: u64| elapsed(now, times[0]) < WINDOW_NANOS implies #[trigger] refused_step(
            mf,
            keys,
            now,
            l,
        ) by {
            assert forall|r: u64| #[trigger] after_prune(mf, r, now) == mf by {
                lemma_one_caller_refused(c, is_post, path, device_id, authorization, client_ip, mf, times[0], l, now, r);
            }
            lemma_one_caller_refused(c, is_post, path, device_id, authorization, client_ip, mf, times[0], l, now, 0);
        }
    }
}

proof fn lemma_run_state(
    c: RateLimitConfig,
    is_post: bool,
    path: Seq<char>,
    device_id: Option<Seq<char>>,
    authorization: Option<Seq<char>>,
    client_ip: Option<Seq<char>>,
    times: Seq<u64>,
)
    requires
        classify_spec(c, is_post, path) is Some,
        family_limit(c, is_post, path) <= c.global_per_minute,
        times.len() <= family_limit(c, is_post, path),
        forall|i: int| 0 <= i < times.len() ==> elapsed(#[trigger] times[i], times[0]) < WINDOW_NANOS,
    ensures
        one_caller_state(
            admitted_run(
                Map::<(Bucket, Seq<char>), (u64, u32)>::empty(),
                caller_keys(c, is_post, path, device_id, authorization, client_ip),
                times,
                family_limit(c, is_post, path),
            ),
            caller_keys(c, is_post, path, device_id, authorization, client_ip),
            times[0],
            times.len() as u32,
        ),
    decreases times.len(),
{
    let keys = caller_keys(c, is_post, path, device_id, authorization, client_ip);
    let l = family_limit(c, is_post, path);
    let empty = Map::<(Bucket, Seq<char>), (u64, u32)>::empty();
    if times.len() > 0 {
        let prev = times.drop_last();
        let k = prev.len();
        assert forall|i: int| 0 <= i < prev.len() implies elapsed(#[trigger] prev[i], prev[0]) < WINDOW_NANOS by {
            assert(prev[i] == times[i]);
            assert(prev[0] == times[0]);
        }
        lemma_run_state(c, is_post, path, device_id, authorization, client_ip, prev);
        let m = admitted_run(empty, keys, prev, l);
        if k > 0 {
            assert(prev[0] == times[0]);
        }
        assert(one_caller_state(m, keys, times[0], k as u32));
        assert(times.last() == times[k as int]);
        lemma_one_caller_admitted(c, is_post, path, device_id, authorization, client_ip, m, times[0], k as u32, times.last(), 0);
    }
}

proof fn lemma_prefix_char(path: Seq<char>, prefix: Seq<char>, i: int)
    requires
        seq_starts_with(path, prefix),
        0 <= i < prefix.len(),
    ensures
        path[i] == prefix[i],
{
    assert(path.subrange(0, prefix.len() as int)[i] == path[i]);
}

proof fn lemma_prefix_of_prefix(path: Seq<char>, long: Seq<char>, short: Seq<char>)
    requires
        seq_starts_with(path, long),
        short.len() <= long.len(),
        long.subrange(0, short.len() as int) == short,
    ensures
        seq_starts_with(path, short),
{
    assert(path.subrange(0, short.len() as int) =~= path.subrange(0, long.len() as int).subrange(
        0,
        short.len() as int,
    ));
}

/// The address counted for a forwarded request is the first entry of the
/// `x-forwarded-for` list, trimmed, whatever entries follow it; a list of
/// one entry names that entry, trimmed.
pub proof fn lemma_forwarded_first_entry(first: Seq<char>, rest: Seq<char>)
    requires
        !first.contains(','),
    ensures
        forwarded_entry_spec(first) == trim(first),
        forwarded_entry_spec(first + seq![','] + rest) == trim(first),
{
    crate::text::lemma_split_char_single(first, ',');
    crate::text::lemma_split_char_join(first, rest, ',');
    assert((seq![first] + split_char(rest, ','))[0] == first);
}

/// Which requests are limited, and in which family: every path under
/// `/v1/` is limited, `/v1/session/...` as sessions, exactly `/v1/search` as
/// searches, a `POST` under `/v1/feedback` as feedback, every other `/v1/`
/// path and `/openapi.json` as reads, each with its family's configured
/// limit; no other path is limited, and no request falls in the global
/// family.
pub proof fn lemma_classify_families(c: RateLimitConfig, is_post: bool, path: Seq<char>)
    ensures
        seq_starts_with(path, "/v1/"@) ==> classify_spec(c, is_post, path) is Some,
        seq_starts_with(path, "/v1/session/"@) ==> classify_spec(c, is_post, path) == Some(
            (Bucket::Session, c.session_per_minute),
        ),
        path == "/v1/search"@ ==> classify_spec(c, is_post, path) == Some((Bucket::Search, c.search_per_minute)),
        is_post && seq_starts_with(path, "/v1/feedback"@) ==> classify_spec(c, is_post, path) == Some(
            (Bucket::Feedback, c.feedback_per_minute),
        ),
        seq_starts_with(path, "/v1/"@) && !seq_starts_with(path, "/v1/session/"@) && path != "/v1/search"@
            && !(is_post && seq_starts_with(path, "/v1/feedback"@)) ==> classify_spec(c, is_post, path)
            == Some((Bucket::Read, c.read_per_minute)),
        path == "/openapi.json"@ ==> classify_spec(c, is_post, path) == Some((Bucket::Read, c.read_per_minute)),
        !seq_starts_with(path, "/v1/"@) && path != "/openapi.json"@ ==> classify_spec(c, is_post, path) is None,
        !(classify_spec(c, is_post, path) matches Some((Bucket::Global, _))),
{
    reveal_strlit("/v1/");
    reveal_strlit("/v1/session/");
    reveal_strlit("/v1/search");
    reveal_strlit("/v1/feedback");
    reveal_strlit("/openapi.json");
    let v1 = "/v1/"@;
    if seq_starts_with(path, "/v1/session/"@) {
        assert("/v1/session/"@.subrange(0, 4) =~= v1);
        lemma_prefix_of_prefix(path, "/v1/session/"@, v1);
    }
    if path == "/v1/search"@ {
        assert("/v1/search"@.subrange(0, 4) =~= v1);
        assert(seq_starts_with(path, "/v1/search"@)) by {
            assert(path.subrange(0, path.len() as int) =~= path);
        }
        lemma_prefix_of_prefix(path, "/v1/search"@, v1);
        if seq_starts_with(path, "/v1/session/"@) {
            assert(path.len() == 10);
        }
    }
    if seq_starts_with(path, "/v1/feedback"@) {
        assert("/v1/feedback"@.subrange(0, 4) =~= v1);
        lemma_prefix_of_prefix(path, "/v1/feedback"@, v1);
        lemma_prefix_char(path, "/v1/feedback"@, 4);
        if seq_starts_with(path, "/v1/session/"@) {
            lemma_prefix_char(path, "/v1/session/"@, 4);
        }
        if path == "/v1/search"@ {
            assert(path[4] == 's');
        }
    }
    if path == "/openapi.json"@ {
        assert(path[1] == 'o');
        if seq_starts_with(path, "/v1/session/"@) {
            lemma_prefix_char(path, "/v1/session/"@, 1);
        }
        if seq_starts_with(path, "/v1/feedback"@) {
            lemma_prefix_char(path, "/v1/feedback"@, 1);
        }
        if seq_starts_with(path, "/v1/"@) {
            lemma_prefix_char(path, "/v1/"@, 1);
        }
    }
}

/// A device identifier is usable exactly when it has 1 to 128 characters,
/// each an ASCII letter or digit or one of `-`, `_`, `.`, `:`.
pub proof fn lemma_identity_chars(s: Seq<char>)
    ensures
        valid_identity_spec(s) <==> 1 <= s.len() <= 128 && forall|i: int|
            0 <= i < s.len() ==> ({
                let c = #[trigger] s[i];
                ('a' <= c <= 'z') || ('A' <= c <= 'Z') || ('0' <= c <= '9') || c == '-' || c == '_' || c == '.'
                    || c == ':'
            }),
{
}

/// The identities a request is counted under: a usable device identifier
/// gives "device:" and 16 hex digits of its hash; without one, a bearer
/// token (after "Bearer ") gives "session:" and 16 hex digits of its hash; a
/// known client address comes last as "ip:" and the address; with none of
/// these the request is "unidentified". Raw identifiers never appear.
pub proof fn lemma_identities(
    device_id: Option<Seq<char>>,
    authorization: Option<Seq<char>>,
    client_ip: Option<Seq<char>>,
)
    ensures
        ({
            let ids = identities_spec(device_id, authorization, client_ip);
            let device = device_id matches Some(d) && valid_identity_spec(d);
            let token = !device && (authorization matches Some(a) && seq_starts_with(a, "Bearer "@) && a.len() > 7);
            &&& device ==> ids[0] == "device:"@ + hex_fixed(stable_hash_spec(device_id->0) as nat, 16)
            &&& token ==> ids[0] == "session:"@ + hex_fixed(stable_hash_spec(authorization->0.skip(7)) as nat, 16)
            &&& client_ip matches Some(ip) ==> ids.last() == "ip:"@ + ip
            &&& ids.len() == if !device && !token && client_ip is None {
                1
            } else {
                (if device || token { 1int } else { 0int }) + (if client_ip is Some { 1int } else { 0int })
            }
            &&& !device && !token && client_ip is None ==> ids == seq!["unidentified"@]
        }),
{
}

} // verus!
