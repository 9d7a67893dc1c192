//! Cross-origin policy for the desktop webview: an exact-origin allowlist,
//! never `*`, and the validation of configured origins.
use vstd::prelude::*;
use crate::ai_types::views;
use crate::settings::{bool_error, env_bool, is_false_word, is_true_word, ConfigError};
use crate::text::{
    ascii_lower, chars_contain, chars_of, concat, find_chars, first_from, is_ws, is_ws_exec,
    nonempty_trimmed, owned, seq_contains, slice_range, split_char, split_once,
    split_trimmed_nonempty, str_eq,
};

verus! {

/// The origins allowed when none are configured.
pub open spec fn default_origins() -> Seq<Seq<char>> {
    seq!["http://tauri.localhost"@, "tauri://localhost"@, "http://localhost:5173"@]
}

/// A character that may stand in an HTTP header value.
pub open spec fn header_char_ok(c: char) -> bool {
    (c as u32 >= 32 && c as u32 != 127) || c == '\t'
}

/// `HeaderValue::from_str(s)` succeeds (http crate, through axum).
///
/// Trusted: the crate accepts a text exactly when every byte `b` of its UTF-8
/// encoding satisfies `b >= 32 && b != 127 || b == b'\t'`; the bytes that
/// encode a non-ASCII character are all `0x80` or above, so the test is
/// stated per character.
#[verifier::external_body]
fn is_header_value(s: &str) -> (r: bool)
    ensures
        r == (forall|i: int| 0 <= i < s@.len() ==> header_char_ok(#[trigger] s@[i])),
{
    axum::http::HeaderValue::from_str(s).is_ok()
}

/// Why a configured origin is refused, or `None` when it is a valid
/// `scheme://host[:port]` with no path, query or whitespace.
pub open spec fn origin_problem(o: Seq<char>) -> Option<Seq<char>> {
    if exists|i: int| 0 <= i < o.len() && is_ws(#[trigger] o[i]) {
        Some("must not contain whitespace"@)
    } else {
        match split_once(o, "://"@) {
            None => Some("must be scheme://host"@),
            Some((scheme, rest)) => if !(scheme == "http"@ || scheme == "https"@ || scheme
                == "tauri"@) {
                Some("scheme must be http, https, or tauri"@)
            } else if rest.len() == 0 {
                Some("host must not be empty"@)
            } else if rest.contains('/') {
                Some("must not contain a path"@)
            } else if !(forall|i: int| 0 <= i < o.len() ==> header_char_ok(#[trigger] o[i])) {
                Some("not a valid header value"@)
            } else {
                None
            },
        }
    }
}

/// The message reporting an invalid configured origin.
pub open spec fn origin_error(o: Seq<char>, reason: Seq<char>) -> Seq<char> {
    "MPGS_CORS_ALLOWED_ORIGINS entry '"@ + o + "' is invalid: "@ + reason
}

/// The error of the first invalid origin among `origins`.
pub open spec fn first_origin_error(origins: Seq<Seq<char>>) -> Option<Seq<char>>
    decreases origins.len(),
{
    if origins.len() == 0 {
        None
    } else {
        match first_origin_error(origins.drop_last()) {
            Some(e) => Some(e),
            None => match origin_problem(origins.last()) {
                Some(reason) => Some(origin_error(origins.last(), reason)),
                None => None,
            },
        }
    }
}

fn has_whitespace(v: &[char]) -> (r: bool)
    ensures
        r == exists|i: int| 0 <= i < v@.len() && is_ws(#[trigger] v@[i]),
{
    let mut i: usize = 0;
    while i < v.len()
        invariant
            i <= v@.len(),
            forall|k: int| 0 <= k < i ==> !is_ws(#[trigger] v@[k]),
        decreases v@.len() - i,
    {
        if is_ws_exec(v[i]) {
            return true;
        }
        i = i + 1;
    }
    false
}

fn invalid(origin: &str, reason: &str) -> (e: ConfigError)
    ensures
        e.message@ == origin_error(origin@, reason@),
{
    let head = concat("MPGS_CORS_ALLOWED_ORIGINS entry '", origin);
    let mid = concat(head.as_str(), "' is invalid: ");
    ConfigError { message: concat(mid.as_str(), reason) }
}

/// Reject origins that are not `scheme://host[:port]` with no path, query or
/// whitespace; the origin is echoed verbatim into a response header.
pub fn validate_origin(origin: &str) -> (r: Result<(), ConfigError>)
    ensures
        r is Ok <==> origin_problem(origin@) is None,
        r matches Err(e) ==> e.message@ == origin_error(origin@, origin_problem(origin@)->0),
{
    let v = chars_of(origin);
    if has_whitespace(v.as_slice()) {
        return Err(invalid(origin, "must not contain whitespace"));
    }
    let sep = chars_of("://");
    proof {
        reveal_strlit("://");
    }
    assert(sep@.len() == 3);
    let found = find_chars(v.as_slice(), sep.as_slice());
    match found {
        None => Err(invalid(origin, "must be scheme://host")),
        Some(i) => {
            let n = v.len();
            assert(i + 3 <= n);
            let start: usize = i + 3;
            let scheme = slice_range(v.as_slice(), 0, i);
            let rest = slice_range(v.as_slice(), start, n);
            assert(scheme@ =~= origin@.take(i as int));
            assert(rest@ =~= origin@.skip(i + 3));
            let http = chars_of("http");
            let https = chars_of("https");
            let tauri = chars_of("tauri");
            let known = crate::text::chars_equal(scheme.as_slice(), http.as_slice())
                || crate::text::chars_equal(scheme.as_slice(), https.as_slice())
                || crate::text::chars_equal(scheme.as_slice(), tauri.as_slice());
            if !known {
                return Err(invalid(origin, "scheme must be http, https, or tauri"));
            }
            if rest.len() == 0 {
                return Err(invalid(origin, "host must not be empty"));
            }
            let slash = chars_of("/");
            proof {
                reveal_strlit("/");
            }
            if chars_contain(rest.as_slice(), slash.as_slice()) {
                proof {
                    let k = choose|k: int| crate::text::occurs_at(rest@, slash@, k);
                    assert(rest@[k] == rest@.subrange(k, k + 1)[0]);
                }
                return Err(invalid(origin, "must not contain a path"));
            }
            proof {
                if rest@.contains('/') {
                    let k = choose|k: int| 0 <= k < rest@.len() && rest@[k] == '/';
                    assert(rest@.subrange(k, k + 1) =~= slash@);
                    assert(crate::text::occurs_at(rest@, slash@, k));
                }
            }
            if !is_header_value(origin) {
                return Err(invalid(origin, "not a valid header value"));
            }
            Ok(())
        },
    }
}

/// The exact-origin allowlist. Both fields are public, so that contracts can
/// speak of a policy switched off by assigning `enabled`.
#[derive(Debug, Clone, PartialEq, Eq)]
pub struct CorsConfig {
    pub enabled: bool,
    pub allowed_origins: Vec<String>,
}

impl CorsConfig {
    /// The policy is on.
    pub open spec fn is_enabled(self) -> bool {
        self.enabled
    }

    /// The allowed origins, in configured order.
    pub open spec fn origins(self) -> Seq<Seq<char>> {
        views(self.allowed_origins@)
    }

    /// Build from the values of `MPGS_CORS_ENABLED` and
    /// `MPGS_CORS_ALLOWED_ORIGINS` (comma-separated exact origins), each `None`
    /// when unset. A bad switch or an invalid origin is an error.
    pub fn from_env(enabled_raw: Option<&str>, origins_raw: Option<&str>) -> (r: Result<
        Self,
        ConfigError,
    >)
        ensures
            r is Ok <==> (enabled_raw matches Some(v) ==> is_true_word(ascii_lower(v@))
                || is_false_word(ascii_lower(v@))) && (origins_raw matches Some(raw)
                ==> first_origin_error(nonempty_trimmed(split_char(raw@, ','))) is None),
            r matches Ok(c) ==> c.is_enabled() == (match enabled_raw {
                None => true,
                Some(v) => is_true_word(ascii_lower(v@)),
            }) && c.origins() == match origins_raw {
                None => default_origins(),
                Some(raw) => nonempty_trimmed(split_char(raw@, ',')),
            },
            r matches Err(e) ==> e.message@ == if enabled_raw matches Some(v) && !(is_true_word(
                ascii_lower(v@),
            ) || is_false_word(ascii_lower(v@))) {
                bool_error("MPGS_CORS_ENABLED"@)
            } else {
                first_origin_error(nonempty_trimmed(split_char(origins_raw->0@, ',')))->0
            },
    {
        let enabled = match env_bool("MPGS_CORS_ENABLED", enabled_raw, true) {
            Ok(b) => b,
            Err(e) => {
                return Err(e);
            },
        };
        match origins_raw {
            None => {
                let mut c = Self::default();
                c.enabled = enabled;
                Ok(c)
            },
            Some(raw) => {
                let parts = split_trimmed_nonempty(raw, ',');
                let ghost ps = parts@.map_values(|p: String| p@);
                assert(ps == nonempty_trimmed(split_char(raw@, ',')));
                let mut i: usize = 0;
                while i < parts.len()
                    invariant
                        i <= parts@.len(),
                        ps == parts@.map_values(|p: String| p@),
                        first_origin_error(ps.take(i as int)) is None,
                        ps == nonempty_trimmed(split_char(raw@, ',')),
                        origins_raw == Some(raw),
                        enabled_raw matches Some(v) ==> is_true_word(ascii_lower(v@))
                            || is_false_word(ascii_lower(v@)),
                        enabled == match enabled_raw {
                            None => true,
                            Some(v) => is_true_word(ascii_lower(v@)),
                        },
                    decreases parts@.len() - i,
                {
                    assert(ps.take(i as int + 1).drop_last() =~= ps.take(i as int));
                    match validate_origin(parts[i].as_str()) {
                        Ok(()) => {},
                        Err(e) => {
                            proof {
                                assert(ps.take(i as int + 1).last() == ps[i as int]);
                                assert(ps[i as int] == parts@[i as int]@);
                                lemma_first_error_prefix(ps, i as int + 1);
                            }
                            return Err(e);
                        },
                    }
                    i = i + 1;
                }
                assert(ps.take(parts@.len() as int) =~= ps);
                let c = CorsConfig { enabled, allowed_origins: parts };
                assert(c.origins() =~= ps);
                Ok(c)
            },
        }
    }

    /// `origin` may call cross-origin: the policy is enabled and the origin is
    /// one of the allowed ones, exactly.
    pub fn allows(&self, origin: &str) -> (r: bool)
        ensures
            r == (self.is_enabled() && self.origins().contains(origin@)),
    {
        if !self.enabled {
            return false;
        }
        let mut i: usize = 0;
        while i < self.allowed_origins.len()
            invariant
                i <= self.allowed_origins@.len(),
                self.enabled,
                self.origins() == views(self.allowed_origins@),
                forall|k: int| 0 <= k < i ==> self.origins()[k] != origin@,
            decreases self.allowed_origins@.len() - i,
        {
            if str_eq(self.allowed_origins[i].as_str(), origin) {
                assert(self.origins()[i as int] == origin@);
                assert(self.origins().contains(origin@));
                return true;
            }
            i = i + 1;
        }
        false
    }
}

proof fn lemma_first_error_prefix(ps: Seq<Seq<char>>, n: int)
    requires
        0 <= n <= ps.len(),
        first_origin_error(ps.take(n)) is Some,
    ensures
        first_origin_error(ps) == first_origin_error(ps.take(n)),
    decreases ps.len() - n,
{
    if n < ps.len() {
        assert(ps.take(n + 1).drop_last() =~= ps.take(n));
        lemma_first_error_prefix(ps, n + 1);
    } else {
        assert(ps.take(n) =~= ps);
    }
}

impl Default for CorsConfig {
    /// Enabled, allowing the packaged webview origins and the dev server.
    fn default() -> (r: Self)
        ensures
            r.is_enabled(),
            r.origins() == default_origins(),
    {
        let mut allowed_origins: Vec<String> = Vec::new();
        allowed_origins.push(owned("http://tauri.localhost"));
        allowed_origins.push(owned("tauri://localhost"));
        allowed_origins.push(owned("http://localhost:5173"));
        let r = CorsConfig { enabled: true, allowed_origins };
        assert(r.origins() =~= default_origins());
        r
    }
}

/// A configured origin is accepted exactly when it holds no whitespace, is
/// `scheme://rest` with scheme "http", "https" or "tauri", a non-empty rest
/// without `/`, and every character can stand in a header (printable, or a
/// tab).
pub proof fn lemma_origin_rules(o: Seq<char>)
    ensures
        origin_problem(o) is None <==> {
            &&& forall|i: int| 0 <= i < o.len() ==> !is_ws(#[trigger] o[i])
            &&& split_once(o, "://"@) matches Some((scheme, rest)) && (scheme == "http"@ || scheme == "https"@
                || scheme == "tauri"@) && rest.len() > 0 && !rest.contains('/')
            &&& forall|i: int| 0 <= i < o.len() ==> ((#[trigger] o[i]) as u32 >= 32 && o[i] as u32 != 127) || o[i] == '\t'
        },
{
}

} // verus!
