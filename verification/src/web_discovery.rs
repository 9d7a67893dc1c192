//! Controlled web discovery: source tiers for evidence hosts, the host
//! whitelist, search queries and hits, and the providers that answer them.
//!
//! Chat completions are not web search; only an independent search provider
//! may produce web evidence rows.
use sha2::{Digest, Sha256};
use vstd::prelude::*;
use crate::ai_error::AiError;
use crate::ai_types::{copy_strings, first_occurrences, lemma_first_occurrences, views};
use crate::num::{dec, hex_fixed, push_dec, push_hex_fixed};
use crate::text::{
    ascii_lower, chars_end_with, chars_equal, chars_of, extend_chars, lower_chars, owned,
    seq_ends_with, string_from_chars, trim, trim_chars,
};

verus! {

/// Source tier for ranking web evidence (never Steam authority).
#[derive(Debug, Clone, Copy, PartialEq, Eq, Structural)]
pub enum SourceTier {
    Official,
    Developer,
    Community,
    Unknown,
}

pub open spec fn tier_name(t: SourceTier) -> Seq<char> {
    match t {
        SourceTier::Official => "official"@,
        SourceTier::Developer => "developer"@,
        SourceTier::Community => "community"@,
        SourceTier::Unknown => "unknown"@,
    }
}

/// `host` is `pattern` (trimmed, ASCII lower-cased) or a subdomain of it.
pub open spec fn host_matches_spec(host: Seq<char>, pattern: Seq<char>) -> bool {
    let p = ascii_lower(trim(pattern));
    host == p || seq_ends_with(host, seq!['.'] + p)
}

/// Some pattern of `patterns` matches `host`.
pub open spec fn any_matches(host: Seq<char>, patterns: Seq<Seq<char>>) -> bool {
    exists|i: int| 0 <= i < patterns.len() && host_matches_spec(host, #[trigger] patterns[i])
}

/// `host` is `pattern` (trimmed, ASCII lower-cased) or a subdomain of it.
pub fn host_matches(host: &[char], pattern: &str) -> (r: bool)
    ensures
        r == host_matches_spec(host@, pattern@),
{
    let p = chars_of(pattern);
    let t = trim_chars(p.as_slice());
    let lowered = lower_chars(t.as_slice());
    if chars_equal(host, lowered.as_slice()) {
        return true;
    }
    let mut dotted: Vec<char> = Vec::new();
    dotted.push('.');
    extend_chars(&mut dotted, lowered.as_slice());
    assert(dotted@ =~= seq!['.'] + ascii_lower(trim(pattern@)));
    chars_end_with(host, dotted.as_slice())
}

fn matches_any(host: &[char], patterns: &Vec<String>) -> (r: bool)
    ensures
        r == any_matches(host@, views(patterns@)),
{
    let mut i: usize = 0;
    while i < patterns.len()
        invariant
            i <= patterns@.len(),
            forall|k: int| 0 <= k < i ==> !host_matches_spec(host@, #[trigger] views(patterns@)[k]),
        decreases patterns@.len() - i,
    {
        if host_matches(host, patterns[i].as_str()) {
            assert(host_matches_spec(host@, views(patterns@)[i as int]));
            return true;
        }
        i = i + 1;
    }
    false
}

/// `v` without repeated entries, first occurrences kept in order.
fn dedupe_strings(v: Vec<String>) -> (r: Vec<String>)
    ensures
        views(r@) == first_occurrences(views(v@)),
{
    let ghost vv = views(v@);
    let mut out: Vec<String> = Vec::new();
    let mut i: usize = 0;
    while i < v.len()
        invariant
            i <= v@.len(),
            vv == views(v@),
            views(out@) == first_occurrences(vv.take(i as int)),
        decreases v@.len() - i,
    {
        assert(vv.take(i as int + 1).drop_last() =~= vv.take(i as int));
        assert(vv.take(i as int + 1).last() == v@[i as int]@);
        let mut found = false;
        let mut j: usize = 0;
        while j < out.len()
            invariant
                j <= out@.len(),
                !found ==> forall|k: int| 0 <= k < j ==> (#[trigger] out@[k])@ != v@[i as int]@,
                found ==> views(out@).contains(v@[i as int]@),
                i < v@.len(),
            decreases out@.len() - j,
        {
            if crate::text::str_eq(out[j].as_str(), v[i].as_str()) {
                assert(views(out@)[j as int] == v@[i as int]@);
                found = true;
            }
            j = j + 1;
        }
        if !found {
            assert(!views(out@).contains(v@[i as int]@)) by {
                if views(out@).contains(v@[i as int]@) {
                    let k = choose|k: int| 0 <= k < views(out@).len() && views(out@)[k] == v@[i as int]@;
                    assert(out@[k]@ == v@[i as int]@);
                }
            }
            let ghost before = out@;
            out.push(v[i].clone());
            assert(views(out@) =~= views(before).push(v@[i as int]@));
        }
        i = i + 1;
    }
    assert(vv.take(v@.len() as int) =~= vv);
    out
}

/// The hosts trusted for web evidence, by tier; each list names a host once.
#[derive(Debug, PartialEq, Eq)]
pub struct SourceWhitelist {
    official: Vec<String>,
    developer: Vec<String>,
    community: Vec<String>,
}

impl SourceWhitelist {
    #[verifier::type_invariant]
    spec fn no_repeats(self) -> bool {
        &&& views(self.official@).no_duplicates()
        &&& views(self.developer@).no_duplicates()
        &&& views(self.community@).no_duplicates()
    }

    pub closed spec fn official_hosts(self) -> Seq<Seq<char>> {
        views(self.official@)
    }

    pub closed spec fn developer_hosts(self) -> Seq<Seq<char>> {
        views(self.developer@)
    }

    pub closed spec fn community_hosts(self) -> Seq<Seq<char>> {
        views(self.community@)
    }

    /// A whitelist from host lists; a host named twice in a list is kept once.
    pub fn new(official: Vec<String>, developer: Vec<String>, community: Vec<String>) -> (r: Self)
        ensures
            r.official_hosts() == first_occurrences(views(official@)),
            r.developer_hosts() == first_occurrences(views(developer@)),
            r.community_hosts() == first_occurrences(views(community@)),
    {
        let o = dedupe_strings(official);
        let d = dedupe_strings(developer);
        let c = dedupe_strings(community);
        proof {
            lemma_first_occurrences(views(official@));
            lemma_first_occurrences(views(developer@));
            lemma_first_occurrences(views(community@));
        }
        SourceWhitelist { official: o, developer: d, community: c }
    }

    /// The host lists, each naming a host at most once.
    pub fn official(&self) -> (r: &Vec<String>)
        ensures
            views(r@) == self.official_hosts(),
            views(r@).no_duplicates(),
    {
        proof {
            use_type_invariant(self);
        }
        &self.official
    }

    pub fn developer(&self) -> (r: &Vec<String>)
        ensures
            views(r@) == self.developer_hosts(),
            views(r@).no_duplicates(),
    {
        proof {
            use_type_invariant(self);
        }
        &self.developer
    }

    pub fn community(&self) -> (r: &Vec<String>)
        ensures
            views(r@) == self.community_hosts(),
            views(r@).no_duplicates(),
    {
        proof {
            use_type_invariant(self);
        }
        &self.community
    }
}

impl Clone for SourceWhitelist {
    fn clone(&self) -> (r: Self)
        ensures
            r.official_hosts() == self.official_hosts(),
            r.developer_hosts() == self.developer_hosts(),
            r.community_hosts() == self.community_hosts(),
    {
        proof {
            use_type_invariant(self);
        }
        SourceWhitelist {
            official: copy_strings(&self.official),
            developer: copy_strings(&self.developer),
            community: copy_strings(&self.community),
        }
    }
}

impl Default for SourceWhitelist {
    /// Steam's own sites are official; PCGamingWiki, Wikipedia and GitHub are
    /// community sources; no developer sites.
    fn default() -> (r: Self)
        ensures
            r.official_hosts() == seq![
                "store.steampowered.com"@,
                "steamcommunity.com"@,
                "partner.steamgames.com"@,
            ],
            r.developer_hosts() == Seq::<Seq<char>>::empty(),
            r.community_hosts() == seq!["pcgamingwiki.com"@, "wikipedia.org"@, "github.com"@],
    {
        let mut official: Vec<String> = Vec::new();
        official.push(owned("store.steampowered.com"));
        official.push(owned("steamcommunity.com"));
        official.push(owned("partner.steamgames.com"));
        let mut community: Vec<String> = Vec::new();
        community.push(owned("pcgamingwiki.com"));
        community.push(owned("wikipedia.org"));
        community.push(owned("github.com"));
        proof {
            reveal_strlit("store.steampowered.com");
            reveal_strlit("steamcommunity.com");
            reveal_strlit("partner.steamgames.com");
            reveal_strlit("pcgamingwiki.com");
            reveal_strlit("wikipedia.org");
            reveal_strlit("github.com");
            assert(views(official@) =~= seq![
                "store.steampowered.com"@,
                "steamcommunity.com"@,
                "partner.steamgames.com"@,
            ]);
            assert(views(community@) =~= seq!["pcgamingwiki.com"@, "wikipedia.org"@, "github.com"@]);
            assert("store.steampowered.com"@.len() != "steamcommunity.com"@.len());
            assert("steamcommunity.com"@.len() != "partner.steamgames.com"@.len());
            assert("store.steampowered.com"@[1] != "partner.steamgames.com"@[1]);
            assert("pcgamingwiki.com"@.len() != "wikipedia.org"@.len());
            assert("pcgamingwiki.com"@.len() != "github.com"@.len());
            assert("wikipedia.org"@.len() != "github.com"@.len());
        }
        let developer: Vec<String> = Vec::new();
        assert(views(developer@) =~= Seq::<Seq<char>>::empty());
        SourceWhitelist { official, developer, community }
    }
}

/// The tier of a host (trimmed, ASCII lower-cased) under `w`.
pub open spec fn tier_of(host: Seq<char>, w: SourceWhitelist) -> SourceTier {
    let h = ascii_lower(trim(host));
    if any_matches(h, w.official_hosts()) {
        SourceTier::Official
    } else if any_matches(h, w.developer_hosts()) {
        SourceTier::Developer
    } else if any_matches(h, w.community_hosts()) {
        SourceTier::Community
    } else {
        SourceTier::Unknown
    }
}

/// `w` allows `host`: it has a known tier, or the host as given matches one of
/// the listed hosts.
pub open spec fn allows_spec(w: SourceWhitelist, host: Seq<char>) -> bool {
    ||| tier_of(host, w) != SourceTier::Unknown
    ||| any_matches(host, w.community_hosts())
    ||| any_matches(host, w.official_hosts())
    ||| any_matches(host, w.developer_hosts())
}

proof fn lemma_trim_start_keeps_suffix(s: Seq<char>, suffix: Seq<char>)
    requires
        seq_ends_with(s, suffix),
        suffix.len() > 0,
        !crate::text::is_ws(suffix[0]),
    ensures
        seq_ends_with(crate::text::trim_start(s), suffix),
    decreases s.len(),
{
    if s.len() > 0 && crate::text::is_ws(s[0]) {
        if s.len() == suffix.len() {
            assert(s.subrange(0, s.len() as int) =~= s);
            assert(s[0] == suffix[0]);
        } else {
            let t = s.drop_first();
            assert(t.subrange(t.len() - suffix.len(), t.len() as int) =~= s.subrange(
                s.len() - suffix.len(),
                s.len() as int,
            ));
            lemma_trim_start_keeps_suffix(t, suffix);
        }
    }
}

proof fn lemma_trim_keeps_suffix(s: Seq<char>, suffix: Seq<char>)
    requires
        seq_ends_with(s, suffix),
        suffix.len() > 0,
        !crate::text::is_ws(suffix[0]),
        !crate::text::is_ws(suffix.last()),
    ensures
        seq_ends_with(trim(s), suffix),
{
    lemma_trim_start_keeps_suffix(s, suffix);
    let t = crate::text::trim_start(s);
    assert(t.last() == t.subrange(t.len() - suffix.len(), t.len() as int)[suffix.len() - 1]);
    assert(!crate::text::is_ws(t.last()));
    assert(trim(s) == t);
}

proof fn lemma_lower_char_keeps_non_ws(c: char)
    ensures
        !crate::text::is_ws(c) ==> !crate::text::is_ws(crate::text::lower_char(c)),
        crate::text::lower_char(crate::text::lower_char(c)) == crate::text::lower_char(c),
{
}

proof fn lemma_lower_keeps_suffix(s: Seq<char>, suffix: Seq<char>)
    requires
        seq_ends_with(s, suffix),
    ensures
        seq_ends_with(ascii_lower(s), ascii_lower(suffix)),
{
    assert(ascii_lower(s).subrange(s.len() - suffix.len(), s.len() as int) =~= ascii_lower(
        s.subrange(s.len() - suffix.len(), s.len() as int),
    ));
}

/// The pattern form `host_matches_spec` compares with: trimmed and lower-cased,
/// it is lower-case and has no whitespace at either end.
proof fn lemma_pattern_shape(p: Seq<char>)
    ensures
        ascii_lower(ascii_lower(trim(p))) == ascii_lower(trim(p)),
        ascii_lower(trim(p)).len() > 0 ==> !crate::text::is_ws(ascii_lower(trim(p))[0]) && !crate::text::is_ws(
            ascii_lower(trim(p)).last(),
        ),
{
    let t = trim(p);
    let q = ascii_lower(t);
    assert forall|i: int| 0 <= i < q.len() implies #[trigger] ascii_lower(q)[i] == q[i] by {
        lemma_lower_char_keeps_non_ws(t[i]);
    }
    assert(ascii_lower(q) =~= q);
    if q.len() > 0 {
        crate::text::lemma_trim_edges(p);
        lemma_lower_char_keeps_non_ws(t[0]);
        lemma_lower_char_keeps_non_ws(t.last());
    }
}

/// A host that matches a pattern as given also matches it once trimmed and
/// lower-cased.
proof fn lemma_raw_match_normalized(raw: Seq<char>, p: Seq<char>)
    requires
        host_matches_spec(raw, p),
    ensures
        host_matches_spec(ascii_lower(trim(raw)), p),
{
    let q = ascii_lower(trim(p));
    lemma_pattern_shape(p);
    if raw == q {
        assert(crate::text::trim_start(raw) == raw);
        assert(crate::text::trim_end(raw) == raw);
        assert(trim(raw) == raw);
        assert(ascii_lower(raw) == ascii_lower(q));
    } else {
        let suffix = seq!['.'] + q;
        assert(suffix[0] == '.');
        assert(suffix.last() == if q.len() > 0 { q.last() } else { '.' });
        lemma_trim_keeps_suffix(raw, suffix);
        lemma_lower_keeps_suffix(trim(raw), suffix);
        assert(ascii_lower(suffix) =~= seq!['.'] + ascii_lower(q));
    }
}

/// A whitelist allows exactly the hosts it gives a known tier: the matches on
/// the host as given, which `allows` also accepts, add no host.
pub proof fn lemma_allows_is_known_tier(w: SourceWhitelist, host: Seq<char>)
    ensures
        allows_spec(w, host) == (tier_of(host, w) != SourceTier::Unknown),
{
    let h = ascii_lower(trim(host));
    if any_matches(host, w.community_hosts()) {
        let i = choose|i: int| 0 <= i < w.community_hosts().len() && host_matches_spec(host, #[trigger] w.community_hosts()[i]);
        lemma_raw_match_normalized(host, w.community_hosts()[i]);
        assert(any_matches(h, w.community_hosts()));
    }
    if any_matches(host, w.official_hosts()) {
        let i = choose|i: int| 0 <= i < w.official_hosts().len() && host_matches_spec(host, #[trigger] w.official_hosts()[i]);
        lemma_raw_match_normalized(host, w.official_hosts()[i]);
        assert(any_matches(h, w.official_hosts()));
    }
    if any_matches(host, w.developer_hosts()) {
        let i = choose|i: int| 0 <= i < w.developer_hosts().len() && host_matches_spec(host, #[trigger] w.developer_hosts()[i]);
        lemma_raw_match_normalized(host, w.developer_hosts()[i]);
        assert(any_matches(h, w.developer_hosts()));
    }
}

/// A listed host (trimmed and lower-cased) matches itself and every
/// subdomain of it, and no other host that merely ends with its name: a host
/// where the listed name follows anything but a dot does not match.
pub proof fn lemma_host_match_rules(pattern: Seq<char>, sub: Seq<char>)
    requires
        ascii_lower(trim(pattern)) == pattern,
    ensures
        host_matches_spec(pattern, pattern),
        host_matches_spec(sub + seq!['.'] + pattern, pattern),
        sub.len() > 0 && sub.last() != '.' ==> !host_matches_spec(sub + pattern, pattern),
{
    let h = sub + seq!['.'] + pattern;
    let d = seq!['.'] + pattern;
    assert(h.subrange(h.len() - d.len(), h.len() as int) =~= d);
    if sub.len() > 0 && sub.last() != '.' {
        let g = sub + pattern;
        assert(g.len() != pattern.len());
        if seq_ends_with(g, d) {
            let k = g.len() - d.len();
            assert(g.subrange(k, g.len() as int)[0] == '.');
            assert(g[k] == sub[sub.len() - 1]);
        }
    }
}

impl SourceTier {
    pub fn as_str(self) -> (r: &'static str)
        ensures
            r@ == tier_name(self),
    {
        match self {
            SourceTier::Official => "official",
            SourceTier::Developer => "developer",
            SourceTier::Community => "community",
            SourceTier::Unknown => "unknown",
        }
    }

    /// The tier of `host` under `whitelist`: the first of official, developer
    /// and community whose hosts match it, else unknown.
    pub fn from_host(host: &str, whitelist: &SourceWhitelist) -> (r: SourceTier)
        ensures
            r == tier_of(host@, *whitelist),
    {
        let raw = chars_of(host);
        let t = trim_chars(raw.as_slice());
        let h = lower_chars(t.as_slice());
        if matches_any(h.as_slice(), whitelist.official()) {
            return SourceTier::Official;
        }
        if matches_any(h.as_slice(), whitelist.developer()) {
            return SourceTier::Developer;
        }
        if matches_any(h.as_slice(), whitelist.community()) {
            return SourceTier::Community;
        }
        SourceTier::Unknown
    }
}

impl SourceWhitelist {
    /// The whitelist accepts evidence from `host`.
    pub fn allows(&self, host: &str) -> (r: bool)
        ensures
            r == allows_spec(*self, host@),
    {
        let raw = chars_of(host);
        match SourceTier::from_host(host, self) {
            SourceTier::Unknown => {},
            _ => {
                return true;
            },
        }
        matches_any(raw.as_slice(), self.community()) || matches_any(
            raw.as_slice(),
            self.official(),
        ) || matches_any(raw.as_slice(), self.developer())
    }
}

#[derive(Debug, Clone, PartialEq, Eq)]
pub struct WebSearchQuery {
    pub query: String,
    pub app_id: Option<u32>,
    pub game_name: Option<String>,
    pub missing_features: Vec<String>,
    pub limit: u8,
}

#[derive(Debug, Clone, PartialEq, Eq)]
pub struct WebSearchHit {
    pub url: String,
    pub host: String,
    pub title: String,
    pub snippet: String,
    pub source_tier: SourceTier,
    pub content_hash: String,
    pub fetched_at_ms: i64,
}

/// The texts and values of a hit.
pub open spec fn hit_view(h: WebSearchHit) -> (Seq<char>, Seq<char>, Seq<char>, Seq<char>, SourceTier, Seq<char>, i64) {
    (h.url@, h.host@, h.title@, h.snippet@, h.source_tier, h.content_hash@, h.fetched_at_ms)
}

fn copy_hit(h: &WebSearchHit) -> (r: WebSearchHit)
    ensures
        hit_view(r) == hit_view(*h),
{
    WebSearchHit {
        url: h.url.clone(),
        host: h.host.clone(),
        title: h.title.clone(),
        snippet: h.snippet.clone(),
        source_tier: h.source_tier,
        content_hash: h.content_hash.clone(),
        fetched_at_ms: h.fetched_at_ms,
    }
}

/// A web search provider.
pub trait WebSearchProvider {
    fn name(&self) -> &str;

    fn is_available(&self) -> bool;

    fn search(&self, query: &WebSearchQuery) -> Result<Vec<WebSearchHit>, AiError>;
}

/// Always-off provider, the default until a search key is configured.
#[derive(Debug, Default, Clone)]
pub struct DisabledWebSearchProvider;

impl WebSearchProvider for DisabledWebSearchProvider {
    fn name(&self) -> (r: &str)
        ensures
            r@ == "disabled"@,
    {
        "disabled"
    }

    fn is_available(&self) -> (r: bool)
        ensures
            !r,
    {
        false
    }

    fn search(&self, _query: &WebSearchQuery) -> (r: Result<Vec<WebSearchHit>, AiError>)
        ensures
            r matches Err(e) && e == AiError::Disabled,
    {
        Err(AiError::Disabled)
    }
}

/// How many of `available` hits a search with `limit` returns: at least one
/// is asked for.
pub open spec fn search_count(limit: u8, available: nat) -> int {
    let wanted: int = if limit < 1 {
        1
    } else {
        limit as int
    };
    if wanted < available {
        wanted
    } else {
        available as int
    }
}

/// Deterministic provider for tests: answers every query with the first
/// hits of a fixed list.
#[derive(Debug, Clone)]
pub struct FakeWebSearchProvider {
    pub hits: Vec<WebSearchHit>,
    pub available: bool,
}

impl Default for FakeWebSearchProvider {
    fn default() -> (r: Self)
        ensures
            r.hits@.len() == 0,
            r.available,
    {
        FakeWebSearchProvider { hits: Vec::new(), available: true }
    }
}

impl WebSearchProvider for FakeWebSearchProvider {
    fn name(&self) -> (r: &str)
        ensures
            r@ == "fake_web"@,
    {
        "fake_web"
    }

    fn is_available(&self) -> (r: bool)
        ensures
            r == self.available,
    {
        self.available
    }

    /// The first `max(limit, 1)` hits, or `Disabled` when unavailable.
    fn search(&self, query: &WebSearchQuery) -> (r: Result<Vec<WebSearchHit>, AiError>)
        ensures
            !self.available ==> (r matches Err(e) && e == AiError::Disabled),
            self.available ==> (r matches Ok(v) && v@.map_values(|h: WebSearchHit| hit_view(h))
                == self.hits@.take(search_count(query.limit, self.hits@.len())).map_values(
                |h: WebSearchHit| hit_view(h),
            )),
    {
        if !self.available {
            return Err(AiError::Disabled);
        }
        let limit: usize = if query.limit < 1 {
            1
        } else {
            query.limit as usize
        };
        let n = if limit < self.hits.len() {
            limit
        } else {
            self.hits.len()
        };
        let mut out: Vec<WebSearchHit> = Vec::new();
        let mut i: usize = 0;
        while i < n
            invariant
                i <= n,
                n <= self.hits@.len(),
                out@.len() == i,
                forall|k: int| 0 <= k < i ==> hit_view(#[trigger] out@[k]) == hit_view(self.hits@[k]),
            decreases n - i,
        {
            out.push(copy_hit(&self.hits[i]));
            i = i + 1;
        }
        proof {
            assert(out@.map_values(|h: WebSearchHit| hit_view(h)) =~= self.hits@.take(
                search_count(query.limit, self.hits@.len()),
            ).map_values(|h: WebSearchHit| hit_view(h)));
        }
        Ok(out)
    }
}

/// The query text for a catalog gap: the game's name, `steam appid <id>`
/// and the missing features, separated by spaces.
pub open spec fn discovery_query_text(app_id: u32, game_name: Seq<char>, features: Seq<Seq<char>>) -> Seq<char>
    decreases features.len(),
{
    if features.len() == 0 {
        game_name + " steam appid "@ + dec(app_id as nat)
    } else {
        discovery_query_text(app_id, game_name, features.drop_last()) + " "@ + features.last()
    }
}

/// Build a controlled discovery query for a catalog gap.
pub fn discovery_query_for_app(app_id: u32, game_name: &str, missing_features: &[&str]) -> (r: WebSearchQuery)
    ensures
        r.query@ == discovery_query_text(
            app_id,
            game_name@,
            missing_features@.map_values(|s: &str| s@),
        ),
        r.app_id == Some(app_id),
        r.game_name matches Some(g) && g@ == game_name@,
        views(r.missing_features@) == missing_features@.map_values(|s: &str| s@),
        r.limit == 5,
{
    let ghost fv = missing_features@.map_values(|s: &str| s@);
    let mut text = chars_of(game_name);
    let mid = chars_of(" steam appid ");
    extend_chars(&mut text, mid.as_slice());
    push_dec(&mut text, app_id as u64);
    assert(text@ =~= discovery_query_text(app_id, game_name@, fv.take(0)));
    let mut features: Vec<String> = Vec::new();
    let mut i: usize = 0;
    while i < missing_features.len()
        invariant
            i <= missing_features@.len(),
            fv == missing_features@.map_values(|s: &str| s@),
            text@ == discovery_query_text(app_id, game_name@, fv.take(i as int)),
            views(features@) == fv.take(i as int),
        decreases missing_features@.len() - i,
    {
        assert(fv.take(i as int + 1).drop_last() =~= fv.take(i as int));
        text.push(' ');
        let f = chars_of(missing_features[i]);
        extend_chars(&mut text, f.as_slice());
        features.push(owned(missing_features[i]));
        proof {
            reveal_strlit(" ");
        }
        assert(text@ =~= discovery_query_text(app_id, game_name@, fv.take(i as int + 1)));
        assert(views(features@) =~= fv.take(i as int + 1));
        i = i + 1;
    }
    assert(fv.take(i as int) =~= fv);
    WebSearchQuery {
        query: string_from_chars(text.as_slice()),
        app_id: Some(app_id),
        game_name: Some(owned(game_name)),
        missing_features: features,
        limit: 5,
    }
}

/// The SHA-256 digest of `data`.
pub uninterp spec fn sha256(data: Seq<u8>) -> Seq<u8>;

/// `Sha256::digest` (sha2): the SHA-256 digest of `data`.
///
/// Trusted: the result is the digest the crate computes for these bytes,
/// named [`sha256`], and a SHA-256 digest is 32 bytes long.
#[verifier::external_body]
fn sha256_digest(data: &[u8]) -> (r: Vec<u8>)
    ensures
        r@ == sha256(data@),
        r@.len() == 32,
{
    Sha256::digest(data).to_vec()
}

/// Two lower-case hexadecimal digits for each byte.
pub open spec fn hex_bytes(bytes: Seq<u8>) -> Seq<char>
    decreases bytes.len(),
{
    if bytes.len() == 0 {
        Seq::empty()
    } else {
        hex_bytes(bytes.drop_last()) + hex_fixed(bytes.last() as nat, 2)
    }
}

/// Two lower-case hexadecimal digits for each byte.
pub fn hex_encode(bytes: &[u8]) -> (r: String)
    ensures
        r@ == hex_bytes(bytes@),
{
    let mut out: Vec<char> = Vec::new();
    let mut i: usize = 0;
    while i < bytes.len()
        invariant
            i <= bytes@.len(),
            out@ == hex_bytes(bytes@.take(i as int)),
        decreases bytes@.len() - i,
    {
        assert(bytes@.take(i as int + 1).drop_last() =~= bytes@.take(i as int));
        push_hex_fixed(&mut out, bytes[i] as u64, 2);
        i = i + 1;
    }
    assert(bytes@.take(i as int) =~= bytes@);
    string_from_chars(out.as_slice())
}

/// The bytes a content hash covers: URL, title and snippet, each followed but
/// the last by a zero byte.
pub open spec fn content_bytes(url: Seq<char>, title: Seq<char>, snippet: Seq<char>) -> Seq<u8> {
    vstd::utf8::encode_utf8(url) + seq![0u8] + vstd::utf8::encode_utf8(title) + seq![0u8]
        + vstd::utf8::encode_utf8(snippet)
}

/// The text form of a content digest: `sha256:` and its hexadecimal bytes.
pub open spec fn content_hash_text(digest: Seq<u8>) -> Seq<char> {
    "sha256:"@ + hex_bytes(digest)
}

/// The stable content hash of a hit, for dedupe and cache keys.
pub open spec fn content_hash_spec(url: Seq<char>, title: Seq<char>, snippet: Seq<char>) -> Seq<char> {
    content_hash_text(sha256(content_bytes(url, title, snippet)))
}

/// The text form of a content digest: `sha256:` and its hexadecimal bytes.
pub fn format_content_hash(digest: &[u8]) -> (r: String)
    ensures
        r@ == content_hash_text(digest@),
{
    let mut out = chars_of("sha256:");
    let h = hex_encode(digest);
    let hv = chars_of(h.as_str());
    extend_chars(&mut out, hv.as_slice());
    string_from_chars(out.as_slice())
}

fn extend_bytes(out: &mut Vec<u8>, bytes: &[u8])
    ensures
        final(out)@ == old(out)@ + bytes@,
{
    let mut i: usize = 0;
    while i < bytes.len()
        invariant
            i <= bytes@.len(),
            out@ == old(out)@ + bytes@.take(i as int),
        decreases bytes@.len() - i,
    {
        out.push(bytes[i]);
        assert(bytes@.take(i as int + 1) =~= bytes@.take(i as int).push(bytes@[i as int]));
        i = i + 1;
    }
    assert(bytes@.take(i as int) =~= bytes@);
}

/// A lower-case hexadecimal digit.
pub open spec fn is_lower_hex(c: char) -> bool {
    ('0' <= c && c <= '9') || ('a' <= c && c <= 'f')
}

proof fn lemma_hex_fixed_digits(n: nat, width: nat)
    ensures
        hex_fixed(n, width).len() == width,
        forall|i: int| 0 <= i < width ==> is_lower_hex(#[trigger] hex_fixed(n, width)[i]),
    decreases width,
{
    if width > 0 {
        lemma_hex_fixed_digits(n / 16, (width - 1) as nat);
        let d = n % 16;
        assert(is_lower_hex(crate::num::hex_char(d))) by {
            if d < 10 {
                assert(crate::num::hex_char(d) == crate::num::digit_char(d));
            }
        }
        let p = hex_fixed(n / 16, (width - 1) as nat);
        assert forall|i: int| 0 <= i < width implies is_lower_hex(#[trigger] hex_fixed(n, width)[i]) by {
            if i < width - 1 {
                assert(hex_fixed(n, width)[i] == p[i]);
            }
        }
    }
}

proof fn lemma_hex_bytes_digits(bytes: Seq<u8>)
    ensures
        hex_bytes(bytes).len() == 2 * bytes.len(),
        forall|i: int| 0 <= i < hex_bytes(bytes).len() ==> is_lower_hex(#[trigger] hex_bytes(bytes)[i]),
    decreases bytes.len(),
{
    if bytes.len() > 0 {
        let p = hex_bytes(bytes.drop_last());
        let q = hex_fixed(bytes.last() as nat, 2);
        lemma_hex_bytes_digits(bytes.drop_last());
        lemma_hex_fixed_digits(bytes.last() as nat, 2);
        assert forall|i: int| 0 <= i < hex_bytes(bytes).len() implies is_lower_hex(#[trigger] hex_bytes(bytes)[i]) by {
            if i < p.len() {
                assert(hex_bytes(bytes)[i] == p[i]);
            } else {
                assert(hex_bytes(bytes)[i] == q[i - p.len()]);
            }
        }
    }
}

/// The text form of a 32-byte digest is `sha256:` followed by 64 lower-case
/// hexadecimal digits, 71 characters in all.
pub proof fn lemma_content_hash_shape(digest: Seq<u8>)
    requires
        digest.len() == 32,
    ensures
        content_hash_text(digest).len() == 71,
        content_hash_text(digest).subrange(0, 7) == "sha256:"@,
        forall|i: int| 7 <= i < 71 ==> is_lower_hex(#[trigger] content_hash_text(digest)[i]),
{
    reveal_strlit("sha256:");
    lemma_hex_bytes_digits(digest);
    let h = hex_bytes(digest);
    assert(content_hash_text(digest).subrange(0, 7) =~= "sha256:"@);
    assert forall|i: int| 7 <= i < 71 implies is_lower_hex(#[trigger] content_hash_text(digest)[i]) by {
        assert(content_hash_text(digest)[i] == h[i - 7]);
    }
}

/// Build a stable content hash for dedupe and cache keys: `sha256:` and 64
/// lower-case hexadecimal digits.
pub fn web_content_hash(url: &str, title: &str, snippet: &str) -> (r: String)
    ensures
        r@ == content_hash_spec(url@, title@, snippet@),
        r@.len() == 71,
        r@.subrange(0, 7) == "sha256:"@,
        forall|i: int| 7 <= i < 71 ==> is_lower_hex(#[trigger] r@[i]),
{
    let mut data: Vec<u8> = Vec::new();
    extend_bytes(&mut data, url.as_bytes());
    data.push(0);
    extend_bytes(&mut data, title.as_bytes());
    data.push(0);
    extend_bytes(&mut data, snippet.as_bytes());
    assert(data@ =~= content_bytes(url@, title@, snippet@));
    let digest = sha256_digest(data.as_slice());
    proof {
        lemma_content_hash_shape(digest@);
    }
    format_content_hash(digest.as_slice())
}

/// What the URL parser makes of a text: scheme, user name, whether a password
/// is present, the host, whether a query and a fragment are present, and the
/// URL's serialization; or the parser's error message.
pub uninterp spec fn url_parse(s: Seq<char>) -> Result<(Seq<char>, Seq<char>, bool, Option<Seq<char>>, bool, bool, Seq<char>), Seq<char>>;

/// The view of an optional string.
pub open spec fn opt_view(s: Option<String>) -> Option<Seq<char>> {
    match s {
        Some(v) => Some(v@),
        None => None,
    }
}

/// The parts of a parsed URL: scheme, user name, password present, host,
/// query present, fragment present, serialization.
pub type UrlParts = (String, String, bool, Option<String>, bool, bool, String);

/// The views of parsed URL parts.
pub open spec fn url_parts_view(p: UrlParts) -> (Seq<char>, Seq<char>, bool, Option<Seq<char>>, bool, bool, Seq<char>) {
    (p.0@, p.1@, p.2, opt_view(p.3), p.4, p.5, p.6@)
}

/// `Url::parse` (url crate), reduced to the parts the library reads.
///
/// Trusted: the result is what the crate's parser gives for the text, named
/// [`url_parse`]; on failure, the parser error's display text.
#[verifier::external_body]
pub(crate) fn parse_url(s: &str) -> (r: Result<UrlParts, String>)
    ensures
        match r {
            Ok(p) => url_parse(s@) == Ok::<(Seq<char>, Seq<char>, bool, Option<Seq<char>>, bool, bool, Seq<char>), Seq<char>>(url_parts_view(p)),
            Err(m) => url_parse(s@) == Err::<(Seq<char>, Seq<char>, bool, Option<Seq<char>>, bool, bool, Seq<char>), Seq<char>>(m@),
        },
{
    match url::Url::parse(s) {
        Ok(u) => Ok((
            u.scheme().to_string(),
            u.username().to_string(),
            u.password().is_some(),
            u.host_str().map(str::to_string),
            u.query().is_some(),
            u.fragment().is_some(),
            u.as_str().to_string(),
        )),
        Err(e) => Err(e.to_string()),
    }
}

/// The evidence host of a parsed URL: http(s) only, no credentials, a host
/// required; the host ASCII lower-cased. Errors are the messages.
pub open spec fn host_result(p: Result<(Seq<char>, Seq<char>, bool, Option<Seq<char>>, bool, bool, Seq<char>), Seq<char>>) -> Result<Seq<char>, Seq<char>> {
    match p {
        Err(m) => Err("invalid web URL: "@ + m),
        Ok((scheme, user, has_password, host, _, _, _)) => if scheme != "https"@ && scheme != "http"@ {
            Err("web evidence URL must be http(s)"@)
        } else if user.len() > 0 || has_password {
            Err("web evidence URL must not contain credentials"@)
        } else {
            match host {
                None => Err("web evidence URL missing host"@),
                Some(h) => Ok(ascii_lower(h)),
            }
        },
    }
}

/// The evidence host of a parsed URL (see [`host_result`]).
pub fn host_from_parts(parsed: Result<UrlParts, String>) -> (r: Result<String, AiError>)
    ensures
        match host_result(
            match parsed {
                Ok(p) => Ok(url_parts_view(p)),
                Err(m) => Err(m@),
            },
        ) {
            Ok(h) => r matches Ok(s) && s@ == h,
            Err(m) => r matches Err(e) && e matches AiError::InvalidOutput(msg) && msg@ == m,
        },
{
    match parsed {
        Err(m) => Err(AiError::InvalidOutput(crate::text::concat("invalid web URL: ", m.as_str()))),
        Ok((scheme, user, has_password, host, _, _, _)) => {
            let s = scheme.as_str();
            if !crate::text::str_eq(s, "https") && !crate::text::str_eq(s, "http") {
                return Err(AiError::InvalidOutput(owned("web evidence URL must be http(s)")));
            }
            if user.as_str().is_empty() == false || has_password {
                return Err(
                    AiError::InvalidOutput(owned("web evidence URL must not contain credentials")),
                );
            }
            match host {
                None => Err(AiError::InvalidOutput(owned("web evidence URL missing host"))),
                Some(h) => Ok(crate::text::to_ascii_lowercase(h.as_str())),
            }
        },
    }
}

/// The host of an absolute http(s) URL (surrounding whitespace ignored);
/// URLs with credentials are refused, for evidence storage safety.
pub fn host_from_url(raw: &str) -> (r: Result<String, AiError>)
    ensures
        match host_result(url_parse(trim(raw@))) {
            Ok(h) => r matches Ok(s) && s@ == h,
            Err(m) => r matches Err(e) && e matches AiError::InvalidOutput(msg) && msg@ == m,
        },
{
    let t = crate::text::trim_str(raw);
    let parsed = parse_url(t.as_str());
    host_from_parts(parsed)
}

/// The view of a normalized hit.
pub type HitView = (Seq<char>, Seq<char>, Seq<char>, Seq<char>, SourceTier, Seq<char>, i64);

/// Some hit of `out` has content hash `h`.
pub open spec fn has_hash(out: Seq<HitView>, h: Seq<char>) -> bool {
    exists|i: int| 0 <= i < out.len() && (#[trigger] out[i]).5 == h
}

/// The hits kept from raw `(url, title, snippet)` results: each URL must
/// yield an evidence host (else the whole batch fails with its message);
/// unless unknown hosts are allowed, hosts without a tier or not allowed by
/// the whitelist are dropped; hits whose content hash was already kept are
/// dropped; each kept hit gets its tier, hash and `now_ms`.
pub open spec fn normalized_hits(
    hits: Seq<(Seq<char>, Seq<char>, Seq<char>)>,
    w: SourceWhitelist,
    now_ms: i64,
    allow_unknown: bool,
) -> Result<Seq<HitView>, Seq<char>>
    decreases hits.len(),
{
    if hits.len() == 0 {
        Ok(Seq::empty())
    } else {
        match normalized_hits(hits.drop_last(), w, now_ms, allow_unknown) {
            Err(e) => Err(e),
            Ok(out) => {
                let (url, title, snippet) = hits.last();
                match host_result(url_parse(trim(url))) {
                    Err(m) => Err(m),
                    Ok(host) => {
                        let tier = tier_of(host, w);
                        let hash = content_hash_spec(url, title, snippet);
                        if (tier == SourceTier::Unknown && !allow_unknown) || (!allow_unknown
                            && !allows_spec(w, host)) || has_hash(out, hash) {
                            Ok(out)
                        } else {
                            Ok(out.push((url, host, title, snippet, tier, hash, now_ms)))
                        }
                    },
                }
            },
        }
    }
}

/// The views of raw `(url, title, snippet)` results.
pub open spec fn raw_views(hits: Seq<(String, String, String)>) -> Seq<(Seq<char>, Seq<char>, Seq<char>)> {
    hits.map_values(|h: (String, String, String)| (h.0@, h.1@, h.2@))
}

/// Filter raw `(url, title, snippet)` results to whitelisted hosts and attach
/// tiers and content hashes (see [`normalized_hits`]).
pub fn normalize_search_hits(
    hits: Vec<(String, String, String)>,
    whitelist: &SourceWhitelist,
    now_ms: i64,
    allow_unknown: bool,
) -> (r: Result<Vec<WebSearchHit>, AiError>)
    ensures
        match normalized_hits(raw_views(hits@), *whitelist, now_ms, allow_unknown) {
            Ok(v) => r matches Ok(out) && out@.map_values(|h: WebSearchHit| hit_view(h)) == v,
            Err(m) => r matches Err(e) && e matches AiError::InvalidOutput(msg) && msg@ == m,
        },
{
    let ghost hv = raw_views(hits@);
    let mut out: Vec<WebSearchHit> = Vec::new();
    let mut i: usize = 0;
    assert(hv.take(0) =~= Seq::<(Seq<char>, Seq<char>, Seq<char>)>::empty());
    assert(out@.map_values(|h: WebSearchHit| hit_view(h)) =~= Seq::<HitView>::empty());
    while i < hits.len()
        invariant
            i <= hits@.len(),
            hv == raw_views(hits@),
            normalized_hits(hv.take(i as int), *whitelist, now_ms, allow_unknown) == Ok::<
                Seq<HitView>,
                Seq<char>,
            >(out@.map_values(|h: WebSearchHit| hit_view(h))),
        decreases hits@.len() - i,
    {
        let ghost prev = out@.map_values(|h: WebSearchHit| hit_view(h));
        proof {
            assert(hv.take(i as int + 1).drop_last() =~= hv.take(i as int));
            assert(hv.take(i as int + 1).last() == hv[i as int]);
        }
        let (url, title, snippet) = (&hits[i].0, &hits[i].1, &hits[i].2);
        let host = match host_from_url(url.as_str()) {
            Ok(h) => h,
            Err(e) => {
                proof {
                    lemma_normalized_error_prefix(hv, i as int + 1, *whitelist, now_ms, allow_unknown);
                }
                return Err(e);
            },
        };
        let tier = SourceTier::from_host(host.as_str(), whitelist);
        let skip_unknown = match tier {
            SourceTier::Unknown => !allow_unknown,
            _ => false,
        };
        if skip_unknown || (!allow_unknown && !whitelist.allows(host.as_str())) {
            i = i + 1;
            continue;
        }
        let content_hash = web_content_hash(url.as_str(), title.as_str(), snippet.as_str());
        let mut seen = false;
        let mut j: usize = 0;
        while j < out.len()
            invariant
                j <= out@.len(),
                prev == out@.map_values(|h: WebSearchHit| hit_view(h)),
                seen == exists|k: int| 0 <= k < j && (#[trigger] prev[k]).5 == content_hash@,
            decreases out@.len() - j,
        {
            if crate::text::str_eq(out[j].content_hash.as_str(), content_hash.as_str()) {
                assert(prev[j as int].5 == content_hash@);
                seen = true;
            }
            j = j + 1;
        }
        if seen {
            i = i + 1;
            continue;
        }
        let hit = WebSearchHit {
            url: url.clone(),
            host,
            title: title.clone(),
            snippet: snippet.clone(),
            source_tier: tier,
            content_hash,
            fetched_at_ms: now_ms,
        };
        out.push(hit);
        assert(out@.map_values(|h: WebSearchHit| hit_view(h)) =~= prev.push(hit_view(hit)));
        i = i + 1;
    }
    proof {
        assert(hv.take(i as int) =~= hv);
    }
    Ok(out)
}

proof fn lemma_normalized_error_prefix(
    hits: Seq<(Seq<char>, Seq<char>, Seq<char>)>,
    n: int,
    w: SourceWhitelist,
    now_ms: i64,
    allow_unknown: bool,
)
    requires
        0 <= n <= hits.len(),
        normalized_hits(hits.take(n), w, now_ms, allow_unknown) is Err,
    ensures
        normalized_hits(hits, w, now_ms, allow_unknown) == normalized_hits(hits.take(n), w, now_ms, allow_unknown),
    decreases hits.len() - n,
{
    if n < hits.len() {
        assert(hits.take(n + 1).drop_last() =~= hits.take(n));
        lemma_normalized_error_prefix(hits, n + 1, w, now_ms, allow_unknown);
    } else {
        assert(hits.take(n) =~= hits);
    }
}

/// Normalized hits never repeat a content hash, each carries `now_ms` and the
/// tier of its host, and unless unknown hosts are allowed every kept host has
/// a tier and is allowed by the whitelist.
pub proof fn lemma_normalized_hits_safe(
    hits: Seq<(Seq<char>, Seq<char>, Seq<char>)>,
    w: SourceWhitelist,
    now_ms: i64,
    allow_unknown: bool,
)
    ensures
        normalized_hits(hits, w, now_ms, allow_unknown) matches Ok(out) ==> {
            &&& forall|i: int, j: int| 0 <= i < j < out.len() ==> (#[trigger] out[i]).5 != (#[trigger] out[j]).5
            &&& forall|i: int| 0 <= i < out.len() ==> (#[trigger] out[i]).6 == now_ms && out[i].4 == tier_of(out[i].1, w)
            &&& !allow_unknown ==> forall|i: int| 0 <= i < out.len() ==> (#[trigger] out[i]).4 != SourceTier::Unknown
                && allows_spec(w, out[i].1)
        },
    decreases hits.len(),
{
    if hits.len() > 0 {
        lemma_normalized_hits_safe(hits.drop_last(), w, now_ms, allow_unknown);
    }
}

/// A web result's URL yields an evidence host exactly when it parses, is
/// http or https, carries no user name or password and has a host; the host
/// is then lower-cased.
pub proof fn lemma_evidence_host_rules(
    p: Result<(Seq<char>, Seq<char>, bool, Option<Seq<char>>, bool, bool, Seq<char>), Seq<char>>,
)
    ensures
        host_result(p) is Ok <==> (p matches Ok((scheme, user, has_password, host, _, _, _)) && (scheme == "https"@
            || scheme == "http"@) && user.len() == 0 && !has_password && host is Some),
        host_result(p) matches Ok(h) ==> forall|i: int| 0 <= i < h.len() ==> !('A' <= #[trigger] h[i] <= 'Z'),
{
}

/// A search returns at least one hit when any is available, never more than
/// are available, and never more than asked for (a limit of zero asks for
/// one).
pub proof fn lemma_search_count(limit: u8, available: nat)
    ensures
        0 <= search_count(limit, available) <= available,
        search_count(limit, available) <= if limit < 1 { 1 } else { limit as int },
        available > 0 ==> search_count(limit, available) >= 1,
        available >= limit && limit >= 1 ==> search_count(limit, available) == limit,
{
}

} // verus!
