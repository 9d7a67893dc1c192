//! Pure helpers of the HTTP API: request ids, feed page cursors, list
//! filters from query strings, feed query overrides of preferences and
//! content digests for entity tags.
use vstd::prelude::*;
use vstd::string::StringSliceAdditionalSpecFns;
use crate::ai_types::views;
use crate::domain::{
    preferences_problem, prefs_view, section_name, FeedSection, FeedbackType, PrefsView, UserPreferences,
};
use crate::num::{
    dec, dec_signed, hex, lemma_dec_signed_chars, lemma_dec_digits, lemma_parse_signed_dec,
    lemma_parse_unsigned_dec, parse_i64, parse_signed, parse_unsigned, parse_usize, push_dec,
    push_dec_signed, push_hex,
};
use crate::rate_limit::identity_char;
use crate::text::{
    ascii_lower, chars_equal, chars_of, concat, extend_chars, lemma_split_char_join,
    lemma_split_char_single, nonempty_trimmed, split_char, split_chars, split_trimmed_nonempty,
    ascii_upper, string_from_chars, to_ascii_lowercase, to_ascii_uppercase,
};

verus! {

/// An acceptable client-supplied request id: 1 to 64 ASCII letters, digits or
/// `-_.:` (all ASCII, so its byte length is its character count).
pub open spec fn valid_request_id_spec(s: Seq<char>) -> bool {
    &&& 0 < s.len() <= 64
    &&& forall|i: int| 0 <= i < s.len() ==> identity_char(#[trigger] s[i])
}

pub fn valid_request_id(value: &str) -> (r: bool)
    ensures
        r == valid_request_id_spec(value@),
{
    let v = chars_of(value);
    if v.len() == 0 || v.len() > 64 {
        return false;
    }
    let mut i: usize = 0;
    while i < v.len()
        invariant
            i <= v@.len(),
            v@ == value@,
            forall|k: int| 0 <= k < i ==> identity_char(#[trigger] v@[k]),
        decreases v@.len() - i,
    {
        let c = v[i];
        let ok = ('a' <= c && c <= 'z') || ('A' <= c && c <= 'Z') || ('0' <= c && c <= '9') || c
            == '-' || c == '_' || c == '.' || c == ':';
        if !ok {
            return false;
        }
        i = i + 1;
    }
    true
}

pub const FNV_OFFSET: u64 = 0xcbf29ce484222325;

pub const FNV_PRIME: u64 = 0x100000001b3;

/// The 64-bit FNV-1a digest of `bytes`.
pub open spec fn fnv1a(bytes: Seq<u8>) -> u64
    decreases bytes.len(),
{
    if bytes.len() == 0 {
        FNV_OFFSET
    } else {
        ((((fnv1a(bytes.drop_last()) ^ (bytes.last() as u64)) as nat) * (FNV_PRIME as nat))
            % 0x1_0000_0000_0000_0000) as u64
    }
}

/// The 64-bit FNV-1a digest of the UTF-8 bytes of `payload`.
pub fn hash64(payload: &str) -> (r: u64)
    ensures
        r == fnv1a(vstd::utf8::encode_utf8(payload@)),
{
    let bytes = payload.as_bytes();
    let mut hash: u64 = FNV_OFFSET;
    let mut i: usize = 0;
    while i < bytes.len()
        invariant
            i <= bytes@.len(),
            bytes@ == vstd::utf8::encode_utf8(payload@),
            hash == fnv1a(bytes@.take(i as int)),
        decreases bytes@.len() - i,
    {
        assert(bytes@.take(i as int + 1).drop_last() =~= bytes@.take(i as int));
        let b: u64 = bytes[i] as u64;
        hash = hash ^ b;
        hash = hash.wrapping_mul(FNV_PRIME);
        i = i + 1;
    }
    assert(bytes@.take(i as int) =~= bytes@);
    hash
}

/// The weak entity tag of a payload: `W/"<hex digest>"`.
pub open spec fn weak_etag_spec(payload: Seq<char>) -> Seq<char> {
    "W/\""@ + hex(fnv1a(vstd::utf8::encode_utf8(payload)) as nat) + "\""@
}

/// The weak entity tag of a payload, from its FNV-1a digest.
pub fn weak_etag(payload: &str) -> (r: String)
    ensures
        r@ == weak_etag_spec(payload@),
{
    let h = hash64(payload);
    let mut out = chars_of("W/\"");
    push_hex(&mut out, h);
    out.push('"');
    proof {
        reveal_strlit("\"");
    }
    let r = string_from_chars(out.as_slice());
    assert(r@ =~= weak_etag_spec(payload@));
    r
}

/// Why a cursor was refused: malformed, or issued for another snapshot or
/// preference context.
#[derive(Debug, Clone, Copy, PartialEq, Eq, Structural)]
pub enum CursorError {
    Invalid,
    Stale,
}

/// The text of a feed page cursor.
pub open spec fn cursor_text(
    section: FeedSection,
    snapshot_ms: i64,
    preference_context: Seq<char>,
    offset: usize,
) -> Seq<char> {
    "v1"@ + seq![':'] + section_name(section) + seq![':'] + dec_signed(snapshot_ms as int) + seq![
        ':',
    ] + preference_context + seq![':'] + dec(offset as nat)
}

/// Encode the position of a feed page: version, section, snapshot, preference
/// context and offset, separated by `:`.
pub fn encode_cursor(
    section: FeedSection,
    snapshot_ms: i64,
    preference_context: &str,
    offset: usize,
) -> (r: String)
    ensures
        r@ == cursor_text(section, snapshot_ms, preference_context@, offset),
{
    let mut out = chars_of("v1");
    out.push(':');
    let s = chars_of(section.as_str());
    extend_chars(&mut out, s.as_slice());
    out.push(':');
    push_dec_signed(&mut out, snapshot_ms);
    out.push(':');
    let c = chars_of(preference_context);
    extend_chars(&mut out, c.as_slice());
    out.push(':');
    push_dec(&mut out, offset as u64);
    let r = string_from_chars(out.as_slice());
    assert(r@ =~= cursor_text(section, snapshot_ms, preference_context@, offset));
    r
}

/// What decoding a cursor gives: offset 0 without a cursor; `Invalid` unless
/// it has exactly five `:`-separated parts with version `v1`, the expected
/// section, an `i64` snapshot and a `usize` offset; `Stale` when the snapshot
/// or preference context differ from the expected ones.
pub open spec fn decoded_cursor(
    cursor: Option<Seq<char>>,
    section: FeedSection,
    snapshot_ms: i64,
    preference_context: Seq<char>,
) -> Result<usize, CursorError> {
    match cursor {
        None => Ok(0),
        Some(c) => {
            let p = split_char(c, ':');
            if p.len() != 5 || p[0] != "v1"@ || p[1] != section_name(section) || parse_signed(
                p[2],
                i64::MIN as int,
                i64::MAX as int,
            ) is None || parse_unsigned(p[4], usize::MAX as nat) is None {
                Err(CursorError::Invalid)
            } else if parse_signed(p[2], i64::MIN as int, i64::MAX as int)->0 != snapshot_ms as int
                || p[3] != preference_context {
                Err(CursorError::Stale)
            } else {
                Ok(parse_unsigned(p[4], usize::MAX as nat)->0 as usize)
            }
        },
    }
}

/// Decode a feed page cursor (`None` when the request has none) against the
/// section, snapshot and preference context the page is served from.
pub fn decode_cursor(
    cursor: Option<&str>,
    expected_section: FeedSection,
    expected_snapshot_ms: i64,
    expected_preference_context: &str,
) -> (r: Result<usize, CursorError>)
    ensures
        r == decoded_cursor(
            match cursor {
                Some(c) => Some(c@),
                None => None,
            },
            expected_section,
            expected_snapshot_ms,
            expected_preference_context@,
        ),
{
    let c = match cursor {
        None => {
            return Ok(0);
        },
        Some(c) => c,
    };
    let chars = chars_of(c);
    let parts = split_chars(chars.as_slice(), ':');
    let ghost pv = parts@.map_values(|p: Vec<char>| p@);
    assert(pv == split_char(c@, ':'));
    if parts.len() != 5 {
        return Err(CursorError::Invalid);
    }
    assert(pv[0] == parts@[0]@ && pv[1] == parts@[1]@ && pv[2] == parts@[2]@ && pv[3]
        == parts@[3]@ && pv[4] == parts@[4]@);
    let v1 = chars_of("v1");
    let section = chars_of(expected_section.as_str());
    let snapshot_text = string_from_chars(parts[2].as_slice());
    let offset_text = string_from_chars(parts[4].as_slice());
    let snapshot = parse_i64(snapshot_text.as_str());
    let offset = parse_usize(offset_text.as_str());
    if !chars_equal(parts[0].as_slice(), v1.as_slice()) || !chars_equal(
        parts[1].as_slice(),
        section.as_slice(),
    ) || snapshot.is_none() || offset.is_none() {
        return Err(CursorError::Invalid);
    }
    let context = chars_of(expected_preference_context);
    let snapshot_value = match snapshot {
        Some(v) => v,
        None => 0,
    };
    if snapshot_value != expected_snapshot_ms || !chars_equal(
        parts[3].as_slice(),
        context.as_slice(),
    ) {
        return Err(CursorError::Stale);
    }
    match offset {
        Some(v) => Ok(v),
        None => Ok(0),
    }
}

/// A cursor decodes, against the context it was encoded for, to the offset
/// it was encoded with, provided the preference context holds no `:`.
pub proof fn lemma_cursor_roundtrip(
    section: FeedSection,
    snapshot_ms: i64,
    preference_context: Seq<char>,
    offset: usize,
)
    requires
        !preference_context.contains(':'),
    ensures
        decoded_cursor(
            Some(cursor_text(section, snapshot_ms, preference_context, offset)),
            section,
            snapshot_ms,
            preference_context,
        ) == Ok::<usize, CursorError>(offset),
{
    reveal_strlit("v1");
    reveal_strlit("recent_release");
    reveal_strlit("upcoming");
    reveal_strlit("popular_legacy");
    reveal_strlit("classic_legacy");
    let a = "v1"@;
    let b = section_name(section);
    let d = dec_signed(snapshot_ms as int);
    let e = preference_context;
    let f = dec(offset as nat);
    lemma_dec_signed_chars(snapshot_ms as int);
    lemma_dec_digits(offset as nat);
    assert(!a.contains(':')) by {
        if a.contains(':') {
            let k = choose|k: int| 0 <= k < a.len() && a[k] == ':';
        }
    }
    assert(!b.contains(':')) by {
        if b.contains(':') {
            let k = choose|k: int| 0 <= k < b.len() && b[k] == ':';
        }
    }
    assert(!d.contains(':')) by {
        if d.contains(':') {
            let k = choose|k: int| 0 <= k < d.len() && d[k] == ':';
        }
    }
    assert(!f.contains(':')) by {
        if f.contains(':') {
            let k = choose|k: int| 0 <= k < f.len() && f[k] == ':';
            assert(crate::num::is_digit(f[k]));
        }
    }
    lemma_split_char_single(a, ':');
    lemma_split_char_single(b, ':');
    lemma_split_char_single(d, ':');
    lemma_split_char_single(e, ':');
    lemma_split_char_single(f, ':');
    let de_f = d + seq![':'] + e + seq![':'] + f;
    let e_f = e + seq![':'] + f;
    lemma_split_char_join(e, f, ':');
    lemma_split_char_join(d, e_f, ':');
    assert(d + seq![':'] + e_f =~= de_f);
    let b_rest = b + seq![':'] + de_f;
    lemma_split_char_join(b, de_f, ':');
    lemma_split_char_join(a, b_rest, ':');
    let text = cursor_text(section, snapshot_ms, preference_context, offset);
    assert(a + seq![':'] + b_rest =~= text);
    let parts = split_char(text, ':');
    assert(parts =~= seq![a, b, d, e, f]);
    lemma_parse_signed_dec(snapshot_ms as int, i64::MIN as int, i64::MAX as int);
    lemma_parse_unsigned_dec(offset as nat, usize::MAX as nat);
}

/// The values of a comma-separated list filter: the trimmed, non-empty
/// pieces, ASCII lower-cased.
pub open spec fn csv_values(value: Seq<char>) -> Seq<Seq<char>> {
    lower_all(nonempty_trimmed(split_char(value, ',')))
}

/// Every text ASCII lower-cased.
pub open spec fn lower_all(ps: Seq<Seq<char>>) -> Seq<Seq<char>> {
    ps.map_values(|p: Seq<char>| ascii_lower(p))
}

/// A list filter is usable: 1 to 32 values of at most 64 bytes each.
pub open spec fn csv_ok(values: Seq<Seq<char>>) -> bool {
    &&& 0 < values.len() <= 32
    &&& forall|i: int|
        0 <= i < values.len() ==> vstd::utf8::encode_utf8(#[trigger] values[i]).len() <= 64
}

/// The message for an unusable list filter named `name`.
pub open spec fn csv_error(name: Seq<char>) -> Seq<char> {
    name + " must be a comma-separated list of 1 to 32 values"@
}

/// Parse a comma-separated list filter named `name` from a query string.
pub fn parse_csv_filter(name: &str, value: &str) -> (r: Result<Vec<String>, String>)
    ensures
        r is Ok <==> csv_ok(csv_values(value@)),
        r matches Ok(v) ==> views(v@) == csv_values(value@),
        r matches Err(msg) ==> msg@ == csv_error(name@),
{
    let pieces = split_trimmed_nonempty(value, ',');
    let ghost pv = pieces@.map_values(|p: String| p@);
    let mut values: Vec<String> = Vec::new();
    let mut i: usize = 0;
    while i < pieces.len()
        invariant
            i <= pieces@.len(),
            pv == pieces@.map_values(|p: String| p@),
            pv == nonempty_trimmed(split_char(value@, ',')),
            values@.len() == i,
            forall|k: int| 0 <= k < i ==> (#[trigger] values@[k])@ == ascii_lower(pv[k]),
        decreases pieces@.len() - i,
    {
        let lowered = to_ascii_lowercase(pieces[i].as_str());
        assert(pv[i as int] == pieces@[i as int]@);
        values.push(lowered);
        i = i + 1;
    }
    let ghost vv = views(values@);
    assert(vv =~= lower_all(pv));
    assert(vv == csv_values(value@));
    let err = concat(name, " must be a comma-separated list of 1 to 32 values");
    if values.len() == 0 || values.len() > 32 {
        return Err(err);
    }
    let mut j: usize = 0;
    while j < values.len()
        invariant
            j <= values@.len(),
            vv == views(values@),
            vv == csv_values(value@),
            0 < values@.len() <= 32,
            err@ == csv_error(name@),
            forall|k: int| 0 <= k < j ==> vstd::utf8::encode_utf8(#[trigger] vv[k]).len() <= 64,
        decreases values@.len() - j,
    {
        let item = values[j].as_str();
        let bytes = item.as_bytes().len();
        assert(vv[j as int] == values@[j as int]@);
        assert(item@ == vv[j as int]);
        assert(bytes == item.spec_bytes().len());
        if bytes > 64 {
            return Err(err);
        }
        j = j + 1;
    }
    Ok(values)
}


/// The query of a feed request.
#[derive(Debug, Clone)]
pub struct FeedQuery {
    pub limit: Option<i64>,
    pub cursor: Option<String>,
    pub party_size: Option<u8>,
    pub platforms: Option<String>,
    pub languages: Option<String>,
    pub session_minutes_min: Option<u32>,
    pub session_minutes_max: Option<u32>,
    pub max_price_minor: Option<i64>,
    pub currency: Option<String>,
    pub demo_only: Option<bool>,
}

/// The view of an optional string.
pub open spec fn opt_str_view(o: Option<String>) -> Option<Seq<char>> {
    match o {
        Some(s) => Some(s@),
        None => None,
    }
}

/// The preferences after a feed query's overrides, and the error the
/// request gets, if any: a list filter that does not parse stops there
/// (with the earlier overrides applied); otherwise the session bounds,
/// price cap and (upper-cased) currency are taken from the query and the
/// result must validate.
pub open spec fn feed_overrides_spec(v: PrefsView, q: FeedQuery) -> (PrefsView, Option<Seq<char>>) {
    let plat = opt_str_view(q.platforms);
    let lang = opt_str_view(q.languages);
    if plat matches Some(p) && !csv_ok(csv_values(p)) {
        (v, Some(csv_error("platforms"@)))
    } else {
        let v1 = match plat {
            Some(p) => PrefsView { platforms: csv_values(p), ..v },
            None => v,
        };
        if lang matches Some(l) && !csv_ok(csv_values(l)) {
            (v1, Some(csv_error("languages"@)))
        } else {
            let v2 = match lang {
                Some(l) => PrefsView { languages: csv_values(l), ..v1 },
                None => v1,
            };
            let v3 = PrefsView {
                session_minutes_min: match q.session_minutes_min {
                    Some(x) => x,
                    None => v2.session_minutes_min,
                },
                session_minutes_max: match q.session_minutes_max {
                    Some(x) => x,
                    None => v2.session_minutes_max,
                },
                budget_max_each_minor: match q.max_price_minor {
                    Some(x) => Some(x),
                    None => v2.budget_max_each_minor,
                },
                budget_currency: match opt_str_view(q.currency) {
                    Some(c) => ascii_upper(c),
                    None => v2.budget_currency,
                },
                ..v2
            };
            (v3, preferences_problem(v3))
        }
    }
}

/// Apply a feed query's filter overrides to the user's preferences and
/// check the result; the error is the message the request is refused with.
pub fn apply_feed_overrides(prefs: &mut UserPreferences, query: &FeedQuery) -> (r: Result<(), String>)
    ensures
        prefs_view(*final(prefs)) == feed_overrides_spec(prefs_view(*old(prefs)), *query).0,
        match feed_overrides_spec(prefs_view(*old(prefs)), *query).1 {
            Some(m) => r matches Err(s) && s@ == m,
            None => r is Ok,
        },
{
    match &query.platforms {
        Some(p) => {
            match parse_csv_filter("platforms", p.as_str()) {
                Ok(v) => {
                    prefs.platforms = v;
                },
                Err(m) => {
                    return Err(m);
                },
            }
        },
        None => {},
    }
    match &query.languages {
        Some(l) => {
            match parse_csv_filter("languages", l.as_str()) {
                Ok(v) => {
                    prefs.languages = v;
                },
                Err(m) => {
                    return Err(m);
                },
            }
        },
        None => {},
    }
    match query.session_minutes_min {
        Some(x) => {
            prefs.session_minutes_min = x;
        },
        None => {},
    }
    match query.session_minutes_max {
        Some(x) => {
            prefs.session_minutes_max = x;
        },
        None => {},
    }
    match query.max_price_minor {
        Some(x) => {
            prefs.budget_max_each_minor = Some(x);
        },
        None => {},
    }
    match &query.currency {
        Some(c) => {
            prefs.budget_currency = to_ascii_uppercase(c.as_str());
        },
        None => {},
    }
    prefs.validate()
}


/// The token of an `Authorization` header value in the bearer scheme.
pub open spec fn bearer_spec(header: Seq<char>) -> Option<Seq<char>> {
    if crate::text::seq_starts_with(header, "Bearer "@) {
        Some(header.skip(7))
    } else {
        None
    }
}

/// The bearer token of an `Authorization` header value, if it has one.
pub fn bearer_token(authorization: Option<&str>) -> (r: Option<String>)
    ensures
        match authorization {
            Some(h) => match bearer_spec(h@) {
                Some(t) => r matches Some(s) && s@ == t,
                None => r is None,
            },
            None => r is None,
        },
{
    match authorization {
        None => None,
        Some(h) => {
            if crate::text::str_starts_with(h, "Bearer ") {
                let c = chars_of(h);
                proof {
                    reveal_strlit("Bearer ");
                }
                let t = crate::text::slice_range(c.as_slice(), 7, c.len());
                assert(t@ =~= h@.skip(7));
                Some(string_from_chars(t.as_slice()))
            } else {
                None
            }
        },
    }
}

/// Why an administrative request is refused.
#[derive(Debug, Clone, Copy, PartialEq, Eq)]
pub enum AdminRejection {
    /// No administrator token is configured (service unavailable).
    NotConfigured,
    /// The request's bearer token is missing or wrong (unauthenticated).
    InvalidToken,
}

impl AdminRejection {
    /// The message the request is refused with.
    pub fn message(self) -> (r: &'static str)
        ensures
            r@ == match self {
                AdminRejection::NotConfigured => "MPGS_ADMIN_TOKEN is not configured"@,
                AdminRejection::InvalidToken => "invalid admin token"@,
            },
    {
        match self {
            AdminRejection::NotConfigured => "MPGS_ADMIN_TOKEN is not configured",
            AdminRejection::InvalidToken => "invalid admin token",
        }
    }
}

/// Admit an administrative request whose `Authorization` header is
/// `authorization` when an administrator token `expected` is configured and
/// the request's bearer token is exactly it.
pub fn check_admin(expected: Option<&str>, authorization: Option<&str>) -> (r: Result<(), AdminRejection>)
    ensures
        match expected {
            None => r == Err::<(), AdminRejection>(AdminRejection::NotConfigured),
            Some(e) => {
                let ok = authorization matches Some(h) && bearer_spec(h@) == Some(e@);
                if ok {
                    r is Ok
                } else {
                    r == Err::<(), AdminRejection>(AdminRejection::InvalidToken)
                }
            },
        },
{
    let e = match expected {
        None => {
            return Err(AdminRejection::NotConfigured);
        },
        Some(e) => e,
    };
    match bearer_token(authorization) {
        Some(t) => if crate::text::str_eq(t.as_str(), e) {
            Ok(())
        } else {
            Err(AdminRejection::InvalidToken)
        },
        None => Err(AdminRejection::InvalidToken),
    }
}

/// The page size of a feed request: 20 when unset, else 1 to 100.
pub fn feed_limit(query: &FeedQuery) -> (r: Result<usize, String>)
    ensures
        match query.limit {
            None => r == Ok::<usize, String>(20),
            Some(l) => if 1 <= l <= 100 {
                r == Ok::<usize, String>(l as usize)
            } else {
                r matches Err(m) && m@ == "limit must be between 1 and 100"@
            },
        },
{
    match query.limit {
        None => Ok(20),
        Some(l) => {
            if 1 <= l && l <= 100 {
                Ok(l as usize)
            } else {
                Err(crate::text::owned("limit must be between 1 and 100"))
            }
        },
    }
}

/// Take a feed request's party size, when it gives one, into the
/// preferences; it must be 1 to 64.
pub fn apply_feed_party_size(prefs: &mut UserPreferences, query: &FeedQuery) -> (r: Result<(), String>)
    ensures
        match query.party_size {
            None => r is Ok && prefs_view(*final(prefs)) == prefs_view(*old(prefs)),
            Some(p) => if 1 <= p <= 64 {
                r is Ok && prefs_view(*final(prefs)) == PrefsView { party_size: p, ..prefs_view(*old(prefs)) }
            } else {
                (r matches Err(m) && m@ == "party_size must be between 1 and 64"@) && prefs_view(*final(prefs))
                    == prefs_view(*old(prefs))
            },
        },
{
    match query.party_size {
        None => Ok(()),
        Some(p) => {
            if 1 <= p && p <= 64 {
                prefs.party_size = p;
                Ok(())
            } else {
                Err(crate::text::owned("party_size must be between 1 and 64"))
            }
        },
    }
}

/// Feedback that takes a game out of the user's feeds.
pub open spec fn hides_spec(t: FeedbackType) -> bool {
    t == FeedbackType::NotInterested || t == FeedbackType::PartySizeMismatch
}

/// The user's feedback on a game takes it out of their feeds: "not
/// interested" and "party size mismatch" do.
pub fn feedback_hides(t: FeedbackType) -> (r: bool)
    ensures
        r == hides_spec(t),
{
    match t {
        FeedbackType::NotInterested | FeedbackType::PartySizeMismatch => true,
        _ => false,
    }
}

/// One page of a ranked feed: the items `start..end` of the ranking, and the
/// offset of the next page when the ranking goes on past this one.
#[derive(Debug, Clone, Copy, PartialEq, Eq)]
pub struct FeedPage {
    pub start: usize,
    pub end: usize,
    pub next_offset: Option<usize>,
}

/// The page of `limit` items from `offset` of a ranking of `total` items.
pub open spec fn page_of(total: usize, offset: usize, limit: usize) -> FeedPage {
    FeedPage {
        start: if offset < total { offset } else { total },
        end: if offset + limit < total { (offset + limit) as usize } else { total },
        next_offset: if offset + limit < total { Some((offset + limit) as usize) } else { None },
    }
}

/// Paging walks the ranking without gaps or overlaps: a page holds at most
/// `limit` items from its offset (none past the end); the next page, when
/// there is one, starts where this one ends; and there is none exactly when
/// this page reaches the end of the ranking.
pub proof fn lemma_pages_tile(total: usize, offset: usize, limit: usize)
    ensures
        page_of(total, offset, limit).start <= page_of(total, offset, limit).end <= total,
        page_of(total, offset, limit).end - page_of(total, offset, limit).start <= limit,
        offset < total ==> page_of(total, offset, limit).start == offset,
        offset >= total ==> page_of(total, offset, limit).start == total && page_of(total, offset, limit).end
            == total,
        page_of(total, offset, limit).next_offset is None <==> page_of(total, offset, limit).end == total,
        page_of(total, offset, limit).next_offset matches Some(n) ==> n == page_of(total, offset, limit).end
            && page_of(total, n, limit).start == page_of(total, offset, limit).end,
        offset < total && offset + limit <= total ==> page_of(total, offset, limit).end - page_of(
            total,
            offset,
            limit,
        ).start == limit,
{
}

/// The page of `limit` items from `offset` of a ranking of `total` items:
/// skip `offset` (or all), take up to `limit`; a next page is offered at
/// `offset + limit` (saturating) when that is still inside the ranking.
pub fn feed_page(total: usize, offset: usize, limit: usize) -> (r: FeedPage)
    ensures
        r == page_of(total, offset, limit),
        r.start == if offset < total {
            offset
        } else {
            total
        },
        r.end == if offset + limit < total {
            (offset + limit) as usize
        } else {
            total
        },
        r.start <= r.end <= total,
        r.next_offset == if offset + limit < total {
            Some((offset + limit) as usize)
        } else {
            None::<usize>
        },
{
    let start = if offset < total {
        offset
    } else {
        total
    };
    let next = offset.saturating_add(limit);
    let end = if next < total {
        next
    } else {
        total
    };
    let next_offset = if next < total {
        Some(next)
    } else {
        None
    };
    FeedPage { start, end, next_offset }
}

/// A search request's query text and page size: the text must not be blank
/// (an absent text is blank) and the size, 20 when unset, must be 1 to 100.
pub fn check_search(q: Option<String>, limit: Option<i64>) -> (r: Result<(String, i64), &'static str>)
    ensures
        ({
            let text = match q {
                Some(t) => t@,
                None => Seq::<char>::empty(),
            };
            let n = match limit {
                Some(l) => l,
                None => 20,
            };
            if crate::text::trim(text).len() == 0 {
                r matches Err(m) && m@ == "q is required"@
            } else if !(1 <= n <= 100) {
                r matches Err(m) && m@ == "limit must be between 1 and 100"@
            } else {
                r matches Ok((t, l)) && t@ == text && l == n
            }
        }),
{
    let text = match q {
        Some(t) => t,
        None => String::new(),
    };
    let blank = crate::text::trim_chars(crate::text::chars_of(text.as_str()).as_slice()).len() == 0;
    if blank {
        return Err("q is required");
    }
    let n = match limit {
        Some(l) => l,
        None => 20,
    };
    if !(1 <= n && n <= 100) {
        return Err("limit must be between 1 and 100");
    }
    Ok((text, n))
}

/// A release-calendar range, as day numbers, is ordered and spans at most
/// 366 days; otherwise the request is refused with
/// "calendar range must be ordered and not exceed one year".
pub fn calendar_range_ok(from_day: i64, to_day: i64) -> (r: bool)
    ensures
        r == (from_day <= to_day && to_day - from_day <= 366),
{
    if to_day < from_day {
        return false;
    }
    (to_day as i128 - from_day as i128) <= 366
}

/// The feedback kind a feedback request names, or the message it is refused
/// with; a request also needs an idempotency key.
pub fn check_feedback(kind: &str, idempotency_key: Option<&str>) -> (r: Result<FeedbackType, &'static str>)
    ensures
        match crate::domain::feedback_named(kind@) {
            None => r matches Err(m) && m@ == "unknown feedback type"@,
            Some(t) => if idempotency_key is None {
                r matches Err(m) && m@ == "Idempotency-Key header is required"@
            } else {
                r == Ok::<FeedbackType, &'static str>(t)
            },
        },
{
    let t = match FeedbackType::parse(kind) {
        Some(t) => t,
        None => {
            return Err("unknown feedback type");
        },
    };
    if idempotency_key.is_none() {
        return Err("Idempotency-Key header is required");
    }
    Ok(t)
}

proof fn lemma_nonempty_trimmed_concat(p: Seq<Seq<char>>, q: Seq<Seq<char>>)
    ensures
        nonempty_trimmed(p + q) == nonempty_trimmed(p) + nonempty_trimmed(q),
    decreases q.len(),
{
    if q.len() == 0 {
        assert(p + q =~= p);
        assert(nonempty_trimmed(p) + nonempty_trimmed(q) =~= nonempty_trimmed(p));
    } else {
        lemma_nonempty_trimmed_concat(p, q.drop_last());
        assert((p + q).drop_last() =~= p + q.drop_last());
        assert((p + q).last() == q.last());
        let t = crate::text::trim(q.last());
        if t.len() > 0 {
            assert(nonempty_trimmed(p) + nonempty_trimmed(q.drop_last()).push(t) =~= (nonempty_trimmed(p)
                + nonempty_trimmed(q.drop_last())).push(t));
        }
    }
}

/// A list filter reads its comma-separated parts one by one: the values of
/// `a,b` are those of `a` followed by those of `b`; a part that is already
/// trimmed, non-empty, lower-case and free of commas reads as itself, and a
/// blank part reads as nothing.
pub proof fn lemma_csv_values(a: Seq<char>, b: Seq<char>)
    ensures
        csv_values(a + seq![','] + b) == csv_values(a) + csv_values(b),
        !a.contains(',') && crate::text::trim(a) == a && a.len() > 0 && ascii_lower(a) == a ==> csv_values(a) == seq![a],
        !a.contains(',') && crate::text::trim(a).len() == 0 ==> csv_values(a).len() == 0,
{
    lemma_split_char_join(a, b, ',');
    lemma_nonempty_trimmed_concat(split_char(a, ','), split_char(b, ','));
    assert(lower_all(nonempty_trimmed(split_char(a, ',')) + nonempty_trimmed(split_char(b, ',')))
        =~= lower_all(nonempty_trimmed(split_char(a, ','))) + lower_all(nonempty_trimmed(split_char(b, ','))));
    if !a.contains(',') {
        lemma_split_char_single(a, ',');
        let one = seq![a];
        assert(one.drop_last() =~= Seq::<Seq<char>>::empty());
        assert(nonempty_trimmed(one.drop_last()) =~= Seq::<Seq<char>>::empty());
        if crate::text::trim(a) == a && a.len() > 0 && ascii_lower(a) == a {
            assert(nonempty_trimmed(one) =~= seq![a]);
            assert(lower_all(seq![a]) =~= seq![a]);
        }
    }
}

/// A list filter of a feed query parses (or is absent).
pub open spec fn list_filter_ok(raw: Option<String>) -> bool {
    match raw {
        Some(s) => csv_ok(csv_values(s@)),
        None => true,
    }
}

/// What a feed query does to the preferences: a platforms or languages
/// filter that parses replaces that list with its values, and one that does
/// not refuses the request naming it (platforms first, nothing after it
/// applied); with both lists fine, the session bounds, price cap and currency
/// (upper-cased) given in the query replace the stored ones, every other
/// setting is kept, and the request is refused exactly when the result fails
/// validation.
pub proof fn lemma_feed_overrides(v: PrefsView, q: FeedQuery)
    ensures
        ({
            let (w, err) = feed_overrides_spec(v, q);
            &&& !list_filter_ok(q.platforms) ==> w == v && err == Some("platforms"@
                + " must be a comma-separated list of 1 to 32 values"@)
            &&& list_filter_ok(q.platforms) ==> w.platforms == match q.platforms {
                Some(p) => csv_values(p@),
                None => v.platforms,
            }
            &&& list_filter_ok(q.platforms) && !list_filter_ok(q.languages) ==> w.languages == v.languages
                && err == Some("languages"@ + " must be a comma-separated list of 1 to 32 values"@)
            &&& list_filter_ok(q.platforms) && list_filter_ok(q.languages) ==> {
                &&& w.languages == match q.languages {
                    Some(l) => csv_values(l@),
                    None => v.languages,
                }
                &&& w.session_minutes_min == match q.session_minutes_min {
                    Some(x) => x,
                    None => v.session_minutes_min,
                }
                &&& w.session_minutes_max == match q.session_minutes_max {
                    Some(x) => x,
                    None => v.session_minutes_max,
                }
                &&& w.budget_max_each_minor == match q.max_price_minor {
                    Some(x) => Some(x),
                    None => v.budget_max_each_minor,
                }
                &&& w.budget_currency == match q.currency {
                    Some(c) => ascii_upper(c@),
                    None => v.budget_currency,
                }
                &&& w.version == v.version
                &&& w.party_size == v.party_size
                &&& w.coop_competitive_bits == v.coop_competitive_bits
                &&& w.self_hosting_willingness_bits == v.self_hosting_willingness_bits
                &&& w.excluded_modes == v.excluded_modes
                &&& err == preferences_problem(w)
            }
        }),
{
}

/// A client request id is accepted exactly when it has 1 to 64 characters,
/// each an ASCII letter or digit or one of `-`, `_`, `.`, `:`.
pub proof fn lemma_request_id_chars(s: Seq<char>)
    ensures
        valid_request_id_spec(s) <==> 1 <= s.len() <= 64 && forall|i: int|
            0 <= i < s.len() ==> ({
                let c = #[trigger] s[i];
                ('a' <= c <= 'z') || ('A' <= c <= 'Z') || ('0' <= c <= '9') || c == '-' || c == '_' || c == '.'
                    || c == ':'
            }),
{
}

/// A bearer header is "Bearer " followed by its token: the token is found
/// exactly when the header starts so, and the header is then "Bearer " and
/// the token.
pub proof fn lemma_bearer_token(header: Seq<char>)
    ensures
        bearer_spec(header) is Some <==> crate::text::seq_starts_with(header, "Bearer "@),
        bearer_spec(header) matches Some(t) ==> "Bearer "@ + t == header,
{
    reveal_strlit("Bearer ");
    if let Some(t) = bearer_spec(header) {
        assert("Bearer "@ + t =~= header);
    }
}

/// Only "not interested" and "party size mismatch" feedback takes a game out
/// of the feeds.
pub proof fn lemma_feedback_hides(t: FeedbackType)
    ensures
        hides_spec(t) <==> (t == FeedbackType::NotInterested || t == FeedbackType::PartySizeMismatch),
{
}

/// The weak entity tag is `W/"`, the digest in hexadecimal, and `"`; equal
/// payloads get equal tags.
pub proof fn lemma_weak_etag_shape(payload: Seq<char>, other: Seq<char>)
    ensures
        weak_etag_spec(payload).subrange(0, 3) == "W/\""@,
        weak_etag_spec(payload).last() == '"',
        payload == other ==> weak_etag_spec(payload) == weak_etag_spec(other),
{
    reveal_strlit("W/\"");
    reveal_strlit("\"");
    let h = hex(fnv1a(vstd::utf8::encode_utf8(payload)) as nat);
    assert(weak_etag_spec(payload).subrange(0, 3) =~= "W/\""@);
}

} // verus!
