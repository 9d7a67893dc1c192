//! Paging through Steam's app list and store search during discovery runs.
use vstd::prelude::*;
use crate::num::{dec, parse_u32, parse_unsigned, push_dec};
use crate::text::{chars_of, extend_chars, string_from_chars};

verus! {

pub const DISCOVERY_TASK_TARGET_ADDED_GAMES_DEFAULT: u32 = 200;

pub const DISCOVERY_TASK_TARGET_ADDED_GAMES_MAX: u32 = 200;

pub const STORE_SEARCH_DISCOVERY_MAX_PAGES_PER_RUN: u32 = 2;

/// One page of Steam's app list.
#[derive(Debug, Clone)]
pub struct SteamAppListPreview {
    pub apps: Vec<SteamAppListItem>,
    pub last_appid: Option<u32>,
    pub have_more_results: Option<bool>,
}

#[derive(Debug, Clone, PartialEq, Eq)]
pub struct SteamAppListItem {
    pub appid: u32,
    pub name: String,
}

/// Where the next app-list page starts: the page's own cursor, else the last
/// app on it; `None` for an empty page without a cursor.
pub fn next_discovery_cursor(preview: &SteamAppListPreview) -> (r: Option<u32>)
    ensures
        r == match preview.last_appid {
            Some(id) => Some(id),
            None => if preview.apps@.len() > 0 {
                Some(preview.apps@.last().appid)
            } else {
                None::<u32>
            },
        },
{
    match preview.last_appid {
        Some(id) => Some(id),
        None => {
            let n = preview.apps.len();
            if n > 0 {
                Some(preview.apps[n - 1].appid)
            } else {
                None
            }
        },
    }
}

/// The store-search offset of a page: pages already processed times the page
/// size, saturating.
pub fn store_search_start_for_page(pages_processed: u32, page_size: u32) -> (r: u32)
    ensures
        r == if pages_processed * page_size > u32::MAX {
            u32::MAX as int
        } else {
            pages_processed * page_size
        },
{
    let a: u64 = pages_processed as u64;
    let b: u64 = page_size as u64;
    assert(a * b <= 0xFFFF_FFFFu64 * 0xFFFF_FFFFu64) by (nonlinear_arith)
        requires
            a <= 0xFFFF_FFFFu64,
            b <= 0xFFFF_FFFFu64,
    ;
    let p: u64 = a * b;
    if p > 0xFFFF_FFFF {
        0xFFFF_FFFF
    } else {
        p as u32
    }
}

/// A run has processed as many store-search pages as it may.
pub fn store_search_reached_page_budget(pages_processed: u32) -> (r: bool)
    ensures
        r == (pages_processed >= STORE_SEARCH_DISCOVERY_MAX_PAGES_PER_RUN),
{
    pages_processed >= STORE_SEARCH_DISCOVERY_MAX_PAGES_PER_RUN
}

/// A saved cursor, when it parses as a `u32`.
pub fn parse_saved_cursor(value: Option<String>) -> (r: Option<u32>)
    ensures
        r == match value {
            Some(v) => match parse_unsigned(v@, u32::MAX as nat) {
                Some(n) => Some(n as u32),
                None => None::<u32>,
            },
            None => None::<u32>,
        },
{
    match value {
        Some(v) => parse_u32(v.as_str()),
        None => None,
    }
}

/// `value`, or `default` when absent, clamped to `lo..=hi`.
pub open spec fn clamped(value: Option<u32>, default: u32, lo: u32, hi: u32) -> u32 {
    let v = match value {
        Some(v) => v,
        None => default,
    };
    if v < lo {
        lo
    } else if v > hi {
        hi
    } else {
        v
    }
}

/// Store-search pages per run: 2 by default, 1 to 5.
pub open spec fn discovery_pages_of(value: Option<u32>) -> u32 {
    clamped(value, 2, 1, 5)
}

/// Store-search pages per run: 2 by default, 1 to 5.
pub fn clamp_discovery_pages(value: Option<u32>) -> (r: u32)
    ensures
        r == discovery_pages_of(value),
{
    let v = match value {
        Some(v) => v,
        None => 2,
    };
    if v < 1 {
        1
    } else if v > 5 {
        5
    } else {
        v
    }
}

/// Store-search page size: 100 by default, 1 to 100.
pub open spec fn discovery_page_size_of(value: Option<u32>) -> u32 {
    clamped(value, 100, 1, 100)
}

/// Store-search page size: 100 by default, 1 to 100 (larger windows break
/// offset paging).
pub fn clamp_discovery_page_size(value: Option<u32>) -> (r: u32)
    ensures
        r == discovery_page_size_of(value),
{
    let v = match value {
        Some(v) => v,
        None => 100,
    };
    if v < 1 {
        1
    } else if v > 100 {
        100
    } else {
        v
    }
}

/// Games a discovery run aims to add: 200 by default, 1 to 200.
pub open spec fn discovery_target_of(value: Option<u32>) -> u32 {
    clamped(value, DISCOVERY_TASK_TARGET_ADDED_GAMES_DEFAULT, 1, DISCOVERY_TASK_TARGET_ADDED_GAMES_MAX)
}

/// Games a discovery run aims to add: 200 by default, 1 to 200.
pub fn clamp_discovery_target_added_games(value: Option<u32>) -> (r: u32)
    ensures
        r == discovery_target_of(value),
{
    let v = match value {
        Some(v) => v,
        None => DISCOVERY_TASK_TARGET_ADDED_GAMES_DEFAULT,
    };
    if v < 1 {
        1
    } else if v > DISCOVERY_TASK_TARGET_ADDED_GAMES_MAX {
        DISCOVERY_TASK_TARGET_ADDED_GAMES_MAX
    } else {
        v
    }
}

/// The CDN address of an app's header image.
pub open spec fn steam_header_url_spec(appid: u32) -> Seq<char> {
    "https://cdn.cloudflare.steamstatic.com/steam/apps/"@ + dec(appid as nat) + "/header.jpg"@
}

pub fn steam_header_url(appid: u32) -> (r: String)
    ensures
        r@ == steam_header_url_spec(appid),
{
    let mut out = chars_of("https://cdn.cloudflare.steamstatic.com/steam/apps/");
    push_dec(&mut out, appid as u64);
    let tail = chars_of("/header.jpg");
    extend_chars(&mut out, tail.as_slice());
    string_from_chars(out.as_slice())
}

/// A clamped setting always lies within its bounds; an absent one is the
/// default, clamped; one within the bounds is taken as it is.
pub proof fn lemma_clamped(value: Option<u32>, default: u32, lo: u32, hi: u32)
    requires
        lo <= hi,
    ensures
        lo <= clamped(value, default, lo, hi) <= hi,
        (value matches Some(v) && lo <= v <= hi) ==> clamped(value, default, lo, hi) == value->0,
        value is None && lo <= default <= hi ==> clamped(value, default, lo, hi) == default,
{
}

/// The discovery settings: 2 store-search pages per run by default, held to
/// 1 to 5; pages of 100 results by default, held to 1 to 100; 200 games to
/// add by default, held to 1 to 200. A value within its bounds is kept.
pub proof fn lemma_discovery_settings(value: Option<u32>)
    ensures
        1 <= discovery_pages_of(value) <= 5,
        1 <= discovery_page_size_of(value) <= 100,
        1 <= discovery_target_of(value) <= 200,
        value is None ==> discovery_pages_of(value) == 2 && discovery_page_size_of(value) == 100
            && discovery_target_of(value) == 200,
        (value matches Some(v) && 1 <= v <= 5) ==> discovery_pages_of(value) == value->0,
        (value matches Some(v) && 1 <= v <= 100) ==> discovery_page_size_of(value) == value->0,
        (value matches Some(v) && 1 <= v <= 200) ==> discovery_target_of(value) == value->0,
{
}

} // verus!
