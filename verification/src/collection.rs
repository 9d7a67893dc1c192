//! The decisions of the Steam collection passes of the database tool: where
//! a candidate search resumes and when it stops, when a page fetch is tried
//! again, which enrichment requests an app gets, and how their outcomes are
//! counted. The tool makes the requests and writes the rows.
use crate::num::{dec, dec_signed};
use crate::scheduler::clamp_i64;
use crate::text::{chars_of, extend_chars, string_from_chars};
use vstd::prelude::*;

verus! {

/// The saved position of the candidate search.
#[derive(Debug, Clone, Copy, PartialEq, Eq)]
pub struct StoreSearchCursor {
    pub next_start: u32,
    pub total_count: Option<u32>,
    pub target: u32,
    pub complete: bool,
}

/// Where a candidate search starts: at the saved position, unless there is
/// none or the saved search ran to its end.
pub fn resume_start(stored: Option<StoreSearchCursor>) -> (r: u32)
    ensures
        r == match stored {
            Some(c) => if c.complete {
                0
            } else {
                c.next_start
            },
            None => 0,
        },
{
    match stored {
        Some(c) => {
            if c.complete {
                0
            } else {
                c.next_start
            }
        },
        None => 0,
    }
}

/// The search has found enough candidates.
pub fn target_reached(candidates: i64, target: u32) -> (r: bool)
    ensures
        r == (candidates >= target),
{
    candidates >= target as i64
}

/// What a candidate search does after ingesting a page.
#[derive(Debug, Clone, PartialEq, Eq)]
pub enum SearchVerdict {
    /// Enough candidates: stop with success.
    TargetReached,
    /// The search ran out of results first: stop with this message.
    Exhausted(String),
    /// Fetch the page that starts here next.
    Continue(u32),
}

/// The message of a search that ran out of results.
pub open spec fn exhausted_message(candidates: i64, target: u32) -> Seq<char> {
    "Steam search exhausted at "@ + dec_signed(candidates as int) + " candidates before target "@
        + dec(target as nat)
}

/// After a page: the cursor to save (the page's next start and total, the
/// target, whether the search is complete), and whether to stop because the
/// target is reached, stop because the results ran out, or go on from the
/// page's next start.
pub fn after_search_page(
    target: u32,
    candidates: i64,
    next_start: u32,
    total_count: u32,
    complete: bool,
) -> (r: (StoreSearchCursor, SearchVerdict))
    ensures
        r.0 == (StoreSearchCursor { next_start, total_count: Some(total_count), target, complete }),
        candidates >= target ==> r.1 == SearchVerdict::TargetReached,
        candidates < target && complete ==> (r.1 matches SearchVerdict::Exhausted(m) && m@
            == exhausted_message(candidates, target)),
        candidates < target && !complete ==> r.1 == SearchVerdict::Continue(next_start),
{
    let cursor = StoreSearchCursor { next_start, total_count: Some(total_count), target, complete };
    if target_reached(candidates, target) {
        return (cursor, SearchVerdict::TargetReached);
    }
    if complete {
        let mut m: Vec<char> = chars_of("Steam search exhausted at ");
        crate::num::push_dec_signed(&mut m, candidates);
        extend_chars(&mut m, chars_of(" candidates before target ").as_slice());
        crate::num::push_dec(&mut m, target as u64);
        assert(m@ =~= exhausted_message(candidates, target));
        return (cursor, SearchVerdict::Exhausted(string_from_chars(m.as_slice())));
    }
    (cursor, SearchVerdict::Continue(next_start))
}

/// The seconds to wait before fetching a search page again: only after a
/// retryable failure of the first or second of at most three attempts, one
/// second after the first and two after the second.
pub fn search_retry_wait_secs(attempt: u64, retryable: bool) -> (r: Option<u64>)
    ensures
        r == if retryable && attempt < 2 {
            Some(if attempt == 0 {
                1u64
            } else {
                2u64
            })
        } else {
            None::<u64>
        },
{
    if retryable && attempt < 2 {
        if attempt == 0 {
            Some(1)
        } else {
            Some(2)
        }
    } else {
        None
    }
}

/// `a + b`, saturating at the ends of `i64`.
fn sat_add(a: i64, b: i64) -> (r: i64)
    ensures
        r == clamp_i64(a + b),
{
    let s: i128 = a as i128 + b as i128;
    if s > 0x7FFF_FFFF_FFFF_FFFFi128 {
        i64::MAX
    } else if s < -0x8000_0000_0000_0000i128 {
        i64::MIN
    } else {
        s as i64
    }
}

/// Requests made and rows stored by a collection pass.
#[derive(Debug, Clone, Copy, PartialEq, Eq, Default)]
pub struct CollectionStats {
    pub request_count: i64,
    pub success_count: i64,
}

impl CollectionStats {
    /// One more request (saturating).
    pub fn note_request(&mut self)
        ensures
            final(self).request_count == clamp_i64(old(self).request_count + 1),
            final(self).success_count == old(self).success_count,
    {
        self.request_count = sat_add(self.request_count, 1);
    }

    /// `ingested` more stored rows (saturating).
    pub fn note_ingested(&mut self, ingested: i64)
        ensures
            final(self).success_count == clamp_i64(old(self).success_count + ingested),
            final(self).request_count == old(self).request_count,
    {
        self.success_count = sat_add(self.success_count, ingested);
    }
}

/// What an app still lacks.
#[derive(Debug, Clone, Copy, PartialEq, Eq)]
pub struct EnrichmentNeeds {
    pub needs_store_details: bool,
    pub needs_price: bool,
    pub needs_reviews: bool,
    pub needs_review_excerpts: bool,
    pub needs_ccu: bool,
}

/// The operator's switches of an enrichment pass, as set.
#[derive(Debug, Clone, Copy, PartialEq, Eq)]
pub struct EnrichSwitches {
    pub store_only: bool,
    pub skip_reviews: bool,
    pub skip_ccu: bool,
    pub skip_store: bool,
}

/// The requests one app gets, in this order, and whether the pass pauses
/// after the player-count request.
#[derive(Debug, Clone, Copy, PartialEq, Eq)]
pub struct EnrichPlan {
    pub store: bool,
    pub reviews: bool,
    pub popular_reviews: bool,
    pub ccu: bool,
    pub pause_after_ccu: bool,
}

/// The plan of an app: store details when they or the price are missing and
/// the store is not skipped; reviews when missing and neither skipped nor
/// store-only; review excerpts when missing and not store-only; the player
/// count when missing and neither skipped nor store-only. Each request but
/// the player count is followed by the pause between requests; the player
/// count is too when the app lacked nothing else (it goes to another host,
/// so a store request before it already spaces the next store request).
pub open spec fn plan_spec(n: EnrichmentNeeds, s: EnrichSwitches) -> EnrichPlan {
    EnrichPlan {
        store: !s.skip_store && (n.needs_store_details || n.needs_price),
        reviews: n.needs_reviews && !(s.store_only || s.skip_reviews),
        popular_reviews: n.needs_review_excerpts && !s.store_only,
        ccu: n.needs_ccu && !(s.store_only || s.skip_ccu),
        pause_after_ccu: !(n.needs_store_details || n.needs_price || n.needs_reviews
            || n.needs_review_excerpts),
    }
}

/// The enrichment plan of one app (see [`plan_spec`]).
pub fn enrichment_plan(needs: EnrichmentNeeds, switches: EnrichSwitches) -> (r: EnrichPlan)
    ensures
        r == plan_spec(needs, switches),
{
    let skip_reviews = switches.store_only || switches.skip_reviews;
    let skip_ccu = switches.store_only || switches.skip_ccu;
    EnrichPlan {
        store: !switches.skip_store && (needs.needs_store_details || needs.needs_price),
        reviews: needs.needs_reviews && !skip_reviews,
        popular_reviews: needs.needs_review_excerpts && !switches.store_only,
        ccu: needs.needs_ccu && !skip_ccu,
        pause_after_ccu: !(needs.needs_store_details || needs.needs_price || needs.needs_reviews
            || needs.needs_review_excerpts),
    }
}

/// How one enrichment request ended.
#[derive(Debug, Clone, Copy, PartialEq, Eq)]
pub enum StepResult {
    StoreIngested,
    StoreNotFound,
    ReviewsOk,
    PopularReviewsOk,
    CcuOk,
    Failed,
}

/// The counts of an enrichment pass.
#[derive(Debug, Clone, Copy, PartialEq, Eq, Default)]
pub struct EnrichStats {
    pub request_count: i64,
    pub success_count: i64,
    pub apps_attempted: i64,
    pub store_ok: i64,
    pub store_not_found: i64,
    pub reviews_ok: i64,
    pub popular_reviews_ok: i64,
    pub ccu_ok: i64,
    pub error_count: i64,
}

/// The counts after one request's result: its own counter grows by one
/// (saturating), and nothing else changes.
pub open spec fn noted(s: EnrichStats, r: StepResult) -> EnrichStats {
    match r {
        StepResult::StoreIngested => EnrichStats { store_ok: clamp_i64(s.store_ok + 1), ..s },
        StepResult::StoreNotFound => EnrichStats { store_not_found: clamp_i64(s.store_not_found + 1), ..s },
        StepResult::ReviewsOk => EnrichStats { reviews_ok: clamp_i64(s.reviews_ok + 1), ..s },
        StepResult::PopularReviewsOk => EnrichStats {
            popular_reviews_ok: clamp_i64(s.popular_reviews_ok + 1),
            ..s
        },
        StepResult::CcuOk => EnrichStats { ccu_ok: clamp_i64(s.ccu_ok + 1), ..s },
        StepResult::Failed => EnrichStats { error_count: clamp_i64(s.error_count + 1), ..s },
    }
}

impl EnrichStats {
    /// Count the start of an app.
    pub fn begin_app(&mut self)
        ensures
            *final(self) == (EnrichStats { apps_attempted: clamp_i64(old(self).apps_attempted + 1), ..*old(self) }),
    {
        self.apps_attempted = sat_add(self.apps_attempted, 1);
    }

    /// Count one request's result; it counts toward the app's successes
    /// unless it failed.
    pub fn note(&mut self, result: StepResult) -> (counted: bool)
        ensures
            *final(self) == noted(*old(self), result),
            counted == (result != StepResult::Failed),
    {
        match result {
            StepResult::StoreIngested => {
                self.store_ok = sat_add(self.store_ok, 1);
                true
            },
            StepResult::StoreNotFound => {
                self.store_not_found = sat_add(self.store_not_found, 1);
                true
            },
            StepResult::ReviewsOk => {
                self.reviews_ok = sat_add(self.reviews_ok, 1);
                true
            },
            StepResult::PopularReviewsOk => {
                self.popular_reviews_ok = sat_add(self.popular_reviews_ok, 1);
                true
            },
            StepResult::CcuOk => {
                self.ccu_ok = sat_add(self.ccu_ok, 1);
                true
            },
            StepResult::Failed => {
                self.error_count = sat_add(self.error_count, 1);
                false
            },
        }
    }

    /// Count an app's successful requests at its end.
    pub fn finish_app(&mut self, app_ok: i64)
        ensures
            *final(self) == (EnrichStats { success_count: clamp_i64(old(self).success_count + app_ok), ..*old(self) }),
    {
        self.success_count = sat_add(self.success_count, app_ok);
    }
}

/// Progress is reported after every tenth app and after the last one.
pub fn report_progress(index: usize, total: usize) -> (r: bool)
    requires
        index < total,
    ensures
        r == ((index + 1) % 10 == 0 || index + 1 == total),
{
    (index + 1) % 10 == 0 || index + 1 == total
}

/// What the switches of an enrichment pass rule out, and what each request
/// needs: a request is made only for what the app lacks; skipping the store
/// drops the store request; store-only drops reviews and the player count;
/// skipping reviews or the player count drops that request; an app lacking
/// nothing gets no request; and without switches every lacking part is
/// requested.
pub proof fn lemma_enrichment_switches(n: EnrichmentNeeds, s: EnrichSwitches)
    ensures
        ({
            let p = plan_spec(n, s);
            &&& p.store ==> n.needs_store_details || n.needs_price
            &&& p.reviews ==> n.needs_reviews
            &&& p.popular_reviews ==> n.needs_review_excerpts
            &&& p.ccu ==> n.needs_ccu
            &&& s.skip_store ==> !p.store
            &&& s.store_only ==> !p.reviews && !p.ccu && !p.popular_reviews
            &&& s.skip_reviews ==> !p.reviews
            &&& s.skip_ccu ==> !p.ccu
            &&& !s.store_only && !s.skip_reviews && !s.skip_ccu && !s.skip_store ==> p.store == (
                n.needs_store_details || n.needs_price) && p.reviews == n.needs_reviews && p.popular_reviews
                == n.needs_review_excerpts && p.ccu == n.needs_ccu
            &&& p.pause_after_ccu == !(n.needs_store_details || n.needs_price || n.needs_reviews
                || n.needs_review_excerpts)
        }),
{
}

/// Each request result is counted in its own counter only: a store ingest,
/// a missing store page, reviews, review excerpts, a player count, or an
/// error; the counter grows by one unless it is at its largest.
pub proof fn lemma_noted_counts(s: EnrichStats, r: StepResult)
    ensures
        ({
            let t = noted(s, r);
            let bump = |x: i64| if x < i64::MAX { x + 1 } else { x as int };
            &&& t.store_ok == if r == StepResult::StoreIngested { bump(s.store_ok) } else { s.store_ok as int }
            &&& t.store_not_found == if r == StepResult::StoreNotFound { bump(s.store_not_found) } else { s.store_not_found as int }
            &&& t.reviews_ok == if r == StepResult::ReviewsOk { bump(s.reviews_ok) } else { s.reviews_ok as int }
            &&& t.popular_reviews_ok == if r == StepResult::PopularReviewsOk { bump(s.popular_reviews_ok) } else { s.popular_reviews_ok as int }
            &&& t.ccu_ok == if r == StepResult::CcuOk { bump(s.ccu_ok) } else { s.ccu_ok as int }
            &&& t.error_count == if r == StepResult::Failed { bump(s.error_count) } else { s.error_count as int }
            &&& t.request_count == s.request_count && t.success_count == s.success_count
            &&& t.apps_attempted == s.apps_attempted
        }),
{
}

} // verus!
