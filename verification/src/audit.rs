//! The data gates of the database tool's audits: the catalog-size gate and
//! the release gate, over the coverage counts the database reports.
use crate::num::{dec_signed, push_dec_signed};
use crate::text::{chars_of, extend_chars, owned, string_from_chars};
use crate::tool_options::{meets_percentage, meets_percentage_spec};
use vstd::prelude::*;

verus! {

pub const M3_MIN_CANDIDATES: i64 = 2_000;
pub const M7_MIN_CANDIDATES: i64 = 2_000;
pub const M7_MIN_TRUSTED_FRIEND_PROFILES: i64 = 300;
pub const M7_MIN_SECTION_CANDIDATES: i64 = 20;
pub const M7_MIN_DATE_COVERAGE_PERCENT: i64 = 95;
pub const M7_MIN_COVER_COVERAGE_PERCENT: i64 = 95;
pub const M7_MIN_SEVEN_DAY_FOCUS: i64 = 300;

/// The message of a catalog that is too small.
pub open spec fn m3_failure(candidates: i64) -> Seq<char> {
    "M3 catalog gate failed: "@ + dec_signed(candidates as int)
        + " normalized multiplayer candidates, need at least 2000"@
}

/// The catalog gate: at least 2000 normalized multiplayer candidates.
pub fn m3_gate(candidates: i64) -> (r: Result<(), String>)
    ensures
        candidates >= M3_MIN_CANDIDATES ==> r is Ok,
        candidates < M3_MIN_CANDIDATES ==> (r matches Err(m) && m@ == m3_failure(candidates)),
{
    if candidates >= M3_MIN_CANDIDATES {
        return Ok(());
    }
    let mut m = chars_of("M3 catalog gate failed: ");
    push_dec_signed(&mut m, candidates);
    extend_chars(&mut m, chars_of(" normalized multiplayer candidates, need at least 2000").as_slice());
    assert(m@ =~= m3_failure(candidates));
    Err(string_from_chars(m.as_slice()))
}

/// The coverage counts the release gate reads.
#[derive(Debug, Clone, Copy, PartialEq, Eq, Default)]
pub struct M7Coverage {
    pub normalized_multiplayer_candidates: i64,
    pub trusted_friend_multiplayer_profiles: i64,
    pub candidates_with_date: i64,
    pub candidates_with_cover: i64,
    pub upcoming_candidates: i64,
    pub recent_release_candidates: i64,
    pub popular_legacy_candidates: i64,
    pub classic_legacy_candidates: i64,
    pub trusted_profiles_with_seven_day_reviews: i64,
    pub trusted_profiles_with_seven_day_ccu: i64,
}

/// One reason the release gate fails.
#[derive(Debug, Clone, PartialEq, Eq)]
pub enum M7Failure {
    /// The whole message.
    Message(String),
    /// Under 95% of the candidates have a release date; the message shows
    /// the percentage.
    DateCoverage,
    /// Under 95% of the candidates have a cover; the message shows the
    /// percentage.
    CoverCoverage,
}

/// The mathematical form of a failure.
pub enum FailureView {
    Message(Seq<char>),
    DateCoverage,
    CoverCoverage,
}

pub open spec fn failure_view(f: M7Failure) -> FailureView {
    match f {
        M7Failure::Message(m) => FailureView::Message(m@),
        M7Failure::DateCoverage => FailureView::DateCoverage,
        M7Failure::CoverCoverage => FailureView::CoverCoverage,
    }
}

/// `f` when `cond` holds, nothing otherwise.
pub open spec fn listed_if(cond: bool, f: FailureView) -> Seq<FailureView> {
    if cond {
        seq![f]
    } else {
        Seq::empty()
    }
}

/// A count failure: `n` and what it counts.
pub open spec fn count_failure(n: i64, tail: Seq<char>) -> FailureView {
    FailureView::Message(dec_signed(n as int) + tail)
}

/// The release gate's failures, in order: too few candidates, too few
/// trusted familiar-multiplayer profiles, date coverage under 95%, cover
/// coverage under 95%, too few upcoming candidates without a documented
/// exception (or an exception that is not needed), too few recent-release,
/// popular-legacy or classic-legacy candidates, and too few trusted profiles
/// with seven consecutive days of reviews or of player counts.
pub open spec fn m7_failures(c: M7Coverage, has_exception: bool) -> Seq<FailureView> {
    listed_if(
        c.normalized_multiplayer_candidates < M7_MIN_CANDIDATES,
        count_failure(c.normalized_multiplayer_candidates, " normalized multiplayer candidates, need at least 2000"@),
    ) + listed_if(
        c.trusted_friend_multiplayer_profiles < M7_MIN_TRUSTED_FRIEND_PROFILES,
        count_failure(
            c.trusted_friend_multiplayer_profiles,
            " trusted familiar-multiplayer profiles, need at least 300"@,
        ),
    ) + listed_if(
        !meets_percentage_spec(c.candidates_with_date, c.normalized_multiplayer_candidates, 95),
        FailureView::DateCoverage,
    ) + listed_if(
        !meets_percentage_spec(c.candidates_with_cover, c.normalized_multiplayer_candidates, 95),
        FailureView::CoverCoverage,
    ) + (if c.upcoming_candidates < M7_MIN_SECTION_CANDIDATES {
        listed_if(
            !has_exception,
            count_failure(
                c.upcoming_candidates,
                " upcoming candidates, need at least 20 or an explicit documented shortfall exception"@,
            ),
        )
    } else {
        listed_if(
            has_exception,
            FailureView::Message(
                "--allow-upcoming-shortfall is only valid when fewer than 20 upcoming candidates are available"@,
            ),
        )
    }) + listed_if(
        c.recent_release_candidates < M7_MIN_SECTION_CANDIDATES,
        count_failure(c.recent_release_candidates, " recent_release candidates, need at least 20"@),
    ) + listed_if(
        c.popular_legacy_candidates < M7_MIN_SECTION_CANDIDATES,
        count_failure(c.popular_legacy_candidates, " popular_legacy candidates, need at least 20"@),
    ) + listed_if(
        c.classic_legacy_candidates < M7_MIN_SECTION_CANDIDATES,
        count_failure(c.classic_legacy_candidates, " classic_legacy candidates, need at least 20"@),
    ) + listed_if(
        c.trusted_profiles_with_seven_day_reviews < M7_MIN_SEVEN_DAY_FOCUS,
        count_failure(
            c.trusted_profiles_with_seven_day_reviews,
            " trusted profiles have seven consecutive review days, need at least 300"@,
        ),
    ) + listed_if(
        c.trusted_profiles_with_seven_day_ccu < M7_MIN_SEVEN_DAY_FOCUS,
        count_failure(
            c.trusted_profiles_with_seven_day_ccu,
            " trusted profiles have seven consecutive CCU days, need at least 300"@,
        ),
    )
}

/// The documented upcoming-shortfall exception is used: it is given and
/// fewer than 20 upcoming candidates are available.
pub open spec fn exception_used(c: M7Coverage, has_exception: bool) -> bool {
    has_exception && c.upcoming_candidates < M7_MIN_SECTION_CANDIDATES
}

/// The verdict of the release gate.
#[derive(Debug, Clone, PartialEq, Eq)]
pub struct M7Verdict {
    pub failures: Vec<M7Failure>,
    /// The documented exception stood in for the upcoming shortfall.
    pub exception_used: bool,
}

fn push_when(out: &mut Vec<M7Failure>, cond: bool, f: M7Failure)
    ensures
        final(out)@.map_values(|x: M7Failure| failure_view(x)) == old(out)@.map_values(
            |x: M7Failure| failure_view(x),
        ) + listed_if(cond, failure_view(f)),
{
    let ghost before = out@.map_values(|x: M7Failure| failure_view(x));
    if cond {
        out.push(f);
    }
    assert(out@.map_values(|x: M7Failure| failure_view(x)) =~= before + listed_if(cond, failure_view(f)));
}

fn count_message(n: i64, tail: &str) -> (r: M7Failure)
    ensures
        failure_view(r) == count_failure(n, tail@),
{
    let mut m: Vec<char> = Vec::new();
    push_dec_signed(&mut m, n);
    extend_chars(&mut m, chars_of(tail).as_slice());
    assert(m@ =~= dec_signed(n as int) + tail@);
    M7Failure::Message(string_from_chars(m.as_slice()))
}

/// The release gate over the coverage counts; `has_exception` tells whether
/// the operator documented an upcoming-shortfall exception.
pub fn m7_gate(c: &M7Coverage, has_exception: bool) -> (r: M7Verdict)
    ensures
        r.failures@.map_values(|x: M7Failure| failure_view(x)) == m7_failures(*c, has_exception),
        r.exception_used == exception_used(*c, has_exception),
{
    let mut out: Vec<M7Failure> = Vec::new();
    let n = c.normalized_multiplayer_candidates;
    assert(out@.map_values(|x: M7Failure| failure_view(x)) =~= Seq::<FailureView>::empty());
    push_when(
        &mut out,
        n < M7_MIN_CANDIDATES,
        count_message(n, " normalized multiplayer candidates, need at least 2000"),
    );
    push_when(
        &mut out,
        c.trusted_friend_multiplayer_profiles < M7_MIN_TRUSTED_FRIEND_PROFILES,
        count_message(
            c.trusted_friend_multiplayer_profiles,
            " trusted familiar-multiplayer profiles, need at least 300",
        ),
    );
    let date_ok = meets_percentage(c.candidates_with_date, n, M7_MIN_DATE_COVERAGE_PERCENT);
    push_when(&mut out, !date_ok, M7Failure::DateCoverage);
    let cover_ok = meets_percentage(c.candidates_with_cover, n, M7_MIN_COVER_COVERAGE_PERCENT);
    push_when(&mut out, !cover_ok, M7Failure::CoverCoverage);
    if c.upcoming_candidates < M7_MIN_SECTION_CANDIDATES {
        push_when(
            &mut out,
            !has_exception,
            count_message(
                c.upcoming_candidates,
                " upcoming candidates, need at least 20 or an explicit documented shortfall exception",
            ),
        );
    } else {
        push_when(
            &mut out,
            has_exception,
            M7Failure::Message(
                owned(
                    "--allow-upcoming-shortfall is only valid when fewer than 20 upcoming candidates are available",
                ),
            ),
        );
    }
    push_when(
        &mut out,
        c.recent_release_candidates < M7_MIN_SECTION_CANDIDATES,
        count_message(c.recent_release_candidates, " recent_release candidates, need at least 20"),
    );
    push_when(
        &mut out,
        c.popular_legacy_candidates < M7_MIN_SECTION_CANDIDATES,
        count_message(c.popular_legacy_candidates, " popular_legacy candidates, need at least 20"),
    );
    push_when(
        &mut out,
        c.classic_legacy_candidates < M7_MIN_SECTION_CANDIDATES,
        count_message(c.classic_legacy_candidates, " classic_legacy candidates, need at least 20"),
    );
    push_when(
        &mut out,
        c.trusted_profiles_with_seven_day_reviews < M7_MIN_SEVEN_DAY_FOCUS,
        count_message(
            c.trusted_profiles_with_seven_day_reviews,
            " trusted profiles have seven consecutive review days, need at least 300",
        ),
    );
    push_when(
        &mut out,
        c.trusted_profiles_with_seven_day_ccu < M7_MIN_SEVEN_DAY_FOCUS,
        count_message(
            c.trusted_profiles_with_seven_day_ccu,
            " trusted profiles have seven consecutive CCU days, need at least 300",
        ),
    );
    let used = has_exception && c.upcoming_candidates < M7_MIN_SECTION_CANDIDATES;
    assert(out@.map_values(|x: M7Failure| failure_view(x)) =~= m7_failures(*c, has_exception));
    M7Verdict { failures: out, exception_used: used }
}

/// The release gate passes exactly when there are at least 2000 normalized
/// multiplayer candidates and 300 trusted familiar-multiplayer profiles, at
/// least 95% of the candidates have a date and a cover, at least 20 upcoming
/// candidates (or, with fewer, a documented exception, which is refused when
/// not needed), at least 20 recent-release, popular-legacy and
/// classic-legacy candidates each, and at least 300 trusted profiles with
/// seven consecutive days of reviews and of player counts each.
pub proof fn lemma_m7_passes(c: M7Coverage, has_exception: bool)
    ensures
        m7_failures(c, has_exception).len() == 0 <==> {
            &&& c.normalized_multiplayer_candidates >= 2000
            &&& c.trusted_friend_multiplayer_profiles >= 300
            &&& meets_percentage_spec(c.candidates_with_date, c.normalized_multiplayer_candidates, 95)
            &&& meets_percentage_spec(c.candidates_with_cover, c.normalized_multiplayer_candidates, 95)
            &&& (c.upcoming_candidates >= 20) != has_exception
            &&& c.recent_release_candidates >= 20
            &&& c.popular_legacy_candidates >= 20
            &&& c.classic_legacy_candidates >= 20
            &&& c.trusted_profiles_with_seven_day_reviews >= 300
            &&& c.trusted_profiles_with_seven_day_ccu >= 300
        },
{
}

} // verus!
