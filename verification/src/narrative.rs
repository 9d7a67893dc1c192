//! AI-written narrative for a game analysis report: what of it is kept, and
//! how the kept parts replace the rule-based text.
use vstd::prelude::*;
use crate::models::{AnalysisPoint, AnalysisSource};
use crate::text::{chars_of, str_eq, string_from_chars, trim, trim_chars, trim_str};

verus! {

/// At most this many strengths or risks are taken from a narrative.
pub const MAX_NARRATIVE_POINTS: usize = 3;

/// The analysis dimensions a narrative may explain, in report order.
pub open spec fn dimension_keys() -> Seq<Seq<char>> {
    seq![
        "review_quality"@,
        "multiplayer_fit"@,
        "activity_health"@,
        "content_depth"@,
        "accessibility"@,
        "discovery_value"@,
    ]
}

/// The analysis dimensions a narrative may explain, in report order.
pub fn analysis_dimension_keys() -> (r: [&'static str; 6])
    ensures
        r@.map_values(|s: &str| s@) == dimension_keys(),
{
    let r = [
        "review_quality",
        "multiplayer_fit",
        "activity_health",
        "content_depth",
        "accessibility",
        "discovery_value",
    ];
    assert(r@.map_values(|s: &str| s@) =~= dimension_keys());
    r
}

fn is_dimension_key(key: &str) -> (r: bool)
    ensures
        r == dimension_keys().contains(key@),
{
    let keys = analysis_dimension_keys();
    let mut i: usize = 0;
    while i < 6
        invariant
            i <= 6,
            keys@.map_values(|s: &str| s@) == dimension_keys(),
            forall|k: int| 0 <= k < i ==> dimension_keys()[k] != key@,
        decreases 6 - i,
    {
        if str_eq(keys[i], key) {
            assert(dimension_keys()[i as int] == keys@[i as int]@);
            return true;
        }
        assert(dimension_keys()[i as int] == keys@[i as int]@);
        i = i + 1;
    }
    false
}

/// A narrative written by the model.
#[derive(Debug, Clone)]
pub struct AnalysisNarrative {
    pub overview: String,
    pub strengths: Vec<AnalysisPoint>,
    pub risks: Vec<AnalysisPoint>,
    pub dimension_reasons: Vec<(String, String)>,
}

/// The parts of a narrative that may be used.
#[derive(Debug, Clone)]
pub struct SanitizedNarrativePatch {
    pub overview: Option<String>,
    pub strengths: Vec<AnalysisPoint>,
    pub risks: Vec<AnalysisPoint>,
    pub dimension_reasons: Vec<(String, String)>,
}

/// A point as its title and reason.
pub open spec fn point_view(p: AnalysisPoint) -> (Seq<char>, Seq<char>) {
    (p.title@, p.reason@)
}

pub open spec fn points_view(ps: Seq<AnalysisPoint>) -> Seq<(Seq<char>, Seq<char>)> {
    ps.map_values(|p: AnalysisPoint| point_view(p))
}

pub open spec fn pairs_view(ps: Seq<(String, String)>) -> Seq<(Seq<char>, Seq<char>)> {
    ps.map_values(|p: (String, String)| (p.0@, p.1@))
}

/// The overview kept: trimmed, and only when at least 8 characters remain.
pub open spec fn kept_overview(o: Seq<char>) -> Option<Seq<char>> {
    if trim(o).len() < 8 {
        None
    } else {
        Some(trim(o))
    }
}

/// The points kept: trimmed, those with an empty title or reason dropped,
/// the first three.
pub open spec fn kept_points(ps: Seq<(Seq<char>, Seq<char>)>) -> Seq<(Seq<char>, Seq<char>)>
    decreases ps.len(),
{
    if ps.len() == 0 {
        Seq::empty()
    } else {
        let prev = kept_points(ps.drop_last());
        let (t, r) = (trim(ps.last().0), trim(ps.last().1));
        if prev.len() >= 3 || t.len() == 0 || r.len() == 0 {
            prev
        } else {
            prev.push((t, r))
        }
    }
}

/// Some pair of `ps` has key `k`.
pub open spec fn has_key(ps: Seq<(Seq<char>, Seq<char>)>, k: Seq<char>) -> bool {
    exists|i: int| 0 <= i < ps.len() && (#[trigger] ps[i]).0 == k
}

/// The dimension reasons kept: trimmed, those with an empty reason, an
/// unknown dimension or an already explained dimension dropped, the first six.
pub open spec fn kept_reasons(ps: Seq<(Seq<char>, Seq<char>)>) -> Seq<(Seq<char>, Seq<char>)>
    decreases ps.len(),
{
    if ps.len() == 0 {
        Seq::empty()
    } else {
        let prev = kept_reasons(ps.drop_last());
        let (k, r) = (trim(ps.last().0), trim(ps.last().1));
        if prev.len() >= 6 || r.len() == 0 || !dimension_keys().contains(k) || has_key(prev, k) {
            prev
        } else {
            prev.push((k, r))
        }
    }
}

/// The overview kept: trimmed, and only when at least 8 characters remain.
pub fn sanitize_overview(overview: &str) -> (r: Option<String>)
    ensures
        match kept_overview(overview@) {
            Some(o) => r matches Some(s) && s@ == o,
            None => r is None,
        },
{
    let trimmed = trim_str(overview);
    let n = chars_of(trimmed.as_str()).len();
    if n < 8 {
        None
    } else {
        Some(trimmed)
    }
}

/// The points kept (see [`kept_points`]).
pub fn sanitize_points(points: Vec<AnalysisPoint>) -> (r: Vec<AnalysisPoint>)
    ensures
        points_view(r@) == kept_points(points_view(points@)),
{
    let ghost pv = points_view(points@);
    let mut out: Vec<AnalysisPoint> = Vec::new();
    let mut i: usize = 0;
    while i < points.len()
        invariant
            i <= points@.len(),
            pv == points_view(points@),
            points_view(out@) == kept_points(pv.take(i as int)),
        decreases points@.len() - i,
    {
        assert(pv.take(i as int + 1).drop_last() =~= pv.take(i as int));
        assert(pv.take(i as int + 1).last() == point_view(points@[i as int]));
        let title = trim_str(points[i].title.as_str());
        let reason = trim_str(points[i].reason.as_str());
        if out.len() < MAX_NARRATIVE_POINTS && !title.as_str().is_empty()
            && !reason.as_str().is_empty() {
            let ghost before = out@;
            out.push(AnalysisPoint { title, reason });
            assert(points_view(out@) =~= points_view(before).push(
                (trim(pv[i as int].0), trim(pv[i as int].1)),
            ));
        }
        i = i + 1;
    }
    assert(pv.take(i as int) =~= pv);
    out
}

/// The dimension reasons kept (see [`kept_reasons`]).
pub fn sanitize_dimension_reasons(reasons: Vec<(String, String)>) -> (r: Vec<(String, String)>)
    ensures
        pairs_view(r@) == kept_reasons(pairs_view(reasons@)),
{
    let ghost pv = pairs_view(reasons@);
    let mut out: Vec<(String, String)> = Vec::new();
    let mut i: usize = 0;
    while i < reasons.len()
        invariant
            i <= reasons@.len(),
            pv == pairs_view(reasons@),
            pairs_view(out@) == kept_reasons(pv.take(i as int)),
        decreases reasons@.len() - i,
    {
        assert(pv.take(i as int + 1).drop_last() =~= pv.take(i as int));
        assert(pv.take(i as int + 1).last() == (reasons@[i as int].0@, reasons@[i as int].1@));
        let key = trim_str(reasons[i].0.as_str());
        let reason = trim_str(reasons[i].1.as_str());
        let ghost prev = pairs_view(out@);
        if out.len() < 6 && !reason.as_str().is_empty() && is_dimension_key(key.as_str()) {
            let mut seen = false;
            let mut j: usize = 0;
            while j < out.len()
                invariant
                    j <= out@.len(),
                    prev == pairs_view(out@),
                    seen == exists|m: int| 0 <= m < j && (#[trigger] prev[m]).0 == key@,
                decreases out@.len() - j,
            {
                if str_eq(out[j].0.as_str(), key.as_str()) {
                    assert(prev[j as int].0 == key@);
                    seen = true;
                }
                j = j + 1;
            }
            if !seen {
                out.push((key, reason));
                assert(pairs_view(out@) =~= prev.push((trim(pv[i as int].0), trim(pv[i as int].1))));
            }
        }
        i = i + 1;
    }
    assert(pv.take(i as int) =~= pv);
    out
}

/// Sanitize a narrative into the parts that may be used.
pub fn sanitize_narrative_patch(narrative: AnalysisNarrative) -> (r: SanitizedNarrativePatch)
    ensures
        match kept_overview(narrative.overview@) {
            Some(o) => r.overview matches Some(s) && s@ == o,
            None => r.overview is None,
        },
        points_view(r.strengths@) == kept_points(points_view(narrative.strengths@)),
        points_view(r.risks@) == kept_points(points_view(narrative.risks@)),
        pairs_view(r.dimension_reasons@) == kept_reasons(pairs_view(narrative.dimension_reasons@)),
{
    SanitizedNarrativePatch {
        overview: sanitize_overview(narrative.overview.as_str()),
        strengths: sanitize_points(narrative.strengths),
        risks: sanitize_points(narrative.risks),
        dimension_reasons: sanitize_dimension_reasons(narrative.dimension_reasons),
    }
}

impl SanitizedNarrativePatch {
    /// Something of the narrative may be used.
    pub fn has_useful_content(&self) -> (r: bool)
        ensures
            r == (self.overview is Some || self.strengths@.len() > 0 || self.risks@.len() > 0
                || self.dimension_reasons@.len() > 0),
    {
        self.overview.is_some() || self.strengths.len() > 0 || self.risks.len() > 0
            || self.dimension_reasons.len() > 0
    }
}

/// Two point lists have the same titles and reasons in the same order.
pub fn point_lists_equal(left: &[AnalysisPoint], right: &[AnalysisPoint]) -> (r: bool)
    ensures
        r == (points_view(left@) == points_view(right@)),
{
    if left.len() != right.len() {
        assert(points_view(left@).len() != points_view(right@).len());
        return false;
    }
    let mut i: usize = 0;
    while i < left.len()
        invariant
            i <= left@.len(),
            left@.len() == right@.len(),
            forall|k: int| 0 <= k < i ==> point_view(#[trigger] left@[k]) == point_view(right@[k]),
        decreases left@.len() - i,
    {
        if !str_eq(left[i].title.as_str(), right[i].title.as_str()) || !str_eq(
            left[i].reason.as_str(),
            right[i].reason.as_str(),
        ) {
            assert(points_view(left@)[i as int] != points_view(right@)[i as int]);
            return false;
        }
        i = i + 1;
    }
    assert(points_view(left@) =~= points_view(right@));
    true
}

/// The text of an analysis report that a narrative may replace: overview,
/// strengths, risks, the `(dimension, reason)` of each scored dimension, and
/// where the report came from.
#[derive(Debug, Clone)]
pub struct ReportText {
    pub overview: String,
    pub strengths: Vec<AnalysisPoint>,
    pub risks: Vec<AnalysisPoint>,
    pub dimension_reasons: Vec<(String, String)>,
    pub source: AnalysisSource,
}

pub type ReportTextView = (
    Seq<char>,
    Seq<(Seq<char>, Seq<char>)>,
    Seq<(Seq<char>, Seq<char>)>,
    Seq<(Seq<char>, Seq<char>)>,
    AnalysisSource,
);

pub open spec fn report_view(t: ReportText) -> ReportTextView {
    (
        t.overview@,
        points_view(t.strengths@),
        points_view(t.risks@),
        pairs_view(t.dimension_reasons@),
        t.source,
    )
}

/// The first dimension of `dims` named `k` whose reason is not `r`.
pub open spec fn first_stale(dims: Seq<(Seq<char>, Seq<char>)>, k: Seq<char>, r: Seq<char>) -> Option<int>
    decreases dims.len(),
{
    if dims.len() == 0 {
        None
    } else {
        match first_stale(dims.drop_last(), k, r) {
            Some(i) => Some(i),
            None => if dims.last().0 == k && dims.last().1 != r {
                Some(dims.len() - 1)
            } else {
                None
            },
        }
    }
}

/// The dimension reasons after applying `patches` in order, and whether any
/// changed.
pub open spec fn patched_reasons(
    dims: Seq<(Seq<char>, Seq<char>)>,
    patches: Seq<(Seq<char>, Seq<char>)>,
) -> (Seq<(Seq<char>, Seq<char>)>, bool)
    decreases patches.len(),
{
    if patches.len() == 0 {
        (dims, false)
    } else {
        let (d, changed) = patched_reasons(dims, patches.drop_last());
        let (k, r) = patches.last();
        match first_stale(d, k, r) {
            Some(i) => (d.update(i, (d[i].0, r)), true),
            None => (d, changed),
        }
    }
}

/// The report text after applying a narrative: a usable overview that
/// differs replaces the report's; usable strengths or risks that differ
/// replace the report's lists; each usable dimension reason replaces a
/// differing reason of that dimension; a report changed this way becomes
/// hybrid. A narrative with nothing usable leaves the report as it is.
pub open spec fn patched_report(t: ReportTextView, n: AnalysisNarrative) -> ReportTextView {
    let ov = kept_overview(n.overview@);
    let st = kept_points(points_view(n.strengths@));
    let rk = kept_points(points_view(n.risks@));
    let dr = kept_reasons(pairs_view(n.dimension_reasons@));
    if ov is None && st.len() == 0 && rk.len() == 0 && dr.len() == 0 {
        t
    } else {
        let ov_changed = ov matches Some(o) && o != t.0;
        let st_changed = st.len() > 0 && st != t.1;
        let rk_changed = rk.len() > 0 && rk != t.2;
        let (dims, dims_changed) = patched_reasons(t.3, dr);
        let changed = ov_changed || st_changed || rk_changed || dims_changed;
        (
            if ov_changed {
                ov->0
            } else {
                t.0
            },
            if st_changed {
                st
            } else {
                t.1
            },
            if rk_changed {
                rk
            } else {
                t.2
            },
            dims,
            if changed {
                AnalysisSource::Hybrid
            } else {
                t.4
            },
        )
    }
}

proof fn lemma_first_stale_prefix(dims: Seq<(Seq<char>, Seq<char>)>, k: Seq<char>, r: Seq<char>, n: int)
    requires
        0 <= n <= dims.len(),
        first_stale(dims.take(n), k, r) is Some,
    ensures
        first_stale(dims, k, r) == first_stale(dims.take(n), k, r),
    decreases dims.len() - n,
{
    if n < dims.len() {
        assert(dims.take(n + 1).drop_last() =~= dims.take(n));
        lemma_first_stale_prefix(dims, k, r, n + 1);
    } else {
        assert(dims.take(n) =~= dims);
    }
}

proof fn lemma_first_stale_bounds(dims: Seq<(Seq<char>, Seq<char>)>, k: Seq<char>, r: Seq<char>)
    ensures
        first_stale(dims, k, r) matches Some(i) ==> 0 <= i < dims.len() && dims[i].0 == k && dims[i].1 != r,
    decreases dims.len(),
{
    if dims.len() > 0 {
        lemma_first_stale_bounds(dims.drop_last(), k, r);
    }
}

/// Apply one dimension reason: the first dimension named `key` whose reason
/// differs takes `reason`.
fn patch_reason(dims: &mut Vec<(String, String)>, key: &str, reason: &String) -> (changed: bool)
    ensures
        match first_stale(pairs_view(old(dims)@), key@, reason@) {
            Some(i) => changed && pairs_view(final(dims)@) == pairs_view(old(dims)@).update(
                i,
                (pairs_view(old(dims)@)[i].0, reason@),
            ),
            None => !changed && pairs_view(final(dims)@) == pairs_view(old(dims)@),
        },
{
    let ghost dv = pairs_view(dims@);
    let mut i: usize = 0;
    while i < dims.len()
        invariant
            i <= dims@.len(),
            dv == pairs_view(dims@),
            dv == pairs_view(old(dims)@),
            first_stale(dv.take(i as int), key@, reason@) is None,
        decreases dims@.len() - i,
    {
        assert(dv.take(i as int + 1).drop_last() =~= dv.take(i as int));
        assert(dv.take(i as int + 1).last() == dv[i as int]);
        if str_eq(dims[i].0.as_str(), key) && !str_eq(dims[i].1.as_str(), reason.as_str()) {
            proof {
                lemma_first_stale_prefix(dv, key@, reason@, i as int + 1);
            }
            let k = dims[i].0.clone();
            dims.set(i, (k, reason.clone()));
            assert(pairs_view(dims@) =~= dv.update(i as int, (dv[i as int].0, reason@)));
            return true;
        }
        i = i + 1;
    }
    assert(dv.take(i as int) =~= dv);
    false
}

/// Apply a model-written narrative to a report's text (see [`patched_report`]).
pub fn apply_narrative_patch(report: ReportText, narrative: AnalysisNarrative) -> (r: ReportText)
    ensures
        report_view(r) == patched_report(report_view(report), narrative),
{
    let sanitized = sanitize_narrative_patch(narrative);
    if !sanitized.has_useful_content() {
        return report;
    }
    let ghost t0 = report_view(report);
    let ReportText { overview, strengths, risks, dimension_reasons, source } = report;
    let mut dims = dimension_reasons;
    let ghost dr = pairs_view(sanitized.dimension_reasons@);
    let mut dims_changed = false;
    let mut j: usize = 0;
    while j < sanitized.dimension_reasons.len()
        invariant
            j <= sanitized.dimension_reasons@.len(),
            dr == pairs_view(sanitized.dimension_reasons@),
            (pairs_view(dims@), dims_changed) == patched_reasons(t0.3, dr.take(j as int)),
        decreases sanitized.dimension_reasons@.len() - j,
    {
        assert(dr.take(j as int + 1).drop_last() =~= dr.take(j as int));
        assert(dr.take(j as int + 1).last() == dr[j as int]);
        let (ref key, ref reason) = sanitized.dimension_reasons[j];
        let ghost before = pairs_view(dims@);
        proof {
            lemma_first_stale_bounds(before, key@, reason@);
        }
        if patch_reason(&mut dims, key.as_str(), reason) {
            dims_changed = true;
        }
        j = j + 1;
    }
    assert(dr.take(j as int) =~= dr);
    let (new_overview, ov_changed) = match sanitized.overview {
        Some(o) => {
            if !str_eq(o.as_str(), overview.as_str()) {
                (o, true)
            } else {
                (overview, false)
            }
        },
        None => (overview, false),
    };
    let st_changed = sanitized.strengths.len() > 0 && !point_lists_equal(
        sanitized.strengths.as_slice(),
        strengths.as_slice(),
    );
    let new_strengths = if st_changed {
        sanitized.strengths
    } else {
        strengths
    };
    let rk_changed = sanitized.risks.len() > 0 && !point_lists_equal(
        sanitized.risks.as_slice(),
        risks.as_slice(),
    );
    let new_risks = if rk_changed {
        sanitized.risks
    } else {
        risks
    };
    let changed = ov_changed || st_changed || rk_changed || dims_changed;
    let patched = ReportText {
        overview: new_overview,
        strengths: new_strengths,
        risks: new_risks,
        dimension_reasons: dims,
        source: if changed {
            AnalysisSource::Hybrid
        } else {
            source
        },
    };
    patched
}

/// The overview is kept, trimmed, exactly when at least 8 characters remain
/// after trimming.
pub proof fn lemma_overview_kept(o: Seq<char>)
    ensures
        kept_overview(o) is Some <==> trim(o).len() >= 8,
        kept_overview(o) matches Some(t) ==> t == trim(o),
{
}

/// The points kept: at most three, each with a non-empty title and reason,
/// each the trimmed form of an input point whose trimmed title and reason are
/// not empty; and while fewer than three are kept, every such input point is.
pub proof fn lemma_points_kept(ps: Seq<(Seq<char>, Seq<char>)>)
    ensures
        kept_points(ps).len() <= 3,
        forall|i: int| 0 <= i < kept_points(ps).len() ==> (#[trigger] kept_points(ps)[i]).0.len() > 0
            && kept_points(ps)[i].1.len() > 0 && exists|j: int| 0 <= j < ps.len() && kept_points(ps)[i] == (trim((#[trigger] ps[j]).0), trim(ps[j].1)),
        kept_points(ps).len() < 3 ==> kept_points(ps).len() == count_usable(ps),
    decreases ps.len(),
{
    if ps.len() > 0 {
        let prev = ps.drop_last();
        lemma_points_kept(prev);
        lemma_count_usable_le(prev);
        let k = kept_points(ps);
        let kp = kept_points(prev);
        assert forall|i: int| 0 <= i < k.len() implies (#[trigger] k[i]).0.len() > 0 && k[i].1.len() > 0
            && exists|j: int| 0 <= j < ps.len() && k[i] == (trim((#[trigger] ps[j]).0), trim(ps[j].1)) by {
            if i < kp.len() {
                assert(k[i] == kp[i]);
                let j = choose|j: int| 0 <= j < prev.len() && kp[i] == (trim((#[trigger] prev[j]).0), trim(prev[j].1));
                assert(ps[j] == prev[j]);
            } else {
                assert(ps[ps.len() - 1] == ps.last());
            }
        }
    }
}

/// The number of points whose trimmed title and reason are both non-empty.
pub open spec fn count_usable(ps: Seq<(Seq<char>, Seq<char>)>) -> nat
    decreases ps.len(),
{
    if ps.len() == 0 {
        0
    } else {
        count_usable(ps.drop_last()) + if trim(ps.last().0).len() > 0 && trim(ps.last().1).len() > 0 {
            1nat
        } else {
            0nat
        }
    }
}

proof fn lemma_count_usable_le(ps: Seq<(Seq<char>, Seq<char>)>)
    ensures
        kept_points(ps).len() <= count_usable(ps),
    decreases ps.len(),
{
    if ps.len() > 0 {
        lemma_count_usable_le(ps.drop_last());
    }
}

/// The dimension reasons kept: at most six, each for one of the six report
/// dimensions ("review_quality", "multiplayer_fit", "activity_health",
/// "content_depth", "accessibility", "discovery_value"), no dimension twice,
/// and every reason non-empty.
pub proof fn lemma_reasons_kept(ps: Seq<(Seq<char>, Seq<char>)>)
    ensures
        kept_reasons(ps).len() <= 6,
        forall|i: int| 0 <= i < kept_reasons(ps).len() ==> {
            let k = (#[trigger] kept_reasons(ps)[i]).0;
            &&& k == "review_quality"@ || k == "multiplayer_fit"@ || k == "activity_health"@ || k == "content_depth"@
                || k == "accessibility"@ || k == "discovery_value"@
            &&& kept_reasons(ps)[i].1.len() > 0
        },
        forall|i: int, j: int| 0 <= i < j < kept_reasons(ps).len() ==> (#[trigger] kept_reasons(ps)[i]).0 != (#[trigger] kept_reasons(ps)[j]).0,
    decreases ps.len(),
{
    if ps.len() > 0 {
        let prev = ps.drop_last();
        lemma_reasons_kept(prev);
        let k = kept_reasons(ps);
        let kp = kept_reasons(prev);
        let d = dimension_keys();
        assert forall|i: int| 0 <= i < k.len() implies {
            let key = (#[trigger] k[i]).0;
            &&& key == "review_quality"@ || key == "multiplayer_fit"@ || key == "activity_health"@ || key == "content_depth"@
                || key == "accessibility"@ || key == "discovery_value"@
            &&& k[i].1.len() > 0
        } by {
            if i < kp.len() {
                assert(k[i] == kp[i]);
            } else {
                let j = choose|j: int| 0 <= j < d.len() && d[j] == k[i].0;
            }
        }
        assert forall|i: int, j: int| 0 <= i < j < k.len() implies (#[trigger] k[i]).0 != (#[trigger] k[j]).0 by {
            if j < kp.len() {
                assert(k[i] == kp[i] && k[j] == kp[j]);
            } else if i < kp.len() {
                assert(k[i] == kp[i]);
                if k[i].0 == k[j].0 {
                    assert(has_key(kp, k[j].0));
                }
            }
        }
    }
}

} // verus!
