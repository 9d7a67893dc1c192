//! The public evidence list of a game: the stored evidence rows under their
//! public ids, then the facts taken from the game's multiplayer profile and
//! review summary that no stored row already covers.
use crate::domain::byte_len;
use crate::num::dec;
use crate::text::{chars_of, extend_chars, owned, seq_starts_with, str_eq, string_from_chars, trim, trim_chars};
use vstd::prelude::*;

verus! {

/// What the list reads of a stored evidence row: its feature and its own id
/// (as text).
#[derive(Debug, Clone)]
pub struct StoredEvidence {
    pub feature_name: String,
    pub evidence_key: String,
}

/// The profile facts that can stand in for missing evidence rows.
#[derive(Debug, Clone, Copy, PartialEq, Eq, Structural)]
pub enum ProfileFeature {
    PrivateSession,
    SelfHostedServer,
    OnlineCoop,
}

pub open spec fn profile_feature_name(f: ProfileFeature) -> Seq<char> {
    match f {
        ProfileFeature::PrivateSession => "private_session"@,
        ProfileFeature::SelfHostedServer => "self_hosted_server"@,
        ProfileFeature::OnlineCoop => "online_coop"@,
    }
}

impl ProfileFeature {
    pub fn as_str(self) -> (r: &'static str)
        ensures
            r@ == profile_feature_name(self),
    {
        match self {
            ProfileFeature::PrivateSession => "private_session",
            ProfileFeature::SelfHostedServer => "self_hosted_server",
            ProfileFeature::OnlineCoop => "online_coop",
        }
    }
}

/// What the game's record says that the list can use.
#[derive(Debug, Clone, Copy)]
pub struct GameEvidenceFacts {
    pub private_session: Option<bool>,
    pub self_hosted_server: Option<bool>,
    pub online_coop: Option<bool>,
    pub total_reviews: Option<u32>,
}

/// One entry of the public list.
#[derive(Debug, Clone, PartialEq, Eq)]
pub enum EvidenceEntry {
    /// The stored row at this index of the input.
    Stored { row: usize, evidence_id: String },
    /// A profile fact with its value.
    Profile { feature: ProfileFeature, value: bool, evidence_id: String },
    /// The review summary of the game.
    ReviewSummary { total: u32, evidence_id: String },
}

/// The mathematical form of an entry.
pub enum EntryView {
    Stored(int, Seq<char>),
    Profile(ProfileFeature, bool, Seq<char>),
    ReviewSummary(u32, Seq<char>),
}

pub open spec fn entry_view(e: EvidenceEntry) -> EntryView {
    match e {
        EvidenceEntry::Stored { row, evidence_id } => EntryView::Stored(row as int, evidence_id@),
        EvidenceEntry::Profile { feature, value, evidence_id } => EntryView::Profile(
            feature,
            value,
            evidence_id@,
        ),
        EvidenceEntry::ReviewSummary { total, evidence_id } => EntryView::ReviewSummary(
            total,
            evidence_id@,
        ),
    }
}

/// The rows as (feature, key) texts.
pub open spec fn rows_view(rows: Seq<StoredEvidence>) -> Seq<(Seq<char>, Seq<char>)> {
    rows.map_values(|r: StoredEvidence| (r.feature_name@, r.evidence_key@))
}

/// A feature filter is acceptable: absent, or neither blank nor longer than
/// 64 bytes.
pub open spec fn feature_filter_ok(feature: Option<Seq<char>>) -> bool {
    match feature {
        None => true,
        Some(f) => !(trim(f).len() == 0 || byte_len(f) > 64),
    }
}

/// Check the feature filter of an evidence request: when given, it must not
/// be blank and must hold at most 64 bytes.
pub fn check_feature_filter(feature: Option<&str>) -> (r: Result<(), String>)
    ensures
        feature_filter_ok(match feature {
            Some(f) => Some(f@),
            None => None,
        }) ==> r is Ok,
        !feature_filter_ok(match feature {
            Some(f) => Some(f@),
            None => None,
        }) ==> (r matches Err(m) && m@ == "feature must contain between 1 and 64 bytes"@),
{
    match feature {
        None => Ok(()),
        Some(f) => {
            let blank = trim_chars(chars_of(f).as_slice()).len() == 0;
            let text = owned(f);
            let long = text.as_str().as_bytes().len() > 64;
            if blank || long {
                Err(owned("feature must contain between 1 and 64 bytes"))
            } else {
                Ok(())
            }
        },
    }
}

/// An earlier row has the same feature as row `i`.
pub open spec fn seen_before(rows: Seq<(Seq<char>, Seq<char>)>, i: int) -> bool {
    exists|j: int| 0 <= j < i && (#[trigger] rows[j]).0 == rows[i].0
}

/// Some row has feature `name`.
pub open spec fn has_feature(rows: Seq<(Seq<char>, Seq<char>)>, name: Seq<char>) -> bool {
    exists|j: int| 0 <= j < rows.len() && (#[trigger] rows[j]).0 == name
}

/// The public id of row `i`: the first row of a feature gets the feature's
/// canonical id, later rows of the same feature add their own key.
pub open spec fn stored_id(app_id: u32, rows: Seq<(Seq<char>, Seq<char>)>, i: int) -> Seq<char> {
    if seen_before(rows, i) {
        "feature:"@ + rows[i].0 + ":"@ + dec(app_id as nat) + ":"@ + rows[i].1
    } else {
        "feature:"@ + rows[i].0 + ":"@ + dec(app_id as nat)
    }
}

/// The filter asks for `name` (no filter asks for everything).
pub open spec fn requested(feature: Option<Seq<char>>, name: Seq<char>) -> bool {
    feature is None || feature == Some(name)
}

/// The entry for a profile fact, when it is asked for, no row covers it and
/// the profile knows its value.
pub open spec fn profile_entry(
    app_id: u32,
    feature: Option<Seq<char>>,
    rows: Seq<(Seq<char>, Seq<char>)>,
    f: ProfileFeature,
    value: Option<bool>,
) -> Seq<EntryView> {
    let name = profile_feature_name(f);
    if requested(feature, name) && !has_feature(rows, name) && value is Some {
        seq![EntryView::Profile(f, value->0, "feature:"@ + name + ":"@ + dec(app_id as nat))]
    } else {
        Seq::empty()
    }
}

/// The public evidence list: every row in order under its public id, then
/// the private-session, self-hosted-server and online-coop facts, then the
/// review summary when it is asked for and the review total is known.
pub open spec fn evidence_list(
    app_id: u32,
    feature: Option<Seq<char>>,
    rows: Seq<(Seq<char>, Seq<char>)>,
    facts: GameEvidenceFacts,
) -> Seq<EntryView> {
    Seq::new(rows.len(), |i: int| EntryView::Stored(i, stored_id(app_id, rows, i)))
        + profile_entry(app_id, feature, rows, ProfileFeature::PrivateSession, facts.private_session)
        + profile_entry(app_id, feature, rows, ProfileFeature::SelfHostedServer, facts.self_hosted_server)
        + profile_entry(app_id, feature, rows, ProfileFeature::OnlineCoop, facts.online_coop)
        + if requested(feature, "review_summary"@) && facts.total_reviews is Some {
        seq![
            EntryView::ReviewSummary(
                facts.total_reviews->0,
                "review:"@ + dec(app_id as nat) + ":summary"@,
            ),
        ]
    } else {
        Seq::empty()
    }
}

fn seen_earlier(rows: &[StoredEvidence], i: usize) -> (r: bool)
    requires
        i < rows@.len(),
    ensures
        r == seen_before(rows_view(rows@), i as int),
{
    let ghost rv = rows_view(rows@);
    let mut j: usize = 0;
    while j < i
        invariant
            j <= i < rows@.len(),
            rv == rows_view(rows@),
            forall|k: int| 0 <= k < j ==> (#[trigger] rv[k]).0 != rv[i as int].0,
        decreases i - j,
    {
        if str_eq(rows[j].feature_name.as_str(), rows[i].feature_name.as_str()) {
            assert(rv[j as int].0 == rv[i as int].0);
            return true;
        }
        j = j + 1;
    }
    false
}

fn any_row_has(rows: &[StoredEvidence], name: &str) -> (r: bool)
    ensures
        r == has_feature(rows_view(rows@), name@),
{
    let ghost rv = rows_view(rows@);
    let mut j: usize = 0;
    while j < rows.len()
        invariant
            j <= rows@.len(),
            rv == rows_view(rows@),
            forall|k: int| 0 <= k < j ==> (#[trigger] rv[k]).0 != name@,
        decreases rows@.len() - j,
    {
        if str_eq(rows[j].feature_name.as_str(), name) {
            assert(rv[j as int].0 == name@);
            return true;
        }
        j = j + 1;
    }
    false
}

fn feature_id(name: &str, app_text: &str) -> (r: String)
    ensures
        r@ == "feature:"@ + name@ + ":"@ + app_text@,
{
    let mut m = chars_of("feature:");
    extend_chars(&mut m, chars_of(name).as_slice());
    extend_chars(&mut m, chars_of(":").as_slice());
    extend_chars(&mut m, chars_of(app_text).as_slice());
    proof {
        reveal_strlit("feature:");
        reveal_strlit(":");
    }
    assert(m@ =~= "feature:"@ + name@ + ":"@ + app_text@);
    string_from_chars(m.as_slice())
}

fn push_profile(
    out: &mut Vec<EvidenceEntry>,
    app_text: &str,
    feature: Option<&str>,
    rows: &[StoredEvidence],
    f: ProfileFeature,
    value: Option<bool>,
    Ghost(app_id): Ghost<u32>,
)
    requires
        app_text@ == dec(app_id as nat),
    ensures
        final(out)@.map_values(|e: EvidenceEntry| entry_view(e)) == old(out)@.map_values(
            |e: EvidenceEntry| entry_view(e),
        ) + profile_entry(
            app_id,
            match feature {
                Some(s) => Some(s@),
                None => None,
            },
            rows_view(rows@),
            f,
            value,
        ),
{
    let name = f.as_str();
    let asked = match feature {
        None => true,
        Some(s) => str_eq(s, name),
    };
    let covered = any_row_has(rows, name);
    let ghost before = out@.map_values(|e: EvidenceEntry| entry_view(e));
    if asked && !covered {
        match value {
            Some(v) => {
                let id = feature_id(name, app_text);
                out.push(EvidenceEntry::Profile { feature: f, value: v, evidence_id: id });
                assert(out@.map_values(|e: EvidenceEntry| entry_view(e)) =~= before + profile_entry(
                    app_id,
                    match feature {
                        Some(s) => Some(s@),
                        None => None,
                    },
                    rows_view(rows@),
                    f,
                    value,
                ));
                return ;
            },
            None => {},
        }
    }
    assert(out@.map_values(|e: EvidenceEntry| entry_view(e)) =~= before + profile_entry(
        app_id,
        match feature {
            Some(s) => Some(s@),
            None => None,
        },
        rows_view(rows@),
        f,
        value,
    ));
}

/// The public evidence list of game `app_id` (see [`evidence_list`]): the
/// stored rows (already filtered by the request's feature) with their public
/// ids, then the profile facts and the review summary the request asks for.
pub fn evidence_entries(
    app_id: u32,
    feature: Option<&str>,
    rows: &[StoredEvidence],
    facts: &GameEvidenceFacts,
) -> (r: Vec<EvidenceEntry>)
    ensures
        r@.map_values(|e: EvidenceEntry| entry_view(e)) == evidence_list(
            app_id,
            match feature {
                Some(s) => Some(s@),
                None => None,
            },
            rows_view(rows@),
            *facts,
        ),
{
    let ghost rv = rows_view(rows@);
    let ghost fv = match feature {
        Some(s) => Some(s@),
        None => None,
    };
    let app_text = crate::num::u64_to_string(app_id as u64);
    let mut out: Vec<EvidenceEntry> = Vec::new();
    let mut i: usize = 0;
    while i < rows.len()
        invariant
            i <= rows@.len(),
            rv == rows_view(rows@),
            app_text@ == dec(app_id as nat),
            out@.map_values(|e: EvidenceEntry| entry_view(e)) == Seq::new(
                i as nat,
                |k: int| EntryView::Stored(k, stored_id(app_id, rv, k)),
            ),
        decreases rows@.len() - i,
    {
        let seen = seen_earlier(rows, i);
        let base = feature_id(rows[i].feature_name.as_str(), app_text.as_str());
        let id = if seen {
            let mut m = chars_of(base.as_str());
            extend_chars(&mut m, chars_of(":").as_slice());
            extend_chars(&mut m, chars_of(rows[i].evidence_key.as_str()).as_slice());
            proof {
                reveal_strlit(":");
            }
            string_from_chars(m.as_slice())
        } else {
            base
        };
        assert(id@ == stored_id(app_id, rv, i as int)) by {
            assert(rv[i as int] == (rows@[i as int].feature_name@, rows@[i as int].evidence_key@));
        }
        let ghost before = out@.map_values(|e: EvidenceEntry| entry_view(e));
        out.push(EvidenceEntry::Stored { row: i, evidence_id: id });
        assert(out@.map_values(|e: EvidenceEntry| entry_view(e)) =~= Seq::new(
            (i + 1) as nat,
            |k: int| EntryView::Stored(k, stored_id(app_id, rv, k)),
        )) by {
            assert(out@.map_values(|e: EvidenceEntry| entry_view(e)) =~= before.push(
                EntryView::Stored(i as int, id@),
            ));
        }
        i = i + 1;
    }
    push_profile(
        &mut out,
        app_text.as_str(),
        feature,
        rows,
        ProfileFeature::PrivateSession,
        facts.private_session,
        Ghost(app_id),
    );
    push_profile(
        &mut out,
        app_text.as_str(),
        feature,
        rows,
        ProfileFeature::SelfHostedServer,
        facts.self_hosted_server,
        Ghost(app_id),
    );
    push_profile(
        &mut out,
        app_text.as_str(),
        feature,
        rows,
        ProfileFeature::OnlineCoop,
        facts.online_coop,
        Ghost(app_id),
    );
    let ghost before = out@.map_values(|e: EvidenceEntry| entry_view(e));
    let asked = match feature {
        None => true,
        Some(s) => str_eq(s, "review_summary"),
    };
    proof {
        reveal_strlit("review_summary");
    }
    if asked {
        match facts.total_reviews {
            Some(total) => {
                let mut m = chars_of("review:");
                extend_chars(&mut m, chars_of(app_text.as_str()).as_slice());
                extend_chars(&mut m, chars_of(":summary").as_slice());
                proof {
                    reveal_strlit("review:");
                    reveal_strlit(":summary");
                }
                assert(m@ =~= "review:"@ + dec(app_id as nat) + ":summary"@);
                out.push(
                    EvidenceEntry::ReviewSummary {
                        total,
                        evidence_id: string_from_chars(m.as_slice()),
                    },
                );
                assert(out@.map_values(|e: EvidenceEntry| entry_view(e)) =~= before.push(
                    EntryView::ReviewSummary(total, "review:"@ + dec(app_id as nat) + ":summary"@),
                ));
            },
            None => {},
        }
    }
    assert(out@.map_values(|e: EvidenceEntry| entry_view(e)) =~= evidence_list(app_id, fv, rv, *facts));
    out
}

/// The public evidence list: each stored row, in order, under an id that
/// starts with "feature:", its feature and ":" and the app id (the first row
/// of a feature gets exactly that id); then a profile fact for private
/// sessions, self-hosted servers and online co-op, each only when the filter
/// asks for it ("private_session", "self_hosted_server", "online_coop", or no
/// filter), no row covers it and its value is known; then the review summary
/// "review:<app id>:summary" when asked for ("review_summary" or no filter)
/// and the review total is known. A filter naming none of these leaves only
/// the rows.
pub proof fn lemma_evidence_entries(
    app_id: u32,
    feature: Option<Seq<char>>,
    rows: Seq<(Seq<char>, Seq<char>)>,
    facts: GameEvidenceFacts,
)
    ensures
        ({
            let l = evidence_list(app_id, feature, rows, facts);
            let asked = |name: Seq<char>| feature is None || feature == Some(name);
            let pp = asked("private_session"@) && !has_feature(rows, "private_session"@) && facts.private_session is Some;
            let sh = asked("self_hosted_server"@) && !has_feature(rows, "self_hosted_server"@)
                && facts.self_hosted_server is Some;
            let oc = asked("online_coop"@) && !has_feature(rows, "online_coop"@) && facts.online_coop is Some;
            let rs = asked("review_summary"@) && facts.total_reviews is Some;
            let n = rows.len() as int;
            let c = |b: bool| if b { 1int } else { 0int };
            &&& l.len() == n + c(pp) + c(sh) + c(oc) + c(rs)
            &&& forall|i: int| 0 <= i < n ==> ((#[trigger] l[i]) matches EntryView::Stored(j, id) && j == i
                && seq_starts_with(id, "feature:"@ + rows[i].0 + ":"@ + dec(app_id as nat)))
            &&& forall|i: int| 0 <= i < n && !seen_before(rows, i) ==> (#[trigger] l[i]) == EntryView::Stored(
                i,
                "feature:"@ + rows[i].0 + ":"@ + dec(app_id as nat),
            )
            &&& pp ==> l[n] == EntryView::Profile(
                ProfileFeature::PrivateSession,
                facts.private_session->0,
                "feature:private_session:"@ + dec(app_id as nat),
            )
            &&& rs ==> l[l.len() - 1] == EntryView::ReviewSummary(
                facts.total_reviews->0,
                "review:"@ + dec(app_id as nat) + ":summary"@,
            )
        }),
{
    reveal_strlit("feature:");
    reveal_strlit(":");
    reveal_strlit("private_session");
    reveal_strlit("feature:private_session:");
    assert("feature:"@ + "private_session"@ + ":"@ =~= "feature:private_session:"@);
    let n = rows.len() as int;
    assert forall|i: int| 0 <= i < n implies ((#[trigger] evidence_list(app_id, feature, rows, facts)[i]) matches EntryView::Stored(j, id) && j == i
        && seq_starts_with(id, "feature:"@ + rows[i].0 + ":"@ + dec(app_id as nat))) by {
        let pre = "feature:"@ + rows[i].0 + ":"@ + dec(app_id as nat);
        let id = stored_id(app_id, rows, i);
        assert(id.subrange(0, pre.len() as int) =~= pre);
    }
    let pre_assoc = ("feature:"@ + "private_session"@ + ":"@) + dec(app_id as nat);
    assert(pre_assoc =~= "feature:private_session:"@ + dec(app_id as nat));
}

} // verus!
