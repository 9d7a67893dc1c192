//! How validation and sanitizing of a ranking answer relate: an answer that
//! validates passes the sanitizer untouched.
use vstd::prelude::*;
use crate::text::{lemma_trim_idempotent, trim};
use crate::validate::{
    all_evidence, checked_items, sanitize_spec, sanitized_items, sanitized_summary, summary_of,
    validate_spec, candidate_for, check_item, clean_item_json, evidence_set, field_of, first_outside, item_strings,
    kept, list_or_empty, looks_like_markup, root_string_list_spec, root_strings, sanitize_item,
    string_list_spec, strs_view, unit_bits, unit_field_spec, CandidateEvidence, JsonNumber,
    JsonView, RankItemView,
};

verus! {

/// A string as the list checks keep it: trimmed, not blank, at most
/// `max_chars` characters and free of markup.
pub open spec fn clean_text(t: Seq<char>, max_chars: nat) -> bool {
    &&& t.len() > 0
    &&& t.len() <= max_chars
    &&& !looks_like_markup(t)
    &&& trim(t) == t
}

/// Every string of `s` is clean.
pub open spec fn all_clean(s: Seq<Seq<char>>, max_chars: nat) -> bool {
    forall|i: int| 0 <= i < s.len() ==> clean_text(#[trigger] s[i], max_chars)
}

proof fn lemma_strs_view_drop_last(s: Seq<Seq<char>>)
    requires
        s.len() > 0,
    ensures
        strs_view(s).drop_last() == strs_view(s.drop_last()),
        strs_view(s).last() == JsonView::Str(s.last()),
        strs_view(s).len() == s.len(),
{
    assert(strs_view(s).drop_last() =~= strs_view(s.drop_last()));
}

/// What the candidate list check keeps: no more strings than elements, each
/// clean; and the same whatever position the message would name.
proof fn lemma_item_strings_ok(arr: Seq<JsonView>, idx: nat, other: nat, key: Seq<char>, max_chars: nat)
    requires
        item_strings(arr, idx, key, max_chars) is Ok,
    ensures
        item_strings(arr, other, key, max_chars) == item_strings(arr, idx, key, max_chars),
        item_strings(arr, idx, key, max_chars)->Ok_0.len() <= arr.len(),
        all_clean(item_strings(arr, idx, key, max_chars)->Ok_0, max_chars),
    decreases arr.len(),
{
    if arr.len() > 0 {
        lemma_item_strings_ok(arr.drop_last(), idx, other, key, max_chars);
        let out = item_strings(arr.drop_last(), idx, key, max_chars)->Ok_0;
        if let JsonView::Str(s) = arr.last() {
            lemma_trim_idempotent(s);
            let r = item_strings(arr, idx, key, max_chars)->Ok_0;
            assert forall|i: int| 0 <= i < r.len() implies clean_text(#[trigger] r[i], max_chars) by {
                if i < out.len() {
                    assert(r[i] == out[i]);
                }
            }
        }
    }
}

/// Clean strings written back as JSON strings pass the candidate list check
/// unchanged.
proof fn lemma_item_strings_clean(s: Seq<Seq<char>>, idx: nat, key: Seq<char>, max_chars: nat)
    requires
        all_clean(s, max_chars),
    ensures
        item_strings(strs_view(s), idx, key, max_chars) == Ok::<Seq<Seq<char>>, Seq<char>>(s),
    decreases s.len(),
{
    if s.len() > 0 {
        lemma_strs_view_drop_last(s);
        assert(all_clean(s.drop_last(), max_chars)) by {
            assert forall|i: int| 0 <= i < s.drop_last().len() implies clean_text(
                #[trigger] s.drop_last()[i],
                max_chars,
            ) by {
                assert(s.drop_last()[i] == s[i]);
            }
        }
        lemma_item_strings_clean(s.drop_last(), idx, key, max_chars);
        let x = s.last();
        assert(x == s[s.len() - 1]);
        assert(clean_text(x, max_chars));
        assert(trim(x) == x);
        assert(s.drop_last().push(x) =~= s);
    } else {
        assert(strs_view(s) =~= Seq::<JsonView>::empty());
        assert(s =~= Seq::<Seq<char>>::empty());
    }
}

/// What the root list check keeps: no more strings than elements, each clean.
proof fn lemma_root_strings_ok(arr: Seq<JsonView>, key: Seq<char>, max_chars: nat)
    requires
        root_strings(arr, key, max_chars) is Ok,
    ensures
        root_strings(arr, key, max_chars)->Ok_0.len() <= arr.len(),
        all_clean(root_strings(arr, key, max_chars)->Ok_0, max_chars),
    decreases arr.len(),
{
    if arr.len() > 0 {
        lemma_root_strings_ok(arr.drop_last(), key, max_chars);
        let out = root_strings(arr.drop_last(), key, max_chars)->Ok_0;
        if let JsonView::Str(s) = arr.last() {
            lemma_trim_idempotent(s);
            let r = root_strings(arr, key, max_chars)->Ok_0;
            assert forall|i: int| 0 <= i < r.len() implies clean_text(#[trigger] r[i], max_chars) by {
                if i < out.len() {
                    assert(r[i] == out[i]);
                }
            }
        }
    }
}

/// Clean strings written back as JSON strings pass the root list check
/// unchanged.
proof fn lemma_root_strings_clean(s: Seq<Seq<char>>, key: Seq<char>, max_chars: nat)
    requires
        all_clean(s, max_chars),
    ensures
        root_strings(strs_view(s), key, max_chars) == Ok::<Seq<Seq<char>>, Seq<char>>(s),
    decreases s.len(),
{
    if s.len() > 0 {
        lemma_strs_view_drop_last(s);
        assert(all_clean(s.drop_last(), max_chars)) by {
            assert forall|i: int| 0 <= i < s.drop_last().len() implies clean_text(
                #[trigger] s.drop_last()[i],
                max_chars,
            ) by {
                assert(s.drop_last()[i] == s[i]);
            }
        }
        lemma_root_strings_clean(s.drop_last(), key, max_chars);
        let x = s.last();
        assert(x == s[s.len() - 1]);
        assert(clean_text(x, max_chars));
        assert(trim(x) == x);
        assert(s.drop_last().push(x) =~= s);
    } else {
        assert(strs_view(s) =~= Seq::<JsonView>::empty());
        assert(s =~= Seq::<Seq<char>>::empty());
    }
}

/// The field found for `key` is the first one that carries it.
proof fn lemma_field_of_at(fields: Seq<(Seq<char>, JsonView)>, i: int, key: Seq<char>)
    requires
        0 <= i < fields.len(),
        fields[i].0 == key,
        forall|j: int| 0 <= j < i ==> (#[trigger] fields[j]).0 != key,
    ensures
        field_of(fields, key) == Some(fields[i].1),
    decreases i,
{
    if i > 0 {
        assert forall|j: int| 0 <= j < i - 1 implies (#[trigger] fields.drop_first()[j]).0 != key by {
            assert(fields.drop_first()[j] == fields[j + 1]);
        }
        assert(fields[0].0 != key);
        lemma_field_of_at(fields.drop_first(), i - 1, key);
    }
}

/// A list field that passes its check passes it at any position, keeps no
/// more strings than the array has, all clean.
proof fn lemma_string_list_ok(
    fields: Seq<(Seq<char>, JsonView)>,
    key: Seq<char>,
    idx: nat,
    other: nat,
    max_items: nat,
    max_chars: nat,
)
    requires
        string_list_spec(fields, key, idx, max_items, max_chars) is Ok,
    ensures
        string_list_spec(fields, key, other, max_items, max_chars) == string_list_spec(
            fields,
            key,
            idx,
            max_items,
            max_chars,
        ),
        string_list_spec(fields, key, idx, max_items, max_chars)->Ok_0.len() <= max_items,
        all_clean(string_list_spec(fields, key, idx, max_items, max_chars)->Ok_0, max_chars),
{
    match field_of(fields, key) {
        Some(JsonView::Array(a)) => {
            lemma_item_strings_ok(a, idx, other, key, max_chars);
        },
        _ => {
            assert(all_clean(Seq::<Seq<char>>::empty(), max_chars));
        },
    }
}

/// Clean strings, no more than `max_items`, written back as a JSON array
/// pass the list check unchanged.
proof fn lemma_string_list_clean(
    fields: Seq<(Seq<char>, JsonView)>,
    key: Seq<char>,
    s: Seq<Seq<char>>,
    idx: nat,
    max_items: nat,
    max_chars: nat,
)
    requires
        field_of(fields, key) == Some(JsonView::Array(strs_view(s))),
        s.len() <= max_items,
        all_clean(s, max_chars),
    ensures
        string_list_spec(fields, key, idx, max_items, max_chars) == Ok::<Seq<Seq<char>>, Seq<char>>(s),
{
    lemma_item_strings_clean(s, idx, key, max_chars);
}

/// The ids of a list none of which lies outside `allowed` are all kept.
proof fn lemma_kept_all(ids: Seq<Seq<char>>, allowed: Set<Seq<char>>)
    requires
        first_outside(ids, allowed) is None,
    ensures
        kept(ids, allowed) == ids,
        forall|i: int| 0 <= i < ids.len() ==> allowed.contains(#[trigger] ids[i]),
{
    lemma_first_outside_none(ids, allowed);
    lemma_kept_contained(ids, allowed);
}

proof fn lemma_first_outside_none(ids: Seq<Seq<char>>, allowed: Set<Seq<char>>)
    requires
        first_outside(ids, allowed) is None,
    ensures
        forall|i: int| 0 <= i < ids.len() ==> allowed.contains(#[trigger] ids[i]),
    decreases ids.len(),
{
    if ids.len() > 0 {
        lemma_first_outside_none(ids.drop_first(), allowed);
        assert forall|i: int| 0 <= i < ids.len() implies allowed.contains(#[trigger] ids[i]) by {
            if i > 0 {
                assert(ids[i] == ids.drop_first()[i - 1]);
            }
        }
    }
}

proof fn lemma_kept_contained(ids: Seq<Seq<char>>, allowed: Set<Seq<char>>)
    requires
        forall|i: int| 0 <= i < ids.len() ==> allowed.contains(#[trigger] ids[i]),
    ensures
        kept(ids, allowed) == ids,
    decreases ids.len(),
{
    if ids.len() > 0 {
        assert forall|i: int| 0 <= i < ids.drop_last().len() implies allowed.contains(
            #[trigger] ids.drop_last()[i],
        ) by {
            assert(ids.drop_last()[i] == ids[i]);
        }
        lemma_kept_contained(ids.drop_last(), allowed);
        assert(allowed.contains(ids[ids.len() - 1]));
        assert(ids.drop_last().push(ids.last()) =~= ids);
    } else {
        assert(ids =~= Seq::<Seq<char>>::empty());
    }
}

/// A score that passes its check is one whose bits pass it again.
pub open spec fn unit_ok(b: u64) -> bool {
    unit_bits(JsonNumber::Float(b)) == Some(b)
}

/// What a recommendation that passes its check satisfies.
pub open spec fn item_facts(v: RankItemView, cands: Seq<CandidateEvidence>) -> bool {
    &&& candidate_for(cands, v.app_id) is Some
    &&& unit_ok(v.fit_score_bits)
    &&& unit_ok(v.confidence_bits)
    &&& v.reasons.len() <= 6
    &&& all_clean(v.reasons, 240)
    &&& v.cautions.len() <= 4
    &&& all_clean(v.cautions, 240)
    &&& v.evidence.len() <= 12
    &&& all_clean(v.evidence, 120)
    &&& first_outside(v.evidence, evidence_set(candidate_for(cands, v.app_id)->0)) is None
    &&& !((v.reasons.len() > 0 || v.cautions.len() > 0) && v.evidence.len() == 0)
}

proof fn lemma_unit_field_ok(fields: Seq<(Seq<char>, JsonView)>, key: Seq<char>, idx: nat, other: nat)
    requires
        unit_field_spec(fields, key, idx) is Ok,
    ensures
        unit_field_spec(fields, key, other) == unit_field_spec(fields, key, idx),
        unit_ok(unit_field_spec(fields, key, idx)->Ok_0),
{
}

/// A recommendation that passes its check satisfies [`item_facts`], is not a
/// repeat, and the sanitizer keeps it as it is, stripping nothing.
proof fn lemma_check_item_facts(item: JsonView, idx: nat, cands: Seq<CandidateEvidence>, seen: Seq<u32>)
    requires
        check_item(item, idx, cands, seen) is Ok,
    ensures
        ({
            let v = check_item(item, idx, cands, seen)->Ok_0;
            &&& item_facts(v, cands)
            &&& !seen.contains(v.app_id)
            &&& sanitize_item(item, cands) == (Some(v), false)
        }),
{
    let v = check_item(item, idx, cands, seen)->Ok_0;
    let f = item->Object_0;
    let c = candidate_for(cands, v.app_id)->0;
    lemma_unit_field_ok(f, "fit_score"@, idx, 0);
    lemma_unit_field_ok(f, "confidence"@, idx, 0);
    lemma_string_list_ok(f, "reasons"@, idx, 0, 6, 240);
    lemma_string_list_ok(f, "cautions"@, idx, 0, 4, 240);
    lemma_string_list_ok(f, "reason_evidence_ids"@, idx, 0, 12, 120);
    lemma_kept_all(v.evidence, evidence_set(c));
    assert(list_or_empty(string_list_spec(f, "reason_evidence_ids"@, 0, 12, 120)) == v.evidence);
    assert(list_or_empty(string_list_spec(f, "reasons"@, 0, 6, 240)) == v.reasons);
    assert(list_or_empty(string_list_spec(f, "cautions"@, 0, 4, 240)) == v.cautions);
}

/// The fields of a cleaned recommendation, looked up by name.
proof fn lemma_clean_item_fields(v: RankItemView)
    ensures
        ({
            let f = clean_item_json(v)->Object_0;
            &&& field_of(f, "app_id"@) == Some(JsonView::Number(JsonNumber::PosInt(v.app_id as u64)))
            &&& field_of(f, "cautions"@) == Some(JsonView::Array(strs_view(v.cautions)))
            &&& field_of(f, "confidence"@) == Some(JsonView::Number(JsonNumber::Float(v.confidence_bits)))
            &&& field_of(f, "fit_score"@) == Some(JsonView::Number(JsonNumber::Float(v.fit_score_bits)))
            &&& field_of(f, "reason_evidence_ids"@) == Some(JsonView::Array(strs_view(v.evidence)))
            &&& field_of(f, "reasons"@) == Some(JsonView::Array(strs_view(v.reasons)))
        }),
{
    reveal_strlit("app_id");
    reveal_strlit("cautions");
    reveal_strlit("confidence");
    reveal_strlit("fit_score");
    reveal_strlit("reason_evidence_ids");
    reveal_strlit("reasons");
    let f = clean_item_json(v)->Object_0;
    assert(f[0].0 == "app_id"@);
    assert(f[1].0 == "cautions"@);
    assert(f[2].0 == "confidence"@);
    assert(f[3].0 == "fit_score"@);
    assert(f[4].0 == "reason_evidence_ids"@);
    assert(f[5].0 == "reasons"@);
    lemma_field_of_at(f, 0, "app_id"@);
    lemma_field_of_at(f, 1, "cautions"@);
    lemma_field_of_at(f, 2, "confidence"@);
    lemma_field_of_at(f, 3, "fit_score"@);
    lemma_field_of_at(f, 4, "reason_evidence_ids"@);
    lemma_field_of_at(f, 5, "reasons"@);
}

/// A recommendation satisfying [`item_facts`], written back as JSON, passes
/// its check unchanged at any position, after any other app ids.
proof fn lemma_clean_item_checks(v: RankItemView, idx: nat, cands: Seq<CandidateEvidence>, seen: Seq<u32>)
    requires
        item_facts(v, cands),
        !seen.contains(v.app_id),
    ensures
        check_item(clean_item_json(v), idx, cands, seen) == Ok::<RankItemView, Seq<char>>(v),
{
    let f = clean_item_json(v)->Object_0;
    lemma_clean_item_fields(v);
    lemma_string_list_clean(f, "reasons"@, v.reasons, idx, 6, 240);
    lemma_string_list_clean(f, "cautions"@, v.cautions, idx, 4, 240);
    lemma_string_list_clean(f, "reason_evidence_ids"@, v.evidence, idx, 12, 120);
    assert((v.app_id as u64) as u32 == v.app_id);
}

/// Recommendations that all pass their checks: the sanitizer keeps every one
/// as it is and strips nothing, and written back as JSON they pass again.
proof fn lemma_checked_items_roundtrip(recs: Seq<JsonView>, cands: Seq<CandidateEvidence>)
    requires
        checked_items(recs, cands) is Ok,
    ensures
        ({
            let items = checked_items(recs, cands)->Ok_0;
            &&& items.len() == recs.len()
            &&& sanitized_items(recs, cands) == (items, false)
            &&& checked_items(items.map_values(|x: RankItemView| clean_item_json(x)), cands) == Ok::<
                Seq<RankItemView>,
                Seq<char>,
            >(items)
        }),
    decreases recs.len(),
{
    let items = checked_items(recs, cands)->Ok_0;
    let clean = items.map_values(|x: RankItemView| clean_item_json(x));
    if recs.len() == 0 {
        assert(clean =~= Seq::<JsonView>::empty());
    } else {
        let prev = recs.drop_last();
        lemma_checked_items_roundtrip(prev, cands);
        let out = checked_items(prev, cands)->Ok_0;
        let seen = out.map_values(|x: RankItemView| x.app_id);
        let n = (recs.len() - 1) as nat;
        lemma_check_item_facts(recs.last(), n, cands, seen);
        let it = check_item(recs.last(), n, cands, seen)->Ok_0;
        assert(items == out.push(it));
        lemma_clean_item_checks(it, n, cands, seen);
        assert(clean.drop_last() =~= out.map_values(|x: RankItemView| clean_item_json(x)));
        assert(clean.last() == clean_item_json(it));
        assert(clean.len() == recs.len());
    }
}

/// A summary and its evidence that pass their checks are kept as they are,
/// stripping nothing.
proof fn lemma_summary_roundtrip(f: Seq<(Seq<char>, JsonView)>, cands: Seq<CandidateEvidence>)
    requires
        summary_of(f).len() <= 500,
        !looks_like_markup(summary_of(f)),
        root_string_list_spec(f, "summary_evidence_ids"@, 20, 120) is Ok,
        first_outside(root_string_list_spec(f, "summary_evidence_ids"@, 20, 120)->Ok_0, all_evidence(cands))
            is None,
        !(summary_of(f).len() > 0 && root_string_list_spec(f, "summary_evidence_ids"@, 20, 120)->Ok_0.len()
            == 0),
    ensures
        ({
            let ids = root_string_list_spec(f, "summary_evidence_ids"@, 20, 120)->Ok_0;
            &&& sanitized_summary(f, cands) == (summary_of(f), ids, false)
            &&& ids.len() <= 20
            &&& all_clean(ids, 120)
            &&& trim(summary_of(f)) == summary_of(f)
        }),
{
    let ids = root_string_list_spec(f, "summary_evidence_ids"@, 20, 120)->Ok_0;
    lemma_kept_all(ids, all_evidence(cands));
    match field_of(f, "summary_evidence_ids"@) {
        Some(JsonView::Array(a)) => {
            lemma_root_strings_ok(a, "summary_evidence_ids"@, 120);
        },
        _ => {},
    }
    match field_of(f, "summary"@) {
        Some(JsonView::Str(x)) => {
            lemma_trim_idempotent(x);
        },
        _ => {
            assert(trim(Seq::<char>::empty()) =~= Seq::<char>::empty());
        },
    }
}

/// An answer that passes validation passes the sanitizer untouched: nothing
/// is reported stripped, and the cleaned answer validates to the same result.
pub proof fn lemma_valid_answer_passes_sanitizer(v: JsonView, cands: Seq<CandidateEvidence>, max_items: nat)
    requires
        validate_spec(v, cands, max_items) is Ok,
    ensures
        sanitize_spec(v, cands) is Ok,
        !sanitize_spec(v, cands)->Ok_0.1,
        validate_spec(sanitize_spec(v, cands)->Ok_0.0, cands, max_items) == validate_spec(v, cands, max_items),
{
    let f = v->Object_0;
    let recs = field_of(f, "recommendations"@)->Some_0->Array_0;
    lemma_checked_items_roundtrip(recs, cands);
    lemma_summary_roundtrip(f, cands);
    let items = checked_items(recs, cands)->Ok_0;
    let summary = summary_of(f);
    let ids = root_string_list_spec(f, "summary_evidence_ids"@, 20, 120)->Ok_0;
    let clean = items.map_values(|x: RankItemView| clean_item_json(x));
    let sf = seq![
        ("recommendations"@, JsonView::Array(clean)),
        ("summary"@, JsonView::Str(summary)),
        ("summary_evidence_ids"@, JsonView::Array(strs_view(ids))),
    ];
    assert(sanitize_spec(v, cands) == Ok::<(JsonView, bool), Seq<char>>((JsonView::Object(sf), false)));
    reveal_strlit("recommendations");
    reveal_strlit("summary");
    reveal_strlit("summary_evidence_ids");
    assert(sf[0].0 == "recommendations"@);
    assert(sf[1].0 == "summary"@);
    assert(sf[2].0 == "summary_evidence_ids"@);
    lemma_field_of_at(sf, 0, "recommendations"@);
    lemma_field_of_at(sf, 1, "summary"@);
    lemma_field_of_at(sf, 2, "summary_evidence_ids"@);
    assert(summary_of(sf) == summary);
    lemma_root_strings_clean(ids, "summary_evidence_ids"@, 120);
    assert(root_string_list_spec(sf, "summary_evidence_ids"@, 20, 120) == Ok::<Seq<Seq<char>>, Seq<char>>(ids));
}

} // verus!
