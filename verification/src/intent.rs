//! Structured search intent and hard-constraint safety.
//!
//! Rule parsing is the safety baseline. AI intent may only add soft
//! preferences or high-confidence explicit fields; it never weakens or invents
//! hard filters for platforms, party size, budget or service state.
//!
//! The AI's confidence and the rules' co-op/competitive signal take part only
//! through the thresholds they cross, given here as [`ConfidenceBand`] and
//! [`CoopLean`].
use vstd::prelude::*;
use crate::ai_error::AiError;
use crate::ai_types::{copy_strings, views};
use crate::text::{chars_of, concat, owned, str_eq};

verus! {

pub const INTENT_PROMPT_VERSION: &'static str = "intent-v1";

/// The fields that may ever become hard filters, in order.
pub open spec fn hard_field_whitelist() -> Seq<Seq<char>> {
    seq![
        "party_size"@,
        "platforms"@,
        "budget"@,
        "session_minutes"@,
        "demo_required"@,
        "self_hosting"@,
    ]
}

/// `field` may become a hard filter.
pub fn is_whitelisted_field(field: &str) -> (r: bool)
    ensures
        r == hard_field_whitelist().contains(field@),
{
    proof {
        reveal_strlit("party_size");
        reveal_strlit("platforms");
        reveal_strlit("budget");
        reveal_strlit("session_minutes");
        reveal_strlit("demo_required");
        reveal_strlit("self_hosting");
    }
    let r = str_eq(field, "party_size") || str_eq(field, "platforms") || str_eq(field, "budget")
        || str_eq(field, "session_minutes") || str_eq(field, "demo_required") || str_eq(
        field,
        "self_hosting",
    );
    proof {
        let w = hard_field_whitelist();
        if r {
            if field@ == "party_size"@ {
                assert(w[0] == field@);
            } else if field@ == "platforms"@ {
                assert(w[1] == field@);
            } else if field@ == "budget"@ {
                assert(w[2] == field@);
            } else if field@ == "session_minutes"@ {
                assert(w[3] == field@);
            } else if field@ == "demo_required"@ {
                assert(w[4] == field@);
            } else {
                assert(w[5] == field@);
            }
        }
    }
    r
}

#[derive(Debug, Clone, PartialEq, Eq, Default)]
pub struct SessionMinutes {
    pub min: Option<u32>,
    pub max: Option<u32>,
}

#[derive(Debug, Clone, PartialEq, Eq, Default)]
pub struct BudgetIntent {
    pub currency: Option<String>,
    /// Minor units (e.g. CNY fen).
    pub max_each: Option<i64>,
}

/// How confident the AI said it was: below 0.75, from 0.75 up to 0.85, or
/// 0.85 and above.
#[derive(Debug, Clone, Copy, PartialEq, Eq, Structural)]
pub enum ConfidenceBand {
    Low,
    High,
    VeryHigh,
}

/// The rules' co-op/competitive signal: unknown, below 0.45 (co-op), above
/// 0.65 (competitive), or in between.
#[derive(Debug, Clone, Copy, PartialEq, Eq, Structural)]
pub enum CoopLean {
    Unknown,
    Coop,
    Competitive,
    Neutral,
}

/// The fields of a structured search intent (AI-produced or merged).
#[derive(Debug, Clone, PartialEq, Eq)]
pub struct IntentFields {
    pub party_size: Option<u8>,
    pub platforms: Vec<String>,
    pub modes_preferred: Vec<String>,
    pub modes_excluded: Vec<String>,
    pub session_minutes: Option<SessionMinutes>,
    pub budget: Option<BudgetIntent>,
    pub self_hosting: Option<String>,
    pub demo_required: Option<bool>,
    pub free_text_terms: Vec<String>,
    /// Fields that must be enforced as hard filters.
    pub hard_constraints: Vec<String>,
}

impl Default for IntentFields {
    fn default() -> (r: Self)
        ensures
            r.party_size is None,
            r.platforms@.len() == 0,
            r.modes_preferred@.len() == 0,
            r.modes_excluded@.len() == 0,
            r.session_minutes is None,
            r.budget is None,
            r.self_hosting is None,
            r.demo_required is None,
            r.free_text_terms@.len() == 0,
            r.hard_constraints@.len() == 0,
    {
        IntentFields {
            party_size: None,
            platforms: Vec::new(),
            modes_preferred: Vec::new(),
            modes_excluded: Vec::new(),
            session_minutes: None,
            budget: None,
            self_hosting: None,
            demo_required: None,
            free_text_terms: Vec::new(),
            hard_constraints: Vec::new(),
        }
    }
}

/// The deterministic rule baseline: the safety floor.
#[derive(Debug, Clone, PartialEq, Eq)]
pub struct RuleBaseline {
    pub party_size: Option<u8>,
    pub platforms: Vec<String>,
    pub session_minutes_max: Option<u32>,
    pub demo_required: bool,
    pub self_hosting_required: bool,
    pub coop: CoopLean,
}

impl Default for RuleBaseline {
    fn default() -> (r: Self)
        ensures
            r.party_size is None,
            r.platforms@.len() == 0,
            r.session_minutes_max is None,
            !r.demo_required,
            !r.self_hosting_required,
            r.coop == CoopLean::Unknown,
    {
        RuleBaseline {
            party_size: None,
            platforms: Vec::new(),
            session_minutes_max: None,
            demo_required: false,
            self_hosting_required: false,
            coop: CoopLean::Unknown,
        }
    }
}

/// `list` with `v` appended unless it is already there.
pub open spec fn with_unique(list: Seq<Seq<char>>, v: Seq<char>) -> Seq<Seq<char>> {
    if list.contains(v) {
        list
    } else {
        list.push(v)
    }
}

/// Append `value` to `list` unless an equal item is already there.
pub fn push_unique(list: &mut Vec<String>, value: String)
    ensures
        views(final(list)@) == with_unique(views(old(list)@), value@),
{
    let mut i: usize = 0;
    while i < list.len()
        invariant
            i <= list@.len(),
            forall|k: int| 0 <= k < i ==> (#[trigger] list@[k])@ != value@,
        decreases list@.len() - i,
    {
        if str_eq(list[i].as_str(), value.as_str()) {
            assert(views(list@)[i as int] == value@);
            return;
        }
        i = i + 1;
    }
    assert(!views(list@).contains(value@)) by {
        if views(list@).contains(value@) {
            let k = choose|k: int| 0 <= k < views(list@).len() && views(list@)[k] == value@;
            assert(list@[k]@ == value@);
        }
    }
    let ghost before = list@;
    list.push(value);
    assert(views(list@) =~= views(before).push(value@));
}

impl IntentFields {
    /// `field` is one of the hard constraints.
    pub fn is_hard(&self, field: &str) -> (r: bool)
        ensures
            r == views(self.hard_constraints@).contains(field@),
    {
        let mut i: usize = 0;
        while i < self.hard_constraints.len()
            invariant
                i <= self.hard_constraints@.len(),
                forall|k: int| 0 <= k < i ==> (#[trigger] self.hard_constraints@[k])@ != field@,
            decreases self.hard_constraints@.len() - i,
        {
            if str_eq(self.hard_constraints[i].as_str(), field) {
                assert(views(self.hard_constraints@)[i as int] == field@);
                return true;
            }
            i = i + 1;
        }
        assert(!views(self.hard_constraints@).contains(field@)) by {
            if views(self.hard_constraints@).contains(field@) {
                let k = choose|k: int|
                    0 <= k < views(self.hard_constraints@).len() && views(self.hard_constraints@)[k]
                        == field@;
                assert(self.hard_constraints@[k]@ == field@);
            }
        }
        false
    }
}

/// The view of an optional string.
pub open spec fn opt_str_view(s: Option<String>) -> Option<Seq<char>> {
    match s {
        Some(v) => Some(v@),
        None => None,
    }
}

/// The party size after merging: the rules' when they have one.
pub open spec fn merged_party_size(ai: IntentFields, rules: RuleBaseline) -> Option<u8> {
    match rules.party_size {
        Some(x) => Some(x),
        None => ai.party_size,
    }
}

/// The platforms after merging: the rules' unless they name none.
pub open spec fn merged_platforms(ai: IntentFields, rules: RuleBaseline) -> Seq<Seq<char>> {
    if rules.platforms@.len() == 0 {
        views(ai.platforms@)
    } else {
        views(rules.platforms@)
    }
}

/// The session length after merging: the rules' maximum replaces the AI's.
pub open spec fn merged_session(ai: IntentFields, rules: RuleBaseline) -> Option<SessionMinutes> {
    match rules.session_minutes_max {
        Some(max) => match ai.session_minutes {
            Some(s) => Some(SessionMinutes { min: s.min, max: Some(max) }),
            None => Some(SessionMinutes { min: None, max: Some(max) }),
        },
        None => ai.session_minutes,
    }
}

/// Self-hosting after merging: required when the rules require it.
pub open spec fn merged_self_hosting(ai: IntentFields, rules: RuleBaseline) -> Option<Seq<char>> {
    if rules.self_hosting_required {
        Some("required"@)
    } else {
        opt_str_view(ai.self_hosting)
    }
}

/// Demo requirement after merging: required when the rules require it.
pub open spec fn merged_demo(ai: IntentFields, rules: RuleBaseline) -> Option<bool> {
    if rules.demo_required {
        Some(true)
    } else {
        ai.demo_required
    }
}

/// The hard constraints the rules impose, in whitelist order.
pub open spec fn rule_hard_fields(rules: RuleBaseline) -> Seq<Seq<char>> {
    let s0: Seq<Seq<char>> = Seq::empty();
    let s1 = if rules.party_size is Some {
        with_unique(s0, "party_size"@)
    } else {
        s0
    };
    let s2 = if rules.platforms@.len() > 0 {
        with_unique(s1, "platforms"@)
    } else {
        s1
    };
    let s3 = if rules.session_minutes_max is Some {
        with_unique(s2, "session_minutes"@)
    } else {
        s2
    };
    let s4 = if rules.demo_required {
        with_unique(s3, "demo_required"@)
    } else {
        s3
    };
    if rules.self_hosting_required {
        with_unique(s4, "self_hosting"@)
    } else {
        s4
    }
}

/// The merged intent has a value for `field`.
pub open spec fn field_present(field: Seq<char>, ai: IntentFields, rules: RuleBaseline) -> bool {
    if field == "party_size"@ {
        merged_party_size(ai, rules) is Some
    } else if field == "platforms"@ {
        merged_platforms(ai, rules).len() > 0
    } else if field == "session_minutes"@ {
        merged_session(ai, rules) matches Some(s) && (s.min is Some || s.max is Some)
    } else if field == "budget"@ {
        ai.budget matches Some(b) && b.max_each is Some
    } else if field == "demo_required"@ {
        merged_demo(ai, rules) is Some
    } else if field == "self_hosting"@ {
        merged_self_hosting(ai, rules) is Some
    } else {
        false
    }
}

/// An AI hard constraint on `field` is kept: the field is whitelisted, the
/// AI is at least highly confident, party size and platforms the rules left
/// open and any budget need very high confidence, and the merged intent has
/// a value for the field.
pub open spec fn ai_hard_kept(
    field: Seq<char>,
    ai: IntentFields,
    band: ConfidenceBand,
    rules: RuleBaseline,
) -> bool {
    &&& hard_field_whitelist().contains(field)
    &&& band != ConfidenceBand::Low
    &&& !(field == "party_size"@ && rules.party_size is None && band != ConfidenceBand::VeryHigh)
    &&& !(field == "platforms"@ && rules.platforms@.len() == 0 && band != ConfidenceBand::VeryHigh)
    &&& !(field == "budget"@ && band != ConfidenceBand::VeryHigh)
    &&& field_present(field, ai, rules)
}

/// `acc` followed by the kept AI hard constraints among `fields`, without
/// repeats.
pub open spec fn with_ai_hard(
    acc: Seq<Seq<char>>,
    fields: Seq<Seq<char>>,
    ai: IntentFields,
    band: ConfidenceBand,
    rules: RuleBaseline,
) -> Seq<Seq<char>>
    decreases fields.len(),
{
    if fields.len() == 0 {
        acc
    } else {
        let prev = with_ai_hard(acc, fields.drop_last(), ai, band, rules);
        if ai_hard_kept(fields.last(), ai, band, rules) {
            with_unique(prev, fields.last())
        } else {
            prev
        }
    }
}

/// The soft preferred modes after merging.
pub open spec fn merged_preferred(ai: IntentFields, rules: RuleBaseline) -> Seq<Seq<char>> {
    match rules.coop {
        CoopLean::Coop => with_unique(views(ai.modes_preferred@), "private_coop"@),
        CoopLean::Competitive => with_unique(views(ai.modes_preferred@), "competitive"@),
        _ => views(ai.modes_preferred@),
    }
}

/// The soft excluded modes after merging.
pub open spec fn merged_excluded(ai: IntentFields, rules: RuleBaseline) -> Seq<Seq<char>> {
    match rules.coop {
        CoopLean::Coop => with_unique(views(ai.modes_excluded@), "matchmaking_competitive"@),
        _ => views(ai.modes_excluded@),
    }
}

/// `m` is the AI intent `ai` merged with the rule baseline `rules`.
pub open spec fn is_merge_of(
    m: IntentFields,
    ai: IntentFields,
    band: ConfidenceBand,
    rules: RuleBaseline,
) -> bool {
    &&& m.party_size == merged_party_size(ai, rules)
    &&& views(m.platforms@) == merged_platforms(ai, rules)
    &&& views(m.modes_preferred@) == merged_preferred(ai, rules)
    &&& views(m.modes_excluded@) == merged_excluded(ai, rules)
    &&& m.session_minutes == merged_session(ai, rules)
    &&& m.budget == ai.budget
    &&& opt_str_view(m.self_hosting) == merged_self_hosting(ai, rules)
    &&& m.demo_required == merged_demo(ai, rules)
    &&& m.free_text_terms == ai.free_text_terms
    &&& views(m.hard_constraints@) == with_ai_hard(
        rule_hard_fields(rules),
        views(ai.hard_constraints@),
        ai,
        band,
        rules,
    )
}

fn field_present_exec(field: &str, m: &IntentFields, ghost_ai: Ghost<IntentFields>, ghost_rules: Ghost<RuleBaseline>) -> (r: bool)
    requires
        m.party_size == merged_party_size(ghost_ai@, ghost_rules@),
        views(m.platforms@) == merged_platforms(ghost_ai@, ghost_rules@),
        m.session_minutes == merged_session(ghost_ai@, ghost_rules@),
        m.budget == ghost_ai@.budget,
        opt_str_view(m.self_hosting) == merged_self_hosting(ghost_ai@, ghost_rules@),
        m.demo_required == merged_demo(ghost_ai@, ghost_rules@),
    ensures
        r == field_present(field@, ghost_ai@, ghost_rules@),
{
    proof {
        reveal_strlit("party_size");
        reveal_strlit("platforms");
        reveal_strlit("budget");
        reveal_strlit("session_minutes");
        reveal_strlit("demo_required");
        reveal_strlit("self_hosting");
    }
    if str_eq(field, "party_size") {
        m.party_size.is_some()
    } else if str_eq(field, "platforms") {
        m.platforms.len() > 0
    } else if str_eq(field, "session_minutes") {
        match &m.session_minutes {
            Some(s) => s.min.is_some() || s.max.is_some(),
            None => false,
        }
    } else if str_eq(field, "budget") {
        match &m.budget {
            Some(b) => b.max_each.is_some(),
            None => false,
        }
    } else if str_eq(field, "demo_required") {
        m.demo_required.is_some()
    } else if str_eq(field, "self_hosting") {
        m.self_hosting.is_some()
    } else {
        false
    }
}

/// Merge an AI intent with the rule baseline so hard filters cannot be
/// weakened: rule facts always win; AI hard constraints below high confidence
/// are demoted to soft; the AI cannot make party size or platforms hard
/// where the rules say nothing, nor a budget, without very high confidence;
/// a hard constraint needs a value; soft modes may be added.
pub fn merge_intent_with_rules(ai: IntentFields, band: ConfidenceBand, rules: &RuleBaseline) -> (r: IntentFields)
    ensures
        is_merge_of(r, ai, band, *rules),
{
    let ghost ai0 = ai;
    let party_size = match rules.party_size {
        Some(x) => Some(x),
        None => ai.party_size,
    };
    let platforms = if rules.platforms.len() == 0 {
        copy_strings(&ai.platforms)
    } else {
        copy_strings(&rules.platforms)
    };
    let session_minutes = match rules.session_minutes_max {
        Some(max) => match ai.session_minutes {
            Some(s) => Some(SessionMinutes { min: s.min, max: Some(max) }),
            None => Some(SessionMinutes { min: None, max: Some(max) }),
        },
        None => ai.session_minutes,
    };
    let self_hosting = if rules.self_hosting_required {
        Some(owned("required"))
    } else {
        ai.self_hosting
    };
    let demo_required = if rules.demo_required {
        Some(true)
    } else {
        ai.demo_required
    };
    let mut merged = IntentFields {
        party_size,
        platforms,
        modes_preferred: ai.modes_preferred,
        modes_excluded: ai.modes_excluded,
        session_minutes,
        budget: ai.budget,
        self_hosting,
        demo_required,
        free_text_terms: ai.free_text_terms,
        hard_constraints: Vec::new(),
    };
    match rules.coop {
        CoopLean::Coop => {
            push_unique(&mut merged.modes_preferred, owned("private_coop"));
            push_unique(&mut merged.modes_excluded, owned("matchmaking_competitive"));
        },
        CoopLean::Competitive => {
            push_unique(&mut merged.modes_preferred, owned("competitive"));
        },
        _ => {},
    }
    let ghost h0 = views(merged.hard_constraints@);
    assert(h0 =~= Seq::<Seq<char>>::empty());
    if rules.party_size.is_some() {
        push_unique(&mut merged.hard_constraints, owned("party_size"));
    }
    if rules.platforms.len() > 0 {
        push_unique(&mut merged.hard_constraints, owned("platforms"));
    }
    if rules.session_minutes_max.is_some() {
        push_unique(&mut merged.hard_constraints, owned("session_minutes"));
    }
    if rules.demo_required {
        push_unique(&mut merged.hard_constraints, owned("demo_required"));
    }
    if rules.self_hosting_required {
        push_unique(&mut merged.hard_constraints, owned("self_hosting"));
    }
    let ghost base = views(merged.hard_constraints@);
    assert(base == rule_hard_fields(*rules));
    let high_confidence = match band {
        ConfidenceBand::Low => false,
        _ => true,
    };
    let very_high = match band {
        ConfidenceBand::VeryHigh => true,
        _ => false,
    };
    proof {
        reveal_strlit("party_size");
        reveal_strlit("platforms");
        reveal_strlit("budget");
    }
    let ai_hard = ai.hard_constraints;
    let ghost fields = views(ai_hard@);
    let mut i: usize = 0;
    while i < ai_hard.len()
        invariant
            i <= ai_hard@.len(),
            fields == views(ai_hard@),
            fields == views(ai0.hard_constraints@),
            high_confidence == (band != ConfidenceBand::Low),
            very_high == (band == ConfidenceBand::VeryHigh),
            merged.party_size == merged_party_size(ai0, *rules),
            views(merged.platforms@) == merged_platforms(ai0, *rules),
            merged.session_minutes == merged_session(ai0, *rules),
            merged.budget == ai0.budget,
            opt_str_view(merged.self_hosting) == merged_self_hosting(ai0, *rules),
            merged.demo_required == merged_demo(ai0, *rules),
            views(merged.modes_preferred@) == merged_preferred(ai0, *rules),
            views(merged.modes_excluded@) == merged_excluded(ai0, *rules),
            merged.free_text_terms == ai0.free_text_terms,
            views(merged.hard_constraints@) == with_ai_hard(
                rule_hard_fields(*rules),
                fields.take(i as int),
                ai0,
                band,
                *rules,
            ),
        decreases ai_hard@.len() - i,
    {
        let field = ai_hard[i].as_str();
        proof {
            assert(fields.take(i as int + 1).drop_last() =~= fields.take(i as int));
            assert(fields.take(i as int + 1).last() == field@);
        }
        let whitelisted = is_whitelisted_field(field);
        let blocked = !whitelisted || !high_confidence || (str_eq(field, "party_size")
            && rules.party_size.is_none() && !very_high) || (str_eq(field, "platforms")
            && rules.platforms.len() == 0 && !very_high) || (str_eq(field, "budget") && !very_high);
        if !blocked {
            let present = field_present_exec(field, &merged, Ghost(ai0), Ghost(*rules));
            if present {
                push_unique(&mut merged.hard_constraints, ai_hard[i].clone());
            }
        }
        i = i + 1;
    }
    proof {
        assert(fields.take(ai_hard@.len() as int) =~= fields);
    }
    merged
}

proof fn lemma_field_names()
    ensures
        "party_size"@.len() == 10,
        "platforms"@.len() == 9,
        "budget"@.len() == 6,
        "session_minutes"@.len() == 15,
        "demo_required"@.len() == 13,
        "self_hosting"@.len() == 12,
        "required"@.len() == 8,
{
    reveal_strlit("party_size");
    reveal_strlit("platforms");
    reveal_strlit("budget");
    reveal_strlit("session_minutes");
    reveal_strlit("demo_required");
    reveal_strlit("self_hosting");
    reveal_strlit("required");
}

proof fn lemma_with_unique(list: Seq<Seq<char>>, v: Seq<char>)
    ensures
        forall|x: Seq<char>| #[trigger] with_unique(list, v).contains(x) <==> list.contains(x) || x == v,
        list.no_duplicates() ==> with_unique(list, v).no_duplicates(),
{
    if !list.contains(v) {
        assert forall|x: Seq<char>| #[trigger] list.push(v).contains(x) <==> list.contains(x) || x == v by {
            if list.push(v).contains(x) {
                let k = choose|k: int| 0 <= k < list.push(v).len() && list.push(v)[k] == x;
                if k < list.len() {
                    assert(list[k] == x);
                }
            }
            if list.contains(x) {
                let k = choose|k: int| 0 <= k < list.len() && list[k] == x;
                assert(list.push(v)[k] == x);
            }
            if x == v {
                assert(list.push(v)[list.len() as int] == x);
            }
        }
        if list.no_duplicates() {
            assert forall|i: int, j: int| 0 <= i < list.push(v).len() && 0 <= j < list.push(v).len()
                && i != j implies list.push(v)[i] != list.push(v)[j] by {
                if i == list.len() {
                    assert(list[j] == list.push(v)[j]);
                } else if j == list.len() {
                    assert(list[i] == list.push(v)[i]);
                }
            }
        }
    }
}

proof fn lemma_with_ai_hard(
    acc: Seq<Seq<char>>,
    fields: Seq<Seq<char>>,
    ai: IntentFields,
    band: ConfidenceBand,
    rules: RuleBaseline,
)
    ensures
        forall|x: Seq<char>| #[trigger] with_ai_hard(acc, fields, ai, band, rules).contains(x)
            <==> acc.contains(x) || (fields.contains(x) && ai_hard_kept(x, ai, band, rules)),
        acc.no_duplicates() ==> with_ai_hard(acc, fields, ai, band, rules).no_duplicates(),
    decreases fields.len(),
{
    if fields.len() > 0 {
        let prev_fields = fields.drop_last();
        lemma_with_ai_hard(acc, prev_fields, ai, band, rules);
        let prev = with_ai_hard(acc, prev_fields, ai, band, rules);
        lemma_with_unique(prev, fields.last());
        assert forall|x: Seq<char>| #[trigger] fields.contains(x) <==> prev_fields.contains(x) || x
            == fields.last() by {
            if fields.contains(x) {
                let k = choose|k: int| 0 <= k < fields.len() && fields[k] == x;
                if k < fields.len() - 1 {
                    assert(prev_fields[k] == x);
                }
            }
            if prev_fields.contains(x) {
                let k = choose|k: int| 0 <= k < prev_fields.len() && prev_fields[k] == x;
                assert(fields[k] == x);
            }
            if x == fields.last() {
                assert(fields[fields.len() - 1] == x);
            }
        }
    }
}

proof fn lemma_rule_hard_fields(ai: IntentFields, rules: RuleBaseline)
    ensures
        rule_hard_fields(rules).no_duplicates(),
        forall|x: Seq<char>| #[trigger] rule_hard_fields(rules).contains(x) ==> hard_field_whitelist().contains(x)
            && field_present(x, ai, rules),
        rules.party_size is Some ==> rule_hard_fields(rules).contains("party_size"@),
        rules.platforms@.len() > 0 ==> rule_hard_fields(rules).contains("platforms"@),
        rules.session_minutes_max is Some ==> rule_hard_fields(rules).contains("session_minutes"@),
        rules.demo_required ==> rule_hard_fields(rules).contains("demo_required"@),
        rules.self_hosting_required ==> rule_hard_fields(rules).contains("self_hosting"@),
        forall|x: Seq<char>| #[trigger] rule_hard_fields(rules).contains(x) <==> rule_hard_name(x, rules),
{
    reveal_strlit("party_size");
    reveal_strlit("platforms");
    reveal_strlit("budget");
    reveal_strlit("session_minutes");
    reveal_strlit("demo_required");
    reveal_strlit("self_hosting");
    reveal_strlit("required");
    lemma_field_names();
    let w = hard_field_whitelist();
    assert(w[0] == "party_size"@ && w[1] == "platforms"@ && w[3] == "session_minutes"@ && w[4]
        == "demo_required"@ && w[5] == "self_hosting"@);
    let s0: Seq<Seq<char>> = Seq::empty();
    let s1 = if rules.party_size is Some {
        with_unique(s0, "party_size"@)
    } else {
        s0
    };
    let s2 = if rules.platforms@.len() > 0 {
        with_unique(s1, "platforms"@)
    } else {
        s1
    };
    let s3 = if rules.session_minutes_max is Some {
        with_unique(s2, "session_minutes"@)
    } else {
        s2
    };
    let s4 = if rules.demo_required {
        with_unique(s3, "demo_required"@)
    } else {
        s3
    };
    let s5 = if rules.self_hosting_required {
        with_unique(s4, "self_hosting"@)
    } else {
        s4
    };
    assert(s0.no_duplicates());
    lemma_with_unique(s0, "party_size"@);
    lemma_with_unique(s1, "platforms"@);
    lemma_with_unique(s2, "session_minutes"@);
    lemma_with_unique(s3, "demo_required"@);
    lemma_with_unique(s4, "self_hosting"@);
    assert(s5 == rule_hard_fields(rules));
    assert forall|x: Seq<char>| #[trigger] s5.contains(x) <==> rule_hard_name(x, rules) by {
        assert(s1.contains(x) <==> (rules.party_size is Some && x == "party_size"@));
        assert(s2.contains(x) <==> s1.contains(x) || (rules.platforms@.len() > 0 && x == "platforms"@));
        assert(s3.contains(x) <==> s2.contains(x) || (rules.session_minutes_max is Some && x == "session_minutes"@));
        assert(s4.contains(x) <==> s3.contains(x) || (rules.demo_required && x == "demo_required"@));
    }
    assert forall|x: Seq<char>| #[trigger] s5.contains(x) implies hard_field_whitelist().contains(x)
        && field_present(x, ai, rules) by {
        if x == "party_size"@ {
            assert(w[0] == x);
        } else if x == "platforms"@ {
            assert(w[1] == x);
            assert(views(rules.platforms@).len() == rules.platforms@.len());
        } else if x == "session_minutes"@ {
            assert(w[3] == x);
        } else if x == "demo_required"@ {
            assert(w[4] == x);
        } else {
            assert(w[5] == x);
        }
    }
}

/// `x` names a fact the rules establish.
pub open spec fn rule_hard_name(x: Seq<char>, rules: RuleBaseline) -> bool {
    ||| (rules.party_size is Some && x == "party_size"@)
    ||| (rules.platforms@.len() > 0 && x == "platforms"@)
    ||| (rules.session_minutes_max is Some && x == "session_minutes"@)
    ||| (rules.demo_required && x == "demo_required"@)
    ||| (rules.self_hosting_required && x == "self_hosting"@)
}

/// Rule facts always win: every fact the rules establish is in the merged
/// intent with the rules' value and is a hard constraint.
pub proof fn lemma_rule_facts_win(
    m: IntentFields,
    ai: IntentFields,
    band: ConfidenceBand,
    rules: RuleBaseline,
)
    requires
        is_merge_of(m, ai, band, rules),
    ensures
        rules.party_size is Some ==> m.party_size == rules.party_size && views(
            m.hard_constraints@,
        ).contains("party_size"@),
        rules.platforms@.len() > 0 ==> views(m.platforms@) == views(rules.platforms@) && views(
            m.hard_constraints@,
        ).contains("platforms"@),
        rules.session_minutes_max matches Some(max) ==> (m.session_minutes matches Some(s)
            && s.max == Some(max)) && views(m.hard_constraints@).contains("session_minutes"@),
        rules.demo_required ==> m.demo_required == Some(true) && views(
            m.hard_constraints@,
        ).contains("demo_required"@),
        rules.self_hosting_required ==> opt_str_view(m.self_hosting) == Some("required"@)
            && views(m.hard_constraints@).contains("self_hosting"@),
{
    lemma_rule_hard_fields(ai, rules);
    lemma_with_ai_hard(rule_hard_fields(rules), views(ai.hard_constraints@), ai, band, rules);
}

/// Hard constraints are safe: each is whitelisted, named once and has a
/// value; below high confidence the AI adds none; the AI makes a budget hard
/// only with very high confidence, and party size or platforms the rules left
/// open only with very high confidence.
pub proof fn lemma_hard_constraints_safe(
    m: IntentFields,
    ai: IntentFields,
    band: ConfidenceBand,
    rules: RuleBaseline,
)
    requires
        is_merge_of(m, ai, band, rules),
    ensures
        views(m.hard_constraints@).no_duplicates(),
        forall|x: Seq<char>| #[trigger] views(m.hard_constraints@).contains(x)
            ==> hard_field_whitelist().contains(x) && field_present(x, ai, rules),
        band == ConfidenceBand::Low ==> forall|x: Seq<char>|
            #[trigger] views(m.hard_constraints@).contains(x) <==> rule_hard_fields(rules).contains(x),
        views(m.hard_constraints@).contains("budget"@) ==> band == ConfidenceBand::VeryHigh,
        views(m.hard_constraints@).contains("party_size"@) && rules.party_size is None ==> band
            == ConfidenceBand::VeryHigh,
        views(m.hard_constraints@).contains("platforms"@) && rules.platforms@.len() == 0 ==> band
            == ConfidenceBand::VeryHigh,
{
    reveal_strlit("party_size");
    reveal_strlit("platforms");
    reveal_strlit("budget");
    reveal_strlit("session_minutes");
    reveal_strlit("demo_required");
    reveal_strlit("self_hosting");
    lemma_field_names();
    lemma_rule_hard_fields(ai, rules);
    lemma_with_ai_hard(rule_hard_fields(rules), views(ai.hard_constraints@), ai, band, rules);
}

/// The AI's hard constraints are not dropped without cause: with very high
/// confidence each whitelisted one that the merged intent has a value for
/// stays hard; with high confidence so does each such one other than a
/// budget, and than a party size or platforms the rules left open.
pub proof fn lemma_confident_hard_constraints_kept(
    m: IntentFields,
    ai: IntentFields,
    band: ConfidenceBand,
    rules: RuleBaseline,
    x: Seq<char>,
)
    requires
        is_merge_of(m, ai, band, rules),
        views(ai.hard_constraints@).contains(x),
        hard_field_whitelist().contains(x),
        field_present(x, ai, rules),
    ensures
        band == ConfidenceBand::VeryHigh ==> views(m.hard_constraints@).contains(x),
        band == ConfidenceBand::High && x != "budget"@ && !(x == "party_size"@ && rules.party_size is None)
            && !(x == "platforms"@ && rules.platforms@.len() == 0) ==> views(m.hard_constraints@).contains(x),
{
    lemma_with_ai_hard(rule_hard_fields(rules), views(ai.hard_constraints@), ai, band, rules);
}

/// The platforms an intent may name.
pub open spec fn known_platform(p: Seq<char>) -> bool {
    p == "windows"@ || p == "macos"@ || p == "linux"@ || p == "steamdeck"@
}

/// The self-hosting values an intent may hold.
pub open spec fn known_self_hosting(p: Seq<char>) -> bool {
    p == "required"@ || p == "optional"@ || p == "excluded"@
}

/// The first item of `items` that `ok` rejects.
pub open spec fn first_rejected(items: Seq<Seq<char>>, ok: spec_fn(Seq<char>) -> bool) -> Option<Seq<char>>
    decreases items.len(),
{
    if items.len() == 0 {
        None
    } else {
        match first_rejected(items.drop_last(), ok) {
            Some(x) => Some(x),
            None => if ok(items.last()) {
                None
            } else {
                Some(items.last())
            },
        }
    }
}

/// Why the intent's shape is invalid, checked in order, or `None`.
pub open spec fn intent_shape_problem(i: IntentFields) -> Option<Seq<char>> {
    let bad_platform = first_rejected(views(i.platforms@), |p: Seq<char>| known_platform(p));
    let bad_field = first_rejected(
        views(i.hard_constraints@),
        |f: Seq<char>| hard_field_whitelist().contains(f),
    );
    if i.party_size matches Some(size) && !(1 <= size <= 64) {
        Some("intent.party_size must be 1..=64"@)
    } else if bad_platform is Some {
        Some("unsupported platform '"@ + bad_platform->0 + "'"@)
    } else if bad_field is Some {
        Some("hard_constraints field '"@ + bad_field->0 + "' is not allowed"@)
    } else if i.self_hosting matches Some(sh) && !known_self_hosting(sh@) {
        Some("unsupported self_hosting '"@ + i.self_hosting->0@ + "'"@)
    } else if i.free_text_terms@.len() > 12 {
        Some("free_text_terms exceeds 12 entries"@)
    } else if exists|k: int|
        0 <= k < i.free_text_terms@.len() && (#[trigger] i.free_text_terms@[k])@.len() > 80 {
        Some("free_text_terms entry exceeds 80 chars"@)
    } else {
        None
    }
}

proof fn lemma_first_rejected_prefix(items: Seq<Seq<char>>, ok: spec_fn(Seq<char>) -> bool, n: int)
    requires
        0 <= n <= items.len(),
        first_rejected(items.take(n), ok) is Some,
    ensures
        first_rejected(items, ok) == first_rejected(items.take(n), ok),
    decreases items.len() - n,
{
    if n < items.len() {
        assert(items.take(n + 1).drop_last() =~= items.take(n));
        lemma_first_rejected_prefix(items, ok, n + 1);
    } else {
        assert(items.take(n) =~= items);
    }
}

fn is_known_platform(p: &str) -> (r: bool)
    ensures
        r == known_platform(p@),
{
    str_eq(p, "windows") || str_eq(p, "macos") || str_eq(p, "linux") || str_eq(p, "steamdeck")
}

fn quoted(head: &str, item: &str, tail: &str) -> (r: String)
    ensures
        r@ == head@ + item@ + tail@,
{
    let a = concat(head, item);
    concat(a.as_str(), tail)
}

/// Check the shape of an AI intent; the caller checks the confidence first.
pub fn validate_intent_shape(intent: &IntentFields) -> (r: Result<(), AiError>)
    ensures
        r is Ok <==> intent_shape_problem(*intent) is None,
        r matches Err(e) ==> e matches AiError::InvalidOutput(msg) && msg@ == intent_shape_problem(*intent)->0,
{
    if let Some(size) = intent.party_size {
        if !(1 <= size && size <= 64) {
            return Err(AiError::InvalidOutput(owned("intent.party_size must be 1..=64")));
        }
    }
    let ghost pv = views(intent.platforms@);
    let mut i: usize = 0;
    while i < intent.platforms.len()
        invariant
            i <= intent.platforms@.len(),
            pv == views(intent.platforms@),
            first_rejected(pv.take(i as int), |p: Seq<char>| known_platform(p)) is None,
            !(intent.party_size matches Some(size) && !(1 <= size <= 64)),
        decreases intent.platforms@.len() - i,
    {
        assert(pv.take(i as int + 1).drop_last() =~= pv.take(i as int));
        assert(pv.take(i as int + 1).last() == intent.platforms@[i as int]@);
        if !is_known_platform(intent.platforms[i].as_str()) {
            proof {
                lemma_first_rejected_prefix(pv, |p: Seq<char>| known_platform(p), i as int + 1);
            }
            return Err(
                AiError::InvalidOutput(
                    quoted("unsupported platform '", intent.platforms[i].as_str(), "'"),
                ),
            );
        }
        i = i + 1;
    }
    assert(pv.take(i as int) =~= pv);
    let ghost hv = views(intent.hard_constraints@);
    let mut i: usize = 0;
    while i < intent.hard_constraints.len()
        invariant
            i <= intent.hard_constraints@.len(),
            hv == views(intent.hard_constraints@),
            first_rejected(hv.take(i as int), |f: Seq<char>| hard_field_whitelist().contains(f)) is None,
            !(intent.party_size matches Some(size) && !(1 <= size <= 64)),
            first_rejected(views(intent.platforms@), |p: Seq<char>| known_platform(p)) is None,
        decreases intent.hard_constraints@.len() - i,
    {
        assert(hv.take(i as int + 1).drop_last() =~= hv.take(i as int));
        assert(hv.take(i as int + 1).last() == intent.hard_constraints@[i as int]@);
        if !is_whitelisted_field(intent.hard_constraints[i].as_str()) {
            proof {
                lemma_first_rejected_prefix(
                    hv,
                    |f: Seq<char>| hard_field_whitelist().contains(f),
                    i as int + 1,
                );
            }
            return Err(
                AiError::InvalidOutput(
                    quoted(
                        "hard_constraints field '",
                        intent.hard_constraints[i].as_str(),
                        "' is not allowed",
                    ),
                ),
            );
        }
        i = i + 1;
    }
    assert(hv.take(i as int) =~= hv);
    if let Some(sh) = &intent.self_hosting {
        let s = sh.as_str();
        if !(str_eq(s, "required") || str_eq(s, "optional") || str_eq(s, "excluded")) {
            return Err(AiError::InvalidOutput(quoted("unsupported self_hosting '", s, "'")));
        }
    }
    if intent.free_text_terms.len() > 12 {
        return Err(AiError::InvalidOutput(owned("free_text_terms exceeds 12 entries")));
    }
    let mut i: usize = 0;
    while i < intent.free_text_terms.len()
        invariant
            i <= intent.free_text_terms@.len(),
            forall|k: int| 0 <= k < i ==> (#[trigger] intent.free_text_terms@[k])@.len() <= 80,
            !(intent.party_size matches Some(size) && !(1 <= size <= 64)),
            first_rejected(views(intent.platforms@), |p: Seq<char>| known_platform(p)) is None,
            first_rejected(views(intent.hard_constraints@), |f: Seq<char>| hard_field_whitelist().contains(f)) is None,
            !(intent.self_hosting matches Some(sh) && !known_self_hosting(sh@)),
            intent.free_text_terms@.len() <= 12,
        decreases intent.free_text_terms@.len() - i,
    {
        let term = chars_of(intent.free_text_terms[i].as_str());
        if term.len() > 80 {
            return Err(AiError::InvalidOutput(owned("free_text_terms entry exceeds 80 chars")));
        }
        i = i + 1;
    }
    Ok(())
}

/// The soft modes after merging: every mode the AI preferred or excluded is
/// kept; a co-op lean of the rules adds "private_coop" to the preferred and
/// "matchmaking_competitive" to the excluded modes, a competitive lean adds
/// "competitive" to the preferred ones; nothing else is added.
pub proof fn lemma_merge_modes(m: IntentFields, ai: IntentFields, band: ConfidenceBand, rules: RuleBaseline)
    requires
        is_merge_of(m, ai, band, rules),
    ensures
        forall|x: Seq<char>|
            #[trigger] views(m.modes_preferred@).contains(x) <==> (views(ai.modes_preferred@).contains(x)
                || (rules.coop == CoopLean::Coop && x == "private_coop"@) || (rules.coop
                == CoopLean::Competitive && x == "competitive"@)),
        forall|x: Seq<char>|
            #[trigger] views(m.modes_excluded@).contains(x) <==> (views(ai.modes_excluded@).contains(x)
                || (rules.coop == CoopLean::Coop && x == "matchmaking_competitive"@)),
{
    lemma_with_unique(views(ai.modes_preferred@), "private_coop"@);
    lemma_with_unique(views(ai.modes_preferred@), "competitive"@);
    lemma_with_unique(views(ai.modes_excluded@), "matchmaking_competitive"@);
}

/// Where the rules say nothing, the AI's values are kept: its party size,
/// platforms, session bounds, demo and self-hosting wishes; its budget and
/// free-text terms are always kept; a rule maximum on session length keeps the
/// AI's minimum.
pub proof fn lemma_merge_keeps_ai_values(m: IntentFields, ai: IntentFields, band: ConfidenceBand, rules: RuleBaseline)
    requires
        is_merge_of(m, ai, band, rules),
    ensures
        rules.party_size is None ==> m.party_size == ai.party_size,
        rules.platforms@.len() == 0 ==> views(m.platforms@) == views(ai.platforms@),
        rules.session_minutes_max is None ==> m.session_minutes == ai.session_minutes,
        rules.session_minutes_max is Some ==> (m.session_minutes matches Some(s) && s.min == match ai.session_minutes {
            Some(a) => a.min,
            None => None,
        }),
        !rules.demo_required ==> m.demo_required == ai.demo_required,
        !rules.self_hosting_required ==> opt_str_view(m.self_hosting) == opt_str_view(ai.self_hosting),
        m.budget == ai.budget,
        m.free_text_terms == ai.free_text_terms,
{
}

proof fn lemma_first_rejected_none(items: Seq<Seq<char>>, ok: spec_fn(Seq<char>) -> bool)
    ensures
        first_rejected(items, ok) is None <==> forall|i: int| 0 <= i < items.len() ==> ok(#[trigger] items[i]),
    decreases items.len(),
{
    if items.len() > 0 {
        let prev = items.drop_last();
        lemma_first_rejected_none(prev, ok);
        if forall|i: int| 0 <= i < items.len() ==> ok(#[trigger] items[i]) {
            assert forall|i: int| 0 <= i < prev.len() implies ok(#[trigger] prev[i]) by {
                assert(prev[i] == items[i]);
            }
            assert(ok(items[items.len() - 1]));
        }
        if first_rejected(items, ok) is None {
            assert forall|i: int| 0 <= i < items.len() implies ok(#[trigger] items[i]) by {
                if i < items.len() - 1 {
                    assert(prev[i] == items[i]);
                }
            }
        }
    }
}

/// An AI intent has a valid shape exactly when its party size, if given, is
/// 1 to 64; every platform is "windows", "macos", "linux" or "steamdeck";
/// every hard constraint is "party_size", "platforms", "budget",
/// "session_minutes", "demo_required" or "self_hosting"; its self-hosting
/// wish, if given, is "required", "optional" or "excluded"; and it has at
/// most 12 free-text terms of at most 80 characters each.
pub proof fn lemma_intent_shape(i: IntentFields)
    ensures
        intent_shape_problem(i) is None <==> {
            &&& !(i.party_size matches Some(size) && !(1 <= size <= 64))
            &&& forall|k: int| 0 <= k < i.platforms@.len() ==> {
                let p = (#[trigger] i.platforms@[k])@;
                p == "windows"@ || p == "macos"@ || p == "linux"@ || p == "steamdeck"@
            }
            &&& forall|k: int| 0 <= k < i.hard_constraints@.len() ==> {
                let f = (#[trigger] i.hard_constraints@[k])@;
                f == "party_size"@ || f == "platforms"@ || f == "budget"@ || f == "session_minutes"@
                    || f == "demo_required"@ || f == "self_hosting"@
            }
            &&& !(i.self_hosting matches Some(sh) && !(sh@ == "required"@ || sh@ == "optional"@ || sh@ == "excluded"@))
            &&& i.free_text_terms@.len() <= 12
            &&& forall|k: int| 0 <= k < i.free_text_terms@.len() ==> (#[trigger] i.free_text_terms@[k])@.len() <= 80
        },
{
    let pv = views(i.platforms@);
    let hv = views(i.hard_constraints@);
    let okp = |p: Seq<char>| known_platform(p);
    let okh = |f: Seq<char>| hard_field_whitelist().contains(f);
    lemma_first_rejected_none(pv, okp);
    lemma_first_rejected_none(hv, okh);
    assert forall|k: int| 0 <= k < i.platforms@.len() implies #[trigger] pv[k] == i.platforms@[k]@ by {}
    assert forall|k: int| 0 <= k < i.hard_constraints@.len() implies #[trigger] hv[k] == i.hard_constraints@[k]@ by {}
    reveal_strlit("party_size");
    reveal_strlit("platforms");
    reveal_strlit("budget");
    reveal_strlit("session_minutes");
    reveal_strlit("demo_required");
    reveal_strlit("self_hosting");
    let w = hard_field_whitelist();
    assert forall|f: Seq<char>| w.contains(f) <==> (f == "party_size"@ || f == "platforms"@ || f == "budget"@
        || f == "session_minutes"@ || f == "demo_required"@ || f == "self_hosting"@) by {
        if w.contains(f) {
            let j = choose|j: int| 0 <= j < w.len() && w[j] == f;
            if j == 0 {} else if j == 1 {} else if j == 2 {} else if j == 3 {} else if j == 4 {} else {}
        }
        if f == "party_size"@ { assert(w[0] == f); }
        if f == "platforms"@ { assert(w[1] == f); }
        if f == "budget"@ { assert(w[2] == f); }
        if f == "session_minutes"@ { assert(w[3] == f); }
        if f == "demo_required"@ { assert(w[4] == f); }
        if f == "self_hosting"@ { assert(w[5] == f); }
    }
    if forall|k: int| 0 <= k < i.platforms@.len() ==> {
        let p = (#[trigger] i.platforms@[k])@;
        p == "windows"@ || p == "macos"@ || p == "linux"@ || p == "steamdeck"@
    } {
        assert forall|k: int| 0 <= k < pv.len() implies okp(#[trigger] pv[k]) by {
            assert(pv[k] == i.platforms@[k]@);
        }
    }
    if forall|k: int| 0 <= k < pv.len() ==> okp(#[trigger] pv[k]) {
        assert forall|k: int| 0 <= k < i.platforms@.len() implies {
            let p = (#[trigger] i.platforms@[k])@;
            p == "windows"@ || p == "macos"@ || p == "linux"@ || p == "steamdeck"@
        } by {
            assert(okp(pv[k]));
        }
    }
    if forall|k: int| 0 <= k < i.hard_constraints@.len() ==> {
        let f = (#[trigger] i.hard_constraints@[k])@;
        f == "party_size"@ || f == "platforms"@ || f == "budget"@ || f == "session_minutes"@ || f == "demo_required"@
            || f == "self_hosting"@
    } {
        assert forall|k: int| 0 <= k < hv.len() implies okh(#[trigger] hv[k]) by {
            assert(hv[k] == i.hard_constraints@[k]@);
        }
    }
    if forall|k: int| 0 <= k < hv.len() ==> okh(#[trigger] hv[k]) {
        assert forall|k: int| 0 <= k < i.hard_constraints@.len() implies {
            let f = (#[trigger] i.hard_constraints@[k])@;
            f == "party_size"@ || f == "platforms"@ || f == "budget"@ || f == "session_minutes"@
                || f == "demo_required"@ || f == "self_hosting"@
        } by {
            assert(okh(hv[k]));
        }
    }
}

} // verus!
