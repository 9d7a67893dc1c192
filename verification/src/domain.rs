//! Shared domain vocabulary: feed sections, feedback kinds and the candidate
//! facts used for preference filtering.
use vstd::prelude::*;
use crate::ai_types::views;
use crate::text::{chars_of, extend_chars, owned, str_eq, string_from_chars, trim, trim_chars};
use crate::validate::unit_float_bits;

verus! {

pub type SteamAppId = u32;

#[derive(Debug, Clone, Copy, PartialEq, Eq, Hash, Structural)]
pub enum FeedSection {
    RecentRelease,
    Upcoming,
    PopularLegacy,
    ClassicLegacy,
}

/// The wire name of a feed section.
pub open spec fn section_name(s: FeedSection) -> Seq<char> {
    match s {
        FeedSection::RecentRelease => "recent_release"@,
        FeedSection::Upcoming => "upcoming"@,
        FeedSection::PopularLegacy => "popular_legacy"@,
        FeedSection::ClassicLegacy => "classic_legacy"@,
    }
}

/// The section whose wire name is `s`.
pub open spec fn section_named(s: Seq<char>) -> Option<FeedSection> {
    if s == "recent_release"@ {
        Some(FeedSection::RecentRelease)
    } else if s == "upcoming"@ {
        Some(FeedSection::Upcoming)
    } else if s == "popular_legacy"@ {
        Some(FeedSection::PopularLegacy)
    } else if s == "classic_legacy"@ {
        Some(FeedSection::ClassicLegacy)
    } else {
        None
    }
}

impl FeedSection {
    /// Every section, in display order.
    pub const ALL: [FeedSection; 4] = [
        FeedSection::RecentRelease,
        FeedSection::Upcoming,
        FeedSection::PopularLegacy,
        FeedSection::ClassicLegacy,
    ];

    pub fn as_str(self) -> (r: &'static str)
        ensures
            r@ == section_name(self),
    {
        match self {
            FeedSection::RecentRelease => "recent_release",
            FeedSection::Upcoming => "upcoming",
            FeedSection::PopularLegacy => "popular_legacy",
            FeedSection::ClassicLegacy => "classic_legacy",
        }
    }

    pub fn parse(value: &str) -> (r: Option<FeedSection>)
        ensures
            r == section_named(value@),
    {
        if str_eq(value, "recent_release") {
            Some(FeedSection::RecentRelease)
        } else if str_eq(value, "upcoming") {
            Some(FeedSection::Upcoming)
        } else if str_eq(value, "popular_legacy") {
            Some(FeedSection::PopularLegacy)
        } else if str_eq(value, "classic_legacy") {
            Some(FeedSection::ClassicLegacy)
        } else {
            None
        }
    }
}

/// A section's wire name parses back to the section, and only wire names
/// parse.
pub proof fn lemma_section_names_roundtrip(s: FeedSection, name: Seq<char>)
    ensures
        section_named(section_name(s)) == Some(s),
        section_named(name) matches Some(t) ==> section_name(t) == name,
{
    reveal_strlit("recent_release");
    reveal_strlit("upcoming");
    reveal_strlit("popular_legacy");
    reveal_strlit("classic_legacy");
    assert("recent_release"@[0] == 'r' && "upcoming"@[0] == 'u' && "popular_legacy"@[0] == 'p'
        && "classic_legacy"@[0] == 'c');
    assert("recent_release"@ != "upcoming"@);
    assert("recent_release"@ != "popular_legacy"@);
    assert("recent_release"@ != "classic_legacy"@);
    assert("upcoming"@ != "popular_legacy"@);
    assert("upcoming"@ != "classic_legacy"@);
    assert("popular_legacy"@ != "classic_legacy"@);
}

#[derive(Debug, Clone, Copy, PartialEq, Eq, Hash, Structural)]
pub enum FeedbackType {
    Like,
    NotInterested,
    Played,
    TooCompetitive,
    PartySizeMismatch,
    HostingFriction,
}

/// The wire name of a feedback kind.
pub open spec fn feedback_name(t: FeedbackType) -> Seq<char> {
    match t {
        FeedbackType::Like => "like"@,
        FeedbackType::NotInterested => "not_interested"@,
        FeedbackType::Played => "played"@,
        FeedbackType::TooCompetitive => "too_competitive"@,
        FeedbackType::PartySizeMismatch => "party_size_mismatch"@,
        FeedbackType::HostingFriction => "hosting_friction"@,
    }
}

/// The feedback kind whose wire name is `s`.
pub open spec fn feedback_named(s: Seq<char>) -> Option<FeedbackType> {
    if s == "like"@ {
        Some(FeedbackType::Like)
    } else if s == "not_interested"@ {
        Some(FeedbackType::NotInterested)
    } else if s == "played"@ {
        Some(FeedbackType::Played)
    } else if s == "too_competitive"@ {
        Some(FeedbackType::TooCompetitive)
    } else if s == "party_size_mismatch"@ {
        Some(FeedbackType::PartySizeMismatch)
    } else if s == "hosting_friction"@ {
        Some(FeedbackType::HostingFriction)
    } else {
        None
    }
}

impl FeedbackType {
    pub fn as_str(self) -> (r: &'static str)
        ensures
            r@ == feedback_name(self),
    {
        match self {
            FeedbackType::Like => "like",
            FeedbackType::NotInterested => "not_interested",
            FeedbackType::Played => "played",
            FeedbackType::TooCompetitive => "too_competitive",
            FeedbackType::PartySizeMismatch => "party_size_mismatch",
            FeedbackType::HostingFriction => "hosting_friction",
        }
    }

    pub fn parse(value: &str) -> (r: Option<FeedbackType>)
        ensures
            r == feedback_named(value@),
    {
        if str_eq(value, "like") {
            Some(FeedbackType::Like)
        } else if str_eq(value, "not_interested") {
            Some(FeedbackType::NotInterested)
        } else if str_eq(value, "played") {
            Some(FeedbackType::Played)
        } else if str_eq(value, "too_competitive") {
            Some(FeedbackType::TooCompetitive)
        } else if str_eq(value, "party_size_mismatch") {
            Some(FeedbackType::PartySizeMismatch)
        } else if str_eq(value, "hosting_friction") {
            Some(FeedbackType::HostingFriction)
        } else {
            None
        }
    }
}

/// A feedback kind's wire name parses back to it, and only wire names parse.
pub proof fn lemma_feedback_names_roundtrip(t: FeedbackType, name: Seq<char>)
    ensures
        feedback_named(feedback_name(t)) == Some(t),
        feedback_named(name) matches Some(u) ==> feedback_name(u) == name,
{
    reveal_strlit("like");
    reveal_strlit("not_interested");
    reveal_strlit("played");
    reveal_strlit("too_competitive");
    reveal_strlit("party_size_mismatch");
    reveal_strlit("hosting_friction");
    assert("like"@[0] == 'l' && "not_interested"@[0] == 'n' && "played"@[0] == 'p'
        && "too_competitive"@[0] == 't' && "party_size_mismatch"@[0] == 'p'
        && "hosting_friction"@[0] == 'h');
    assert("played"@.len() != "party_size_mismatch"@.len());
    assert("like"@ != "not_interested"@);
    assert("like"@ != "played"@);
    assert("like"@ != "too_competitive"@);
    assert("like"@ != "party_size_mismatch"@);
    assert("like"@ != "hosting_friction"@);
    assert("not_interested"@ != "played"@);
    assert("not_interested"@ != "too_competitive"@);
    assert("not_interested"@ != "party_size_mismatch"@);
    assert("not_interested"@ != "hosting_friction"@);
    assert("played"@ != "too_competitive"@);
    assert("played"@ != "party_size_mismatch"@);
    assert("played"@ != "hosting_friction"@);
    assert("too_competitive"@ != "party_size_mismatch"@);
    assert("too_competitive"@ != "hosting_friction"@);
    assert("party_size_mismatch"@ != "hosting_friction"@);
}

/// Candidate facts used for deterministic preference filtering.
#[derive(Debug, Clone, PartialEq, Eq, Default)]
pub struct CandidateAvailability {
    pub platforms: Vec<String>,
    pub languages: Vec<String>,
    pub typical_session_minutes_min: Option<u32>,
    pub typical_session_minutes_max: Option<u32>,
    pub price_currency: Option<String>,
    pub final_price_minor: Option<i64>,
    pub is_free: Option<bool>,
}


/// A float's bits, ranked so that for floats in [0, 1] a larger rank is a
/// larger number (negative zero ranks as zero).
pub open spec fn unit_rank(bits: u64) -> u64 {
    if bits == 0x8000_0000_0000_0000 {
        0
    } else {
        bits
    }
}

fn unit_ok(bits: u64) -> (r: bool)
    ensures
        r == unit_float_bits(bits),
{
    bits <= 0x3FF0_0000_0000_0000 || bits == 0x8000_0000_0000_0000
}

/// The UTF-8 length of a text.
pub open spec fn byte_len(s: Seq<char>) -> nat {
    vstd::utf8::encode_utf8(s).len()
}

/// A user's preference snapshot; the two preference weights are kept as the
/// bits of their 64-bit floats.
#[derive(Debug, Clone)]
pub struct UserPreferences {
    pub version: i64,
    pub party_size: u8,
    /// 0 = pure coop preference, 1 = strong competitive preference.
    pub coop_competitive_bits: u64,
    pub session_minutes_min: u32,
    pub session_minutes_max: u32,
    pub budget_currency: String,
    pub budget_max_each_minor: Option<i64>,
    pub platforms: Vec<String>,
    pub self_hosting_willingness_bits: u64,
    pub languages: Vec<String>,
    pub excluded_modes: Vec<String>,
}

impl Default for UserPreferences {
    fn default() -> (r: Self)
        ensures
            r.version == 1,
            r.party_size == 4,
            r.coop_competitive_bits == 0x3FC3_3333_3333_3333,
            r.session_minutes_min == 30,
            r.session_minutes_max == 180,
            r.budget_currency@ == "CNY"@,
            r.budget_max_each_minor == Some(15_000i64),
            views(r.platforms@) == seq!["windows"@],
            r.self_hosting_willingness_bits == 0x3FE6_6666_6666_6666,
            views(r.languages@) == seq!["schinese"@, "english"@],
            views(r.excluded_modes@) == seq!["mmo"@],
    {
        let mut platforms: Vec<String> = Vec::new();
        platforms.push(owned("windows"));
        let mut languages: Vec<String> = Vec::new();
        languages.push(owned("schinese"));
        languages.push(owned("english"));
        let mut excluded_modes: Vec<String> = Vec::new();
        excluded_modes.push(owned("mmo"));
        assert(views(platforms@) =~= seq!["windows"@]);
        assert(views(languages@) =~= seq!["schinese"@, "english"@]);
        assert(views(excluded_modes@) =~= seq!["mmo"@]);
        UserPreferences {
            version: 1,
            party_size: 4,
            coop_competitive_bits: 0x3FC3_3333_3333_3333,
            session_minutes_min: 30,
            session_minutes_max: 180,
            budget_currency: owned("CNY"),
            budget_max_each_minor: Some(15_000),
            platforms,
            self_hosting_willingness_bits: 0x3FE6_6666_6666_6666,
            languages,
            excluded_modes,
        }
    }
}

/// A three-letter uppercase currency code.
pub open spec fn currency_code(s: Seq<char>) -> bool {
    s.len() == 3 && forall|i: int| 0 <= i < 3 ==> 'A' <= #[trigger] s[i] && s[i] <= 'Z'
}

/// The problem with a preference list named `name`, if any: more than 32
/// values, or a value that is blank or longer than 64 bytes.
pub open spec fn list_problem(name: Seq<char>, values: Seq<Seq<char>>) -> Option<Seq<char>> {
    if values.len() > 32 {
        Some(name + " must contain at most 32 values"@)
    } else if exists|i: int| 0 <= i < values.len() && (trim(#[trigger] values[i]).len() == 0 || byte_len(values[i]) > 64) {
        Some(name + " values must contain between 1 and 64 bytes"@)
    } else {
        None
    }
}

/// The mathematical form of a preference snapshot.
pub struct PrefsView {
    pub version: i64,
    pub party_size: u8,
    pub coop_competitive_bits: u64,
    pub session_minutes_min: u32,
    pub session_minutes_max: u32,
    pub budget_currency: Seq<char>,
    pub budget_max_each_minor: Option<i64>,
    pub platforms: Seq<Seq<char>>,
    pub self_hosting_willingness_bits: u64,
    pub languages: Seq<Seq<char>>,
    pub excluded_modes: Seq<Seq<char>>,
}

pub open spec fn prefs_view(p: UserPreferences) -> PrefsView {
    PrefsView {
        version: p.version,
        party_size: p.party_size,
        coop_competitive_bits: p.coop_competitive_bits,
        session_minutes_min: p.session_minutes_min,
        session_minutes_max: p.session_minutes_max,
        budget_currency: p.budget_currency@,
        budget_max_each_minor: p.budget_max_each_minor,
        platforms: views(p.platforms@),
        self_hosting_willingness_bits: p.self_hosting_willingness_bits,
        languages: views(p.languages@),
        excluded_modes: views(p.excluded_modes@),
    }
}

/// The first problem of a preference snapshot, in the order checked.
pub open spec fn preferences_problem(p: PrefsView) -> Option<Seq<char>> {
    if p.version < 1 {
        Some("version must be positive"@)
    } else if !(1 <= p.party_size <= 64) {
        Some("party_size must be between 1 and 64"@)
    } else if !unit_float_bits(p.coop_competitive_bits) {
        Some("coop_competitive must be between 0 and 1"@)
    } else if !unit_float_bits(p.self_hosting_willingness_bits) {
        Some("self_hosting_willingness must be between 0 and 1"@)
    } else if p.session_minutes_min > p.session_minutes_max {
        Some("session_minutes_min must be <= session_minutes_max"@)
    } else if p.session_minutes_max > 24 * 60 {
        Some("session_minutes_max is too large"@)
    } else if !currency_code(p.budget_currency) {
        Some("budget_currency must be a 3-letter uppercase code"@)
    } else if p.budget_max_each_minor matches Some(v) && v < 0 {
        Some("budget_max_each_minor must not be negative"@)
    } else if list_problem("platforms"@, p.platforms) is Some {
        list_problem("platforms"@, p.platforms)
    } else if list_problem("languages"@, p.languages) is Some {
        list_problem("languages"@, p.languages)
    } else {
        list_problem("excluded_modes"@, p.excluded_modes)
    }
}

fn check_list(name: &str, values: &Vec<String>) -> (r: Option<String>)
    ensures
        match list_problem(name@, views(values@)) {
            Some(m) => r matches Some(s) && s@ == m,
            None => r is None,
        },
{
    if values.len() > 32 {
        let mut m = chars_of(name);
        extend_chars(&mut m, chars_of(" must contain at most 32 values").as_slice());
        return Some(string_from_chars(m.as_slice()));
    }
    let mut i: usize = 0;
    while i < values.len()
        invariant
            i <= values@.len(),
            values@.len() <= 32,
            forall|k: int| 0 <= k < i ==> !(trim((#[trigger] values@[k])@).len() == 0 || byte_len(values@[k]@) > 64),
        decreases values@.len() - i,
    {
        let c = chars_of(values[i].as_str());
        let blank = trim_chars(c.as_slice()).len() == 0;
        let long = values[i].as_str().as_bytes().len() > 64;
        if blank || long {
            assert(views(values@)[i as int] == values@[i as int]@);
            let mut m = chars_of(name);
            extend_chars(&mut m, chars_of(" values must contain between 1 and 64 bytes").as_slice());
            return Some(string_from_chars(m.as_slice()));
        }
        i = i + 1;
    }
    proof {
        assert forall|k: int| 0 <= k < views(values@).len() implies !(trim(#[trigger] views(values@)[k]).len() == 0
            || byte_len(views(values@)[k]) > 64) by {
            assert(views(values@)[k] == values@[k]@);
        }
    }
    None
}

impl UserPreferences {
    /// Check the snapshot; the first problem found is the error message.
    pub fn validate(&self) -> (r: Result<(), String>)
        ensures
            match preferences_problem(prefs_view(*self)) {
                Some(m) => r matches Err(s) && s@ == m,
                None => r is Ok,
            },
    {
        if self.version < 1 {
            return Err(owned("version must be positive"));
        }
        if !(1 <= self.party_size && self.party_size <= 64) {
            return Err(owned("party_size must be between 1 and 64"));
        }
        if !unit_ok(self.coop_competitive_bits) {
            return Err(owned("coop_competitive must be between 0 and 1"));
        }
        if !unit_ok(self.self_hosting_willingness_bits) {
            return Err(owned("self_hosting_willingness must be between 0 and 1"));
        }
        if self.session_minutes_min > self.session_minutes_max {
            return Err(owned("session_minutes_min must be <= session_minutes_max"));
        }
        if self.session_minutes_max > 24 * 60 {
            return Err(owned("session_minutes_max is too large"));
        }
        let cur = chars_of(self.budget_currency.as_str());
        let code = cur.len() == 3 && 'A' <= cur[0] && cur[0] <= 'Z' && 'A' <= cur[1] && cur[1] <= 'Z' && 'A'
            <= cur[2] && cur[2] <= 'Z';
        if !code {
            return Err(owned("budget_currency must be a 3-letter uppercase code"));
        }
        match self.budget_max_each_minor {
            Some(v) => if v < 0 {
                return Err(owned("budget_max_each_minor must not be negative"));
            },
            None => {},
        }
        match check_list("platforms", &self.platforms) {
            Some(m) => {
                return Err(m);
            },
            None => {},
        }
        match check_list("languages", &self.languages) {
            Some(m) => {
                return Err(m);
            },
            None => {},
        }
        match check_list("excluded_modes", &self.excluded_modes) {
            Some(m) => Err(m),
            None => Ok(()),
        }
    }
}

/// Versioned rule parameters of the recommender; each fraction is kept as
/// the bits of its 64-bit float.
#[derive(Debug, Clone, Copy, PartialEq, Eq)]
pub struct RecommendationConfig {
    pub recent_days: u32,
    pub recent_min_friend_fit_bits: u64,
    pub popular_min_ccu: u32,
    pub popular_high_ccu: u32,
    pub popular_min_wilson_bits: u64,
    pub popular_high_ccu_min_wilson_bits: u64,
    pub popular_min_friend_fit_bits: u64,
    pub classic_min_reviews: u32,
    pub classic_min_wilson_bits: u64,
    pub classic_min_friend_fit_bits: u64,
    pub classic_public_min_ccu: u32,
    pub mmr_lambda_bits: u64,
    pub candidate_limit: u32,
    /// Max score boost from community play-intent votes (0 disables it).
    pub play_intent_weight_bits: u64,
    /// Vote count at which the play-intent signal reaches half its weight.
    pub play_intent_saturation: u32,
}

impl Default for RecommendationConfig {
    fn default() -> (r: Self)
        ensures
            r == (RecommendationConfig {
                recent_days: 180,
                recent_min_friend_fit_bits: 0x3FDC_CCCC_CCCC_CCCD,
                popular_min_ccu: 1_000,
                popular_high_ccu: 100_000,
                popular_min_wilson_bits: 0x3FE2_8F5C_28F5_C28F,
                popular_high_ccu_min_wilson_bits: 0x3FE1_9999_9999_999A,
                popular_min_friend_fit_bits: 0x3FDC_CCCC_CCCC_CCCD,
                classic_min_reviews: 3_000,
                classic_min_wilson_bits: 0x3FEA_3D70_A3D7_0A3D,
                classic_min_friend_fit_bits: 0x3FE1_9999_9999_999A,
                classic_public_min_ccu: 1_000,
                mmr_lambda_bits: 0x3FE8_0000_0000_0000,
                candidate_limit: 10_000,
                play_intent_weight_bits: 0x3FC3_3333_3333_3333,
                play_intent_saturation: 8,
            }),
    {
        RecommendationConfig {
            recent_days: 180,
            recent_min_friend_fit_bits: 0x3FDC_CCCC_CCCC_CCCD,
            popular_min_ccu: 1_000,
            popular_high_ccu: 100_000,
            popular_min_wilson_bits: 0x3FE2_8F5C_28F5_C28F,
            popular_high_ccu_min_wilson_bits: 0x3FE1_9999_9999_999A,
            popular_min_friend_fit_bits: 0x3FDC_CCCC_CCCC_CCCD,
            classic_min_reviews: 3_000,
            classic_min_wilson_bits: 0x3FEA_3D70_A3D7_0A3D,
            classic_min_friend_fit_bits: 0x3FE1_9999_9999_999A,
            classic_public_min_ccu: 1_000,
            mmr_lambda_bits: 0x3FE8_0000_0000_0000,
            candidate_limit: 10_000,
            play_intent_weight_bits: 0x3FC3_3333_3333_3333,
            play_intent_saturation: 8,
        }
    }
}

/// The fraction settings of a configuration, with their names, in the order
/// checked.
pub open spec fn config_fractions(c: RecommendationConfig) -> Seq<(Seq<char>, u64)> {
    seq![
        ("recent_min_friend_fit"@, c.recent_min_friend_fit_bits),
        ("popular_min_wilson"@, c.popular_min_wilson_bits),
        ("popular_high_ccu_min_wilson"@, c.popular_high_ccu_min_wilson_bits),
        ("popular_min_friend_fit"@, c.popular_min_friend_fit_bits),
        ("classic_min_wilson"@, c.classic_min_wilson_bits),
        ("classic_min_friend_fit"@, c.classic_min_friend_fit_bits),
        ("mmr_lambda"@, c.mmr_lambda_bits),
    ]
}

/// The first fraction setting outside [0, 1].
pub open spec fn first_bad_fraction(fs: Seq<(Seq<char>, u64)>) -> Option<Seq<char>>
    decreases fs.len(),
{
    if fs.len() == 0 {
        None
    } else if !unit_float_bits(fs[0].1) {
        Some(fs[0].0)
    } else {
        first_bad_fraction(fs.drop_first())
    }
}

/// The first problem of a configuration, in the order checked.
pub open spec fn config_problem(c: RecommendationConfig) -> Option<Seq<char>> {
    if !(1 <= c.recent_days <= 3_650) {
        Some("recent_days must be between 1 and 3650"@)
    } else if first_bad_fraction(config_fractions(c)) is Some {
        Some(first_bad_fraction(config_fractions(c))->0 + " must be between 0 and 1"@)
    } else if c.popular_high_ccu < c.popular_min_ccu {
        Some("popular_high_ccu must be >= popular_min_ccu"@)
    } else if unit_rank(c.popular_high_ccu_min_wilson_bits) > unit_rank(c.popular_min_wilson_bits) {
        Some("popular_high_ccu_min_wilson must be <= popular_min_wilson"@)
    } else if !(1 <= c.candidate_limit <= 50_000) {
        Some("candidate_limit must be between 1 and 50000"@)
    } else if !unit_float_bits(c.play_intent_weight_bits) {
        Some("play_intent_weight must be between 0 and 1"@)
    } else {
        None
    }
}

impl RecommendationConfig {
    /// Check the configuration; the first problem found is the error
    /// message.
    pub fn validate(&self) -> (r: Result<(), String>)
        ensures
            match config_problem(*self) {
                Some(m) => r matches Err(s) && s@ == m,
                None => r is Ok,
            },
    {
        if !(1 <= self.recent_days && self.recent_days <= 3_650) {
            return Err(owned("recent_days must be between 1 and 3650"));
        }
        let names = [
            "recent_min_friend_fit",
            "popular_min_wilson",
            "popular_high_ccu_min_wilson",
            "popular_min_friend_fit",
            "classic_min_wilson",
            "classic_min_friend_fit",
            "mmr_lambda",
        ];
        let values = [
            self.recent_min_friend_fit_bits,
            self.popular_min_wilson_bits,
            self.popular_high_ccu_min_wilson_bits,
            self.popular_min_friend_fit_bits,
            self.classic_min_wilson_bits,
            self.classic_min_friend_fit_bits,
            self.mmr_lambda_bits,
        ];
        let ghost fs = config_fractions(*self);
        assert(fs.skip(0) =~= fs);
        assert(forall|k: int| 0 <= k < 7 ==> (#[trigger] names@[k])@ == fs[k].0) by {
            reveal_strlit("recent_min_friend_fit");
        }
        let mut i: usize = 0;
        while i < 7
            invariant
                i <= 7,
                fs == config_fractions(*self),
                forall|k: int| 0 <= k < 7 ==> (#[trigger] names@[k])@ == fs[k].0,
                forall|k: int| 0 <= k < 7 ==> #[trigger] values@[k] == fs[k].1,
                1 <= self.recent_days <= 3_650,
                first_bad_fraction(fs) == first_bad_fraction(fs.skip(i as int)),
            decreases 7 - i,
        {
            assert(fs.skip(i as int)[0] == fs[i as int]);
            if !unit_ok(values[i]) {
                let mut m = chars_of(names[i]);
                extend_chars(&mut m, chars_of(" must be between 0 and 1").as_slice());
                return Err(string_from_chars(m.as_slice()));
            }
            assert(fs.skip(i as int).drop_first() =~= fs.skip(i as int + 1));
            i = i + 1;
        }
        assert(fs.skip(7) =~= Seq::<(Seq<char>, u64)>::empty());
        if self.popular_high_ccu < self.popular_min_ccu {
            return Err(owned("popular_high_ccu must be >= popular_min_ccu"));
        }
        let high = if self.popular_high_ccu_min_wilson_bits == 0x8000_0000_0000_0000 {
            0
        } else {
            self.popular_high_ccu_min_wilson_bits
        };
        let low = if self.popular_min_wilson_bits == 0x8000_0000_0000_0000 {
            0
        } else {
            self.popular_min_wilson_bits
        };
        if high > low {
            return Err(owned("popular_high_ccu_min_wilson must be <= popular_min_wilson"));
        }
        if !(1 <= self.candidate_limit && self.candidate_limit <= 50_000) {
            return Err(owned("candidate_limit must be between 1 and 50000"));
        }
        if !unit_ok(self.play_intent_weight_bits) {
            return Err(owned("play_intent_weight must be between 0 and 1"));
        }
        Ok(())
    }
}

/// A preference snapshot is accepted exactly when its version is positive,
/// its party size is 1 to 64, both weights lie in [0, 1], its session bounds
/// are ordered and at most a day, its currency is three capital letters, its
/// budget is not negative, and each of its platform, language and excluded
/// mode lists has at most 32 values, none blank or over 64 bytes.
pub proof fn lemma_preferences_valid(p: PrefsView)
    ensures
        preferences_problem(p) is None <==> {
            &&& p.version >= 1
            &&& 1 <= p.party_size <= 64
            &&& (p.coop_competitive_bits <= 0x3FF0_0000_0000_0000 || p.coop_competitive_bits == 0x8000_0000_0000_0000)
            &&& (p.self_hosting_willingness_bits <= 0x3FF0_0000_0000_0000 || p.self_hosting_willingness_bits == 0x8000_0000_0000_0000)
            &&& p.session_minutes_min <= p.session_minutes_max <= 1440
            &&& p.budget_currency.len() == 3 && forall|i: int| 0 <= i < 3 ==> 'A' <= #[trigger] p.budget_currency[i] <= 'Z'
            &&& !(p.budget_max_each_minor matches Some(v) && v < 0)
            &&& (p.platforms.len() <= 32 && forall|i: int| 0 <= i < p.platforms.len() ==> trim(#[trigger] p.platforms[i]).len() > 0 && byte_len(p.platforms[i]) <= 64)
            &&& (p.languages.len() <= 32 && forall|i: int| 0 <= i < p.languages.len() ==> trim(#[trigger] p.languages[i]).len() > 0 && byte_len(p.languages[i]) <= 64)
            &&& (p.excluded_modes.len() <= 32 && forall|i: int| 0 <= i < p.excluded_modes.len() ==> trim(#[trigger] p.excluded_modes[i]).len() > 0 && byte_len(p.excluded_modes[i]) <= 64)
        },
{
}

/// A recommendation configuration is accepted exactly when its recent window
/// is 1 to 3650 days, every fraction setting lies in [0, 1], the high player
/// count is not below the minimum one and its Wilson floor is not above the
/// general one, the candidate limit is 1 to 50000, and the play-intent weight
/// lies in [0, 1].
pub proof fn lemma_config_valid(c: RecommendationConfig)
    ensures
        config_problem(c) is None <==> {
            &&& 1 <= c.recent_days <= 3650
            &&& (c.recent_min_friend_fit_bits <= 0x3FF0_0000_0000_0000 || c.recent_min_friend_fit_bits == 0x8000_0000_0000_0000)
            &&& (c.popular_min_wilson_bits <= 0x3FF0_0000_0000_0000 || c.popular_min_wilson_bits == 0x8000_0000_0000_0000)
            &&& (c.popular_high_ccu_min_wilson_bits <= 0x3FF0_0000_0000_0000 || c.popular_high_ccu_min_wilson_bits == 0x8000_0000_0000_0000)
            &&& (c.popular_min_friend_fit_bits <= 0x3FF0_0000_0000_0000 || c.popular_min_friend_fit_bits == 0x8000_0000_0000_0000)
            &&& (c.classic_min_wilson_bits <= 0x3FF0_0000_0000_0000 || c.classic_min_wilson_bits == 0x8000_0000_0000_0000)
            &&& (c.classic_min_friend_fit_bits <= 0x3FF0_0000_0000_0000 || c.classic_min_friend_fit_bits == 0x8000_0000_0000_0000)
            &&& (c.mmr_lambda_bits <= 0x3FF0_0000_0000_0000 || c.mmr_lambda_bits == 0x8000_0000_0000_0000)
            &&& c.popular_high_ccu >= c.popular_min_ccu
            &&& unit_rank(c.popular_high_ccu_min_wilson_bits) <= unit_rank(c.popular_min_wilson_bits)
            &&& 1 <= c.candidate_limit <= 50000
            &&& (c.play_intent_weight_bits <= 0x3FF0_0000_0000_0000 || c.play_intent_weight_bits == 0x8000_0000_0000_0000)
        },
{
    let fs = config_fractions(c);
    reveal_with_fuel(first_bad_fraction, 8);
    assert(fs.drop_first().drop_first().drop_first().drop_first().drop_first().drop_first().drop_first().len() == 0);
}

} // verus!
