//! The six-section game summary shown on detail pages: its evidence checks,
//! and the rule-written summary used when the offline model is unavailable.
use vstd::prelude::*;
use crate::ai_error::AiError;
use crate::ai_types::views;
use crate::num::{dec_signed, push_dec_signed};
use crate::text::{chars_of, extend_chars, owned, string_from_chars, trim, trim_chars};
use crate::validate::unit_float_bits;

verus! {

/// One section of a summary.
#[derive(Debug, Clone)]
pub struct SectionBlock {
    pub text: String,
    pub evidence_ids: Vec<String>,
    /// The bits of the 64-bit float confidence.
    pub confidence_bits: u64,
}

/// Six-section game summary used by detail pages.
#[derive(Debug, Clone)]
pub struct GameAiSummary {
    pub who_it_fits: SectionBlock,
    pub how_to_play: SectionBlock,
    pub multiplayer_dependency: SectionBlock,
    pub review_strengths: SectionBlock,
    pub common_issues: SectionBlock,
    pub unknowns: SectionBlock,
}

/// An empty section: no text, no evidence, confidence zero.
pub open spec fn empty_section(b: SectionBlock) -> bool {
    b.text@ == Seq::<char>::empty() && b.evidence_ids@.len() == 0 && b.confidence_bits == 0
}

impl Default for SectionBlock {
    fn default() -> (r: Self)
        ensures
            empty_section(r),
    {
        SectionBlock { text: String::new(), evidence_ids: Vec::new(), confidence_bits: 0 }
    }
}

impl Default for GameAiSummary {
    /// Six empty sections.
    fn default() -> (r: Self)
        ensures
            empty_section(r.who_it_fits),
            empty_section(r.how_to_play),
            empty_section(r.multiplayer_dependency),
            empty_section(r.review_strengths),
            empty_section(r.common_issues),
            empty_section(r.unknowns),
    {
        GameAiSummary {
            who_it_fits: SectionBlock::default(),
            how_to_play: SectionBlock::default(),
            multiplayer_dependency: SectionBlock::default(),
            review_strengths: SectionBlock::default(),
            common_issues: SectionBlock::default(),
            unknowns: SectionBlock::default(),
        }
    }
}

/// The problem with section `name`, if any: a confidence outside [0, 1],
/// text over 800 characters, a claim without evidence (the unknowns section
/// may have none), or evidence that is not allowed.
pub open spec fn section_problem(name: Seq<char>, b: SectionBlock, allowed: Set<Seq<char>>) -> Option<Seq<char>> {
    if !unit_float_bits(b.confidence_bits) {
        Some("summary."@ + name + ".confidence out of range"@)
    } else if b.text@.len() > 800 {
        Some("summary."@ + name + ".text exceeds 800 chars"@)
    } else if name != "unknowns"@ && trim(b.text@).len() > 0 && b.evidence_ids@.len() == 0 {
        Some("summary."@ + name + " requires evidence_ids"@)
    } else {
        match crate::validate::first_outside(views(b.evidence_ids@), allowed) {
            Some(id) => Some("summary evidence_id '"@ + id + "' is not allowed"@),
            None => None,
        }
    }
}

/// The first problem of the summary's sections, in order.
pub open spec fn summary_problem(s: GameAiSummary, allowed: Set<Seq<char>>) -> Option<Seq<char>> {
    let p1 = section_problem("who_it_fits"@, s.who_it_fits, allowed);
    let p2 = section_problem("how_to_play"@, s.how_to_play, allowed);
    let p3 = section_problem("multiplayer_dependency"@, s.multiplayer_dependency, allowed);
    let p4 = section_problem("review_strengths"@, s.review_strengths, allowed);
    let p5 = section_problem("common_issues"@, s.common_issues, allowed);
    let p6 = section_problem("unknowns"@, s.unknowns, allowed);
    if p1 is Some {
        p1
    } else if p2 is Some {
        p2
    } else if p3 is Some {
        p3
    } else if p4 is Some {
        p4
    } else if p5 is Some {
        p5
    } else {
        p6
    }
}

fn section_check(name: &str, b: &SectionBlock, allowed: &Vec<String>) -> (r: Option<String>)
    ensures
        match section_problem(name@, *b, views(allowed@).to_set()) {
            Some(m) => r matches Some(s) && s@ == m,
            None => r is None,
        },
{
    let mut prefix = chars_of("summary.");
    extend_chars(&mut prefix, chars_of(name).as_slice());
    if !unit_float_bits_exec(b.confidence_bits) {
        extend_chars(&mut prefix, chars_of(".confidence out of range").as_slice());
        return Some(string_from_chars(prefix.as_slice()));
    }
    let text = chars_of(b.text.as_str());
    if text.len() > 800 {
        extend_chars(&mut prefix, chars_of(".text exceeds 800 chars").as_slice());
        return Some(string_from_chars(prefix.as_slice()));
    }
    let trimmed = trim_chars(text.as_slice());
    if !crate::text::str_eq(name, "unknowns") && trimmed.len() > 0 && b.evidence_ids.len() == 0 {
        extend_chars(&mut prefix, chars_of(" requires evidence_ids").as_slice());
        return Some(string_from_chars(prefix.as_slice()));
    }
    match crate::validate::first_not_in(&b.evidence_ids, allowed) {
        Some(k) => {
            let mut m = chars_of("summary evidence_id '");
            extend_chars(&mut m, chars_of(b.evidence_ids[k].as_str()).as_slice());
            extend_chars(&mut m, chars_of("' is not allowed").as_slice());
            Some(string_from_chars(m.as_slice()))
        },
        None => None,
    }
}

fn unit_float_bits_exec(b: u64) -> (r: bool)
    ensures
        r == unit_float_bits(b),
{
    b <= 0x3FF0_0000_0000_0000 || b == 0x8000_0000_0000_0000
}

impl GameAiSummary {
    /// Check every section against the evidence ids `allowed`; the first
    /// problem found is the error.
    pub fn validate_evidence(&self, allowed: &Vec<String>) -> (r: Result<(), AiError>)
        ensures
            match summary_problem(*self, views(allowed@).to_set()) {
                Some(m) => r matches Err(AiError::InvalidOutput(s)) && s@ == m,
                None => r is Ok,
            },
    {
        match section_check("who_it_fits", &self.who_it_fits, allowed) {
            Some(m) => {
                return Err(AiError::InvalidOutput(m));
            },
            None => {},
        }
        match section_check("how_to_play", &self.how_to_play, allowed) {
            Some(m) => {
                return Err(AiError::InvalidOutput(m));
            },
            None => {},
        }
        match section_check("multiplayer_dependency", &self.multiplayer_dependency, allowed) {
            Some(m) => {
                return Err(AiError::InvalidOutput(m));
            },
            None => {},
        }
        match section_check("review_strengths", &self.review_strengths, allowed) {
            Some(m) => {
                return Err(AiError::InvalidOutput(m));
            },
            None => {},
        }
        match section_check("common_issues", &self.common_issues, allowed) {
            Some(m) => {
                return Err(AiError::InvalidOutput(m));
            },
            None => {},
        }
        match section_check("unknowns", &self.unknowns, allowed) {
            Some(m) => {
                return Err(AiError::InvalidOutput(m));
            },
            None => {},
        }
        Ok(())
    }
}

/// The party size text of the rule summary.
pub open spec fn party_text(party_min: Option<i64>, party_max: Option<i64>) -> Seq<char> {
    match (party_min, party_max) {
        (Some(a), Some(b)) => if a == b {
            dec_signed(a as int) + " 人"@
        } else {
            dec_signed(a as int) + "–"@ + dec_signed(b as int) + " 人"@
        },
        (Some(a), None) => "约 "@ + dec_signed(a as int) + "+ 人"@,
        (None, Some(b)) => "最多 "@ + dec_signed(b as int) + " 人"@,
        (None, None) => "人数未知"@,
    }
}

/// What the rule summary says of private lobbies.
pub open spec fn lobby_text(private_session: Option<bool>) -> Seq<char> {
    match private_session {
        Some(true) => "支持私密局/好友局"@,
        Some(false) => "私密局支持不明确或偏匹配"@,
        None => "私密局信息未知"@,
    }
}

/// What the rule summary says of server hosting.
pub open spec fn host_text(self_hosted: Option<bool>) -> Seq<char> {
    match self_hosted {
        Some(true) => "可能支持自建服"@,
        Some(false) => "更依赖官方服务"@,
        None => "服务器依赖未知"@,
    }
}

fn party_string(party_min: Option<i64>, party_max: Option<i64>) -> (r: Vec<char>)
    ensures
        r@ == party_text(party_min, party_max),
{
    let mut out: Vec<char> = Vec::new();
    match (party_min, party_max) {
        (Some(a), Some(b)) => {
            push_dec_signed(&mut out, a);
            if a != b {
                extend_chars(&mut out, chars_of("–").as_slice());
                push_dec_signed(&mut out, b);
            }
            extend_chars(&mut out, chars_of(" 人").as_slice());
        },
        (Some(a), None) => {
            extend_chars(&mut out, chars_of("约 ").as_slice());
            push_dec_signed(&mut out, a);
            extend_chars(&mut out, chars_of("+ 人").as_slice());
        },
        (None, Some(b)) => {
            extend_chars(&mut out, chars_of("最多 ").as_slice());
            push_dec_signed(&mut out, b);
            extend_chars(&mut out, chars_of(" 人").as_slice());
        },
        (None, None) => {
            extend_chars(&mut out, chars_of("人数未知").as_slice());
        },
    }
    out
}

fn first_three(ids: &[String]) -> (r: Vec<String>)
    ensures
        views(r@) == views(ids@).take(if ids@.len() < 3 { ids@.len() as int } else { 3 }),
{
    let mut out: Vec<String> = Vec::new();
    let mut i: usize = 0;
    while i < ids.len() && i < 3
        invariant
            i <= ids@.len(),
            i <= 3,
            views(out@) == views(ids@).take(i as int),
        decreases 3 - i,
    {
        let ghost before = views(out@);
        out.push(ids[i].clone());
        assert(views(out@) =~= before.push(ids@[i as int]@));
        assert(views(ids@).take(i as int + 1) =~= views(ids@).take(i as int).push(ids@[i as int]@));
        i = i + 1;
    }
    out
}

fn no_ids() -> (r: Vec<String>)
    ensures
        r@.len() == 0,
{
    Vec::new()
}

/// Deterministic rule summary for when the offline model is unavailable:
/// who the game fits (with its party size), how to play, and its lobby and
/// server dependency cite the first three evidence ids; the review sections
/// are empty and the unknowns section cites nothing.
pub fn rule_game_summary(
    name: &str,
    party_min: Option<i64>,
    party_max: Option<i64>,
    private_session: Option<bool>,
    self_hosted: Option<bool>,
    evidence_ids: &[String],
) -> (r: GameAiSummary)
    ensures
        ({
            let ev = views(evidence_ids@).take(if evidence_ids@.len() < 3 { evidence_ids@.len() as int } else { 3 });
            &&& r.who_it_fits.text@ == name@ + " 适合想找 "@ + party_text(party_min, party_max) + " 联机体验的小队。"@
            &&& views(r.who_it_fits.evidence_ids@) == ev
            &&& r.who_it_fits.confidence_bits == 0x3FDC_CCCC_CCCC_CCCD
            &&& r.how_to_play.text@ == "请以商店描述与联机画像为准，典型局时长可能不完整。"@
            &&& views(r.how_to_play.evidence_ids@) == ev
            &&& r.how_to_play.confidence_bits == 0x3FD3_3333_3333_3333
            &&& r.multiplayer_dependency.text@ == lobby_text(private_session) + "；"@ + host_text(self_hosted) + "。"@
            &&& views(r.multiplayer_dependency.evidence_ids@) == ev
            &&& r.multiplayer_dependency.confidence_bits == 0x3FD9_9999_9999_999A
            &&& r.review_strengths.text@.len() == 0
            &&& r.review_strengths.evidence_ids@.len() == 0
            &&& r.review_strengths.confidence_bits == 0
            &&& r.common_issues.text@.len() == 0
            &&& r.common_issues.evidence_ids@.len() == 0
            &&& r.common_issues.confidence_bits == 0
            &&& r.unknowns.text@ == "评价主题与服务停运状态可能尚未完成富化。"@
            &&& r.unknowns.evidence_ids@.len() == 0
            &&& r.unknowns.confidence_bits == 0x3FC9_9999_9999_999A
        }),
{
    let mut who = chars_of(name);
    extend_chars(&mut who, chars_of(" 适合想找 ").as_slice());
    extend_chars(&mut who, party_string(party_min, party_max).as_slice());
    extend_chars(&mut who, chars_of(" 联机体验的小队。").as_slice());
    let lobby = match private_session {
        Some(true) => "支持私密局/好友局",
        Some(false) => "私密局支持不明确或偏匹配",
        None => "私密局信息未知",
    };
    let host = match self_hosted {
        Some(true) => "可能支持自建服",
        Some(false) => "更依赖官方服务",
        None => "服务器依赖未知",
    };
    let mut dep = chars_of(lobby);
    extend_chars(&mut dep, chars_of("；").as_slice());
    extend_chars(&mut dep, chars_of(host).as_slice());
    extend_chars(&mut dep, chars_of("。").as_slice());
    proof {
        reveal_strlit("");
    }
    GameAiSummary {
        who_it_fits: SectionBlock {
            text: string_from_chars(who.as_slice()),
            evidence_ids: first_three(evidence_ids),
            confidence_bits: 0x3FDC_CCCC_CCCC_CCCD,
        },
        how_to_play: SectionBlock {
            text: owned("请以商店描述与联机画像为准，典型局时长可能不完整。"),
            evidence_ids: first_three(evidence_ids),
            confidence_bits: 0x3FD3_3333_3333_3333,
        },
        multiplayer_dependency: SectionBlock {
            text: string_from_chars(dep.as_slice()),
            evidence_ids: first_three(evidence_ids),
            confidence_bits: 0x3FD9_9999_9999_999A,
        },
        review_strengths: SectionBlock { text: owned(""), evidence_ids: no_ids(), confidence_bits: 0 },
        common_issues: SectionBlock { text: owned(""), evidence_ids: no_ids(), confidence_bits: 0 },
        unknowns: SectionBlock {
            text: owned("评价主题与服务停运状态可能尚未完成富化。"),
            evidence_ids: no_ids(),
            confidence_bits: 0x3FC9_9999_9999_999A,
        },
    }
}

/// A summary section passes exactly when its confidence lies in [0, 1], its
/// text has at most 800 characters, it cites evidence whenever its text is
/// not blank (the unknowns section excepted), and every id it cites is
/// allowed.
pub proof fn lemma_section_rules(name: Seq<char>, b: SectionBlock, allowed: Set<Seq<char>>)
    ensures
        section_problem(name, b, allowed) is None <==> {
            &&& (b.confidence_bits <= 0x3FF0_0000_0000_0000 || b.confidence_bits == 0x8000_0000_0000_0000)
            &&& b.text@.len() <= 800
            &&& (name == "unknowns"@ || trim(b.text@).len() == 0 || b.evidence_ids@.len() > 0)
            &&& forall|i: int| 0 <= i < b.evidence_ids@.len() ==> allowed.contains(#[trigger] b.evidence_ids@[i]@)
        },
{
    let ids = views(b.evidence_ids@);
    crate::validate::lemma_first_outside_none_iff(ids, allowed);
    if forall|i: int| 0 <= i < b.evidence_ids@.len() ==> allowed.contains(#[trigger] b.evidence_ids@[i]@) {
        assert forall|i: int| 0 <= i < ids.len() implies allowed.contains(#[trigger] ids[i]) by {
            assert(ids[i] == b.evidence_ids@[i]@);
        }
    }
    if forall|i: int| 0 <= i < ids.len() ==> allowed.contains(#[trigger] ids[i]) {
        assert forall|i: int| 0 <= i < b.evidence_ids@.len() implies allowed.contains(#[trigger] b.evidence_ids@[i]@) by {
            assert(ids[i] == b.evidence_ids@[i]@);
        }
    }
}

/// A summary passes exactly when each of its six sections passes, under its
/// own name.
pub proof fn lemma_summary_rules(s: GameAiSummary, allowed: Set<Seq<char>>)
    ensures
        summary_problem(s, allowed) is None <==> {
            &&& section_problem("who_it_fits"@, s.who_it_fits, allowed) is None
            &&& section_problem("how_to_play"@, s.how_to_play, allowed) is None
            &&& section_problem("multiplayer_dependency"@, s.multiplayer_dependency, allowed) is None
            &&& section_problem("review_strengths"@, s.review_strengths, allowed) is None
            &&& section_problem("common_issues"@, s.common_issues, allowed) is None
            &&& section_problem("unknowns"@, s.unknowns, allowed) is None
        },
{
}

} // verus!
