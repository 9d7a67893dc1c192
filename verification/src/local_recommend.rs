//! Rule-based recommendation without a language model: the search intents a
//! request expresses, whether a game's text satisfies or excludes each, and
//! the reply that summarizes the matches.
use vstd::prelude::*;
use crate::ai_types::{first_occurrences, lemma_first_occurrences};
use crate::models::AiRecommendationRequest;
use crate::num::{dec, push_dec};
use crate::text::{
    ascii_lower, chars_contain, chars_of, extend_chars, lower_chars, owned, seq_contains,
    string_from_chars, to_ascii_lowercase,
};

verus! {

pub const DEFAULT_LIMIT: usize = 5;

pub const MAX_LIMIT: usize = 8;

/// A search intent recognized in a request.
#[derive(Debug, Clone, Copy, PartialEq, Eq, Structural)]
pub enum IntentKind {
    LocalCoop,
    OnlineCoop,
    Casual,
    Cute,
    Survival,
    Puzzle,
    Shooter,
    Party,
    Roguelike,
    Pixel,
    Free,
    Cheap,
    HighPlayerCount,
    MinPlayers(u8),
    ExcludePixel,
    ExcludeHorror,
    ExcludeRoguelike,
}

/// Some needle, ASCII lower-cased, occurs in `hay`.
pub open spec fn any_needle(hay: Seq<char>, needles: Seq<Seq<char>>) -> bool {
    exists|i: int| 0 <= i < needles.len() && seq_contains(hay, ascii_lower(#[trigger] needles[i]))
}

/// Some needle, ASCII lower-cased, occurs in `value`.
pub fn contains_any(value: &[char], needles: &[&str]) -> (r: bool)
    ensures
        r == any_needle(value@, needles@.map_values(|s: &str| s@)),
{
    let ghost ns = needles@.map_values(|s: &str| s@);
    let mut i: usize = 0;
    while i < needles.len()
        invariant
            i <= needles@.len(),
            ns == needles@.map_values(|s: &str| s@),
            forall|k: int| 0 <= k < i ==> !seq_contains(value@, ascii_lower(#[trigger] ns[k])),
        decreases needles@.len() - i,
    {
        let raw = chars_of(needles[i]);
        let n = lower_chars(raw.as_slice());
        if chars_contain(value, n.as_slice()) {
            assert(seq_contains(value@, ascii_lower(ns[i as int])));
            return true;
        }
        i = i + 1;
    }
    false
}

/// The text matched against: ASCII lower-cased.
pub fn normalize(value: &str) -> (r: Vec<char>)
    ensures
        r@ == ascii_lower(value@),
{
    let v = chars_of(value);
    lower_chars(v.as_slice())
}

pub open spec fn words_local_coop() -> Seq<Seq<char>> {
    seq![
        "本地合作"@,
        "本地联机"@,
        "本地多人"@,
        "同屏"@,
        "分屏"@,
        "沙发合作"@,
        "local coop"@,
        "local co-op"@,
        "couch coop"@,
        "split screen"@,
    ]
}

pub open spec fn words_online_coop() -> Seq<Seq<char>> {
    seq!["在线合作"@, "线上合作"@, "在线联机"@, "online coop"@, "online co-op"@]
}

pub open spec fn words_casual() -> Seq<Seq<char>> {
    seq!["轻松"@, "休闲"@, "放松"@, "简单"@, "casual"@, "relaxing"@, "cozy"@]
}

pub open spec fn words_cute() -> Seq<Seq<char>> {
    seq!["可爱"@, "萌"@, "治愈"@, "cute"@, "wholesome"@]
}

pub open spec fn words_survival() -> Seq<Seq<char>> {
    seq!["生存"@, "survival"@]
}

pub open spec fn words_puzzle() -> Seq<Seq<char>> {
    seq!["解谜"@, "谜题"@, "puzzle"@]
}

pub open spec fn words_shooter() -> Seq<Seq<char>> {
    seq!["射击"@, "枪"@, "shooter"@, "fps"@]
}

pub open spec fn words_party() -> Seq<Seq<char>> {
    seq!["派对"@, "party"@]
}

pub open spec fn words_roguelike() -> Seq<Seq<char>> {
    seq!["肉鸽"@, "roguelike"@, "roguelite"@, "rougelike"@, "rougelite"@]
}

pub open spec fn words_pixel() -> Seq<Seq<char>> {
    seq!["像素"@, "pixel"@]
}

pub open spec fn words_free() -> Seq<Seq<char>> {
    seq!["免费"@, "free to play"@, "free"@]
}

pub open spec fn words_cheap() -> Seq<Seq<char>> {
    seq!["便宜"@, "低价"@, "打折"@, "cheap"@, "discount"@]
}

pub open spec fn words_high_players() -> Seq<Seq<char>> {
    seq!["人多"@, "活跃"@, "在线人数"@, "high player"@]
}

pub open spec fn words_no_pixel() -> Seq<Seq<char>> {
    seq!["不要像素"@, "排除像素"@, "非像素"@, "不想要像素"@, "no pixel"@]
}

pub open spec fn words_no_horror() -> Seq<Seq<char>> {
    seq!["不要恐怖"@, "不恐怖"@, "排除恐怖"@, "no horror"@]
}

pub open spec fn words_no_roguelike() -> Seq<Seq<char>> {
    seq!["不要肉鸽"@, "排除肉鸽"@, "非肉鸽"@, "no roguelike"@, "no roguelite"@]
}

pub open spec fn words_six() -> Seq<Seq<char>> {
    seq!["6人"@, "6 人"@, "六人"@, "六 人"@, "6+"@, "6 人以上"@, "6人以上"@]
}

pub open spec fn words_four() -> Seq<Seq<char>> {
    seq!["4人"@, "4 人"@, "四人"@, "四 人"@, "4+"@, "4 人以上"@, "4人以上"@]
}

/// The intents in the order they are reported.
pub open spec fn intent_order() -> Seq<IntentKind> {
    seq![
        IntentKind::LocalCoop,
        IntentKind::OnlineCoop,
        IntentKind::Casual,
        IntentKind::Cute,
        IntentKind::Survival,
        IntentKind::Puzzle,
        IntentKind::Shooter,
        IntentKind::Party,
        IntentKind::Roguelike,
        IntentKind::Pixel,
        IntentKind::Free,
        IntentKind::Cheap,
        IntentKind::HighPlayerCount,
        IntentKind::ExcludePixel,
        IntentKind::ExcludeHorror,
        IntentKind::ExcludeRoguelike,
        IntentKind::MinPlayers(6),
        IntentKind::MinPlayers(4),
    ]
}

/// The request text `q` (lower-cased) asks for intent `k`. Asking to exclude
/// pixel art or roguelikes cancels asking for them; six players takes
/// precedence over four.
pub open spec fn intent_wanted(q: Seq<char>, k: IntentKind) -> bool {
    match k {
        IntentKind::LocalCoop => any_needle(q, words_local_coop()),
        IntentKind::OnlineCoop => any_needle(q, words_online_coop()),
        IntentKind::Casual => any_needle(q, words_casual()),
        IntentKind::Cute => any_needle(q, words_cute()),
        IntentKind::Survival => any_needle(q, words_survival()),
        IntentKind::Puzzle => any_needle(q, words_puzzle()),
        IntentKind::Shooter => any_needle(q, words_shooter()),
        IntentKind::Party => any_needle(q, words_party()),
        IntentKind::Roguelike => any_needle(q, words_roguelike()) && !any_needle(
            q,
            words_no_roguelike(),
        ),
        IntentKind::Pixel => any_needle(q, words_pixel()) && !any_needle(q, words_no_pixel()),
        IntentKind::Free => any_needle(q, words_free()),
        IntentKind::Cheap => any_needle(q, words_cheap()),
        IntentKind::HighPlayerCount => any_needle(q, words_high_players()),
        IntentKind::ExcludePixel => any_needle(q, words_no_pixel()),
        IntentKind::ExcludeHorror => any_needle(q, words_no_horror()),
        IntentKind::ExcludeRoguelike => any_needle(q, words_no_roguelike()),
        IntentKind::MinPlayers(n) => if n == 6 {
            any_needle(q, words_six())
        } else if n == 4 {
            any_needle(q, words_four())
        } else {
            false
        },
    }
}

/// The kinds of `ks` that `q` asks for, in order.
pub open spec fn wanted_in(q: Seq<char>, ks: Seq<IntentKind>) -> Seq<IntentKind>
    decreases ks.len(),
{
    if ks.len() == 0 {
        Seq::empty()
    } else {
        let prev = wanted_in(q, ks.drop_last());
        if intent_wanted(q, ks.last()) && !(ks.last() == IntentKind::MinPlayers(4)
            && intent_wanted(q, IntentKind::MinPlayers(6))) {
            prev.push(ks.last())
        } else {
            prev
        }
    }
}

/// The intents of a request text: those asked for, in report order.
pub open spec fn intents_of(query: Seq<char>) -> Seq<IntentKind> {
    wanted_in(ascii_lower(query), intent_order())
}

/// Each intent once, first occurrences kept in order.
pub fn dedupe_intents(intents: Vec<IntentKind>) -> (r: Vec<IntentKind>)
    ensures
        r@ == first_occurrences(intents@),
{
    let mut deduped: Vec<IntentKind> = Vec::new();
    let mut i: usize = 0;
    while i < intents.len()
        invariant
            i <= intents@.len(),
            deduped@ == first_occurrences(intents@.take(i as int)),
        decreases intents@.len() - i,
    {
        assert(intents@.take(i as int + 1).drop_last() =~= intents@.take(i as int));
        let intent = intents[i];
        let mut found = false;
        let mut j: usize = 0;
        while j < deduped.len()
            invariant
                j <= deduped@.len(),
                found == exists|k: int| 0 <= k < j && deduped@[k] == intent,
            decreases deduped@.len() - j,
        {
            if deduped[j] == intent {
                found = true;
            }
            j = j + 1;
        }
        if !found {
            deduped.push(intent);
        }
        i = i + 1;
    }
    assert(intents@.take(i as int) =~= intents@);
    deduped
}

fn words_hit(q: &[char], words: &[&str], Ghost(spec_words): Ghost<Seq<Seq<char>>>) -> (r: bool)
    requires
        words@.map_values(|s: &str| s@) == spec_words,
    ensures
        r == any_needle(q@, spec_words),
{
    contains_any(q, words)
}

fn asks_no_pixel(q: &[char]) -> (r: bool)
    ensures
        r == any_needle(q@, words_no_pixel()),
{
    let w = ["不要像素", "排除像素", "非像素", "不想要像素", "no pixel"];
    assert(w@.map_values(|s: &str| s@) =~= words_no_pixel());
    words_hit(q, &w, Ghost(words_no_pixel()))
}

fn asks_no_roguelike(q: &[char]) -> (r: bool)
    ensures
        r == any_needle(q@, words_no_roguelike()),
{
    let w = ["不要肉鸽", "排除肉鸽", "非肉鸽", "no roguelike", "no roguelite"];
    assert(w@.map_values(|s: &str| s@) =~= words_no_roguelike());
    words_hit(q, &w, Ghost(words_no_roguelike()))
}

/// Whether `q` (already lower-cased) asks for intent `k`.
fn wanted(q: &[char], k: IntentKind) -> (r: bool)
    ensures
        r == intent_wanted(q@, k),
{
    match k {
        IntentKind::LocalCoop => {
            let w = [
                "本地合作",
                "本地联机",
                "本地多人",
                "同屏",
                "分屏",
                "沙发合作",
                "local coop",
                "local co-op",
                "couch coop",
                "split screen",
            ];
            assert(w@.map_values(|s: &str| s@) =~= words_local_coop());
            words_hit(q, &w, Ghost(words_local_coop()))
        },
        IntentKind::OnlineCoop => {
            let w = ["在线合作", "线上合作", "在线联机", "online coop", "online co-op"];
            assert(w@.map_values(|s: &str| s@) =~= words_online_coop());
            words_hit(q, &w, Ghost(words_online_coop()))
        },
        IntentKind::Casual => {
            let w = ["轻松", "休闲", "放松", "简单", "casual", "relaxing", "cozy"];
            assert(w@.map_values(|s: &str| s@) =~= words_casual());
            words_hit(q, &w, Ghost(words_casual()))
        },
        IntentKind::Cute => {
            let w = ["可爱", "萌", "治愈", "cute", "wholesome"];
            assert(w@.map_values(|s: &str| s@) =~= words_cute());
            words_hit(q, &w, Ghost(words_cute()))
        },
        IntentKind::Survival => {
            let w = ["生存", "survival"];
            assert(w@.map_values(|s: &str| s@) =~= words_survival());
            words_hit(q, &w, Ghost(words_survival()))
        },
        IntentKind::Puzzle => {
            let w = ["解谜", "谜题", "puzzle"];
            assert(w@.map_values(|s: &str| s@) =~= words_puzzle());
            words_hit(q, &w, Ghost(words_puzzle()))
        },
        IntentKind::Shooter => {
            let w = ["射击", "枪", "shooter", "fps"];
            assert(w@.map_values(|s: &str| s@) =~= words_shooter());
            words_hit(q, &w, Ghost(words_shooter()))
        },
        IntentKind::Party => {
            let w = ["派对", "party"];
            assert(w@.map_values(|s: &str| s@) =~= words_party());
            words_hit(q, &w, Ghost(words_party()))
        },
        IntentKind::Roguelike => {
            let w = ["肉鸽", "roguelike", "roguelite", "rougelike", "rougelite"];
            assert(w@.map_values(|s: &str| s@) =~= words_roguelike());
            words_hit(q, &w, Ghost(words_roguelike())) && !asks_no_roguelike(q)
        },
        IntentKind::Pixel => {
            let w = ["像素", "pixel"];
            assert(w@.map_values(|s: &str| s@) =~= words_pixel());
            words_hit(q, &w, Ghost(words_pixel())) && !asks_no_pixel(q)
        },
        IntentKind::Free => {
            let w = ["免费", "free to play", "free"];
            assert(w@.map_values(|s: &str| s@) =~= words_free());
            words_hit(q, &w, Ghost(words_free()))
        },
        IntentKind::Cheap => {
            let w = ["便宜", "低价", "打折", "cheap", "discount"];
            assert(w@.map_values(|s: &str| s@) =~= words_cheap());
            words_hit(q, &w, Ghost(words_cheap()))
        },
        IntentKind::HighPlayerCount => {
            let w = ["人多", "活跃", "在线人数", "high player"];
            assert(w@.map_values(|s: &str| s@) =~= words_high_players());
            words_hit(q, &w, Ghost(words_high_players()))
        },
        IntentKind::ExcludePixel => asks_no_pixel(q),
        IntentKind::ExcludeHorror => {
            let w = ["不要恐怖", "不恐怖", "排除恐怖", "no horror"];
            assert(w@.map_values(|s: &str| s@) =~= words_no_horror());
            words_hit(q, &w, Ghost(words_no_horror()))
        },
        IntentKind::ExcludeRoguelike => asks_no_roguelike(q),
        IntentKind::MinPlayers(n) => {
            if n == 6 {
                let w = ["6人", "6 人", "六人", "六 人", "6+", "6 人以上", "6人以上"];
                assert(w@.map_values(|s: &str| s@) =~= words_six());
                words_hit(q, &w, Ghost(words_six()))
            } else if n == 4 {
                let w = ["4人", "4 人", "四人", "四 人", "4+", "4 人以上", "4人以上"];
                assert(w@.map_values(|s: &str| s@) =~= words_four());
                words_hit(q, &w, Ghost(words_four()))
            } else {
                false
            }
        },
    }
}

/// The search intents a request text expresses, in report order, each once.
pub fn parse_intents(query: &str) -> (r: Vec<IntentKind>)
    ensures
        r@ == intents_of(query@),
{
    let normalized = normalize(query);
    let order: [IntentKind; 18] = [
        IntentKind::LocalCoop,
        IntentKind::OnlineCoop,
        IntentKind::Casual,
        IntentKind::Cute,
        IntentKind::Survival,
        IntentKind::Puzzle,
        IntentKind::Shooter,
        IntentKind::Party,
        IntentKind::Roguelike,
        IntentKind::Pixel,
        IntentKind::Free,
        IntentKind::Cheap,
        IntentKind::HighPlayerCount,
        IntentKind::ExcludePixel,
        IntentKind::ExcludeHorror,
        IntentKind::ExcludeRoguelike,
        IntentKind::MinPlayers(6),
        IntentKind::MinPlayers(4),
    ];
    assert(order@ =~= intent_order());
    let six = wanted(normalized.as_slice(), IntentKind::MinPlayers(6));
    let mut intents: Vec<IntentKind> = Vec::new();
    let mut i: usize = 0;
    while i < 18
        invariant
            i <= 18,
            order@ == intent_order(),
            six == intent_wanted(normalized@, IntentKind::MinPlayers(6)),
            intents@ == wanted_in(normalized@, order@.take(i as int)),
        decreases 18 - i,
    {
        assert(order@.take(i as int + 1).drop_last() =~= order@.take(i as int));
        let k = order[i];
        let is_four = match k {
            IntentKind::MinPlayers(n) => n == 4,
            _ => false,
        };
        if wanted(normalized.as_slice(), k) && !(is_four && six) {
            intents.push(k);
        }
        i = i + 1;
    }
    assert(order@.take(18) =~= order@);
    proof {
        lemma_wanted_in_distinct(normalized@, intent_order());
        lemma_first_occurrences_of_distinct(intents@);
    }
    dedupe_intents(intents)
}

proof fn lemma_wanted_in_distinct(q: Seq<char>, ks: Seq<IntentKind>)
    requires
        ks.no_duplicates(),
    ensures
        wanted_in(q, ks).no_duplicates(),
        forall|k: IntentKind| wanted_in(q, ks).contains(k) ==> ks.contains(k),
    decreases ks.len(),
{
    if ks.len() > 0 {
        let p = ks.drop_last();
        assert(p.no_duplicates());
        lemma_wanted_in_distinct(q, p);
        assert forall|k: IntentKind| p.contains(k) implies ks.contains(k) && k != ks.last() by {
            let j = choose|j: int| 0 <= j < p.len() && p[j] == k;
            assert(ks[j] == k);
            assert(ks[ks.len() - 1] == ks.last());
        }
        let w = wanted_in(q, ks);
        let prev = wanted_in(q, p);
        if w != prev {
            assert(!prev.contains(ks.last())) by {
                if prev.contains(ks.last()) {
                    assert(p.contains(ks.last()));
                }
            }
            assert(w == prev.push(ks.last()));
            assert forall|i: int, j: int| 0 <= i < w.len() && 0 <= j < w.len() && i != j implies w[i] != w[j] by {
                if i == prev.len() {
                    assert(prev[j] == w[j]);
                } else if j == prev.len() {
                    assert(prev[i] == w[i]);
                } else {
                    assert(prev[i] == w[i] && prev[j] == w[j]);
                }
            }
        }
        assert forall|k: IntentKind| w.contains(k) implies ks.contains(k) by {
            if wanted_in(q, p).contains(k) {
            } else {
                assert(k == ks.last());
                assert(ks[ks.len() - 1] == k);
            }
        }
    }
}

proof fn lemma_first_occurrences_of_distinct(s: Seq<IntentKind>)
    requires
        s.no_duplicates(),
    ensures
        first_occurrences(s) == s,
    decreases s.len(),
{
    if s.len() > 0 {
        let p = s.drop_last();
        assert(p.no_duplicates());
        lemma_first_occurrences_of_distinct(p);
        assert(!p.contains(s.last())) by {
            if p.contains(s.last()) {
                let j = choose|j: int| 0 <= j < p.len() && p[j] == s.last();
                assert(s[j] == s[s.len() - 1]);
            }
        }
        assert(p.push(s.last()) =~= s);
    }
}

/// Intents that rule games out rather than match them.
pub open spec fn is_exclusion(k: IntentKind) -> bool {
    k == IntentKind::ExcludePixel || k == IntentKind::ExcludeHorror || k
        == IntentKind::ExcludeRoguelike
}

pub fn is_exclusion_intent(intent: &IntentKind) -> (r: bool)
    ensures
        r == is_exclusion(*intent),
{
    match intent {
        IntentKind::ExcludePixel | IntentKind::ExcludeHorror | IntentKind::ExcludeRoguelike => true,
        _ => false,
    }
}

/// The game's text (lower-cased) trips an exclusion intent.
pub open spec fn blocks(k: IntentKind, corpus: Seq<char>) -> bool {
    match k {
        IntentKind::ExcludePixel => any_needle(corpus, seq!["pixel"@, "像素"@]),
        IntentKind::ExcludeHorror => any_needle(corpus, seq!["horror"@, "恐怖"@]),
        IntentKind::ExcludeRoguelike => any_needle(corpus, seq!["roguelike"@, "roguelite"@, "肉鸽"@]),
        _ => false,
    }
}

/// An exclusion intent rules out a game whose text mentions what it excludes.
pub fn exclusion_blocks_game(intent: &IntentKind, corpus: &[char]) -> (r: bool)
    ensures
        r == blocks(*intent, corpus@),
{
    match intent {
        IntentKind::ExcludePixel => {
            let w = ["pixel", "像素"];
            assert(w@.map_values(|s: &str| s@) =~= seq!["pixel"@, "像素"@]);
            contains_any(corpus, &w)
        },
        IntentKind::ExcludeHorror => {
            let w = ["horror", "恐怖"];
            assert(w@.map_values(|s: &str| s@) =~= seq!["horror"@, "恐怖"@]);
            contains_any(corpus, &w)
        },
        IntentKind::ExcludeRoguelike => {
            let w = ["roguelike", "roguelite", "肉鸽"];
            assert(w@.map_values(|s: &str| s@) =~= seq!["roguelike"@, "roguelite"@, "肉鸽"@]);
            contains_any(corpus, &w)
        },
        _ => false,
    }
}

/// The texts that say a game seats `n` players.
pub open spec fn player_count_words(n: u8) -> Seq<Seq<char>> {
    let t = dec(n as nat);
    seq![t + " players"@, "up to "@ + t, t + "+"@, t + " 人"@, t + "人"@]
}

/// The game's text says it seats `min_players`.
pub fn supports_min_players(corpus: &[char], min_players: u8) -> (r: bool)
    ensures
        r == any_needle(corpus@, player_count_words(min_players)),
{
    let mut t: Vec<char> = Vec::new();
    push_dec(&mut t, min_players as u64);
    let a = string_from_chars(glue(t.as_slice(), " players", true).as_slice());
    let b = string_from_chars(glue(t.as_slice(), "up to ", false).as_slice());
    let c = string_from_chars(glue(t.as_slice(), "+", true).as_slice());
    let d = string_from_chars(glue(t.as_slice(), " 人", true).as_slice());
    let e = string_from_chars(glue(t.as_slice(), "人", true).as_slice());
    let words = [a.as_str(), b.as_str(), c.as_str(), d.as_str(), e.as_str()];
    assert(words@.map_values(|s: &str| s@) =~= player_count_words(min_players));
    contains_any(corpus, &words)
}

/// `t` followed by `s` (`after`), or `s` followed by `t`.
fn glue(t: &[char], s: &str, after: bool) -> (r: Vec<char>)
    ensures
        r@ == if after {
            t@ + s@
        } else {
            s@ + t@
        },
{
    let sv = chars_of(s);
    if after {
        let mut out: Vec<char> = Vec::new();
        extend_chars(&mut out, t);
        extend_chars(&mut out, sv.as_slice());
        assert(out@ =~= t@ + s@);
        out
    } else {
        let mut out: Vec<char> = Vec::new();
        extend_chars(&mut out, sv.as_slice());
        extend_chars(&mut out, t);
        assert(out@ =~= s@ + t@);
        out
    }
}

/// Whether a game satisfies an intent, with the label shown for it.
#[derive(Debug, Clone)]
pub struct TraitMatch {
    pub label: &'static str,
    pub matched: bool,
}

/// The store facts an intent may read besides the game's text.
#[derive(Debug, Clone)]
pub struct TraitFacts {
    pub is_free: bool,
    pub discount_percent: Option<u32>,
    pub price_text: Option<String>,
    pub current_players: Option<u32>,
}

/// The label shown for an intent.
pub open spec fn intent_label(k: IntentKind) -> Seq<char> {
    match k {
        IntentKind::LocalCoop => "本地合作"@,
        IntentKind::OnlineCoop => "在线合作"@,
        IntentKind::Casual => "轻松休闲"@,
        IntentKind::Cute => "可爱画风"@,
        IntentKind::Survival => "生存玩法"@,
        IntentKind::Puzzle => "解谜玩法"@,
        IntentKind::Shooter => "射击玩法"@,
        IntentKind::Party => "派对氛围"@,
        IntentKind::Roguelike => "肉鸽玩法"@,
        IntentKind::Pixel => "像素风格"@,
        IntentKind::Free => "免费"@,
        IntentKind::Cheap => "价格友好"@,
        IntentKind::HighPlayerCount => "活跃人数"@,
        IntentKind::MinPlayers(_) => "多人规模"@,
        _ => "排除项"@,
    }
}

/// The game, with text `corpus` (lower-cased) and facts `f`, satisfies `k`.
pub open spec fn intent_matched(k: IntentKind, f: TraitFacts, corpus: Seq<char>) -> bool {
    match k {
        IntentKind::LocalCoop => any_needle(
            corpus,
            seq!["local co-op"@, "local coop"@, "split screen"@, "shared/split"@],
        ),
        IntentKind::OnlineCoop => any_needle(corpus, seq!["online co-op"@, "online coop"@, "online"@]),
        IntentKind::Casual => any_needle(
            corpus,
            seq!["casual"@, "cozy"@, "relaxing"@, "cute"@, "party"@, "轻松"@, "休闲"@],
        ),
        IntentKind::Cute => any_needle(corpus, seq!["cute"@, "wholesome"@, "cozy"@, "可爱"@, "治愈"@]),
        IntentKind::Survival => any_needle(corpus, seq!["survival"@, "生存"@]),
        IntentKind::Puzzle => any_needle(corpus, seq!["puzzle"@, "解谜"@, "谜题"@]),
        IntentKind::Shooter => any_needle(corpus, seq!["shooter"@, "fps"@, "射击"@]),
        IntentKind::Party => any_needle(corpus, seq!["party"@, "派对"@]),
        IntentKind::Roguelike => any_needle(corpus, seq!["roguelike"@, "roguelite"@, "肉鸽"@]),
        IntentKind::Pixel => any_needle(corpus, seq!["pixel"@, "像素"@]),
        IntentKind::Free => f.is_free || any_needle(corpus, seq!["free to play"@, "免费"@]),
        IntentKind::Cheap => f.is_free || (f.discount_percent matches Some(d) && d >= 20) || (
        f.price_text matches Some(t) && any_needle(ascii_lower(t@), seq!["free"@, "$0"@, "¥0"@])),
        IntentKind::HighPlayerCount => f.current_players matches Some(p) && p >= 500,
        IntentKind::MinPlayers(n) => any_needle(corpus, player_count_words(n)),
        _ => true,
    }
}

/// Whether the game satisfies `intent`, with the label shown for it.
pub fn evaluate_intent(intent: &IntentKind, facts: &TraitFacts, corpus: &[char]) -> (r: TraitMatch)
    ensures
        r.label@ == intent_label(*intent),
        r.matched == intent_matched(*intent, *facts, corpus@),
{
    match intent {
        IntentKind::LocalCoop => {
            let w = ["local co-op", "local coop", "split screen", "shared/split"];
            assert(w@.map_values(|s: &str| s@) =~= seq![
                "local co-op"@,
                "local coop"@,
                "split screen"@,
                "shared/split"@,
            ]);
            TraitMatch { label: "本地合作", matched: contains_any(corpus, &w) }
        },
        IntentKind::OnlineCoop => {
            let w = ["online co-op", "online coop", "online"];
            assert(w@.map_values(|s: &str| s@) =~= seq!["online co-op"@, "online coop"@, "online"@]);
            TraitMatch { label: "在线合作", matched: contains_any(corpus, &w) }
        },
        IntentKind::Casual => {
            let w = ["casual", "cozy", "relaxing", "cute", "party", "轻松", "休闲"];
            assert(w@.map_values(|s: &str| s@) =~= seq![
                "casual"@,
                "cozy"@,
                "relaxing"@,
                "cute"@,
                "party"@,
                "轻松"@,
                "休闲"@,
            ]);
            TraitMatch { label: "轻松休闲", matched: contains_any(corpus, &w) }
        },
        IntentKind::Cute => {
            let w = ["cute", "wholesome", "cozy", "可爱", "治愈"];
            assert(w@.map_values(|s: &str| s@) =~= seq![
                "cute"@,
                "wholesome"@,
                "cozy"@,
                "可爱"@,
                "治愈"@,
            ]);
            TraitMatch { label: "可爱画风", matched: contains_any(corpus, &w) }
        },
        IntentKind::Survival => {
            let w = ["survival", "生存"];
            assert(w@.map_values(|s: &str| s@) =~= seq!["survival"@, "生存"@]);
            TraitMatch { label: "生存玩法", matched: contains_any(corpus, &w) }
        },
        IntentKind::Puzzle => {
            let w = ["puzzle", "解谜", "谜题"];
            assert(w@.map_values(|s: &str| s@) =~= seq!["puzzle"@, "解谜"@, "谜题"@]);
            TraitMatch { label: "解谜玩法", matched: contains_any(corpus, &w) }
        },
        IntentKind::Shooter => {
            let w = ["shooter", "fps", "射击"];
            assert(w@.map_values(|s: &str| s@) =~= seq!["shooter"@, "fps"@, "射击"@]);
            TraitMatch { label: "射击玩法", matched: contains_any(corpus, &w) }
        },
        IntentKind::Party => {
            let w = ["party", "派对"];
            assert(w@.map_values(|s: &str| s@) =~= seq!["party"@, "派对"@]);
            TraitMatch { label: "派对氛围", matched: contains_any(corpus, &w) }
        },
        IntentKind::Roguelike => {
            let w = ["roguelike", "roguelite", "肉鸽"];
            assert(w@.map_values(|s: &str| s@) =~= seq!["roguelike"@, "roguelite"@, "肉鸽"@]);
            TraitMatch { label: "肉鸽玩法", matched: contains_any(corpus, &w) }
        },
        IntentKind::Pixel => {
            let w = ["pixel", "像素"];
            assert(w@.map_values(|s: &str| s@) =~= seq!["pixel"@, "像素"@]);
            TraitMatch { label: "像素风格", matched: contains_any(corpus, &w) }
        },
        IntentKind::Free => {
            let w = ["free to play", "免费"];
            assert(w@.map_values(|s: &str| s@) =~= seq!["free to play"@, "免费"@]);
            TraitMatch { label: "免费", matched: facts.is_free || contains_any(corpus, &w) }
        },
        IntentKind::Cheap => {
            let discounted = match facts.discount_percent {
                Some(d) => d >= 20,
                None => false,
            };
            let priced_free = match &facts.price_text {
                Some(t) => {
                    let lowered = normalize(t.as_str());
                    let w = ["free", "$0", "¥0"];
                    assert(w@.map_values(|s: &str| s@) =~= seq!["free"@, "$0"@, "¥0"@]);
                    contains_any(lowered.as_slice(), &w)
                },
                None => false,
            };
            TraitMatch { label: "价格友好", matched: facts.is_free || discounted || priced_free }
        },
        IntentKind::HighPlayerCount => {
            let busy = match facts.current_players {
                Some(p) => p >= 500,
                None => false,
            };
            TraitMatch { label: "活跃人数", matched: busy }
        },
        IntentKind::MinPlayers(n) => {
            TraitMatch { label: "多人规模", matched: supports_min_players(corpus, *n) }
        },
        _ => TraitMatch { label: "排除项", matched: true },
    }
}

/// The reply heading the recommendations.
pub open spec fn reply_text(result_count: usize, exact_match_count: usize) -> Seq<char> {
    if result_count == 0 {
        "当前已入库且已发售的游戏里没有找到可用候选。"@
    } else if exact_match_count == result_count {
        "我在已入库且已发售的游戏里找到了 "@ + dec(result_count as nat) + " 个匹配候选。"@
    } else if exact_match_count == 0 {
        "当前库里没有完全匹配的游戏，我先按最关键条件给出近似推荐。"@
    } else {
        "我找到了 "@ + dec(exact_match_count as nat) + " 个完全匹配候选，也补充了几个近似选择供比较。"@
    }
}

/// The reply heading the recommendations, from how many were found and how
/// many matched every intent.
pub fn build_reply(result_count: usize, exact_match_count: usize) -> (r: String)
    ensures
        r@ == reply_text(result_count, exact_match_count),
{
    if result_count == 0 {
        return owned("当前已入库且已发售的游戏里没有找到可用候选。");
    }
    if exact_match_count == result_count {
        let mut out = chars_of("我在已入库且已发售的游戏里找到了 ");
        push_dec(&mut out, result_count as u64);
        let tail = chars_of(" 个匹配候选。");
        extend_chars(&mut out, tail.as_slice());
        return string_from_chars(out.as_slice());
    }
    if exact_match_count == 0 {
        return owned("当前库里没有完全匹配的游戏，我先按最关键条件给出近似推荐。");
    }
    let mut out = chars_of("我找到了 ");
    push_dec(&mut out, exact_match_count as u64);
    let tail = chars_of(" 个完全匹配候选，也补充了几个近似选择供比较。");
    extend_chars(&mut out, tail.as_slice());
    string_from_chars(out.as_slice())
}

/// The texts a request is matched on: its last four context messages, then
/// its prompt.
pub open spec fn query_parts(request: AiRecommendationRequest) -> Seq<Seq<char>> {
    let msgs = request.context_messages@.map_values(|m: crate::models::AiRecommendationMessage| m.content@);
    let start: int = if msgs.len() > 4 {
        msgs.len() - 4
    } else {
        0
    };
    msgs.subrange(start, msgs.len() as int).push(request.prompt@)
}

/// `parts` joined with single spaces.
pub open spec fn join_spaced(parts: Seq<Seq<char>>) -> Seq<char>
    decreases parts.len(),
{
    if parts.len() == 0 {
        Seq::empty()
    } else if parts.len() == 1 {
        parts[0]
    } else {
        join_spaced(parts.drop_last()) + seq![' '] + parts.last()
    }
}

/// The text a request is matched on: its last four context messages and its
/// prompt, separated by spaces.
pub fn merged_query(request: &AiRecommendationRequest) -> (r: String)
    ensures
        r@ == join_spaced(query_parts(*request)),
{
    let ghost parts = query_parts(*request);
    let ghost msgs = request.context_messages@.map_values(|m: crate::models::AiRecommendationMessage| m.content@);
    let n = request.context_messages.len();
    let start: usize = if n > 4 {
        n - 4
    } else {
        0
    };
    let mut out: Vec<char> = Vec::new();
    let mut i: usize = start;
    let mut first = true;
    assert(parts.take(0) =~= Seq::<Seq<char>>::empty());
    while i < n
        invariant
            start <= i <= n,
            n == request.context_messages@.len(),
            msgs == request.context_messages@.map_values(|m: crate::models::AiRecommendationMessage| m.content@),
            parts == query_parts(*request),
            start == (if n > 4 { n - 4 } else { 0 }),
            first == (i == start),
            out@ == join_spaced(parts.take(i - start)),
        decreases n - i,
    {
        let piece = chars_of(request.context_messages[i].content.as_str());
        assert(parts[i - start] == request.context_messages@[i as int].content@);
        if !first {
            out.push(' ');
        }
        extend_chars(&mut out, piece.as_slice());
        proof {
            let k = (i - start) as int;
            assert(parts.take(k + 1).drop_last() =~= parts.take(k));
            assert(parts.take(k + 1).last() == parts[k]);
            if k == 0 {
                assert(join_spaced(parts.take(1)) == parts.take(1)[0]);
            }
        }
        assert(out@ =~= join_spaced(parts.take(i - start + 1)));
        first = false;
        i = i + 1;
    }
    let prompt = chars_of(request.prompt.as_str());
    if !first {
        out.push(' ');
    }
    extend_chars(&mut out, prompt.as_slice());
    proof {
        let k = (n - start) as int;
        assert(parts.len() == k + 1);
        assert(parts.take(k + 1) =~= parts);
        assert(parts.take(k + 1).drop_last() =~= parts.take(k));
        assert(parts.last() == request.prompt@);
        if k == 0 {
            assert(join_spaced(parts) == parts[0]);
        }
    }
    assert(out@ =~= join_spaced(parts));
    string_from_chars(out.as_slice())
}

/// The number of games to recommend: `DEFAULT_LIMIT` unless asked, else the
/// asked number held to 1 ..= `MAX_LIMIT`.
pub open spec fn limit_for(limit: Option<usize>) -> usize {
    match limit {
        Some(l) => if l < 1 {
            1
        } else if l > MAX_LIMIT {
            MAX_LIMIT
        } else {
            l
        },
        None => DEFAULT_LIMIT,
    }
}

/// The number of games to recommend: 5 unless asked, 1 to 8.
pub fn recommendation_limit(limit: Option<usize>) -> (r: usize)
    ensures
        r == limit_for(limit),
{
    let l = match limit {
        Some(l) => l,
        None => DEFAULT_LIMIT,
    };
    if l < 1 {
        1
    } else if l > MAX_LIMIT {
        MAX_LIMIT
    } else {
        l
    }
}

/// The number of `true` flags.
pub open spec fn count_true(flags: Seq<bool>) -> nat
    decreases flags.len(),
{
    if flags.len() == 0 {
        0
    } else {
        count_true(flags.drop_last()) + if flags.last() {
            1nat
        } else {
            0nat
        }
    }
}

fn count_true_exec(flags: &[bool], n: usize) -> (r: usize)
    requires
        n <= flags@.len(),
    ensures
        r == count_true(flags@.take(n as int)),
{
    let mut c: usize = 0;
    let mut i: usize = 0;
    assert(flags@.take(0) =~= Seq::<bool>::empty());
    while i < n
        invariant
            i <= n <= flags@.len(),
            c == count_true(flags@.take(i as int)),
            c <= i,
        decreases n - i,
    {
        assert(flags@.take(i as int + 1).drop_last() =~= flags@.take(i as int));
        if flags[i] {
            c = c + 1;
        }
        i = i + 1;
    }
    c
}

/// The number of intents that ask for a trait rather than exclude one.
pub open spec fn wanted_count(intents: Seq<IntentKind>) -> nat
    decreases intents.len(),
{
    if intents.len() == 0 {
        0
    } else {
        wanted_count(intents.drop_last()) + if is_exclusion(intents.last()) {
            0nat
        } else {
            1nat
        }
    }
}

/// The number of intents that ask for a trait rather than exclude one.
pub fn count_wanted_intents(intents: &Vec<IntentKind>) -> (r: usize)
    ensures
        r == wanted_count(intents@),
{
    let mut c: usize = 0;
    let mut i: usize = 0;
    assert(intents@.take(0) =~= Seq::<IntentKind>::empty());
    while i < intents.len()
        invariant
            i <= intents@.len(),
            c == wanted_count(intents@.take(i as int)),
            c <= i,
        decreases intents@.len() - i,
    {
        assert(intents@.take(i as int + 1).drop_last() =~= intents@.take(i as int));
        if !is_exclusion_intent(&intents[i]) {
            c = c + 1;
        }
        i = i + 1;
    }
    assert(intents@.take(i as int) =~= intents@);
    c
}

/// Whether a game that no exclusion blocks is recommended, and whether it
/// matches exactly, from whether it meets each wanted intent: it is dropped
/// when intents are wanted and it meets none; it matches exactly when it
/// meets at least one and misses none.
pub fn trait_verdict(wanted: usize, met: &Vec<bool>) -> (r: (bool, bool))
    ensures
        r.0 == (wanted == 0 || count_true(met@) > 0),
        r.1 == (count_true(met@) > 0 && count_true(met@) == met@.len()),
{
    let matched = count_true_exec(met.as_slice(), met.len());
    assert(met@.take(met@.len() as int) =~= met@);
    (wanted == 0 || matched > 0, matched > 0 && matched == met.len())
}

/// The follow-up question: which condition to relax when nothing was found,
/// which to keep first when some results miss a trait, none when every
/// result matches exactly.
pub open spec fn follow_up_text(result_count: nat, exact_match_count: nat) -> Option<Seq<char>> {
    if result_count == 0 {
        Some("你愿意放宽玩法、人数或联机方式中的哪一项？"@)
    } else if exact_match_count < result_count {
        Some("你更愿意优先保留玩法、人数，还是联机方式？"@)
    } else {
        None
    }
}

/// What ranked recommendations come to: how many are kept, how many of those
/// match exactly, the reply and the follow-up question.
pub struct LocalOutcome {
    pub kept: usize,
    pub exact_match_count: usize,
    pub reply: String,
    pub follow_up_question: Option<String>,
}

/// The view of an optional string.
pub open spec fn opt_text(s: Option<String>) -> Option<Seq<char>> {
    match s {
        Some(v) => Some(v@),
        None => None,
    }
}

/// The outcome of a ranking whose games, best first, match exactly as
/// `exact` says, cut to `limit` games.
pub fn local_outcome(exact: &Vec<bool>, limit: usize) -> (r: LocalOutcome)
    ensures
        r.kept == if exact@.len() < limit {
            exact@.len() as usize
        } else {
            limit
        },
        r.exact_match_count == count_true(exact@.take(r.kept as int)),
        r.reply@ == reply_text(r.kept, r.exact_match_count),
        opt_text(r.follow_up_question) == follow_up_text(r.kept as nat, r.exact_match_count as nat),
{
    let kept = if exact.len() < limit {
        exact.len()
    } else {
        limit
    };
    let exact_match_count = count_true_exec(exact.as_slice(), kept);
    let reply = build_reply(kept, exact_match_count);
    let follow_up_question = if kept == 0 {
        Some(owned("你愿意放宽玩法、人数或联机方式中的哪一项？"))
    } else if exact_match_count < kept {
        Some(owned("你更愿意优先保留玩法、人数，还是联机方式？"))
    } else {
        None
    };
    LocalOutcome { kept, exact_match_count, reply, follow_up_question }
}

/// Some of `words` occurs in `hay`, as written.
pub open spec fn mentions_some(hay: Seq<char>, words: Seq<Seq<char>>) -> bool {
    exists|i: int| 0 <= i < words.len() && seq_contains(hay, #[trigger] words[i])
}

/// Needles that lower-casing leaves as they are: `any_needle` over them is
/// "some needle occurs".
proof fn lemma_any_needle_plain(hay: Seq<char>, needles: Seq<Seq<char>>)
    requires
        forall|i: int| 0 <= i < needles.len() ==> ascii_lower(#[trigger] needles[i]) == needles[i],
    ensures
        any_needle(hay, needles) <==> mentions_some(hay, needles),
{
    if any_needle(hay, needles) {
        let i = choose|i: int| 0 <= i < needles.len() && seq_contains(hay, ascii_lower(#[trigger] needles[i]));
        assert(seq_contains(hay, needles[i]));
    }
    if mentions_some(hay, needles) {
        let i = choose|i: int| 0 <= i < needles.len() && seq_contains(hay, #[trigger] needles[i]);
        assert(seq_contains(hay, ascii_lower(needles[i])));
    }
}

/// Five games are recommended unless a number is asked; an asked number is
/// kept when it is 1 to 8, raised to 1 below that and cut to 8 above it.
pub proof fn lemma_limit_for(limit: Option<usize>)
    ensures
        1 <= limit_for(limit) <= 8,
        limit == Option::<usize>::None ==> limit_for(limit) == 5,
        forall|l: usize| 1 <= l <= 8 && limit == Some(l) ==> limit_for(limit) == l,
        forall|l: usize| l > 8 && limit == Some(l) ==> limit_for(limit) == 8,
        limit == Some(0usize) ==> limit_for(limit) == 1,
{
}

/// Counting flags: no more than there are flags; all of them exactly when
/// every flag is set; some exactly when some flag is set.
pub proof fn lemma_count_true(flags: Seq<bool>)
    ensures
        count_true(flags) <= flags.len(),
        count_true(flags) == flags.len() <==> forall|i: int| 0 <= i < flags.len() ==> #[trigger] flags[i],
        count_true(flags) > 0 <==> exists|i: int| 0 <= i < flags.len() && #[trigger] flags[i],
    decreases flags.len(),
{
    if flags.len() > 0 {
        let p = flags.drop_last();
        lemma_count_true(p);
        assert forall|i: int| 0 <= i < p.len() implies #[trigger] p[i] == flags[i] by {}
        if forall|i: int| 0 <= i < flags.len() ==> #[trigger] flags[i] {
            assert(flags.last() == flags[flags.len() - 1]);
            assert forall|i: int| 0 <= i < p.len() implies #[trigger] p[i] by { assert(flags[i]); }
        }
        if count_true(flags) == flags.len() {
            assert forall|i: int| 0 <= i < flags.len() implies #[trigger] flags[i] by {
                if i < flags.len() - 1 { assert(p[i]); }
            }
        }
        if exists|i: int| 0 <= i < flags.len() && #[trigger] flags[i] {
            let i = choose|i: int| 0 <= i < flags.len() && #[trigger] flags[i];
            if i < flags.len() - 1 { assert(p[i]); }
        }
        if count_true(p) > 0 {
            let i = choose|i: int| 0 <= i < p.len() && #[trigger] p[i];
            assert(flags[i]);
        }
    }
}

/// The wanted intents are counted among all intents; none is wanted exactly
/// when every intent is an exclusion, and all are exactly when none is.
pub proof fn lemma_wanted_count(intents: Seq<IntentKind>)
    ensures
        wanted_count(intents) <= intents.len(),
        wanted_count(intents) == 0 <==> forall|i: int| 0 <= i < intents.len() ==> is_exclusion(#[trigger] intents[i]),
        wanted_count(intents) == intents.len() <==> forall|i: int|
            0 <= i < intents.len() ==> !is_exclusion(#[trigger] intents[i]),
    decreases intents.len(),
{
    if intents.len() > 0 {
        let p = intents.drop_last();
        lemma_wanted_count(p);
        assert forall|i: int| 0 <= i < p.len() implies #[trigger] p[i] == intents[i] by {}
        assert(intents.last() == intents[intents.len() - 1]);
        if wanted_count(intents) == 0 {
            assert forall|i: int| 0 <= i < intents.len() implies is_exclusion(#[trigger] intents[i]) by {
                if i < intents.len() - 1 { assert(is_exclusion(p[i])); }
            }
        }
        if forall|i: int| 0 <= i < intents.len() ==> is_exclusion(#[trigger] intents[i]) {
            assert forall|i: int| 0 <= i < p.len() implies is_exclusion(#[trigger] p[i]) by {
                assert(is_exclusion(intents[i]));
            }
        }
        if wanted_count(intents) == intents.len() {
            assert forall|i: int| 0 <= i < intents.len() implies !is_exclusion(#[trigger] intents[i]) by {
                if i < intents.len() - 1 { assert(!is_exclusion(p[i])); }
            }
        }
        if forall|i: int| 0 <= i < intents.len() ==> !is_exclusion(#[trigger] intents[i]) {
            assert forall|i: int| 0 <= i < p.len() implies !is_exclusion(#[trigger] p[i]) by {
                assert(!is_exclusion(intents[i]));
            }
        }
    }
}

/// Texts each followed by one space.
pub open spec fn each_then_space(parts: Seq<Seq<char>>) -> Seq<char>
    decreases parts.len(),
{
    if parts.len() == 0 {
        Seq::empty()
    } else {
        each_then_space(parts.drop_last()) + parts.last() + seq![' ']
    }
}

proof fn lemma_join_then_last(parts: Seq<Seq<char>>, last: Seq<char>)
    ensures
        join_spaced(parts.push(last)) == each_then_space(parts) + last,
    decreases parts.len(),
{
    if parts.len() == 0 {
        assert(parts.push(last).len() == 1);
        assert(each_then_space(parts) + last =~= last);
    } else {
        let q = parts.push(last);
        assert(q.drop_last() =~= parts);
        lemma_join_then_last(parts.drop_last(), parts.last());
        assert(parts.drop_last().push(parts.last()) =~= parts);
        assert(join_spaced(q) == join_spaced(parts) + seq![' '] + last);
        assert(join_spaced(q) =~= each_then_space(parts) + last);
    }
}

/// A request is matched on at most its last four context messages, oldest
/// first and each followed by a space, and then its prompt; with no context
/// it is matched on its prompt alone.
pub proof fn lemma_merged_query_text(request: AiRecommendationRequest)
    ensures
        ({
            let msgs = request.context_messages@.map_values(
                |m: crate::models::AiRecommendationMessage| m.content@,
            );
            let kept = if msgs.len() > 4 { 4 } else { msgs.len() as int };
            let recent = msgs.subrange(msgs.len() - kept, msgs.len() as int);
            &&& query_parts(request).len() == kept + 1
            &&& forall|i: int| 0 <= i < kept ==> #[trigger] query_parts(request)[i] == msgs[msgs.len() - kept + i]
            &&& join_spaced(query_parts(request)) == each_then_space(recent) + request.prompt@
            &&& msgs.len() == 0 ==> join_spaced(query_parts(request)) == request.prompt@
        }),
{
    let msgs = request.context_messages@.map_values(|m: crate::models::AiRecommendationMessage| m.content@);
    let kept = if msgs.len() > 4 { 4 } else { msgs.len() as int };
    let recent = msgs.subrange(msgs.len() - kept, msgs.len() as int);
    assert(query_parts(request) == recent.push(request.prompt@));
    lemma_join_then_last(recent, request.prompt@);
    if msgs.len() == 0 {
        assert(recent.len() == 0);
        assert(each_then_space(recent) + request.prompt@ =~= request.prompt@);
    }
}

/// What each exclusion rules out: a game whose text mentions horror
/// ("horror", "恐怖") under `ExcludeHorror`, pixel art ("pixel", "像素") under
/// `ExcludePixel`, and roguelikes ("roguelike", "roguelite", "肉鸽") under
/// `ExcludeRoguelike`; and only those. An intent that is no exclusion never
/// rules a game out.
pub proof fn lemma_exclusions_block(corpus: Seq<char>)
    ensures
        blocks(IntentKind::ExcludeHorror, corpus) <==> mentions_some(corpus, seq!["horror"@, "恐怖"@]),
        blocks(IntentKind::ExcludePixel, corpus) <==> mentions_some(corpus, seq!["pixel"@, "像素"@]),
        blocks(IntentKind::ExcludeRoguelike, corpus) <==> mentions_some(corpus, seq!["roguelike"@, "roguelite"@, "肉鸽"@]),
        forall|k: IntentKind| !is_exclusion(k) ==> !#[trigger] blocks(k, corpus),
{
    let w0 = seq!["horror"@, "恐怖"@];
    reveal_strlit("horror");
    assert(ascii_lower("horror"@) =~= "horror"@);
    reveal_strlit("恐怖");
    assert(ascii_lower("恐怖"@) =~= "恐怖"@);
    assert forall|i: int| 0 <= i < w0.len() implies #[trigger] ascii_lower(w0[i]) == w0[i] by { if i == 0 {} else {} }
    lemma_any_needle_plain(corpus, w0);
    let w1 = seq!["pixel"@, "像素"@];
    reveal_strlit("pixel");
    assert(ascii_lower("pixel"@) =~= "pixel"@);
    reveal_strlit("像素");
    assert(ascii_lower("像素"@) =~= "像素"@);
    assert forall|i: int| 0 <= i < w1.len() implies #[trigger] ascii_lower(w1[i]) == w1[i] by { if i == 0 {} else {} }
    lemma_any_needle_plain(corpus, w1);
    let w2 = seq!["roguelike"@, "roguelite"@, "肉鸽"@];
    reveal_strlit("roguelike");
    assert(ascii_lower("roguelike"@) =~= "roguelike"@);
    reveal_strlit("roguelite");
    assert(ascii_lower("roguelite"@) =~= "roguelite"@);
    reveal_strlit("肉鸽");
    assert(ascii_lower("肉鸽"@) =~= "肉鸽"@);
    assert forall|i: int| 0 <= i < w2.len() implies #[trigger] ascii_lower(w2[i]) == w2[i] by { if i == 0 {} else if i == 1 {} else {} }
    lemma_any_needle_plain(corpus, w2);
}

/// What each wanted intent asks of a game, given its lower-cased text and
/// store facts: local co-op, online co-op, casual, cute, survival, puzzle,
/// shooter, party, roguelike and pixel-art games are recognized by the words
/// their text mentions; a free game also by being free; a cheap one by being
/// free, at least 20% off, or priced "free", "$0" or "¥0"; a busy one by at
/// least 500 players online. Exclusions ask nothing.
pub proof fn lemma_intent_matches(f: TraitFacts, corpus: Seq<char>)
    ensures
        intent_matched(IntentKind::LocalCoop, f, corpus) <==> mentions_some(corpus, seq!["local co-op"@, "local coop"@, "split screen"@, "shared/split"@]),
        intent_matched(IntentKind::OnlineCoop, f, corpus) <==> mentions_some(corpus, seq!["online co-op"@, "online coop"@, "online"@]),
        intent_matched(IntentKind::Casual, f, corpus) <==> mentions_some(corpus, seq!["casual"@, "cozy"@, "relaxing"@, "cute"@, "party"@, "轻松"@, "休闲"@]),
        intent_matched(IntentKind::Cute, f, corpus) <==> mentions_some(corpus, seq!["cute"@, "wholesome"@, "cozy"@, "可爱"@, "治愈"@]),
        intent_matched(IntentKind::Survival, f, corpus) <==> mentions_some(corpus, seq!["survival"@, "生存"@]),
        intent_matched(IntentKind::Puzzle, f, corpus) <==> mentions_some(corpus, seq!["puzzle"@, "解谜"@, "谜题"@]),
        intent_matched(IntentKind::Shooter, f, corpus) <==> mentions_some(corpus, seq!["shooter"@, "fps"@, "射击"@]),
        intent_matched(IntentKind::Party, f, corpus) <==> mentions_some(corpus, seq!["party"@, "派对"@]),
        intent_matched(IntentKind::Roguelike, f, corpus) <==> mentions_some(corpus, seq!["roguelike"@, "roguelite"@, "肉鸽"@]),
        intent_matched(IntentKind::Pixel, f, corpus) <==> mentions_some(corpus, seq!["pixel"@, "像素"@]),
        intent_matched(IntentKind::Free, f, corpus) <==> f.is_free || mentions_some(corpus, seq!["free to play"@, "免费"@]),
        intent_matched(IntentKind::Cheap, f, corpus) <==> f.is_free || (f.discount_percent matches Some(d) && d >= 20)
            || (f.price_text matches Some(t) && mentions_some(ascii_lower(t@), seq!["free"@, "$0"@, "¥0"@])),
        intent_matched(IntentKind::HighPlayerCount, f, corpus) <==> (f.current_players matches Some(p) && p >= 500),
        forall|k: IntentKind| is_exclusion(k) ==> #[trigger] intent_matched(k, f, corpus),
{
    let m0 = seq!["local co-op"@, "local coop"@, "split screen"@, "shared/split"@];
    reveal_strlit("local co-op");
    assert(ascii_lower("local co-op"@) =~= "local co-op"@);
    reveal_strlit("local coop");
    assert(ascii_lower("local coop"@) =~= "local coop"@);
    reveal_strlit("split screen");
    assert(ascii_lower("split screen"@) =~= "split screen"@);
    reveal_strlit("shared/split");
    assert(ascii_lower("shared/split"@) =~= "shared/split"@);
    assert forall|i: int| 0 <= i < m0.len() implies #[trigger] ascii_lower(m0[i]) == m0[i] by { if i == 0 {} else if i == 1 {} else if i == 2 {} else {} }
    lemma_any_needle_plain(corpus, m0);
    let m1 = seq!["online co-op"@, "online coop"@, "online"@];
    reveal_strlit("online co-op");
    assert(ascii_lower("online co-op"@) =~= "online co-op"@);
    reveal_strlit("online coop");
    assert(ascii_lower("online coop"@) =~= "online coop"@);
    reveal_strlit("online");
    assert(ascii_lower("online"@) =~= "online"@);
    assert forall|i: int| 0 <= i < m1.len() implies #[trigger] ascii_lower(m1[i]) == m1[i] by { if i == 0 {} else if i == 1 {} else {} }
    lemma_any_needle_plain(corpus, m1);
    let m2 = seq!["casual"@, "cozy"@, "relaxing"@, "cute"@, "party"@, "轻松"@, "休闲"@];
    reveal_strlit("casual");
    assert(ascii_lower("casual"@) =~= "casual"@);
    reveal_strlit("cozy");
    assert(ascii_lower("cozy"@) =~= "cozy"@);
    reveal_strlit("relaxing");
    assert(ascii_lower("relaxing"@) =~= "relaxing"@);
    reveal_strlit("cute");
    assert(ascii_lower("cute"@) =~= "cute"@);
    reveal_strlit("party");
    assert(ascii_lower("party"@) =~= "party"@);
    reveal_strlit("轻松");
    assert(ascii_lower("轻松"@) =~= "轻松"@);
    reveal_strlit("休闲");
    assert(ascii_lower("休闲"@) =~= "休闲"@);
    assert forall|i: int| 0 <= i < m2.len() implies #[trigger] ascii_lower(m2[i]) == m2[i] by { if i == 0 {} else if i == 1 {} else if i == 2 {} else if i == 3 {} else if i == 4 {} else if i == 5 {} else {} }
    lemma_any_needle_plain(corpus, m2);
    let m3 = seq!["cute"@, "wholesome"@, "cozy"@, "可爱"@, "治愈"@];
    assert(ascii_lower("cute"@) =~= "cute"@);
    reveal_strlit("wholesome");
    assert(ascii_lower("wholesome"@) =~= "wholesome"@);
    assert(ascii_lower("cozy"@) =~= "cozy"@);
    reveal_strlit("可爱");
    assert(ascii_lower("可爱"@) =~= "可爱"@);
    reveal_strlit("治愈");
    assert(ascii_lower("治愈"@) =~= "治愈"@);
    assert forall|i: int| 0 <= i < m3.len() implies #[trigger] ascii_lower(m3[i]) == m3[i] by { if i == 0 {} else if i == 1 {} else if i == 2 {} else if i == 3 {} else {} }
    lemma_any_needle_plain(corpus, m3);
    let m4 = seq!["survival"@, "生存"@];
    reveal_strlit("survival");
    assert(ascii_lower("survival"@) =~= "survival"@);
    reveal_strlit("生存");
    assert(ascii_lower("生存"@) =~= "生存"@);
    assert forall|i: int| 0 <= i < m4.len() implies #[trigger] ascii_lower(m4[i]) == m4[i] by { if i == 0 {} else {} }
    lemma_any_needle_plain(corpus, m4);
    let m5 = seq!["puzzle"@, "解谜"@, "谜题"@];
    reveal_strlit("puzzle");
    assert(ascii_lower("puzzle"@) =~= "puzzle"@);
    reveal_strlit("解谜");
    assert(ascii_lower("解谜"@) =~= "解谜"@);
    reveal_strlit("谜题");
    assert(ascii_lower("谜题"@) =~= "谜题"@);
    assert forall|i: int| 0 <= i < m5.len() implies #[trigger] ascii_lower(m5[i]) == m5[i] by { if i == 0 {} else if i == 1 {} else {} }
    lemma_any_needle_plain(corpus, m5);
    let m6 = seq!["shooter"@, "fps"@, "射击"@];
    reveal_strlit("shooter");
    assert(ascii_lower("shooter"@) =~= "shooter"@);
    reveal_strlit("fps");
    assert(ascii_lower("fps"@) =~= "fps"@);
    reveal_strlit("射击");
    assert(ascii_lower("射击"@) =~= "射击"@);
    assert forall|i: int| 0 <= i < m6.len() implies #[trigger] ascii_lower(m6[i]) == m6[i] by { if i == 0 {} else if i == 1 {} else {} }
    lemma_any_needle_plain(corpus, m6);
    let m7 = seq!["party"@, "派对"@];
    assert(ascii_lower("party"@) =~= "party"@);
    reveal_strlit("派对");
    assert(ascii_lower("派对"@) =~= "派对"@);
    assert forall|i: int| 0 <= i < m7.len() implies #[trigger] ascii_lower(m7[i]) == m7[i] by { if i == 0 {} else {} }
    lemma_any_needle_plain(corpus, m7);
    let m8 = seq!["roguelike"@, "roguelite"@, "肉鸽"@];
    reveal_strlit("roguelike");
    assert(ascii_lower("roguelike"@) =~= "roguelike"@);
    reveal_strlit("roguelite");
    assert(ascii_lower("roguelite"@) =~= "roguelite"@);
    reveal_strlit("肉鸽");
    assert(ascii_lower("肉鸽"@) =~= "肉鸽"@);
    assert forall|i: int| 0 <= i < m8.len() implies #[trigger] ascii_lower(m8[i]) == m8[i] by { if i == 0 {} else if i == 1 {} else {} }
    lemma_any_needle_plain(corpus, m8);
    let m9 = seq!["pixel"@, "像素"@];
    reveal_strlit("pixel");
    assert(ascii_lower("pixel"@) =~= "pixel"@);
    reveal_strlit("像素");
    assert(ascii_lower("像素"@) =~= "像素"@);
    assert forall|i: int| 0 <= i < m9.len() implies #[trigger] ascii_lower(m9[i]) == m9[i] by { if i == 0 {} else {} }
    lemma_any_needle_plain(corpus, m9);
    let mf = seq!["free to play"@, "免费"@];
    reveal_strlit("free to play");
    assert(ascii_lower("free to play"@) =~= "free to play"@);
    reveal_strlit("免费");
    assert(ascii_lower("免费"@) =~= "免费"@);
    assert forall|i: int| 0 <= i < mf.len() implies #[trigger] ascii_lower(mf[i]) == mf[i] by { if i == 0 {} else {} }
    lemma_any_needle_plain(corpus, mf);
    if let Some(t) = f.price_text {
        let mc = seq!["free"@, "$0"@, "¥0"@];
        reveal_strlit("free");
        assert(ascii_lower("free"@) =~= "free"@);
        reveal_strlit("$0");
        assert(ascii_lower("$0"@) =~= "$0"@);
        reveal_strlit("¥0");
        assert(ascii_lower("¥0"@) =~= "¥0"@);
        assert forall|i: int| 0 <= i < mc.len() implies #[trigger] ascii_lower(mc[i]) == mc[i] by { if i == 0 {} else if i == 1 {} else {} }
        lemma_any_needle_plain(ascii_lower(t@), mc);
    }
}

proof fn lemma_wanted_in_contains(q: Seq<char>, ks: Seq<IntentKind>, k: IntentKind)
    ensures
        wanted_in(q, ks).contains(k) <==> ks.contains(k) && intent_wanted(q, k) && !(k == IntentKind::MinPlayers(4)
            && intent_wanted(q, IntentKind::MinPlayers(6))),
    decreases ks.len(),
{
    if ks.len() > 0 {
        let prev = ks.drop_last();
        lemma_wanted_in_contains(q, prev, k);
        let w = wanted_in(q, prev);
        if wanted_in(q, ks).contains(k) {
            if w.contains(k) {
                let i = choose|i: int| 0 <= i < prev.len() && prev[i] == k;
                assert(ks[i] == k);
            } else {
                assert(wanted_in(q, ks) == w.push(ks.last()));
                let i = choose|i: int| 0 <= i < w.push(ks.last()).len() && w.push(ks.last())[i] == k;
                assert(ks[ks.len() - 1] == k);
            }
        }
        if ks.contains(k) && intent_wanted(q, k) && !(k == IntentKind::MinPlayers(4) && intent_wanted(
            q,
            IntentKind::MinPlayers(6),
        )) {
            let i = choose|i: int| 0 <= i < ks.len() && ks[i] == k;
            if i < ks.len() - 1 {
                assert(prev[i] == k);
                assert(prev.contains(k));
                let j = choose|j: int| 0 <= j < w.len() && w[j] == k;
                if intent_wanted(q, ks.last()) && !(ks.last() == IntentKind::MinPlayers(4) && intent_wanted(
                    q,
                    IntentKind::MinPlayers(6),
                )) {
                    assert(w.push(ks.last())[j] == k);
                }
            } else {
                assert(ks.last() == k);
                assert(w.push(k)[w.len() as int] == k);
            }
        }
    }
}

proof fn lemma_intents_of_contains(query: Seq<char>)
    ensures
        forall|k: IntentKind| #[trigger] intents_of(query).contains(k) <==> intent_order().contains(k) && intent_wanted(
            ascii_lower(query),
            k,
        ) && !(k == IntentKind::MinPlayers(4) && intent_wanted(ascii_lower(query), IntentKind::MinPlayers(6))),
{
    assert forall|k: IntentKind| #[trigger] intents_of(query).contains(k) <==> intent_order().contains(k)
        && intent_wanted(ascii_lower(query), k) && !(k == IntentKind::MinPlayers(4) && intent_wanted(
        ascii_lower(query),
        IntentKind::MinPlayers(6),
    )) by {
        lemma_wanted_in_contains(ascii_lower(query), intent_order(), k);
    }
}

/// The intents a request text asks for, read from its lower-cased form `q`:
/// each is asked for by mentioning one of its words; asking to exclude pixel
/// art or roguelikes cancels asking for them; six players takes precedence
/// over four, and no other player count is recognized.
pub proof fn lemma_intents_asked(query: Seq<char>)
    ensures
        ({
            let q = ascii_lower(query);
            &&& intents_of(query).contains(IntentKind::LocalCoop) <==> mentions_some(q, seq!["本地合作"@, "本地联机"@, "本地多人"@, "同屏"@, "分屏"@, "沙发合作"@, "local coop"@, "local co-op"@, "couch coop"@, "split screen"@])
            &&& intents_of(query).contains(IntentKind::OnlineCoop) <==> mentions_some(q, seq!["在线合作"@, "线上合作"@, "在线联机"@, "online coop"@, "online co-op"@])
            &&& intents_of(query).contains(IntentKind::Casual) <==> mentions_some(q, seq!["轻松"@, "休闲"@, "放松"@, "简单"@, "casual"@, "relaxing"@, "cozy"@])
            &&& intents_of(query).contains(IntentKind::Cute) <==> mentions_some(q, seq!["可爱"@, "萌"@, "治愈"@, "cute"@, "wholesome"@])
            &&& intents_of(query).contains(IntentKind::Survival) <==> mentions_some(q, seq!["生存"@, "survival"@])
            &&& intents_of(query).contains(IntentKind::Puzzle) <==> mentions_some(q, seq!["解谜"@, "谜题"@, "puzzle"@])
            &&& intents_of(query).contains(IntentKind::Shooter) <==> mentions_some(q, seq!["射击"@, "枪"@, "shooter"@, "fps"@])
            &&& intents_of(query).contains(IntentKind::Party) <==> mentions_some(q, seq!["派对"@, "party"@])
            &&& intents_of(query).contains(IntentKind::Free) <==> mentions_some(q, seq!["免费"@, "free to play"@, "free"@])
            &&& intents_of(query).contains(IntentKind::Cheap) <==> mentions_some(q, seq!["便宜"@, "低价"@, "打折"@, "cheap"@, "discount"@])
            &&& intents_of(query).contains(IntentKind::HighPlayerCount) <==> mentions_some(q, seq!["人多"@, "活跃"@, "在线人数"@, "high player"@])
            &&& intents_of(query).contains(IntentKind::ExcludePixel) <==> mentions_some(q, seq!["不要像素"@, "排除像素"@, "非像素"@, "不想要像素"@, "no pixel"@])
            &&& intents_of(query).contains(IntentKind::ExcludeHorror) <==> mentions_some(q, seq!["不要恐怖"@, "不恐怖"@, "排除恐怖"@, "no horror"@])
            &&& intents_of(query).contains(IntentKind::ExcludeRoguelike) <==> mentions_some(q, seq!["不要肉鸽"@, "排除肉鸽"@, "非肉鸽"@, "no roguelike"@, "no roguelite"@])
            &&& intents_of(query).contains(IntentKind::Roguelike) <==> mentions_some(q, seq!["肉鸽"@, "roguelike"@, "roguelite"@, "rougelike"@, "rougelite"@]) && !mentions_some(q, seq!["不要肉鸽"@, "排除肉鸽"@, "非肉鸽"@, "no roguelike"@, "no roguelite"@])
            &&& intents_of(query).contains(IntentKind::Pixel) <==> mentions_some(q, seq!["像素"@, "pixel"@]) && !mentions_some(q, seq!["不要像素"@, "排除像素"@, "非像素"@, "不想要像素"@, "no pixel"@])
            &&& intents_of(query).contains(IntentKind::MinPlayers(6)) <==> mentions_some(q, seq!["6人"@, "6 人"@, "六人"@, "六 人"@, "6+"@, "6 人以上"@, "6人以上"@])
            &&& intents_of(query).contains(IntentKind::MinPlayers(4)) <==> mentions_some(q, seq!["4人"@, "4 人"@, "四人"@, "四 人"@, "4+"@, "4 人以上"@, "4人以上"@]) && !mentions_some(q, seq!["6人"@, "6 人"@, "六人"@, "六 人"@, "6+"@, "6 人以上"@, "6人以上"@])
            &&& forall|n: u8| n != 4 && n != 6 ==> !#[trigger] intents_of(query).contains(IntentKind::MinPlayers(n))
        }),
{
    let q = ascii_lower(query);
    lemma_intents_of_contains(query);
    let v_words_local_coop = seq!["本地合作"@, "本地联机"@, "本地多人"@, "同屏"@, "分屏"@, "沙发合作"@, "local coop"@, "local co-op"@, "couch coop"@, "split screen"@];
    reveal_strlit("本地合作");
    assert(ascii_lower("本地合作"@) =~= "本地合作"@);
    reveal_strlit("本地联机");
    assert(ascii_lower("本地联机"@) =~= "本地联机"@);
    reveal_strlit("本地多人");
    assert(ascii_lower("本地多人"@) =~= "本地多人"@);
    reveal_strlit("同屏");
    assert(ascii_lower("同屏"@) =~= "同屏"@);
    reveal_strlit("分屏");
    assert(ascii_lower("分屏"@) =~= "分屏"@);
    reveal_strlit("沙发合作");
    assert(ascii_lower("沙发合作"@) =~= "沙发合作"@);
    reveal_strlit("local coop");
    assert(ascii_lower("local coop"@) =~= "local coop"@);
    reveal_strlit("local co-op");
    assert(ascii_lower("local co-op"@) =~= "local co-op"@);
    reveal_strlit("couch coop");
    assert(ascii_lower("couch coop"@) =~= "couch coop"@);
    reveal_strlit("split screen");
    assert(ascii_lower("split screen"@) =~= "split screen"@);
    assert forall|i: int| 0 <= i < v_words_local_coop.len() implies #[trigger] ascii_lower(v_words_local_coop[i]) == v_words_local_coop[i] by { if i == 0 {} else if i == 1 {} else if i == 2 {} else if i == 3 {} else if i == 4 {} else if i == 5 {} else if i == 6 {} else if i == 7 {} else if i == 8 {} else {} }
    lemma_any_needle_plain(q, v_words_local_coop);
    let v_words_online_coop = seq!["在线合作"@, "线上合作"@, "在线联机"@, "online coop"@, "online co-op"@];
    reveal_strlit("在线合作");
    assert(ascii_lower("在线合作"@) =~= "在线合作"@);
    reveal_strlit("线上合作");
    assert(ascii_lower("线上合作"@) =~= "线上合作"@);
    reveal_strlit("在线联机");
    assert(ascii_lower("在线联机"@) =~= "在线联机"@);
    reveal_strlit("online coop");
    assert(ascii_lower("online coop"@) =~= "online coop"@);
    reveal_strlit("online co-op");
    assert(ascii_lower("online co-op"@) =~= "online co-op"@);
    assert forall|i: int| 0 <= i < v_words_online_coop.len() implies #[trigger] ascii_lower(v_words_online_coop[i]) == v_words_online_coop[i] by { if i == 0 {} else if i == 1 {} else if i == 2 {} else if i == 3 {} else {} }
    lemma_any_needle_plain(q, v_words_online_coop);
    let v_words_casual = seq!["轻松"@, "休闲"@, "放松"@, "简单"@, "casual"@, "relaxing"@, "cozy"@];
    reveal_strlit("轻松");
    assert(ascii_lower("轻松"@) =~= "轻松"@);
    reveal_strlit("休闲");
    assert(ascii_lower("休闲"@) =~= "休闲"@);
    reveal_strlit("放松");
    assert(ascii_lower("放松"@) =~= "放松"@);
    reveal_strlit("简单");
    assert(ascii_lower("简单"@) =~= "简单"@);
    reveal_strlit("casual");
    assert(ascii_lower("casual"@) =~= "casual"@);
    reveal_strlit("relaxing");
    assert(ascii_lower("relaxing"@) =~= "relaxing"@);
    reveal_strlit("cozy");
    assert(ascii_lower("cozy"@) =~= "cozy"@);
    assert forall|i: int| 0 <= i < v_words_casual.len() implies #[trigger] ascii_lower(v_words_casual[i]) == v_words_casual[i] by { if i == 0 {} else if i == 1 {} else if i == 2 {} else if i == 3 {} else if i == 4 {} else if i == 5 {} else {} }
    lemma_any_needle_plain(q, v_words_casual);
    let v_words_cute = seq!["可爱"@, "萌"@, "治愈"@, "cute"@, "wholesome"@];
    reveal_strlit("可爱");
    assert(ascii_lower("可爱"@) =~= "可爱"@);
    reveal_strlit("萌");
    assert(ascii_lower("萌"@) =~= "萌"@);
    reveal_strlit("治愈");
    assert(ascii_lower("治愈"@) =~= "治愈"@);
    reveal_strlit("cute");
    assert(ascii_lower("cute"@) =~= "cute"@);
    reveal_strlit("wholesome");
    assert(ascii_lower("wholesome"@) =~= "wholesome"@);
    assert forall|i: int| 0 <= i < v_words_cute.len() implies #[trigger] ascii_lower(v_words_cute[i]) == v_words_cute[i] by { if i == 0 {} else if i == 1 {} else if i == 2 {} else if i == 3 {} else {} }
    lemma_any_needle_plain(q, v_words_cute);
    let v_words_survival = seq!["生存"@, "survival"@];
    reveal_strlit("生存");
    assert(ascii_lower("生存"@) =~= "生存"@);
    reveal_strlit("survival");
    assert(ascii_lower("survival"@) =~= "survival"@);
    assert forall|i: int| 0 <= i < v_words_survival.len() implies #[trigger] ascii_lower(v_words_survival[i]) == v_words_survival[i] by { if i == 0 {} else {} }
    lemma_any_needle_plain(q, v_words_survival);
    let v_words_puzzle = seq!["解谜"@, "谜题"@, "puzzle"@];
    reveal_strlit("解谜");
    assert(ascii_lower("解谜"@) =~= "解谜"@);
    reveal_strlit("谜题");
    assert(ascii_lower("谜题"@) =~= "谜题"@);
    reveal_strlit("puzzle");
    assert(ascii_lower("puzzle"@) =~= "puzzle"@);
    assert forall|i: int| 0 <= i < v_words_puzzle.len() implies #[trigger] ascii_lower(v_words_puzzle[i]) == v_words_puzzle[i] by { if i == 0 {} else if i == 1 {} else {} }
    lemma_any_needle_plain(q, v_words_puzzle);
    let v_words_shooter = seq!["射击"@, "枪"@, "shooter"@, "fps"@];
    reveal_strlit("射击");
    assert(ascii_lower("射击"@) =~= "射击"@);
    reveal_strlit("枪");
    assert(ascii_lower("枪"@) =~= "枪"@);
    reveal_strlit("shooter");
    assert(ascii_lower("shooter"@) =~= "shooter"@);
    reveal_strlit("fps");
    assert(ascii_lower("fps"@) =~= "fps"@);
    assert forall|i: int| 0 <= i < v_words_shooter.len() implies #[trigger] ascii_lower(v_words_shooter[i]) == v_words_shooter[i] by { if i == 0 {} else if i == 1 {} else if i == 2 {} else {} }
    lemma_any_needle_plain(q, v_words_shooter);
    let v_words_party = seq!["派对"@, "party"@];
    reveal_strlit("派对");
    assert(ascii_lower("派对"@) =~= "派对"@);
    reveal_strlit("party");
    assert(ascii_lower("party"@) =~= "party"@);
    assert forall|i: int| 0 <= i < v_words_party.len() implies #[trigger] ascii_lower(v_words_party[i]) == v_words_party[i] by { if i == 0 {} else {} }
    lemma_any_needle_plain(q, v_words_party);
    let v_words_roguelike = seq!["肉鸽"@, "roguelike"@, "roguelite"@, "rougelike"@, "rougelite"@];
    reveal_strlit("肉鸽");
    assert(ascii_lower("肉鸽"@) =~= "肉鸽"@);
    reveal_strlit("roguelike");
    assert(ascii_lower("roguelike"@) =~= "roguelike"@);
    reveal_strlit("roguelite");
    assert(ascii_lower("roguelite"@) =~= "roguelite"@);
    reveal_strlit("rougelike");
    assert(ascii_lower("rougelike"@) =~= "rougelike"@);
    reveal_strlit("rougelite");
    assert(ascii_lower("rougelite"@) =~= "rougelite"@);
    assert forall|i: int| 0 <= i < v_words_roguelike.len() implies #[trigger] ascii_lower(v_words_roguelike[i]) == v_words_roguelike[i] by { if i == 0 {} else if i == 1 {} else if i == 2 {} else if i == 3 {} else {} }
    lemma_any_needle_plain(q, v_words_roguelike);
    let v_words_pixel = seq!["像素"@, "pixel"@];
    reveal_strlit("像素");
    assert(ascii_lower("像素"@) =~= "像素"@);
    reveal_strlit("pixel");
    assert(ascii_lower("pixel"@) =~= "pixel"@);
    assert forall|i: int| 0 <= i < v_words_pixel.len() implies #[trigger] ascii_lower(v_words_pixel[i]) == v_words_pixel[i] by { if i == 0 {} else {} }
    lemma_any_needle_plain(q, v_words_pixel);
    let v_words_free = seq!["免费"@, "free to play"@, "free"@];
    reveal_strlit("免费");
    assert(ascii_lower("免费"@) =~= "免费"@);
    reveal_strlit("free to play");
    assert(ascii_lower("free to play"@) =~= "free to play"@);
    reveal_strlit("free");
    assert(ascii_lower("free"@) =~= "free"@);
    assert forall|i: int| 0 <= i < v_words_free.len() implies #[trigger] ascii_lower(v_words_free[i]) == v_words_free[i] by { if i == 0 {} else if i == 1 {} else {} }
    lemma_any_needle_plain(q, v_words_free);
    let v_words_cheap = seq!["便宜"@, "低价"@, "打折"@, "cheap"@, "discount"@];
    reveal_strlit("便宜");
    assert(ascii_lower("便宜"@) =~= "便宜"@);
    reveal_strlit("低价");
    assert(ascii_lower("低价"@) =~= "低价"@);
    reveal_strlit("打折");
    assert(ascii_lower("打折"@) =~= "打折"@);
    reveal_strlit("cheap");
    assert(ascii_lower("cheap"@) =~= "cheap"@);
    reveal_strlit("discount");
    assert(ascii_lower("discount"@) =~= "discount"@);
    assert forall|i: int| 0 <= i < v_words_cheap.len() implies #[trigger] ascii_lower(v_words_cheap[i]) == v_words_cheap[i] by { if i == 0 {} else if i == 1 {} else if i == 2 {} else if i == 3 {} else {} }
    lemma_any_needle_plain(q, v_words_cheap);
    let v_words_high_players = seq!["人多"@, "活跃"@, "在线人数"@, "high player"@];
    reveal_strlit("人多");
    assert(ascii_lower("人多"@) =~= "人多"@);
    reveal_strlit("活跃");
    assert(ascii_lower("活跃"@) =~= "活跃"@);
    reveal_strlit("在线人数");
    assert(ascii_lower("在线人数"@) =~= "在线人数"@);
    reveal_strlit("high player");
    assert(ascii_lower("high player"@) =~= "high player"@);
    assert forall|i: int| 0 <= i < v_words_high_players.len() implies #[trigger] ascii_lower(v_words_high_players[i]) == v_words_high_players[i] by { if i == 0 {} else if i == 1 {} else if i == 2 {} else {} }
    lemma_any_needle_plain(q, v_words_high_players);
    let v_words_no_pixel = seq!["不要像素"@, "排除像素"@, "非像素"@, "不想要像素"@, "no pixel"@];
    reveal_strlit("不要像素");
    assert(ascii_lower("不要像素"@) =~= "不要像素"@);
    reveal_strlit("排除像素");
    assert(ascii_lower("排除像素"@) =~= "排除像素"@);
    reveal_strlit("非像素");
    assert(ascii_lower("非像素"@) =~= "非像素"@);
    reveal_strlit("不想要像素");
    assert(ascii_lower("不想要像素"@) =~= "不想要像素"@);
    reveal_strlit("no pixel");
    assert(ascii_lower("no pixel"@) =~= "no pixel"@);
    assert forall|i: int| 0 <= i < v_words_no_pixel.len() implies #[trigger] ascii_lower(v_words_no_pixel[i]) == v_words_no_pixel[i] by { if i == 0 {} else if i == 1 {} else if i == 2 {} else if i == 3 {} else {} }
    lemma_any_needle_plain(q, v_words_no_pixel);
    let v_words_no_horror = seq!["不要恐怖"@, "不恐怖"@, "排除恐怖"@, "no horror"@];
    reveal_strlit("不要恐怖");
    assert(ascii_lower("不要恐怖"@) =~= "不要恐怖"@);
    reveal_strlit("不恐怖");
    assert(ascii_lower("不恐怖"@) =~= "不恐怖"@);
    reveal_strlit("排除恐怖");
    assert(ascii_lower("排除恐怖"@) =~= "排除恐怖"@);
    reveal_strlit("no horror");
    assert(ascii_lower("no horror"@) =~= "no horror"@);
    assert forall|i: int| 0 <= i < v_words_no_horror.len() implies #[trigger] ascii_lower(v_words_no_horror[i]) == v_words_no_horror[i] by { if i == 0 {} else if i == 1 {} else if i == 2 {} else {} }
    lemma_any_needle_plain(q, v_words_no_horror);
    let v_words_no_roguelike = seq!["不要肉鸽"@, "排除肉鸽"@, "非肉鸽"@, "no roguelike"@, "no roguelite"@];
    reveal_strlit("不要肉鸽");
    assert(ascii_lower("不要肉鸽"@) =~= "不要肉鸽"@);
    reveal_strlit("排除肉鸽");
    assert(ascii_lower("排除肉鸽"@) =~= "排除肉鸽"@);
    reveal_strlit("非肉鸽");
    assert(ascii_lower("非肉鸽"@) =~= "非肉鸽"@);
    reveal_strlit("no roguelike");
    assert(ascii_lower("no roguelike"@) =~= "no roguelike"@);
    reveal_strlit("no roguelite");
    assert(ascii_lower("no roguelite"@) =~= "no roguelite"@);
    assert forall|i: int| 0 <= i < v_words_no_roguelike.len() implies #[trigger] ascii_lower(v_words_no_roguelike[i]) == v_words_no_roguelike[i] by { if i == 0 {} else if i == 1 {} else if i == 2 {} else if i == 3 {} else {} }
    lemma_any_needle_plain(q, v_words_no_roguelike);
    let v_words_six = seq!["6人"@, "6 人"@, "六人"@, "六 人"@, "6+"@, "6 人以上"@, "6人以上"@];
    reveal_strlit("6人");
    assert(ascii_lower("6人"@) =~= "6人"@);
    reveal_strlit("6 人");
    assert(ascii_lower("6 人"@) =~= "6 人"@);
    reveal_strlit("六人");
    assert(ascii_lower("六人"@) =~= "六人"@);
    reveal_strlit("六 人");
    assert(ascii_lower("六 人"@) =~= "六 人"@);
    reveal_strlit("6+");
    assert(ascii_lower("6+"@) =~= "6+"@);
    reveal_strlit("6 人以上");
    assert(ascii_lower("6 人以上"@) =~= "6 人以上"@);
    reveal_strlit("6人以上");
    assert(ascii_lower("6人以上"@) =~= "6人以上"@);
    assert forall|i: int| 0 <= i < v_words_six.len() implies #[trigger] ascii_lower(v_words_six[i]) == v_words_six[i] by { if i == 0 {} else if i == 1 {} else if i == 2 {} else if i == 3 {} else if i == 4 {} else if i == 5 {} else {} }
    lemma_any_needle_plain(q, v_words_six);
    let v_words_four = seq!["4人"@, "4 人"@, "四人"@, "四 人"@, "4+"@, "4 人以上"@, "4人以上"@];
    reveal_strlit("4人");
    assert(ascii_lower("4人"@) =~= "4人"@);
    reveal_strlit("4 人");
    assert(ascii_lower("4 人"@) =~= "4 人"@);
    reveal_strlit("四人");
    assert(ascii_lower("四人"@) =~= "四人"@);
    reveal_strlit("四 人");
    assert(ascii_lower("四 人"@) =~= "四 人"@);
    reveal_strlit("4+");
    assert(ascii_lower("4+"@) =~= "4+"@);
    reveal_strlit("4 人以上");
    assert(ascii_lower("4 人以上"@) =~= "4 人以上"@);
    reveal_strlit("4人以上");
    assert(ascii_lower("4人以上"@) =~= "4人以上"@);
    assert forall|i: int| 0 <= i < v_words_four.len() implies #[trigger] ascii_lower(v_words_four[i]) == v_words_four[i] by { if i == 0 {} else if i == 1 {} else if i == 2 {} else if i == 3 {} else if i == 4 {} else if i == 5 {} else {} }
    lemma_any_needle_plain(q, v_words_four);
    let order = intent_order();
    assert(order[0] == IntentKind::LocalCoop && order[1] == IntentKind::OnlineCoop && order[2] == IntentKind::Casual
        && order[3] == IntentKind::Cute && order[4] == IntentKind::Survival && order[5] == IntentKind::Puzzle
        && order[6] == IntentKind::Shooter && order[7] == IntentKind::Party && order[8] == IntentKind::Roguelike
        && order[9] == IntentKind::Pixel && order[10] == IntentKind::Free && order[11] == IntentKind::Cheap
        && order[12] == IntentKind::HighPlayerCount && order[13] == IntentKind::ExcludePixel
        && order[14] == IntentKind::ExcludeHorror && order[15] == IntentKind::ExcludeRoguelike
        && order[16] == IntentKind::MinPlayers(6) && order[17] == IntentKind::MinPlayers(4));
    assert forall|n: u8| n != 4 && n != 6 implies !order.contains(IntentKind::MinPlayers(n)) by {
        if order.contains(IntentKind::MinPlayers(n)) {
            let i = choose|i: int| 0 <= i < order.len() && order[i] == IntentKind::MinPlayers(n);
        }
    }
}

/// The reply heading a recommendation: a "nothing found" line when there is
/// no result; the count of matches when all match exactly; an "approximate
/// picks" line when none does; otherwise the count of exact matches with
/// approximate ones added. The follow-up asks which condition to relax when
/// nothing was found, which to keep when some results miss a trait, and
/// nothing when all match.
pub proof fn lemma_reply_texts(result_count: usize, exact_match_count: usize)
    ensures
        result_count == 0 ==> reply_text(result_count, exact_match_count) == "当前已入库且已发售的游戏里没有找到可用候选。"@,
        result_count > 0 && exact_match_count == result_count ==> reply_text(result_count, exact_match_count)
            == "我在已入库且已发售的游戏里找到了 "@ + dec(result_count as nat) + " 个匹配候选。"@,
        result_count > 0 && exact_match_count == 0 ==> reply_text(result_count, exact_match_count)
            == "当前库里没有完全匹配的游戏，我先按最关键条件给出近似推荐。"@,
        0 < exact_match_count < result_count ==> reply_text(result_count, exact_match_count) == "我找到了 "@ + dec(
            exact_match_count as nat,
        ) + " 个完全匹配候选，也补充了几个近似选择供比较。"@,
        follow_up_text(result_count as nat, exact_match_count as nat) is None <==> (result_count > 0
            && exact_match_count >= result_count),
        result_count == 0 ==> follow_up_text(result_count as nat, exact_match_count as nat) == Some(
            "你愿意放宽玩法、人数或联机方式中的哪一项？"@,
        ),
        0 < result_count && exact_match_count < result_count ==> follow_up_text(result_count as nat, exact_match_count as nat)
            == Some("你更愿意优先保留玩法、人数，还是联机方式？"@),
{
}

/// A game seats `n` players when its text mentions "`n` players", "up to
/// `n`", "`n`+", "`n` 人" or "`n`人".
pub proof fn lemma_player_count_words(corpus: Seq<char>, n: u8)
    ensures
        any_needle(corpus, player_count_words(n)) <==> mentions_some(
            corpus,
            seq![dec(n as nat) + " players"@, "up to "@ + dec(n as nat), dec(n as nat) + "+"@, dec(n as nat) + " 人"@, dec(n as nat) + "人"@],
        ),
{
    let t = dec(n as nat);
    crate::num::lemma_dec_digits(n as nat);
    reveal_strlit(" players");
    reveal_strlit("up to ");
    reveal_strlit("+");
    reveal_strlit(" 人");
    reveal_strlit("人");
    let ws = player_count_words(n);
    assert(ascii_lower(t) =~= t) by {
        assert forall|i: int| 0 <= i < t.len() implies #[trigger] ascii_lower(t)[i] == t[i] by {
            assert(crate::num::is_digit(t[i]));
        }
    }
    assert forall|i: int| 0 <= i < ws.len() implies #[trigger] ascii_lower(ws[i]) == ws[i] by {
        let w = ws[i];
        assert forall|j: int| 0 <= j < w.len() implies #[trigger] ascii_lower(w)[j] == w[j] by {
            if i == 0 {
                if j < t.len() { assert(w[j] == t[j]); assert(crate::num::is_digit(t[j])); }
            } else if i == 1 {
                if j >= 6 { assert(w[j] == t[j - 6]); assert(crate::num::is_digit(t[j - 6])); }
            } else {
                if j < t.len() { assert(w[j] == t[j]); assert(crate::num::is_digit(t[j])); }
            }
        }
        assert(ascii_lower(w) =~= w);
    }
    lemma_any_needle_plain(corpus, ws);
}

} // verus!
