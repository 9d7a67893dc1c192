//! Canonical game signals read from store data: language codes, tags,
//! multiplayer modes and the topics review snippets talk about.
use vstd::prelude::*;
use crate::ai_types::views;
use crate::text::{
    ascii_lower, chars_contain, chars_equal, chars_of, lower_chars, owned, seq_contains,
    string_from_chars, trim, trim_chars,
};

verus! {

/// A supported-language entry, recognized or kept as written (lower-cased).
#[derive(Debug, Clone, PartialEq, Eq)]
pub enum LanguageCode {
    ZhCn,
    ZhTw,
    En,
    Ja,
    Other(String),
}

/// A language code as a plain value.
pub open spec fn code_view(c: LanguageCode) -> (int, Seq<char>) {
    match c {
        LanguageCode::ZhCn => (0, Seq::empty()),
        LanguageCode::ZhTw => (1, Seq::empty()),
        LanguageCode::En => (2, Seq::empty()),
        LanguageCode::Ja => (3, Seq::empty()),
        LanguageCode::Other(s) => (4, s@),
    }
}

/// Some needle occurs in `hay`.
pub open spec fn has_any(hay: Seq<char>, needles: Seq<Seq<char>>) -> bool {
    exists|i: int| 0 <= i < needles.len() && seq_contains(hay, #[trigger] needles[i])
}

fn hay_has_any(hay: &[char], needles: &[&str]) -> (r: bool)
    ensures
        r == has_any(hay@, needles@.map_values(|s: &str| s@)),
{
    crate::text::chars_contain_any(hay, needles)
}

/// The code of one supported-language entry (trimmed, lower-cased `n`).
pub open spec fn language_code_of(n: Seq<char>) -> (int, Seq<char>) {
    if has_any(n, seq!["schinese"@, "simplified chinese"@, "简体中文"@]) {
        (0, Seq::empty())
    } else if has_any(n, seq!["tchinese"@, "traditional chinese"@, "繁體中文"@, "繁体中文"@]) {
        (1, Seq::empty())
    } else if n == "en"@ || has_any(n, seq!["english"@]) {
        (2, Seq::empty())
    } else if has_any(n, seq!["japanese"@, "日本語"@]) {
        (3, Seq::empty())
    } else {
        (4, n)
    }
}

fn language_code(language: &str) -> (r: LanguageCode)
    ensures
        code_view(r) == language_code_of(ascii_lower(trim(language@))),
{
    let raw = chars_of(language);
    let t = trim_chars(raw.as_slice());
    let n = lower_chars(t.as_slice());
    let zh_cn = ["schinese", "simplified chinese", "简体中文"];
    assert(zh_cn@.map_values(|s: &str| s@) =~= seq!["schinese"@, "simplified chinese"@, "简体中文"@]);
    if hay_has_any(n.as_slice(), &zh_cn) {
        return LanguageCode::ZhCn;
    }
    let zh_tw = ["tchinese", "traditional chinese", "繁體中文", "繁体中文"];
    assert(zh_tw@.map_values(|s: &str| s@) =~= seq![
        "tchinese"@,
        "traditional chinese"@,
        "繁體中文"@,
        "繁体中文"@,
    ]);
    if hay_has_any(n.as_slice(), &zh_tw) {
        return LanguageCode::ZhTw;
    }
    let en_word = chars_of("en");
    let english = ["english"];
    assert(english@.map_values(|s: &str| s@) =~= seq!["english"@]);
    if chars_equal(n.as_slice(), en_word.as_slice()) || hay_has_any(n.as_slice(), &english) {
        return LanguageCode::En;
    }
    let ja = ["japanese", "日本語"];
    assert(ja@.map_values(|s: &str| s@) =~= seq!["japanese"@, "日本語"@]);
    if hay_has_any(n.as_slice(), &ja) {
        return LanguageCode::Ja;
    }
    LanguageCode::Other(string_from_chars(n.as_slice()))
}

/// `s` with items whose view already occurred dropped.
pub open spec fn distinct_views(s: Seq<(int, Seq<char>)>) -> Seq<(int, Seq<char>)> {
    crate::ai_types::first_occurrences(s)
}

/// The codes of each language entry, in order.
pub open spec fn language_codes_of(languages: Seq<Seq<char>>) -> Seq<(int, Seq<char>)> {
    languages.map_values(|l: Seq<char>| language_code_of(ascii_lower(trim(l))))
}

fn same_code(a: &LanguageCode, b: &LanguageCode) -> (r: bool)
    ensures
        r == (code_view(*a) == code_view(*b)),
{
    match (a, b) {
        (LanguageCode::ZhCn, LanguageCode::ZhCn) => true,
        (LanguageCode::ZhTw, LanguageCode::ZhTw) => true,
        (LanguageCode::En, LanguageCode::En) => true,
        (LanguageCode::Ja, LanguageCode::Ja) => true,
        (LanguageCode::Other(x), LanguageCode::Other(y)) => crate::text::str_eq(x.as_str(), y.as_str()),
        _ => false,
    }
}

/// The distinct language codes of the supported-language entries, in order
/// of first appearance.
pub fn normalize_languages(languages: &[String]) -> (r: Vec<LanguageCode>)
    ensures
        r@.map_values(|c: LanguageCode| code_view(c)) == distinct_views(
            language_codes_of(views(languages@)),
        ),
{
    let ghost all = language_codes_of(views(languages@));
    let mut codes: Vec<LanguageCode> = Vec::new();
    let mut i: usize = 0;
    while i < languages.len()
        invariant
            i <= languages@.len(),
            all == language_codes_of(views(languages@)),
            codes@.map_values(|c: LanguageCode| code_view(c)) == distinct_views(all.take(i as int)),
        decreases languages@.len() - i,
    {
        assert(all.take(i as int + 1).drop_last() =~= all.take(i as int));
        let code = language_code(languages[i].as_str());
        assert(all.take(i as int + 1).last() == code_view(code));
        let ghost prev = codes@.map_values(|c: LanguageCode| code_view(c));
        let mut found = false;
        let mut j: usize = 0;
        while j < codes.len()
            invariant
                j <= codes@.len(),
                prev == codes@.map_values(|c: LanguageCode| code_view(c)),
                found == exists|k: int| 0 <= k < j && prev[k] == code_view(code),
            decreases codes@.len() - j,
        {
            assert(prev[j as int] == code_view(codes@[j as int]));
            if same_code(&codes[j], &code) {
                found = true;
            }
            j = j + 1;
        }
        if !found {
            codes.push(code);
            assert(codes@.map_values(|c: LanguageCode| code_view(c)) =~= prev.push(code_view(code)));
        }
        i = i + 1;
    }
    assert(all.take(i as int) =~= all);
    codes
}

/// The Unicode upper-case form of a text (`str::to_uppercase`).
pub uninterp spec fn unicode_upper(s: Seq<char>) -> Seq<char>;

/// `str::to_uppercase` (std).
///
/// Trusted: the result is the Unicode upper-case mapping std applies to the
/// text, named [`unicode_upper`]; its tables are fixed for a given build.
#[verifier::external_body]
fn to_uppercase(s: &str) -> (r: String)
    ensures
        r@ == unicode_upper(s@),
{
    s.to_uppercase()
}

/// The tag vocabulary: the texts that map to each canonical tag.
pub open spec fn tag_mappings() -> Seq<(Seq<Seq<char>>, Seq<char>)> {
    seq![
        (seq!["single-player"@, "single player"@, "单人"@], "SINGLE_PLAYER"@),
        (seq!["co-op"@, "cooperative"@, "合作"@], "COOP"@),
        (seq!["online co-op"@, "online coop"@, "在线合作"@], "ONLINE_COOP"@),
        (seq!["local co-op"@, "local coop"@, "本地合作"@], "LOCAL_COOP"@),
        (seq!["pvp"@, "玩家对战"@, "对战"@], "PVP"@),
        (seq!["party"@, "派对"@], "PARTY"@),
        (seq!["casual"@, "休闲"@], "CASUAL"@),
        (seq!["simulation"@, "模拟"@], "SIMULATION"@),
        (seq!["roguelike"@, "rogue"@, "类 rogue"@], "ROGUELIKE"@),
        (seq!["puzzle"@, "解谜"@], "PUZZLE"@),
        (seq!["controller"@, "手柄"@], "CONTROLLER"@),
        (seq!["cross-platform"@, "跨平台"@], "CROSS_PLATFORM"@),
        (seq!["remote play together"@, "远程同乐"@], "REMOTE_PLAY"@),
        (seq!["early access"@, "抢先体验"@], "EARLY_ACCESS"@),
    ]
}

/// The canonical tags of the mappings whose texts occur in `text`, in order.
pub open spec fn mapped_tags(text: Seq<char>, ms: Seq<(Seq<Seq<char>>, Seq<char>)>) -> Seq<Seq<char>>
    decreases ms.len(),
{
    if ms.len() == 0 {
        Seq::empty()
    } else {
        let prev = mapped_tags(text, ms.drop_last());
        if has_any(text, ms.last().0) {
            prev.push(ms.last().1)
        } else {
            prev
        }
    }
}

/// The canonical tags of a store tag (trimmed, lower-cased): those of the
/// vocabulary it mentions, or the tag itself upper-cased when none.
pub open spec fn map_tag_spec(tag: Seq<char>) -> Seq<Seq<char>> {
    let text = ascii_lower(trim(tag));
    let m = mapped_tags(text, tag_mappings());
    if m.len() == 0 {
        seq![unicode_upper(text)]
    } else {
        m
    }
}

/// The canonical tags of a store tag.
pub fn map_tag(tag: &str) -> (r: Vec<String>)
    ensures
        views(r@) == map_tag_spec(tag@),
{
    let raw = chars_of(tag);
    let t = trim_chars(raw.as_slice());
    let text = lower_chars(t.as_slice());
    let ghost ms = tag_mappings();
    let mut result: Vec<String> = Vec::new();
    let mut i: usize = 0;
    while i < 14
        invariant
            i <= 14,
            ms == tag_mappings(),
            views(result@) == mapped_tags(text@, ms.take(i as int)),
        decreases 14 - i,
    {
        assert(ms.take(i as int + 1).drop_last() =~= ms.take(i as int));
        assert(ms.take(i as int + 1).last() == ms[i as int]);
        let (hit, mapped) = tag_mapping_hit(text.as_slice(), i);
        if hit {
            let ghost before = result@;
            result.push(owned(mapped));
            assert(views(result@) =~= views(before).push(ms[i as int].1));
        }
        i = i + 1;
    }
    assert(ms.take(14) =~= ms);
    if result.len() == 0 {
        let s = string_from_chars(text.as_slice());
        result.push(to_uppercase(s.as_str()));
        assert(views(result@) =~= seq![unicode_upper(text@)]);
    }
    result
}

/// Whether the `i`-th mapping's texts occur in `text`, and its canonical tag.
fn tag_mapping_hit(text: &[char], i: usize) -> (r: (bool, &'static str))
    requires
        i < 14,
    ensures
        r.0 == has_any(text@, tag_mappings()[i as int].0),
        r.1@ == tag_mappings()[i as int].1,
{
    let (needles, mapped): (&[&str], &'static str) = if i == 0 {
        (&["single-player", "single player", "单人"], "SINGLE_PLAYER")
    } else if i == 1 {
        (&["co-op", "cooperative", "合作"], "COOP")
    } else if i == 2 {
        (&["online co-op", "online coop", "在线合作"], "ONLINE_COOP")
    } else if i == 3 {
        (&["local co-op", "local coop", "本地合作"], "LOCAL_COOP")
    } else if i == 4 {
        (&["pvp", "玩家对战", "对战"], "PVP")
    } else if i == 5 {
        (&["party", "派对"], "PARTY")
    } else if i == 6 {
        (&["casual", "休闲"], "CASUAL")
    } else if i == 7 {
        (&["simulation", "模拟"], "SIMULATION")
    } else if i == 8 {
        (&["roguelike", "rogue", "类 rogue"], "ROGUELIKE")
    } else if i == 9 {
        (&["puzzle", "解谜"], "PUZZLE")
    } else if i == 10 {
        (&["controller", "手柄"], "CONTROLLER")
    } else if i == 11 {
        (&["cross-platform", "跨平台"], "CROSS_PLATFORM")
    } else if i == 12 {
        (&["remote play together", "远程同乐"], "REMOTE_PLAY")
    } else {
        (&["early access", "抢先体验"], "EARLY_ACCESS")
    };
    assert(needles@.map_values(|s: &str| s@) =~= tag_mappings()[i as int].0);
    (hay_has_any(text, needles), mapped)
}

/// The distinct canonical tags of the store tags, in order of first appearance.
pub open spec fn normalized_tags_of(tags: Seq<Seq<char>>) -> Seq<Seq<char>>
    decreases tags.len(),
{
    if tags.len() == 0 {
        Seq::empty()
    } else {
        crate::ai_types::first_occurrences(
            normalized_tags_of(tags.drop_last()) + map_tag_spec(tags.last()),
        )
    }
}

/// The distinct canonical tags of the store tags, in order of first appearance.
pub fn normalize_tags(tags: &[String]) -> (r: Vec<String>)
    ensures
        views(r@) == normalized_tags_of(views(tags@)),
{
    let ghost tv = views(tags@);
    let mut normalized: Vec<String> = Vec::new();
    let mut i: usize = 0;
    while i < tags.len()
        invariant
            i <= tags@.len(),
            tv == views(tags@),
            views(normalized@) == normalized_tags_of(tv.take(i as int)),
            views(normalized@).no_duplicates(),
        decreases tags@.len() - i,
    {
        assert(tv.take(i as int + 1).drop_last() =~= tv.take(i as int));
        assert(tv.take(i as int + 1).last() == tags@[i as int]@);
        let mapped = map_tag(tags[i].as_str());
        let ghost base = views(normalized@);
        let ghost mv = views(mapped@);
        proof {
            lemma_distinct_unchanged(base);
            assert(base + mv.take(0) =~= base);
        }
        let mut j: usize = 0;
        while j < mapped.len()
            invariant
                j <= mapped@.len(),
                mv == views(mapped@),
                base.no_duplicates(),
                views(normalized@) == crate::ai_types::first_occurrences(base + mv.take(j as int)),
            decreases mapped@.len() - j,
        {
            proof {
                assert((base + mv.take(j as int + 1)).drop_last() =~= base + mv.take(j as int));
                assert((base + mv.take(j as int + 1)).last() == mv[j as int]);
            }
            let ghost before = views(normalized@);
            let mut found = false;
            let mut k: usize = 0;
            while k < normalized.len()
                invariant
                    k <= normalized@.len(),
                    before == views(normalized@),
                    found == exists|m: int| 0 <= m < k && before[m] == mv[j as int],
                    j < mv.len(),
                    mv == views(mapped@),
                decreases normalized@.len() - k,
            {
                assert(before[k as int] == normalized@[k as int]@);
                assert(mv[j as int] == mapped@[j as int]@);
                if crate::text::str_eq(normalized[k].as_str(), mapped[j].as_str()) {
                    found = true;
                }
                k = k + 1;
            }
            if !found {
                normalized.push(mapped[j].clone());
                assert(views(normalized@) =~= before.push(mv[j as int]));
            }
            j = j + 1;
        }
        proof {
            assert(mv.take(mv.len() as int) =~= mv);
            lemma_distinct_unchanged(base);
            crate::ai_types::lemma_first_occurrences(base + mv);
        }
        i = i + 1;
    }
    assert(tv.take(i as int) =~= tv);
    normalized
}

/// Deduplicating a duplicate-free sequence leaves it as it is.
proof fn lemma_distinct_unchanged(base: Seq<Seq<char>>)
    requires
        base.no_duplicates(),
    ensures
        crate::ai_types::first_occurrences(base) == base,
    decreases base.len(),
{
    if base.len() > 0 {
        let p = base.drop_last();
        assert(p.no_duplicates());
        lemma_distinct_unchanged(p);
        assert(!p.contains(base.last())) by {
            if p.contains(base.last()) {
                let j = choose|j: int| 0 <= j < p.len() && p[j] == base.last();
                assert(base[j] == base[base.len() - 1]);
            }
        }
        assert(p.push(base.last()) =~= base);
    }
}

/// The multiplayer capabilities a store's mode list states.
#[derive(Debug, Clone, Copy, Default, PartialEq, Eq)]
pub struct MultiplayerModes {
    pub has_any: bool,
    pub raw_mode_count: usize,
    pub online_coop: bool,
    pub local_coop: bool,
    pub online_pvp: bool,
    pub lan: bool,
    pub cross_platform: bool,
    pub remote_play_together: bool,
    pub supports_2_players: bool,
    pub supports_4_players: bool,
    pub flexible_player_count: bool,
    pub signal_count: u32,
}

/// Some mode (trimmed, lower-cased) mentions one of `needles`.
pub open spec fn some_mode_has(modes: Seq<Seq<char>>, needles: Seq<Seq<char>>) -> bool {
    exists|i: int| 0 <= i < modes.len() && has_any(ascii_lower(trim(#[trigger] modes[i])), needles)
}

pub open spec fn online_coop_words() -> Seq<Seq<char>> {
    seq!["online co-op"@, "online coop"@, "在线合作"@]
}

pub open spec fn local_coop_words() -> Seq<Seq<char>> {
    seq!["local co-op"@, "local coop"@, "shared/split screen"@, "split screen"@, "本地合作"@]
}

pub open spec fn pvp_words() -> Seq<Seq<char>> {
    seq!["pvp"@, "玩家对战"@]
}

pub open spec fn lan_words() -> Seq<Seq<char>> {
    seq!["lan"@]
}

pub open spec fn cross_platform_words() -> Seq<Seq<char>> {
    seq!["cross-platform"@, "跨平台"@]
}

pub open spec fn remote_play_words() -> Seq<Seq<char>> {
    seq!["remote play together"@, "远程同乐"@]
}

/// One for a set flag.
pub open spec fn flag(b: bool) -> int {
    if b {
        1
    } else {
        0
    }
}

/// `m` is what the mode list `modes` states.
pub open spec fn modes_of(modes: Seq<Seq<char>>, m: MultiplayerModes) -> bool {
    &&& m.has_any == (modes.len() > 0)
    &&& m.raw_mode_count == modes.len()
    &&& m.online_coop == some_mode_has(modes, online_coop_words())
    &&& m.local_coop == some_mode_has(modes, local_coop_words())
    &&& m.online_pvp == some_mode_has(modes, pvp_words())
    &&& m.lan == some_mode_has(modes, lan_words())
    &&& m.cross_platform == some_mode_has(modes, cross_platform_words())
    &&& m.remote_play_together == some_mode_has(modes, remote_play_words())
    &&& m.supports_2_players == m.has_any
    &&& m.supports_4_players == (m.online_coop || m.local_coop || m.online_pvp || modes.len() >= 2)
    &&& m.flexible_player_count == (modes.len() >= 2)
    &&& m.signal_count == flag(m.online_coop) + flag(m.local_coop) + flag(m.online_pvp) + flag(m.lan)
        + flag(m.cross_platform) + flag(m.remote_play_together)
}

fn mode_hit(text: &[char], which: u8) -> (r: bool)
    requires
        which < 6,
    ensures
        r == has_any(text@, if which == 0 {
            online_coop_words()
        } else if which == 1 {
            local_coop_words()
        } else if which == 2 {
            pvp_words()
        } else if which == 3 {
            lan_words()
        } else if which == 4 {
            cross_platform_words()
        } else {
            remote_play_words()
        }),
{
    if which == 0 {
        let w = ["online co-op", "online coop", "在线合作"];
        assert(w@.map_values(|s: &str| s@) =~= online_coop_words());
        hay_has_any(text, &w)
    } else if which == 1 {
        let w = ["local co-op", "local coop", "shared/split screen", "split screen", "本地合作"];
        assert(w@.map_values(|s: &str| s@) =~= local_coop_words());
        hay_has_any(text, &w)
    } else if which == 2 {
        let w = ["pvp", "玩家对战"];
        assert(w@.map_values(|s: &str| s@) =~= pvp_words());
        hay_has_any(text, &w)
    } else if which == 3 {
        let w = ["lan"];
        assert(w@.map_values(|s: &str| s@) =~= lan_words());
        hay_has_any(text, &w)
    } else if which == 4 {
        let w = ["cross-platform", "跨平台"];
        assert(w@.map_values(|s: &str| s@) =~= cross_platform_words());
        hay_has_any(text, &w)
    } else {
        let w = ["remote play together", "远程同乐"];
        assert(w@.map_values(|s: &str| s@) =~= remote_play_words());
        hay_has_any(text, &w)
    }
}

/// The multiplayer capabilities a store's mode list states.
pub fn normalize_multiplayer_modes(modes: &[String]) -> (r: MultiplayerModes)
    ensures
        modes_of(views(modes@), r),
{
    let ghost mv = views(modes@);
    let mut online_coop = false;
    let mut local_coop = false;
    let mut online_pvp = false;
    let mut lan = false;
    let mut cross_platform = false;
    let mut remote_play_together = false;
    let mut i: usize = 0;
    while i < modes.len()
        invariant
            i <= modes@.len(),
            mv == views(modes@),
            online_coop == some_mode_has(mv.take(i as int), online_coop_words()),
            local_coop == some_mode_has(mv.take(i as int), local_coop_words()),
            online_pvp == some_mode_has(mv.take(i as int), pvp_words()),
            lan == some_mode_has(mv.take(i as int), lan_words()),
            cross_platform == some_mode_has(mv.take(i as int), cross_platform_words()),
            remote_play_together == some_mode_has(mv.take(i as int), remote_play_words()),
        decreases modes@.len() - i,
    {
        let raw = chars_of(modes[i].as_str());
        let t = trim_chars(raw.as_slice());
        let text = lower_chars(t.as_slice());
        assert(mv[i as int] == modes@[i as int]@);
        proof {
            lemma_some_mode_step(mv, i as int, online_coop_words());
            lemma_some_mode_step(mv, i as int, local_coop_words());
            lemma_some_mode_step(mv, i as int, pvp_words());
            lemma_some_mode_step(mv, i as int, lan_words());
            lemma_some_mode_step(mv, i as int, cross_platform_words());
            lemma_some_mode_step(mv, i as int, remote_play_words());
        }
        online_coop = online_coop || mode_hit(text.as_slice(), 0);
        local_coop = local_coop || mode_hit(text.as_slice(), 1);
        online_pvp = online_pvp || mode_hit(text.as_slice(), 2);
        lan = lan || mode_hit(text.as_slice(), 3);
        cross_platform = cross_platform || mode_hit(text.as_slice(), 4);
        remote_play_together = remote_play_together || mode_hit(text.as_slice(), 5);
        i = i + 1;
    }
    assert(mv.take(i as int) =~= mv);
    let has_any = modes.len() > 0;
    let raw_mode_count = modes.len();
    let signal_count: u32 = (if online_coop { 1u32 } else { 0u32 }) + (if local_coop { 1u32 } else {
        0u32
    }) + (if online_pvp { 1u32 } else { 0u32 }) + (if lan { 1u32 } else { 0u32 }) + (
    if cross_platform { 1u32 } else { 0u32 }) + (if remote_play_together { 1u32 } else { 0u32 });
    MultiplayerModes {
        has_any,
        raw_mode_count,
        online_coop,
        local_coop,
        online_pvp,
        lan,
        cross_platform,
        remote_play_together,
        supports_2_players: has_any,
        supports_4_players: online_coop || local_coop || online_pvp || raw_mode_count >= 2,
        flexible_player_count: raw_mode_count >= 2,
        signal_count,
    }
}

proof fn lemma_some_mode_step(mv: Seq<Seq<char>>, i: int, needles: Seq<Seq<char>>)
    requires
        0 <= i < mv.len(),
    ensures
        some_mode_has(mv.take(i + 1), needles) == (some_mode_has(mv.take(i), needles) || has_any(
            ascii_lower(trim(mv[i])),
            needles,
        )),
{
    let a = mv.take(i + 1);
    let b = mv.take(i);
    if some_mode_has(a, needles) {
        let k = choose|k: int| 0 <= k < a.len() && has_any(ascii_lower(trim(#[trigger] a[k])), needles);
        if k < i {
            assert(b[k] == a[k]);
        } else {
            assert(a[k] == mv[i]);
        }
    }
    if some_mode_has(b, needles) {
        let k = choose|k: int| 0 <= k < b.len() && has_any(ascii_lower(trim(#[trigger] b[k])), needles);
        assert(a[k] == b[k]);
    }
    if has_any(ascii_lower(trim(mv[i])), needles) {
        assert(a[i] == mv[i]);
    }
}

/// Reviews praising and criticizing one topic.
#[derive(Debug, Clone, Copy, Default, PartialEq, Eq)]
pub struct TopicCounter {
    pub positive: usize,
    pub negative: usize,
}

/// Count one more review of a topic, by its recommendation.
pub fn bump(counter: &mut TopicCounter, voted_up: bool)
    requires
        voted_up ==> old(counter).positive < usize::MAX,
        !voted_up ==> old(counter).negative < usize::MAX,
    ensures
        final(counter).positive == old(counter).positive + if voted_up {
            1int
        } else {
            0int
        },
        final(counter).negative == old(counter).negative + if voted_up {
            0int
        } else {
            1int
        },
{
    if voted_up {
        counter.positive = counter.positive + 1;
    } else {
        counter.negative = counter.negative + 1;
    }
}

/// The words that mark a review as talking about each topic, in topic order.
pub open spec fn topic_words(t: int) -> Seq<Seq<char>> {
    if t == 0 {
        seq!["multiplayer"@, "co-op"@, "cooperative"@, "friends"@, "开黑"@, "联机"@, "合作"@]
    } else if t == 1 {
        seq!["server"@, "matchmaking"@, "服务器"@, "匹配"@, "排队"@]
    } else if t == 2 {
        seq!["disconnect"@, "drop"@, "掉线"@, "断线"@]
    } else if t == 3 {
        seq!["invite"@, "邀请"@, "组队"@]
    } else if t == 4 {
        seq!["content"@, "mode"@, "map"@, "level"@, "内容"@, "模式"@, "地图"@, "关卡"@]
    } else if t == 5 {
        seq!["repeat"@, "repetitive"@, "boring"@, "重复"@, "无聊"@, "枯燥"@]
    } else if t == 6 {
        seq!["bug"@, "crash"@, "stutter"@, "卡顿"@, "闪退"@, "崩溃"@, "buggy"@]
    } else if t == 7 {
        seq!["balance"@, "unbalanced"@, "失衡"@, "不平衡"@]
    } else if t == 8 {
        seq!["dlc"@, "microtransaction"@, "pay to win"@, "氪金"@, "付费"@]
    } else if t == 9 {
        seq!["abandoned"@, "no updates"@, "停更"@, "跑路"@]
    } else if t == 10 {
        seq!["translation"@, "localization"@, "翻译"@, "中文"@, "机翻"@]
    } else if t == 11 {
        seq!["tutorial"@, "teach"@, "教程"@, "引导"@, "上手"@]
    } else if t == 12 {
        seq!["controller"@, "steam deck"@, "手柄"@, "deck"@]
    } else if t == 13 {
        seq!["replay"@, "build"@, "random"@, "重玩"@, "构筑"@, "随机"@]
    } else if t == 14 {
        seq!["progression"@, "unlock"@, "skill tree"@, "成长"@, "解锁"@, "升级"@, "技能树"@]
    } else if t == 15 {
        seq!["modes"@, "maps"@, "职业"@, "build variety"@, "地图多"@, "模式多"@]
    } else if t == 16 {
        seq!["casual"@, "relax"@, "轻松"@, "休闲"@, "容易"@]
    } else {
        seq!["hard"@, "confusing"@, "complex"@, "难"@, "复杂"@, "机制不清"@]
    }
}

/// Reviews praising and criticizing each topic.
#[derive(Debug, Clone, Copy, PartialEq, Eq)]
pub struct ReviewTopics {
    pub multiplayer: TopicCounter,
    pub server: TopicCounter,
    pub disconnect: TopicCounter,
    pub invite: TopicCounter,
    pub content_depth: TopicCounter,
    pub repetition: TopicCounter,
    pub bug: TopicCounter,
    pub balance: TopicCounter,
    pub monetization: TopicCounter,
    pub abandonment: TopicCounter,
    pub localization: TopicCounter,
    pub tutorial: TopicCounter,
    pub controller: TopicCounter,
    pub replayability: TopicCounter,
    pub progression: TopicCounter,
    pub mode_variety: TopicCounter,
    pub casual: TopicCounter,
    pub complexity: TopicCounter,
}

impl ReviewTopics {
    /// The counter of topic `t`, in topic order.
    pub open spec fn counter(self, t: int) -> TopicCounter {
        if t == 0 {
            self.multiplayer
        } else if t == 1 {
            self.server
        } else if t == 2 {
            self.disconnect
        } else if t == 3 {
            self.invite
        } else if t == 4 {
            self.content_depth
        } else if t == 5 {
            self.repetition
        } else if t == 6 {
            self.bug
        } else if t == 7 {
            self.balance
        } else if t == 8 {
            self.monetization
        } else if t == 9 {
            self.abandonment
        } else if t == 10 {
            self.localization
        } else if t == 11 {
            self.tutorial
        } else if t == 12 {
            self.controller
        } else if t == 13 {
            self.replayability
        } else if t == 14 {
            self.progression
        } else if t == 15 {
            self.mode_variety
        } else if t == 16 {
            self.casual
        } else {
            self.complexity
        }
    }
}

impl Default for ReviewTopics {
    /// No review counted for any topic.
    fn default() -> (r: Self)
        ensures
            forall|t: int| 0 <= t < 18 ==> (#[trigger] r.counter(t)).positive == 0 && r.counter(t).negative == 0,
    {
        ReviewTopics {
            multiplayer: TopicCounter { positive: 0, negative: 0 },
            server: TopicCounter { positive: 0, negative: 0 },
            disconnect: TopicCounter { positive: 0, negative: 0 },
            invite: TopicCounter { positive: 0, negative: 0 },
            content_depth: TopicCounter { positive: 0, negative: 0 },
            repetition: TopicCounter { positive: 0, negative: 0 },
            bug: TopicCounter { positive: 0, negative: 0 },
            balance: TopicCounter { positive: 0, negative: 0 },
            monetization: TopicCounter { positive: 0, negative: 0 },
            abandonment: TopicCounter { positive: 0, negative: 0 },
            localization: TopicCounter { positive: 0, negative: 0 },
            tutorial: TopicCounter { positive: 0, negative: 0 },
            controller: TopicCounter { positive: 0, negative: 0 },
            replayability: TopicCounter { positive: 0, negative: 0 },
            progression: TopicCounter { positive: 0, negative: 0 },
            mode_variety: TopicCounter { positive: 0, negative: 0 },
            casual: TopicCounter { positive: 0, negative: 0 },
            complexity: TopicCounter { positive: 0, negative: 0 },
        }
    }
}

fn topic_hit(text: &[char], t: usize) -> (r: bool)
    requires
        t < 18,
    ensures
        r == has_any(text@, topic_words(t as int)),
{
    if t == 0 {
        let w = ["multiplayer", "co-op", "cooperative", "friends", "开黑", "联机", "合作"];
        assert(w@.map_values(|s: &str| s@) =~= topic_words(0));
        hay_has_any(text, &w)
    } else if t == 1 {
        let w = ["server", "matchmaking", "服务器", "匹配", "排队"];
        assert(w@.map_values(|s: &str| s@) =~= topic_words(1));
        hay_has_any(text, &w)
    } else if t == 2 {
        let w = ["disconnect", "drop", "掉线", "断线"];
        assert(w@.map_values(|s: &str| s@) =~= topic_words(2));
        hay_has_any(text, &w)
    } else if t == 3 {
        let w = ["invite", "邀请", "组队"];
        assert(w@.map_values(|s: &str| s@) =~= topic_words(3));
        hay_has_any(text, &w)
    } else if t == 4 {
        let w = ["content", "mode", "map", "level", "内容", "模式", "地图", "关卡"];
        assert(w@.map_values(|s: &str| s@) =~= topic_words(4));
        hay_has_any(text, &w)
    } else if t == 5 {
        let w = ["repeat", "repetitive", "boring", "重复", "无聊", "枯燥"];
        assert(w@.map_values(|s: &str| s@) =~= topic_words(5));
        hay_has_any(text, &w)
    } else if t == 6 {
        let w = ["bug", "crash", "stutter", "卡顿", "闪退", "崩溃", "buggy"];
        assert(w@.map_values(|s: &str| s@) =~= topic_words(6));
        hay_has_any(text, &w)
    } else if t == 7 {
        let w = ["balance", "unbalanced", "失衡", "不平衡"];
        assert(w@.map_values(|s: &str| s@) =~= topic_words(7));
        hay_has_any(text, &w)
    } else if t == 8 {
        let w = ["dlc", "microtransaction", "pay to win", "氪金", "付费"];
        assert(w@.map_values(|s: &str| s@) =~= topic_words(8));
        hay_has_any(text, &w)
    } else if t == 9 {
        let w = ["abandoned", "no updates", "停更", "跑路"];
        assert(w@.map_values(|s: &str| s@) =~= topic_words(9));
        hay_has_any(text, &w)
    } else if t == 10 {
        let w = ["translation", "localization", "翻译", "中文", "机翻"];
        assert(w@.map_values(|s: &str| s@) =~= topic_words(10));
        hay_has_any(text, &w)
    } else if t == 11 {
        let w = ["tutorial", "teach", "教程", "引导", "上手"];
        assert(w@.map_values(|s: &str| s@) =~= topic_words(11));
        hay_has_any(text, &w)
    } else if t == 12 {
        let w = ["controller", "steam deck", "手柄", "deck"];
        assert(w@.map_values(|s: &str| s@) =~= topic_words(12));
        hay_has_any(text, &w)
    } else if t == 13 {
        let w = ["replay", "build", "random", "重玩", "构筑", "随机"];
        assert(w@.map_values(|s: &str| s@) =~= topic_words(13));
        hay_has_any(text, &w)
    } else if t == 14 {
        let w = ["progression", "unlock", "skill tree", "成长", "解锁", "升级", "技能树"];
        assert(w@.map_values(|s: &str| s@) =~= topic_words(14));
        hay_has_any(text, &w)
    } else if t == 15 {
        let w = ["modes", "maps", "职业", "build variety", "地图多", "模式多"];
        assert(w@.map_values(|s: &str| s@) =~= topic_words(15));
        hay_has_any(text, &w)
    } else if t == 16 {
        let w = ["casual", "relax", "轻松", "休闲", "容易"];
        assert(w@.map_values(|s: &str| s@) =~= topic_words(16));
        hay_has_any(text, &w)
    } else {
        let w = ["hard", "confusing", "complex", "难", "复杂", "机制不清"];
        assert(w@.map_values(|s: &str| s@) =~= topic_words(17));
        hay_has_any(text, &w)
    }
}

fn bump_topic(topics: &mut ReviewTopics, t: usize, voted_up: bool)
    requires
        t < 18,
        voted_up ==> old(topics).counter(t as int).positive < usize::MAX,
        !voted_up ==> old(topics).counter(t as int).negative < usize::MAX,
    ensures
        forall|u: int| 0 <= u < 18 && u != t ==> #[trigger] final(topics).counter(u) == old(topics).counter(u),
        final(topics).counter(t as int).positive == old(topics).counter(t as int).positive + if voted_up { 1int } else { 0int },
        final(topics).counter(t as int).negative == old(topics).counter(t as int).negative + if voted_up { 0int } else { 1int },
{
    if t == 0 {
        bump(&mut topics.multiplayer, voted_up);
    } else if t == 1 {
        bump(&mut topics.server, voted_up);
    } else if t == 2 {
        bump(&mut topics.disconnect, voted_up);
    } else if t == 3 {
        bump(&mut topics.invite, voted_up);
    } else if t == 4 {
        bump(&mut topics.content_depth, voted_up);
    } else if t == 5 {
        bump(&mut topics.repetition, voted_up);
    } else if t == 6 {
        bump(&mut topics.bug, voted_up);
    } else if t == 7 {
        bump(&mut topics.balance, voted_up);
    } else if t == 8 {
        bump(&mut topics.monetization, voted_up);
    } else if t == 9 {
        bump(&mut topics.abandonment, voted_up);
    } else if t == 10 {
        bump(&mut topics.localization, voted_up);
    } else if t == 11 {
        bump(&mut topics.tutorial, voted_up);
    } else if t == 12 {
        bump(&mut topics.controller, voted_up);
    } else if t == 13 {
        bump(&mut topics.replayability, voted_up);
    } else if t == 14 {
        bump(&mut topics.progression, voted_up);
    } else if t == 15 {
        bump(&mut topics.mode_variety, voted_up);
    } else if t == 16 {
        bump(&mut topics.casual, voted_up);
    } else {
        bump(&mut topics.complexity, voted_up);
    }
}

/// A review snippet as the topic scan reads it.
#[derive(Debug, Clone)]
pub struct ReviewText {
    pub voted_up: bool,
    pub review: String,
}

/// How many reviews with the given recommendation talk about a topic: the
/// review, trimmed, is not empty and its lower-cased text holds a topic word.
pub open spec fn topic_count(reviews: Seq<(bool, Seq<char>)>, words: Seq<Seq<char>>, up: bool) -> nat
    decreases reviews.len(),
{
    if reviews.len() == 0 {
        0
    } else {
        let (voted_up, text) = reviews.last();
        topic_count(reviews.drop_last(), words, up) + if trim(text).len() > 0 && voted_up == up
            && has_any(ascii_lower(trim(text)), words) {
            1nat
        } else {
            0nat
        }
    }
}

proof fn lemma_topic_count_bound(reviews: Seq<(bool, Seq<char>)>, words: Seq<Seq<char>>, up: bool)
    ensures
        topic_count(reviews, words, up) <= reviews.len(),
    decreases reviews.len(),
{
    if reviews.len() > 0 {
        lemma_topic_count_bound(reviews.drop_last(), words, up);
    }
}

pub open spec fn review_views(reviews: Seq<ReviewText>) -> Seq<(bool, Seq<char>)> {
    reviews.map_values(|r: ReviewText| (r.voted_up, r.review@))
}

/// The topics the review snippets talk about, counted by recommendation.
pub fn extract_review_topics(snippets: &[ReviewText]) -> (r: ReviewTopics)
    ensures
        forall|t: int|
            0 <= t < 18 ==> (#[trigger] r.counter(t)).positive == topic_count(
                review_views(snippets@),
                topic_words(t),
                true,
            ) && r.counter(t).negative == topic_count(review_views(snippets@), topic_words(t), false),
{
    let ghost rv = review_views(snippets@);
    let mut topics = ReviewTopics::default();
    let mut i: usize = 0;
    while i < snippets.len()
        invariant
            i <= snippets@.len(),
            rv == review_views(snippets@),
            forall|t: int|
                0 <= t < 18 ==> (#[trigger] topics.counter(t)).positive == topic_count(
                    rv.take(i as int),
                    topic_words(t),
                    true,
                ) && topics.counter(t).negative == topic_count(rv.take(i as int), topic_words(t), false),
        decreases snippets@.len() - i,
    {
        let ghost before = topics;
        assert(rv.take(i as int + 1).drop_last() =~= rv.take(i as int));
        assert(rv.take(i as int + 1).last() == (snippets@[i as int].voted_up, snippets@[i as int].review@));
        proof {
            assert forall|t: int| 0 <= t < 18 implies topic_count(rv.take(i as int), topic_words(t), true)
                < usize::MAX && topic_count(rv.take(i as int), topic_words(t), false) < usize::MAX by {
                lemma_topic_count_bound(rv.take(i as int), topic_words(t), true);
                lemma_topic_count_bound(rv.take(i as int), topic_words(t), false);
            }
        }
        let raw = chars_of(snippets[i].review.as_str());
        let t = trim_chars(raw.as_slice());
        let up = snippets[i].voted_up;
        if t.len() > 0 {
            let text = lower_chars(t.as_slice());
            let mut j: usize = 0;
            while j < 18
                invariant
                    j <= 18,
                    i < snippets@.len(),
                    rv == review_views(snippets@),
                    up == snippets@[i as int].voted_up,
                    text@ == ascii_lower(trim(snippets@[i as int].review@)),
                    forall|u: int| 0 <= u < 18 ==> topic_count(rv.take(i as int), topic_words(u), true)
                        < usize::MAX && topic_count(rv.take(i as int), topic_words(u), false) < usize::MAX,
                    forall|u: int|
                        0 <= u < 18 ==> (#[trigger] before.counter(u)).positive == topic_count(
                            rv.take(i as int),
                            topic_words(u),
                            true,
                        ) && before.counter(u).negative == topic_count(rv.take(i as int), topic_words(u), false),
                    forall|u: int|
                        0 <= u < j ==> (#[trigger] topics.counter(u)).positive == before.counter(u).positive
                            + if up && has_any(text@, topic_words(u)) { 1int } else { 0int }
                            && topics.counter(u).negative == before.counter(u).negative + if !up
                            && has_any(text@, topic_words(u)) { 1int } else { 0int },
                    forall|u: int| j <= u < 18 ==> #[trigger] topics.counter(u) == before.counter(u),
                decreases 18 - j,
            {
                if topic_hit(text.as_slice(), j) {
                    bump_topic(&mut topics, j, up);
                }
                j = j + 1;
            }
        }
        i = i + 1;
    }
    assert(rv.take(i as int) =~= rv);
    topics
}

/// The store mode `mode`, trimmed and ASCII lower-cased, mentions `w`.
pub open spec fn mode_mentions(mode: Seq<char>, w: Seq<char>) -> bool {
    seq_contains(ascii_lower(trim(mode)), w)
}

/// Some mode mentions one of `words`.
pub open spec fn some_mode_mentions(modes: Seq<Seq<char>>, words: Seq<Seq<char>>) -> bool {
    exists|i: int, w: Seq<char>| 0 <= i < modes.len() && words.contains(w) && #[trigger] mode_mentions(modes[i], w)
}

proof fn lemma_some_mode_has_mentions(modes: Seq<Seq<char>>, words: Seq<Seq<char>>)
    ensures
        some_mode_has(modes, words) <==> some_mode_mentions(modes, words),
{
    if some_mode_has(modes, words) {
        let i = choose|i: int| 0 <= i < modes.len() && has_any(ascii_lower(trim(#[trigger] modes[i])), words);
        let j = choose|j: int| 0 <= j < words.len() && seq_contains(ascii_lower(trim(modes[i])), #[trigger] words[j]);
        assert(words.contains(words[j]));
        assert(mode_mentions(modes[i], words[j]));
    }
    if some_mode_mentions(modes, words) {
        let (i, w) = choose|i: int, w: Seq<char>| 0 <= i < modes.len() && words.contains(w) && #[trigger] mode_mentions(modes[i], w);
        let j = choose|j: int| 0 <= j < words.len() && words[j] == w;
        assert(seq_contains(ascii_lower(trim(modes[i])), words[j]));
        assert(has_any(ascii_lower(trim(modes[i])), words));
    }
}

/// What a store's mode list says: online co-op when some mode (trimmed,
/// lower-cased) mentions "online co-op", "online coop" or "在线合作"; local
/// co-op for "local co-op", "local coop", "shared/split screen", "split
/// screen" or "本地合作"; PvP for "pvp" or "玩家对战"; LAN for "lan";
/// cross-platform for "cross-platform" or "跨平台"; Remote Play Together for
/// "remote play together" or "远程同乐". Any mode at all means two players;
/// four players when co-op or PvP is offered or two modes are listed; and
/// the signal count is the number of capabilities found.
pub proof fn lemma_mode_flags(modes: Seq<Seq<char>>, m: MultiplayerModes)
    requires
        modes_of(modes, m),
    ensures
        m.online_coop <==> some_mode_mentions(modes, seq!["online co-op"@, "online coop"@, "在线合作"@]),
        m.local_coop <==> some_mode_mentions(
            modes,
            seq!["local co-op"@, "local coop"@, "shared/split screen"@, "split screen"@, "本地合作"@],
        ),
        m.online_pvp <==> some_mode_mentions(modes, seq!["pvp"@, "玩家对战"@]),
        m.lan <==> some_mode_mentions(modes, seq!["lan"@]),
        m.cross_platform <==> some_mode_mentions(modes, seq!["cross-platform"@, "跨平台"@]),
        m.remote_play_together <==> some_mode_mentions(modes, seq!["remote play together"@, "远程同乐"@]),
        m.has_any == (modes.len() > 0),
        m.raw_mode_count == modes.len(),
        m.supports_2_players == (modes.len() > 0),
        m.supports_4_players == (m.online_coop || m.local_coop || m.online_pvp || modes.len() >= 2),
        m.flexible_player_count == (modes.len() >= 2),
        m.signal_count == (if m.online_coop { 1int } else { 0int }) + (if m.local_coop { 1int } else { 0int })
            + (if m.online_pvp { 1int } else { 0int }) + (if m.lan { 1int } else { 0int }) + (
        if m.cross_platform { 1int } else { 0int }) + (if m.remote_play_together { 1int } else { 0int }),
{
    lemma_some_mode_has_mentions(modes, online_coop_words());
    lemma_some_mode_has_mentions(modes, local_coop_words());
    lemma_some_mode_has_mentions(modes, pvp_words());
    lemma_some_mode_has_mentions(modes, lan_words());
    lemma_some_mode_has_mentions(modes, cross_platform_words());
    lemma_some_mode_has_mentions(modes, remote_play_words());
}

/// How a supported-language entry (trimmed, lower-cased `n`) is recognized:
/// simplified Chinese first ("schinese", "simplified chinese", "简体中文"),
/// then traditional Chinese ("tchinese", "traditional chinese", "繁體中文",
/// "繁体中文"), then English (exactly "en", or mentioning "english"), then
/// Japanese ("japanese", "日本語"); any other entry is kept as written.
pub proof fn lemma_language_codes(n: Seq<char>)
    ensures
        has_any(n, seq!["schinese"@, "simplified chinese"@, "简体中文"@]) ==> language_code_of(n) == (0int, Seq::<char>::empty()),
        !has_any(n, seq!["schinese"@, "simplified chinese"@, "简体中文"@]) && has_any(
            n,
            seq!["tchinese"@, "traditional chinese"@, "繁體中文"@, "繁体中文"@],
        ) ==> language_code_of(n) == (1int, Seq::<char>::empty()),
        !has_any(n, seq!["schinese"@, "simplified chinese"@, "简体中文"@]) && !has_any(
            n,
            seq!["tchinese"@, "traditional chinese"@, "繁體中文"@, "繁体中文"@],
        ) && (n == "en"@ || has_any(n, seq!["english"@])) ==> language_code_of(n) == (2int, Seq::<char>::empty()),
        !has_any(n, seq!["schinese"@, "simplified chinese"@, "简体中文"@]) && !has_any(
            n,
            seq!["tchinese"@, "traditional chinese"@, "繁體中文"@, "繁体中文"@],
        ) && !(n == "en"@ || has_any(n, seq!["english"@])) && has_any(n, seq!["japanese"@, "日本語"@])
            ==> language_code_of(n) == (3int, Seq::<char>::empty()),
        !has_any(n, seq!["schinese"@, "simplified chinese"@, "简体中文"@]) && !has_any(
            n,
            seq!["tchinese"@, "traditional chinese"@, "繁體中文"@, "繁体中文"@],
        ) && !(n == "en"@ || has_any(n, seq!["english"@])) && !has_any(n, seq!["japanese"@, "日本語"@])
            ==> language_code_of(n) == (4int, n),
{
}

/// A review counts for a topic when it is not blank and, trimmed and
/// lower-cased, mentions one of the topic's words: counting over two lists of
/// reviews adds up, no review counts nothing, and one review counts once
/// exactly when it is of the counted vote and mentions a word.
pub proof fn lemma_topic_count_adds(a: Seq<(bool, Seq<char>)>, b: Seq<(bool, Seq<char>)>, words: Seq<Seq<char>>, up: bool)
    ensures
        topic_count(a + b, words, up) == topic_count(a, words, up) + topic_count(b, words, up),
        topic_count(Seq::empty(), words, up) == 0,
        forall|v: bool, text: Seq<char>|
            #[trigger] topic_count(seq![(v, text)], words, up) == if trim(text).len() > 0 && v == up && has_any(
                ascii_lower(trim(text)),
                words,
            ) {
                1nat
            } else {
                0nat
            },
    decreases b.len(),
{
    assert forall|v: bool, text: Seq<char>|
        #[trigger] topic_count(seq![(v, text)], words, up) == if trim(text).len() > 0 && v == up && has_any(
            ascii_lower(trim(text)),
            words,
        ) {
            1nat
        } else {
            0nat
        } by {
        let one = seq![(v, text)];
        assert(one.drop_last() =~= Seq::<(bool, Seq<char>)>::empty());
        assert(one.last() == (v, text));
        assert(topic_count(one.drop_last(), words, up) == 0);
    }
    if b.len() == 0 {
        assert(a + b =~= a);
    } else {
        lemma_topic_count_adds(a, b.drop_last(), words, up);
        assert((a + b).drop_last() =~= a + b.drop_last());
        assert((a + b).last() == b.last());
    }
}

/// What each topic counter of the review summary counts: the up-voted
/// (`positive`) and down-voted (`negative`) non-blank reviews that mention one
/// of the topic's words.
pub proof fn lemma_review_topic_fields(snippets: Seq<ReviewText>, r: ReviewTopics)
    requires
        forall|t: int|
            0 <= t < 18 ==> (#[trigger] r.counter(t)).positive == topic_count(
                review_views(snippets),
                topic_words(t),
                true,
            ) && r.counter(t).negative == topic_count(review_views(snippets), topic_words(t), false),
    ensures
        ({
            let rv = review_views(snippets);
            &&& r.multiplayer.positive == topic_count(rv, seq!["multiplayer"@, "co-op"@, "cooperative"@, "friends"@, "开黑"@, "联机"@, "合作"@], true) && r.multiplayer.negative == topic_count(rv, seq!["multiplayer"@, "co-op"@, "cooperative"@, "friends"@, "开黑"@, "联机"@, "合作"@], false)
            &&& r.server.positive == topic_count(rv, seq!["server"@, "matchmaking"@, "服务器"@, "匹配"@, "排队"@], true) && r.server.negative == topic_count(rv, seq!["server"@, "matchmaking"@, "服务器"@, "匹配"@, "排队"@], false)
            &&& r.disconnect.positive == topic_count(rv, seq!["disconnect"@, "drop"@, "掉线"@, "断线"@], true) && r.disconnect.negative == topic_count(rv, seq!["disconnect"@, "drop"@, "掉线"@, "断线"@], false)
            &&& r.invite.positive == topic_count(rv, seq!["invite"@, "邀请"@, "组队"@], true) && r.invite.negative == topic_count(rv, seq!["invite"@, "邀请"@, "组队"@], false)
            &&& r.content_depth.positive == topic_count(rv, seq!["content"@, "mode"@, "map"@, "level"@, "内容"@, "模式"@, "地图"@, "关卡"@], true) && r.content_depth.negative == topic_count(rv, seq!["content"@, "mode"@, "map"@, "level"@, "内容"@, "模式"@, "地图"@, "关卡"@], false)
            &&& r.repetition.positive == topic_count(rv, seq!["repeat"@, "repetitive"@, "boring"@, "重复"@, "无聊"@, "枯燥"@], true) && r.repetition.negative == topic_count(rv, seq!["repeat"@, "repetitive"@, "boring"@, "重复"@, "无聊"@, "枯燥"@], false)
            &&& r.bug.positive == topic_count(rv, seq!["bug"@, "crash"@, "stutter"@, "卡顿"@, "闪退"@, "崩溃"@, "buggy"@], true) && r.bug.negative == topic_count(rv, seq!["bug"@, "crash"@, "stutter"@, "卡顿"@, "闪退"@, "崩溃"@, "buggy"@], false)
            &&& r.balance.positive == topic_count(rv, seq!["balance"@, "unbalanced"@, "失衡"@, "不平衡"@], true) && r.balance.negative == topic_count(rv, seq!["balance"@, "unbalanced"@, "失衡"@, "不平衡"@], false)
            &&& r.monetization.positive == topic_count(rv, seq!["dlc"@, "microtransaction"@, "pay to win"@, "氪金"@, "付费"@], true) && r.monetization.negative == topic_count(rv, seq!["dlc"@, "microtransaction"@, "pay to win"@, "氪金"@, "付费"@], false)
            &&& r.abandonment.positive == topic_count(rv, seq!["abandoned"@, "no updates"@, "停更"@, "跑路"@], true) && r.abandonment.negative == topic_count(rv, seq!["abandoned"@, "no updates"@, "停更"@, "跑路"@], false)
            &&& r.localization.positive == topic_count(rv, seq!["translation"@, "localization"@, "翻译"@, "中文"@, "机翻"@], true) && r.localization.negative == topic_count(rv, seq!["translation"@, "localization"@, "翻译"@, "中文"@, "机翻"@], false)
            &&& r.tutorial.positive == topic_count(rv, seq!["tutorial"@, "teach"@, "教程"@, "引导"@, "上手"@], true) && r.tutorial.negative == topic_count(rv, seq!["tutorial"@, "teach"@, "教程"@, "引导"@, "上手"@], false)
            &&& r.controller.positive == topic_count(rv, seq!["controller"@, "steam deck"@, "手柄"@, "deck"@], true) && r.controller.negative == topic_count(rv, seq!["controller"@, "steam deck"@, "手柄"@, "deck"@], false)
            &&& r.replayability.positive == topic_count(rv, seq!["replay"@, "build"@, "random"@, "重玩"@, "构筑"@, "随机"@], true) && r.replayability.negative == topic_count(rv, seq!["replay"@, "build"@, "random"@, "重玩"@, "构筑"@, "随机"@], false)
            &&& r.progression.positive == topic_count(rv, seq!["progression"@, "unlock"@, "skill tree"@, "成长"@, "解锁"@, "升级"@, "技能树"@], true) && r.progression.negative == topic_count(rv, seq!["progression"@, "unlock"@, "skill tree"@, "成长"@, "解锁"@, "升级"@, "技能树"@], false)
            &&& r.mode_variety.positive == topic_count(rv, seq!["modes"@, "maps"@, "职业"@, "build variety"@, "地图多"@, "模式多"@], true) && r.mode_variety.negative == topic_count(rv, seq!["modes"@, "maps"@, "职业"@, "build variety"@, "地图多"@, "模式多"@], false)
            &&& r.casual.positive == topic_count(rv, seq!["casual"@, "relax"@, "轻松"@, "休闲"@, "容易"@], true) && r.casual.negative == topic_count(rv, seq!["casual"@, "relax"@, "轻松"@, "休闲"@, "容易"@], false)
            &&& r.complexity.positive == topic_count(rv, seq!["hard"@, "confusing"@, "complex"@, "难"@, "复杂"@, "机制不清"@], true) && r.complexity.negative == topic_count(rv, seq!["hard"@, "confusing"@, "complex"@, "难"@, "复杂"@, "机制不清"@], false)
        }),
{
    let rv = review_views(snippets);
    assert(r.counter(0).positive == topic_count(rv, topic_words(0), true));
    assert(r.counter(1).positive == topic_count(rv, topic_words(1), true));
    assert(r.counter(2).positive == topic_count(rv, topic_words(2), true));
    assert(r.counter(3).positive == topic_count(rv, topic_words(3), true));
    assert(r.counter(4).positive == topic_count(rv, topic_words(4), true));
    assert(r.counter(5).positive == topic_count(rv, topic_words(5), true));
    assert(r.counter(6).positive == topic_count(rv, topic_words(6), true));
    assert(r.counter(7).positive == topic_count(rv, topic_words(7), true));
    assert(r.counter(8).positive == topic_count(rv, topic_words(8), true));
    assert(r.counter(9).positive == topic_count(rv, topic_words(9), true));
    assert(r.counter(10).positive == topic_count(rv, topic_words(10), true));
    assert(r.counter(11).positive == topic_count(rv, topic_words(11), true));
    assert(r.counter(12).positive == topic_count(rv, topic_words(12), true));
    assert(r.counter(13).positive == topic_count(rv, topic_words(13), true));
    assert(r.counter(14).positive == topic_count(rv, topic_words(14), true));
    assert(r.counter(15).positive == topic_count(rv, topic_words(15), true));
    assert(r.counter(16).positive == topic_count(rv, topic_words(16), true));
    assert(r.counter(17).positive == topic_count(rv, topic_words(17), true));
}

proof fn lemma_mapped_tags_contains(text: Seq<char>, ms: Seq<(Seq<Seq<char>>, Seq<char>)>, x: Seq<char>)
    ensures
        mapped_tags(text, ms).contains(x) <==> exists|k: int| 0 <= k < ms.len() && (#[trigger] ms[k]).1 == x && has_any(text, ms[k].0),
    decreases ms.len(),
{
    if ms.len() > 0 {
        let prev = ms.drop_last();
        lemma_mapped_tags_contains(text, prev, x);
        let p = mapped_tags(text, prev);
        if mapped_tags(text, ms).contains(x) {
            if p.contains(x) {
                let k = choose|k: int| 0 <= k < prev.len() && (#[trigger] prev[k]).1 == x && has_any(text, prev[k].0);
                assert(ms[k] == prev[k]);
            } else {
                let j = choose|j: int| 0 <= j < p.push(ms.last().1).len() && p.push(ms.last().1)[j] == x;
                assert(ms[ms.len() - 1] == ms.last());
            }
        }
        if exists|k: int| 0 <= k < ms.len() && (#[trigger] ms[k]).1 == x && has_any(text, ms[k].0) {
            let k = choose|k: int| 0 <= k < ms.len() && (#[trigger] ms[k]).1 == x && has_any(text, ms[k].0);
            if k < ms.len() - 1 {
                assert(prev[k] == ms[k]);
                let j = choose|j: int| 0 <= j < p.len() && p[j] == x;
                if has_any(text, ms.last().0) {
                    assert(p.push(ms.last().1)[j] == x);
                }
            } else {
                assert(ms.last() == ms[k]);
                assert(p.push(x)[p.len() as int] == x);
            }
        }
    }
}


/// No vocabulary entry's words occur in the lower-cased tag `text`.
pub open spec fn no_vocabulary_hit(text: Seq<char>) -> bool {
    &&& !has_any(text, seq!["single-player"@, "single player"@, "单人"@])
    &&& !has_any(text, seq!["co-op"@, "cooperative"@, "合作"@])
    &&& !has_any(text, seq!["online co-op"@, "online coop"@, "在线合作"@])
    &&& !has_any(text, seq!["local co-op"@, "local coop"@, "本地合作"@])
    &&& !has_any(text, seq!["pvp"@, "玩家对战"@, "对战"@])
    &&& !has_any(text, seq!["party"@, "派对"@])
    &&& !has_any(text, seq!["casual"@, "休闲"@])
    &&& !has_any(text, seq!["simulation"@, "模拟"@])
    &&& !has_any(text, seq!["roguelike"@, "rogue"@, "类 rogue"@])
    &&& !has_any(text, seq!["puzzle"@, "解谜"@])
    &&& !has_any(text, seq!["controller"@, "手柄"@])
    &&& !has_any(text, seq!["cross-platform"@, "跨平台"@])
    &&& !has_any(text, seq!["remote play together"@, "远程同乐"@])
    &&& !has_any(text, seq!["early access"@, "抢先体验"@])
}

/// Every vocabulary entry whose words a store tag (trimmed, lower-cased)
/// mentions gives its canonical tag.
pub proof fn lemma_map_tag_hits(tag: Seq<char>)
    ensures
        ({
            let text = ascii_lower(trim(tag));
            &&& has_any(text, seq!["single-player"@, "single player"@, "单人"@]) ==> map_tag_spec(tag).contains("SINGLE_PLAYER"@)
            &&& has_any(text, seq!["co-op"@, "cooperative"@, "合作"@]) ==> map_tag_spec(tag).contains("COOP"@)
            &&& has_any(text, seq!["online co-op"@, "online coop"@, "在线合作"@]) ==> map_tag_spec(tag).contains("ONLINE_COOP"@)
            &&& has_any(text, seq!["local co-op"@, "local coop"@, "本地合作"@]) ==> map_tag_spec(tag).contains("LOCAL_COOP"@)
            &&& has_any(text, seq!["pvp"@, "玩家对战"@, "对战"@]) ==> map_tag_spec(tag).contains("PVP"@)
            &&& has_any(text, seq!["party"@, "派对"@]) ==> map_tag_spec(tag).contains("PARTY"@)
            &&& has_any(text, seq!["casual"@, "休闲"@]) ==> map_tag_spec(tag).contains("CASUAL"@)
            &&& has_any(text, seq!["simulation"@, "模拟"@]) ==> map_tag_spec(tag).contains("SIMULATION"@)
            &&& has_any(text, seq!["roguelike"@, "rogue"@, "类 rogue"@]) ==> map_tag_spec(tag).contains("ROGUELIKE"@)
            &&& has_any(text, seq!["puzzle"@, "解谜"@]) ==> map_tag_spec(tag).contains("PUZZLE"@)
            &&& has_any(text, seq!["controller"@, "手柄"@]) ==> map_tag_spec(tag).contains("CONTROLLER"@)
            &&& has_any(text, seq!["cross-platform"@, "跨平台"@]) ==> map_tag_spec(tag).contains("CROSS_PLATFORM"@)
            &&& has_any(text, seq!["remote play together"@, "远程同乐"@]) ==> map_tag_spec(tag).contains("REMOTE_PLAY"@)
            &&& has_any(text, seq!["early access"@, "抢先体验"@]) ==> map_tag_spec(tag).contains("EARLY_ACCESS"@)
        }),
{
    let text = ascii_lower(trim(tag));
    let ms = tag_mappings();
    if has_any(text, seq!["single-player"@, "single player"@, "单人"@]) {
        assert(ms[0] == (seq!["single-player"@, "single player"@, "单人"@], "SINGLE_PLAYER"@));
        lemma_mapped_tags_contains(text, ms, "SINGLE_PLAYER"@);
        assert(mapped_tags(text, ms).len() > 0);
    }
    if has_any(text, seq!["co-op"@, "cooperative"@, "合作"@]) {
        assert(ms[1] == (seq!["co-op"@, "cooperative"@, "合作"@], "COOP"@));
        lemma_mapped_tags_contains(text, ms, "COOP"@);
        assert(mapped_tags(text, ms).len() > 0);
    }
    if has_any(text, seq!["online co-op"@, "online coop"@, "在线合作"@]) {
        assert(ms[2] == (seq!["online co-op"@, "online coop"@, "在线合作"@], "ONLINE_COOP"@));
        lemma_mapped_tags_contains(text, ms, "ONLINE_COOP"@);
        assert(mapped_tags(text, ms).len() > 0);
    }
    if has_any(text, seq!["local co-op"@, "local coop"@, "本地合作"@]) {
        assert(ms[3] == (seq!["local co-op"@, "local coop"@, "本地合作"@], "LOCAL_COOP"@));
        lemma_mapped_tags_contains(text, ms, "LOCAL_COOP"@);
        assert(mapped_tags(text, ms).len() > 0);
    }
    if has_any(text, seq!["pvp"@, "玩家对战"@, "对战"@]) {
        assert(ms[4] == (seq!["pvp"@, "玩家对战"@, "对战"@], "PVP"@));
        lemma_mapped_tags_contains(text, ms, "PVP"@);
        assert(mapped_tags(text, ms).len() > 0);
    }
    if has_any(text, seq!["party"@, "派对"@]) {
        assert(ms[5] == (seq!["party"@, "派对"@], "PARTY"@));
        lemma_mapped_tags_contains(text, ms, "PARTY"@);
        assert(mapped_tags(text, ms).len() > 0);
    }
    if has_any(text, seq!["casual"@, "休闲"@]) {
        assert(ms[6] == (seq!["casual"@, "休闲"@], "CASUAL"@));
        lemma_mapped_tags_contains(text, ms, "CASUAL"@);
        assert(mapped_tags(text, ms).len() > 0);
    }
    if has_any(text, seq!["simulation"@, "模拟"@]) {
        assert(ms[7] == (seq!["simulation"@, "模拟"@], "SIMULATION"@));
        lemma_mapped_tags_contains(text, ms, "SIMULATION"@);
        assert(mapped_tags(text, ms).len() > 0);
    }
    if has_any(text, seq!["roguelike"@, "rogue"@, "类 rogue"@]) {
        assert(ms[8] == (seq!["roguelike"@, "rogue"@, "类 rogue"@], "ROGUELIKE"@));
        lemma_mapped_tags_contains(text, ms, "ROGUELIKE"@);
        assert(mapped_tags(text, ms).len() > 0);
    }
    if has_any(text, seq!["puzzle"@, "解谜"@]) {
        assert(ms[9] == (seq!["puzzle"@, "解谜"@], "PUZZLE"@));
        lemma_mapped_tags_contains(text, ms, "PUZZLE"@);
        assert(mapped_tags(text, ms).len() > 0);
    }
    if has_any(text, seq!["controller"@, "手柄"@]) {
        assert(ms[10] == (seq!["controller"@, "手柄"@], "CONTROLLER"@));
        lemma_mapped_tags_contains(text, ms, "CONTROLLER"@);
        assert(mapped_tags(text, ms).len() > 0);
    }
    if has_any(text, seq!["cross-platform"@, "跨平台"@]) {
        assert(ms[11] == (seq!["cross-platform"@, "跨平台"@], "CROSS_PLATFORM"@));
        lemma_mapped_tags_contains(text, ms, "CROSS_PLATFORM"@);
        assert(mapped_tags(text, ms).len() > 0);
    }
    if has_any(text, seq!["remote play together"@, "远程同乐"@]) {
        assert(ms[12] == (seq!["remote play together"@, "远程同乐"@], "REMOTE_PLAY"@));
        lemma_mapped_tags_contains(text, ms, "REMOTE_PLAY"@);
        assert(mapped_tags(text, ms).len() > 0);
    }
    if has_any(text, seq!["early access"@, "抢先体验"@]) {
        assert(ms[13] == (seq!["early access"@, "抢先体验"@], "EARLY_ACCESS"@));
        lemma_mapped_tags_contains(text, ms, "EARLY_ACCESS"@);
        assert(mapped_tags(text, ms).len() > 0);
    }
}

/// A store tag (trimmed, lower-cased) gets only the canonical tags of the
/// vocabulary entries it mentions; when it mentions none, its only tag is
/// itself upper-cased.
pub proof fn lemma_map_tag_only(tag: Seq<char>, x: Seq<char>)
    ensures
        ({
            let text = ascii_lower(trim(tag));
            &&& map_tag_spec(tag).contains(x) ==> ((x == "SINGLE_PLAYER"@ && has_any(text, seq!["single-player"@, "single player"@, "单人"@])) || (x == "COOP"@ && has_any(text, seq!["co-op"@, "cooperative"@, "合作"@])) || (x == "ONLINE_COOP"@ && has_any(text, seq!["online co-op"@, "online coop"@, "在线合作"@])) || (x == "LOCAL_COOP"@ && has_any(text, seq!["local co-op"@, "local coop"@, "本地合作"@])) || (x == "PVP"@ && has_any(text, seq!["pvp"@, "玩家对战"@, "对战"@])) || (x == "PARTY"@ && has_any(text, seq!["party"@, "派对"@])) || (x == "CASUAL"@ && has_any(text, seq!["casual"@, "休闲"@])) || (x == "SIMULATION"@ && has_any(text, seq!["simulation"@, "模拟"@])) || (x == "ROGUELIKE"@ && has_any(text, seq!["roguelike"@, "rogue"@, "类 rogue"@])) || (x == "PUZZLE"@ && has_any(text, seq!["puzzle"@, "解谜"@])) || (x == "CONTROLLER"@ && has_any(text, seq!["controller"@, "手柄"@])) || (x == "CROSS_PLATFORM"@ && has_any(text, seq!["cross-platform"@, "跨平台"@])) || (x == "REMOTE_PLAY"@ && has_any(text, seq!["remote play together"@, "远程同乐"@])) || (x == "EARLY_ACCESS"@ && has_any(text, seq!["early access"@, "抢先体验"@]))) || (no_vocabulary_hit(text) && x == unicode_upper(text))
            &&& no_vocabulary_hit(text) ==> map_tag_spec(tag) == seq![unicode_upper(text)]
        }),
{
    let text = ascii_lower(trim(tag));
    let ms = tag_mappings();
    lemma_mapped_tags_contains(text, ms, x);
    if mapped_tags(text, ms).contains(x) {
        let k = choose|k: int| 0 <= k < ms.len() && (#[trigger] ms[k]).1 == x && has_any(text, ms[k].0);
        if k == 0 { assert(ms[0] == (seq!["single-player"@, "single player"@, "单人"@], "SINGLE_PLAYER"@)); } else if k == 1 { assert(ms[1] == (seq!["co-op"@, "cooperative"@, "合作"@], "COOP"@)); } else if k == 2 { assert(ms[2] == (seq!["online co-op"@, "online coop"@, "在线合作"@], "ONLINE_COOP"@)); } else if k == 3 { assert(ms[3] == (seq!["local co-op"@, "local coop"@, "本地合作"@], "LOCAL_COOP"@)); } else if k == 4 { assert(ms[4] == (seq!["pvp"@, "玩家对战"@, "对战"@], "PVP"@)); } else if k == 5 { assert(ms[5] == (seq!["party"@, "派对"@], "PARTY"@)); } else if k == 6 { assert(ms[6] == (seq!["casual"@, "休闲"@], "CASUAL"@)); } else if k == 7 { assert(ms[7] == (seq!["simulation"@, "模拟"@], "SIMULATION"@)); } else if k == 8 { assert(ms[8] == (seq!["roguelike"@, "rogue"@, "类 rogue"@], "ROGUELIKE"@)); } else if k == 9 { assert(ms[9] == (seq!["puzzle"@, "解谜"@], "PUZZLE"@)); } else if k == 10 { assert(ms[10] == (seq!["controller"@, "手柄"@], "CONTROLLER"@)); } else if k == 11 { assert(ms[11] == (seq!["cross-platform"@, "跨平台"@], "CROSS_PLATFORM"@)); } else if k == 12 { assert(ms[12] == (seq!["remote play together"@, "远程同乐"@], "REMOTE_PLAY"@)); } else { assert(ms[13] == (seq!["early access"@, "抢先体验"@], "EARLY_ACCESS"@)); }
    }
    if mapped_tags(text, ms).len() == 0 {
        lemma_map_tag_hits(tag);
        if map_tag_spec(tag).contains(x) {
            let j = choose|j: int| 0 <= j < map_tag_spec(tag).len() && map_tag_spec(tag)[j] == x;
            assert(x == unicode_upper(text));
        }
    }
    if no_vocabulary_hit(text) && mapped_tags(text, ms).len() > 0 {
        let y = mapped_tags(text, ms)[0];
        lemma_mapped_tags_contains(text, ms, y);
        assert(mapped_tags(text, ms).contains(y));
        let k = choose|k: int| 0 <= k < ms.len() && (#[trigger] ms[k]).1 == y && has_any(text, ms[k].0);
        if k == 0 { assert(ms[0] == (seq!["single-player"@, "single player"@, "单人"@], "SINGLE_PLAYER"@)); } else if k == 1 { assert(ms[1] == (seq!["co-op"@, "cooperative"@, "合作"@], "COOP"@)); } else if k == 2 { assert(ms[2] == (seq!["online co-op"@, "online coop"@, "在线合作"@], "ONLINE_COOP"@)); } else if k == 3 { assert(ms[3] == (seq!["local co-op"@, "local coop"@, "本地合作"@], "LOCAL_COOP"@)); } else if k == 4 { assert(ms[4] == (seq!["pvp"@, "玩家对战"@, "对战"@], "PVP"@)); } else if k == 5 { assert(ms[5] == (seq!["party"@, "派对"@], "PARTY"@)); } else if k == 6 { assert(ms[6] == (seq!["casual"@, "休闲"@], "CASUAL"@)); } else if k == 7 { assert(ms[7] == (seq!["simulation"@, "模拟"@], "SIMULATION"@)); } else if k == 8 { assert(ms[8] == (seq!["roguelike"@, "rogue"@, "类 rogue"@], "ROGUELIKE"@)); } else if k == 9 { assert(ms[9] == (seq!["puzzle"@, "解谜"@], "PUZZLE"@)); } else if k == 10 { assert(ms[10] == (seq!["controller"@, "手柄"@], "CONTROLLER"@)); } else if k == 11 { assert(ms[11] == (seq!["cross-platform"@, "跨平台"@], "CROSS_PLATFORM"@)); } else if k == 12 { assert(ms[12] == (seq!["remote play together"@, "远程同乐"@], "REMOTE_PLAY"@)); } else { assert(ms[13] == (seq!["early access"@, "抢先体验"@], "EARLY_ACCESS"@)); }
    }
}

/// The normalized tags of a store's tag list: each canonical tag once, and
/// exactly those that some store tag maps to.
pub proof fn lemma_normalized_tags(tags: Seq<Seq<char>>)
    ensures
        normalized_tags_of(tags).no_duplicates(),
        forall|x: Seq<char>| #[trigger] normalized_tags_of(tags).contains(x) <==> exists|i: int|
            0 <= i < tags.len() && map_tag_spec(#[trigger] tags[i]).contains(x),
    decreases tags.len(),
{
    if tags.len() > 0 {
        let prev = tags.drop_last();
        lemma_normalized_tags(prev);
        let p = normalized_tags_of(prev);
        let m = map_tag_spec(tags.last());
        crate::ai_types::lemma_first_occurrences(p + m);
        assert forall|x: Seq<char>| #[trigger] normalized_tags_of(tags).contains(x) <==> exists|i: int|
            0 <= i < tags.len() && map_tag_spec(#[trigger] tags[i]).contains(x) by {
            if (p + m).contains(x) {
                let k = choose|k: int| 0 <= k < (p + m).len() && (p + m)[k] == x;
                if k < p.len() {
                    assert(p[k] == x);
                    assert(p.contains(x));
                    let i = choose|i: int| 0 <= i < prev.len() && map_tag_spec(#[trigger] prev[i]).contains(x);
                    assert(tags[i] == prev[i]);
                } else {
                    assert(m[k - p.len()] == x);
                    assert(tags[tags.len() - 1] == tags.last());
                }
            }
            if exists|i: int| 0 <= i < tags.len() && map_tag_spec(#[trigger] tags[i]).contains(x) {
                let i = choose|i: int| 0 <= i < tags.len() && map_tag_spec(#[trigger] tags[i]).contains(x);
                if i < tags.len() - 1 {
                    assert(prev[i] == tags[i]);
                    assert(p.contains(x));
                    let k = choose|k: int| 0 <= k < p.len() && p[k] == x;
                    assert((p + m)[k] == x);
                } else {
                    assert(tags[i] == tags.last());
                    let k = choose|k: int| 0 <= k < m.len() && m[k] == x;
                    assert((p + m)[p.len() + k] == x);
                }
            }
        }
    }
}

/// The normalized languages of a store's list: each code once, exactly the
/// codes of its entries, the first entry's code first.
pub proof fn lemma_languages_distinct(languages: Seq<Seq<char>>)
    ensures
        ({
            let r = distinct_views(language_codes_of(languages));
            &&& r.no_duplicates()
            &&& forall|x: (int, Seq<char>)| r.contains(x) <==> exists|i: int| 0 <= i < languages.len()
                && #[trigger] language_code_of(ascii_lower(trim(languages[i]))) == x
            &&& languages.len() > 0 ==> r[0] == language_code_of(ascii_lower(trim(languages[0])))
        }),
{
    let all = language_codes_of(languages);
    crate::ai_types::lemma_first_occurrences(all);
    assert forall|x: (int, Seq<char>)| all.contains(x) <==> exists|i: int| 0 <= i < languages.len()
        && #[trigger] language_code_of(ascii_lower(trim(languages[i]))) == x by {
        if all.contains(x) {
            let i = choose|i: int| 0 <= i < all.len() && all[i] == x;
            assert(all[i] == language_code_of(ascii_lower(trim(languages[i]))));
        }
        if exists|i: int| 0 <= i < languages.len() && #[trigger] language_code_of(ascii_lower(trim(languages[i]))) == x {
            let i = choose|i: int| 0 <= i < languages.len() && #[trigger] language_code_of(ascii_lower(trim(languages[i]))) == x;
            assert(all[i] == x);
        }
    }
    let r = distinct_views(all);
    assert forall|x: (int, Seq<char>)| r.contains(x) <==> exists|i: int| 0 <= i < languages.len()
        && #[trigger] language_code_of(ascii_lower(trim(languages[i]))) == x by {
        assert(r.contains(x) <==> all.contains(x));
    }
}

} // verus!
