use lobbytally::ai_config::{embedding_kind, provider_kind, seconds_setting, EmbeddingKind, ProviderKind};
use lobbytally::ai_error::AiError;
use lobbytally::ai_types::AiTaskType;
use lobbytally::api::{decode_cursor, encode_cursor, hash64, parse_csv_filter, valid_request_id, weak_etag, CursorError};
use lobbytally::dates::{days_between, days_since_release};
use lobbytally::domain::FeedSection;
use lobbytally::endpoint::validated_base_url;
use lobbytally::local_recommend::{
    build_reply, count_wanted_intents, local_outcome, parse_intents, recommendation_limit,
    supports_min_players, trait_verdict, IntentKind,
};
use lobbytally::models::DemoStatus;
use lobbytally::narrative::sanitize_overview;
use lobbytally::rate_limit::{classify, forwarded_entry, identities, Allowance, Bucket, Limited, RateLimitConfig, RateLimiter};
use lobbytally::routes::{task_env_key, task_routes_with_overrides, RouteOverride, RouteOverrides};
use lobbytally::settings::{env_bool, env_positive_u32};
use lobbytally::signals::{extract_review_topics, map_tag, normalize_languages, LanguageCode, ReviewText};
use lobbytally::steam_mapping::{
    next_discovery_cursor, parse_saved_cursor, steam_header_url, store_search_start_for_page, SteamAppListItem,
    SteamAppListPreview,
};
use lobbytally::vector::{decode_le_words, encode_le_words};
use lobbytally::web_discovery::{hex_encode, host_from_url};

const SECOND: u64 = 1_000_000_000;

#[test]
fn rate_limiter_counts_per_identity_and_reports_retry_time() {
    let config = RateLimitConfig { search_per_minute: 2, ..RateLimitConfig::default() };
    let mut limiter = RateLimiter::new(config);
    let first = limiter.check(false, "/v1/search", Some("dev-1"), None, None, 0);
    assert_eq!(first, Ok(Some(Allowance { limit: 2, remaining: 1 })));
    let second = limiter.check(false, "/v1/search", Some("dev-1"), None, None, SECOND);
    assert_eq!(second, Ok(Some(Allowance { limit: 2, remaining: 0 })));
    let third = limiter.check(false, "/v1/search", Some("dev-1"), None, None, 10 * SECOND);
    assert_eq!(third, Err(Limited { limit: 2, retry_after_seconds: 50 }));
    let other = limiter.check(false, "/v1/search", Some("dev-2"), None, None, 10 * SECOND);
    assert_eq!(other, Ok(Some(Allowance { limit: 2, remaining: 1 })));
    let later = limiter.check(false, "/v1/search", Some("dev-1"), None, None, 61 * SECOND);
    assert_eq!(later, Ok(Some(Allowance { limit: 2, remaining: 1 })));
    assert_eq!(limiter.check(false, "/health/live", Some("dev-1"), None, None, 0), Ok(None));
}

#[test]
fn rate_limit_routes_and_identities() {
    let config = RateLimitConfig::default();
    assert_eq!(classify(&config, false, "/v1/search"), Some((Bucket::Search, 30)));
    assert_eq!(classify(&config, true, "/v1/feedback/1"), Some((Bucket::Feedback, 60)));
    assert_eq!(classify(&config, false, "/v1/feedback/1"), Some((Bucket::Read, 120)));
    assert_eq!(classify(&config, true, "/v1/session/refresh"), Some((Bucket::Session, 20)));
    assert_eq!(classify(&config, false, "/openapi.json"), Some((Bucket::Read, 120)));
    assert_eq!(classify(&config, false, "/"), None);
    assert_eq!(identities(None, None, None), vec!["unidentified".to_owned()]);
    assert_eq!(identities(Some("bad id!"), None, Some("10.0.0.1")), vec!["ip:10.0.0.1".to_owned()]);
    let ids = identities(Some("dev-1"), Some("Bearer tok"), Some("10.0.0.1"));
    assert_eq!(ids.len(), 2);
    assert!(ids[0].starts_with("device:") && ids[0].len() == "device:".len() + 16);
    let ids = identities(None, Some("Bearer tok"), None);
    assert!(ids[0].starts_with("session:"));
    let disabled = RateLimitConfig { enabled: false, ..RateLimitConfig::default() };
    let mut limiter = RateLimiter::new(disabled);
    assert_eq!(limiter.check(false, "/v1/search", None, None, None, 0), Ok(None));
}

#[test]
fn feed_cursors_round_trip_and_detect_staleness() {
    let cursor = encode_cursor(FeedSection::Upcoming, 1_700, "ctx", 40);
    assert_eq!(cursor, "v1:upcoming:1700:ctx:40");
    assert_eq!(decode_cursor(Some(&cursor), FeedSection::Upcoming, 1_700, "ctx"), Ok(40));
    assert_eq!(decode_cursor(None, FeedSection::Upcoming, 1_700, "ctx"), Ok(0));
    assert_eq!(decode_cursor(Some(&cursor), FeedSection::Upcoming, 1_701, "ctx"), Err(CursorError::Stale));
    assert_eq!(decode_cursor(Some(&cursor), FeedSection::Upcoming, 1_700, "other"), Err(CursorError::Stale));
    assert_eq!(decode_cursor(Some(&cursor), FeedSection::ClassicLegacy, 1_700, "ctx"), Err(CursorError::Invalid));
    assert_eq!(decode_cursor(Some("v2:upcoming:1:c:0"), FeedSection::Upcoming, 1, "c"), Err(CursorError::Invalid));
    assert_eq!(decode_cursor(Some("v1:upcoming:1:c:0:extra"), FeedSection::Upcoming, 1, "c"), Err(CursorError::Invalid));
    let negative = encode_cursor(FeedSection::RecentRelease, -5, "p", 0);
    assert_eq!(decode_cursor(Some(&negative), FeedSection::RecentRelease, -5, "p"), Ok(0));
}

#[test]
fn list_filters_digests_and_request_ids() {
    assert_eq!(parse_csv_filter("platforms", " Windows, ,Linux "), Ok(vec!["windows".to_owned(), "linux".to_owned()]));
    assert_eq!(
        parse_csv_filter("platforms", " , "),
        Err("platforms must be a comma-separated list of 1 to 32 values".to_owned())
    );
    let long = "x".repeat(65);
    assert!(parse_csv_filter("languages", &long).is_err());
    let many = vec!["a"; 33].join(",");
    assert!(parse_csv_filter("languages", &many).is_err());
    assert_eq!(hash64(""), 0xcbf29ce484222325);
    assert_eq!(hash64("a"), 0xaf63dc4c8601ec8c);
    assert_eq!(weak_etag("a"), "W/\"af63dc4c8601ec8c\"");
    assert!(valid_request_id("req-123_ABC"));
    assert!(!valid_request_id(""));
    assert!(!valid_request_id("has space"));
}

fn no_override() -> RouteOverride {
    RouteOverride { model: None, fallbacks: None, timeout_secs: None, enabled: None }
}

fn overrides() -> RouteOverrides {
    RouteOverrides {
        intent_parse: no_override(),
        rank_explain: no_override(),
        feature_extract: no_override(),
        embed: no_override(),
        game_summary: no_override(),
        compare_games: no_override(),
        group_advice: no_override(),
        data_quality: no_override(),
    }
}

#[test]
fn route_overrides_apply_per_task_and_global_model() {
    let mut o = overrides();
    o.rank_explain = RouteOverride {
        model: Some("custom".into()),
        fallbacks: Some("a, ,b".into()),
        timeout_secs: Some("999".into()),
        enabled: Some("false".into()),
    };
    let table = task_routes_with_overrides(None, None, &o).unwrap();
    let rank = table.get(&AiTaskType::RankExplain).unwrap();
    assert_eq!(rank.primary_model, "custom");
    assert_eq!(rank.fallback_models, vec!["a".to_owned(), "b".to_owned()]);
    assert_eq!(rank.timeout_secs, 120);
    assert!(!rank.enabled);

    let single = task_routes_with_overrides(Some("false"), Some("solo"), &overrides()).unwrap();
    let intent = single.get(&AiTaskType::IntentParse).unwrap();
    assert_eq!(intent.primary_model, "solo");
    assert!(intent.fallback_models.is_empty());
    assert_eq!(single.get(&AiTaskType::DataQuality).unwrap().primary_model, "grok-4.5");

    let mut bad = overrides();
    bad.compare_games.timeout_secs = Some("soon".into());
    assert!(matches!(task_routes_with_overrides(None, None, &bad), Err(AiError::Config(_))));
    assert_eq!(task_env_key(AiTaskType::RankExplain), "RANK_EXPLAIN");
}

#[test]
fn settings_parse_switches_and_positive_numbers() {
    assert_eq!(env_bool("X", None, true).unwrap(), true);
    assert_eq!(env_bool("X", Some("YES"), false).unwrap(), true);
    assert_eq!(env_bool("X", Some("0"), true).unwrap(), false);
    assert_eq!(env_bool("X", Some("maybe"), true).unwrap_err().message, "X must be true/false or 1/0");
    assert_eq!(env_positive_u32("N", None, 5).unwrap(), 5);
    assert_eq!(env_positive_u32("N", Some("12"), 5).unwrap(), 12);
    assert_eq!(env_positive_u32("N", Some("0"), 5).unwrap_err().message, "N must be a positive integer");
}

#[test]
fn provider_settings_choose_known_kinds() {
    assert_eq!(provider_kind(None).unwrap(), ProviderKind::Disabled);
    assert!(provider_kind(Some("mystery")).is_err());
    assert_eq!(embedding_kind(Some("hash")).unwrap(), EmbeddingKind::Hash);
    assert_eq!(seconds_setting(Some("5"), 12, 1, 120), 5);
    assert_eq!(seconds_setting(Some("500"), 12, 1, 120), 120);
    assert_eq!(seconds_setting(Some("soon"), 12, 1, 120), 12);
}

#[test]
fn local_intents_follow_the_request_text() {
    let intents = parse_intents("想找4人本地合作，像素，不要像素");
    assert_eq!(intents, vec![IntentKind::LocalCoop, IntentKind::ExcludePixel, IntentKind::MinPlayers(4)]);
    let intents = parse_intents("Cozy Roguelike shooter, 6人以上");
    assert_eq!(
        intents,
        vec![IntentKind::Casual, IntentKind::Shooter, IntentKind::Roguelike, IntentKind::MinPlayers(6)]
    );
    assert!(parse_intents("").is_empty());
    let corpus: Vec<char> = "supports up to 4 players online".chars().collect();
    assert!(supports_min_players(&corpus, 4));
    assert!(!supports_min_players(&corpus, 6));
    assert_eq!(build_reply(0, 0), "当前已入库且已发售的游戏里没有找到可用候选。");
    assert_eq!(build_reply(3, 3), "我在已入库且已发售的游戏里找到了 3 个匹配候选。");
    assert_eq!(build_reply(3, 1), "我找到了 1 个完全匹配候选，也补充了几个近似选择供比较。");
    assert_eq!(recommendation_limit(None), 5);
    assert_eq!(recommendation_limit(Some(0)), 1);
    assert_eq!(recommendation_limit(Some(50)), 8);
}

#[test]
fn narrative_overview_needs_substance() {
    assert_eq!(sanitize_overview("  short "), None);
    assert_eq!(sanitize_overview("  long enough text  "), Some("long enough text".to_owned()));
}

#[test]
fn signals_normalize_languages_tags_and_review_topics() {
    let langs = normalize_languages(&[
        "English".to_owned(),
        " Simplified Chinese ".to_owned(),
        "english".to_owned(),
        "Klingon".to_owned(),
    ]);
    assert_eq!(langs, vec![LanguageCode::En, LanguageCode::ZhCn, LanguageCode::Other("klingon".to_owned())]);
    assert_eq!(map_tag("Online Co-op"), vec!["COOP".to_owned(), "ONLINE_COOP".to_owned()]);
    assert_eq!(map_tag(" Strategy "), vec!["STRATEGY".to_owned()]);
    let topics = extract_review_topics(&[
        ReviewText { voted_up: true, review: "Great with friends".into() },
        ReviewText { voted_up: false, review: "Server crash every match".into() },
        ReviewText { voted_up: false, review: "   ".into() },
    ]);
    assert_eq!(topics.multiplayer.positive, 1);
    assert_eq!(topics.server.negative, 1);
    assert_eq!(topics.bug.negative, 1);
    assert_eq!(topics.multiplayer.negative, 0);
}

#[test]
fn steam_discovery_paging() {
    let page = SteamAppListPreview {
        apps: vec![SteamAppListItem { appid: 10, name: "a".into() }, SteamAppListItem { appid: 20, name: "b".into() }],
        last_appid: None,
        have_more_results: Some(true),
    };
    assert_eq!(next_discovery_cursor(&page), Some(20));
    let cursor_page = SteamAppListPreview { apps: vec![], last_appid: Some(99), have_more_results: None };
    assert_eq!(next_discovery_cursor(&cursor_page), Some(99));
    let empty = SteamAppListPreview { apps: vec![], last_appid: None, have_more_results: None };
    assert_eq!(next_discovery_cursor(&empty), None);
    assert_eq!(store_search_start_for_page(3, 50), 150);
    assert_eq!(store_search_start_for_page(u32::MAX, 2), u32::MAX);
    assert_eq!(parse_saved_cursor(Some("42".into())), Some(42));
    assert_eq!(parse_saved_cursor(Some("x".into())), None);
    assert_eq!(steam_header_url(730), "https://cdn.cloudflare.steamstatic.com/steam/apps/730/header.jpg");
    assert_eq!(DemoStatus::from_parts(true, false), DemoStatus::DemoOnly);
}

#[test]
fn url_hosts_and_hex_digests() {
    assert_eq!(host_from_url(" https://Store.SteamPowered.com/app/1 ").unwrap(), "store.steampowered.com");
    assert!(host_from_url("ftp://example.com/x").is_err());
    assert!(host_from_url("https://user:pw@example.com/").is_err());
    assert!(host_from_url("not a url").is_err());
    assert_eq!(hex_encode(&[0x00, 0xab, 0x10]), "00ab10");
}

#[test]
fn roundtrip_blob() {
    let v = vec![0.5f32, -1.0, 2.0];
    let words: Vec<u32> = v.iter().map(|value| value.to_bits()).collect();
    let blob = encode_le_words(&words);
    assert_eq!(blob, v.iter().flat_map(|value| value.to_le_bytes()).collect::<Vec<u8>>());
    let decoded: Vec<f32> = decode_le_words(&blob, 3).unwrap().into_iter().map(f32::from_bits).collect();
    assert_eq!(decoded, v);
}

#[test]
fn rejects_bad_blob_length() {
    assert!(decode_le_words(&[0, 1, 2], 2).is_err());
}

#[test]
fn blob_errors_name_the_lengths() {
    assert_eq!(
        decode_le_words(&[0, 1, 2], 2),
        Err(AiError::InvalidOutput("embedding blob length 3 != dimensions 2 * 4".into()))
    );
    assert_eq!(
        decode_le_words(&[], usize::MAX),
        Err(AiError::InvalidOutput("embedding dimensions overflow".into()))
    );
    assert_eq!(decode_le_words(&[1, 2, 3, 4], 1), Ok(vec![0x0403_0201]));
    assert_eq!(encode_le_words(&[0x0A0B_0C0D]), vec![0x0D, 0x0C, 0x0B, 0x0A]);
}

#[test]
fn base_url_requires_exact_local_http_host() {
    for invalid in [
        "http://localhost.evil.example/v1",
        "http://localhost@evil.example/v1",
        "http://127.0.0.1.evil.example/v1",
    ] {
        assert!(validated_base_url(invalid, "AI base URL").is_err());
    }
    assert!(validated_base_url("http://localhost:1234/v1", "AI base URL").is_ok());
}

#[test]
fn base_urls_are_normalized_and_explained() {
    assert_eq!(
        validated_base_url("  https://provider.example/v1//  ", "AI base URL"),
        Ok("https://provider.example/v1".to_string())
    );
    assert_eq!(validated_base_url("https://provider.example", "AI base URL"), Ok("https://provider.example".to_string()));
    assert_eq!(
        validated_base_url("http://provider.example/v1", "AI base URL"),
        Err(AiError::Config("AI base URL must be https:// or exact localhost/127.0.0.1/[::1] HTTP".into()))
    );
    assert_eq!(
        validated_base_url("https://provider.example/v1?x=1", "AI embedding base URL"),
        Err(AiError::Config("AI embedding base URL must not contain credentials, query, or fragment".into()))
    );
    assert_eq!(
        validated_base_url("https://provider.example/v1#top", "AI base URL"),
        Err(AiError::Config("AI base URL must not contain credentials, query, or fragment".into()))
    );
    match validated_base_url("not a url", "AI base URL") {
        Err(AiError::Config(message)) => assert!(message.starts_with("AI base URL is invalid: ")),
        other => panic!("unexpected {other:?}"),
    }
    assert_eq!(validated_base_url("http://127.0.0.1:8080/", "AI base URL"), Ok("http://127.0.0.1:8080".to_string()));
}

#[test]
fn release_ages_in_whole_days() {
    assert_eq!(days_since_release(Some("2026-04-20"), "2026-04-26"), Some(6));
    assert_eq!(days_since_release(Some("2024-02-28"), "2024-03-01"), Some(2));
    assert_eq!(days_since_release(Some("2027-01-01"), "2026-12-31"), Some(-1));
    assert_eq!(days_since_release(None, "2026-04-26"), None);
    assert_eq!(days_since_release(Some("2026-02-30"), "2026-04-26"), None);
    assert_eq!(days_since_release(Some("2026-04-20"), "yesterday"), None);
    assert_eq!(days_since_release(Some("26-4-20"), "2026-04-26"), None);
    assert_eq!(days_between(Some(2_451_545), Some(2_458_485)), Some(6_940));
    assert_eq!(days_between(None, Some(1)), None);
}

#[test]
fn one_caller_is_admitted_up_to_its_limit_then_refused() {
    let config = RateLimitConfig { session_per_minute: 3, ..RateLimitConfig::default() };
    let mut limiter = RateLimiter::new(config.clone());
    let start = 5 * SECOND;
    for i in 0..3u64 {
        let r = limiter.check(true, "/v1/session/refresh", Some("dev-9"), None, Some("10.0.0.9"), start + i * 20 * SECOND);
        assert_eq!(r, Ok(Some(Allowance { limit: 3, remaining: 2 - i as u32 })));
    }
    let refused = limiter.check(true, "/v1/session/refresh", Some("dev-9"), None, Some("10.0.0.9"), start + 59 * SECOND);
    assert_eq!(refused, Err(Limited { limit: 3, retry_after_seconds: 1 }));
    let mut limiter = RateLimiter::new(config);
    for _ in 0..3 {
        assert!(limiter.check(true, "/v1/session/x", Some("dev-9"), None, None, 0).unwrap().is_some());
    }
    assert_eq!(
        limiter.check(true, "/v1/session/x", Some("dev-9"), None, None, 0),
        Err(Limited { limit: 3, retry_after_seconds: 60 })
    );
}

#[test]
fn client_address_prefers_trusted_proxy_headers() {
    assert_eq!(forwarded_entry(" 10.0.0.1 , 10.0.0.2"), "10.0.0.1");
    assert_eq!(forwarded_entry("10.0.0.3"), "10.0.0.3");
    assert_eq!(forwarded_entry(""), "");
    let peer = Some("192.168.1.1".to_owned());
    let plain = RateLimiter::new(RateLimitConfig::default());
    assert_eq!(plain.client_ip(Some("10.0.0.1".into()), None, peer.clone()), peer);
    let trusting = RateLimiter::new(RateLimitConfig { trust_proxy_headers: true, ..RateLimitConfig::default() });
    assert_eq!(trusting.client_ip(Some("10.0.0.1".into()), Some("10.0.0.2".into()), peer.clone()), Some("10.0.0.1".to_owned()));
    assert_eq!(trusting.client_ip(None, Some("10.0.0.2".into()), peer.clone()), Some("10.0.0.2".to_owned()));
    assert_eq!(trusting.client_ip(None, None, peer.clone()), peer);
}

#[test]
fn local_outcome_cuts_counts_and_asks_follow_up() {
    let none = local_outcome(&vec![], 5);
    assert_eq!(none.kept, 0);
    assert_eq!(none.exact_match_count, 0);
    assert_eq!(none.reply, "当前已入库且已发售的游戏里没有找到可用候选。");
    assert_eq!(none.follow_up_question.as_deref(), Some("你愿意放宽玩法、人数或联机方式中的哪一项？"));
    let mixed = local_outcome(&vec![true, false, true, true], 3);
    assert_eq!(mixed.kept, 3);
    assert_eq!(mixed.exact_match_count, 2);
    assert_eq!(mixed.reply, "我找到了 2 个完全匹配候选，也补充了几个近似选择供比较。");
    assert_eq!(mixed.follow_up_question.as_deref(), Some("你更愿意优先保留玩法、人数，还是联机方式？"));
    let exact = local_outcome(&vec![true, true, false], 2);
    assert_eq!(exact.kept, 2);
    assert_eq!(exact.reply, "我在已入库且已发售的游戏里找到了 2 个匹配候选。");
    assert_eq!(exact.follow_up_question, None);
}

#[test]
fn trait_verdict_drops_games_meeting_no_wanted_trait() {
    assert_eq!(trait_verdict(0, &vec![]), (true, false));
    assert_eq!(trait_verdict(2, &vec![false, false]), (false, false));
    assert_eq!(trait_verdict(2, &vec![true, false]), (true, false));
    assert_eq!(trait_verdict(2, &vec![true, true]), (true, true));
    let intents = vec![IntentKind::OnlineCoop, IntentKind::ExcludeHorror, IntentKind::MinPlayers(4)];
    assert_eq!(count_wanted_intents(&intents), 2);
}
