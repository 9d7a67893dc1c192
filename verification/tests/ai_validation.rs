use lobbytally::ai_error::AiError;
use lobbytally::breaker::{AiPolicy, GatewayState};
use lobbytally::intent::{
    merge_intent_with_rules, validate_intent_shape, BudgetIntent, ConfidenceBand, IntentFields, RuleBaseline,
    SessionMinutes,
};
use lobbytally::provider::{DisabledProvider, HashEmbeddingProvider};
use lobbytally::summary::{rule_game_summary, GameAiSummary, SectionBlock};
use lobbytally::validate::{
    expand_candidate_evidence_ids, parse_models_list, sanitize_rank_result, validate_rank_result,
    CandidateEvidence, JsonNumber, JsonValue,
};
use lobbytally::web_discovery::{
    discovery_query_for_app, normalize_search_hits, web_content_hash, FakeWebSearchProvider, SourceTier,
    SourceWhitelist, WebSearchHit, WebSearchProvider, WebSearchQuery,
};

fn obj(pairs: Vec<(&str, JsonValue)>) -> JsonValue {
    JsonValue::Object(pairs.into_iter().map(|(k, v)| (k.to_owned(), v)).collect())
}

fn arr(items: Vec<JsonValue>) -> JsonValue {
    JsonValue::Array(items)
}

fn text(s: &str) -> JsonValue {
    JsonValue::Str(s.to_owned())
}

fn texts(items: &[&str]) -> JsonValue {
    arr(items.iter().map(|s| text(s)).collect())
}

fn pos_int(n: u64) -> JsonValue {
    JsonValue::Number(JsonNumber::PosInt(n))
}

fn float(x: f64) -> JsonValue {
    JsonValue::Number(JsonNumber::Float(x.to_bits()))
}

fn candidates() -> Vec<CandidateEvidence> {
    vec![
        CandidateEvidence { app_id: 1, evidence_ids: vec!["e1".into()] },
        CandidateEvidence { app_id: 2, evidence_ids: vec!["e2".into()] },
    ]
}

fn item(app_id: JsonValue, fit: f64, conf: f64, evidence: &[&str], reasons: &[&str], cautions: &[&str]) -> JsonValue {
    obj(vec![
        ("app_id", app_id),
        ("fit_score", float(fit)),
        ("confidence", float(conf)),
        ("reason_evidence_ids", texts(evidence)),
        ("reasons", texts(reasons)),
        ("cautions", texts(cautions)),
    ])
}

fn answer(items: Vec<JsonValue>, summary: &str, summary_ids: &[&str]) -> JsonValue {
    obj(vec![
        ("recommendations", arr(items)),
        ("summary", text(summary)),
        ("summary_evidence_ids", texts(summary_ids)),
    ])
}

#[test]
fn accepts_valid_payload() {
    let value = answer(vec![item(pos_int(1), 0.9, 0.8, &["e1"], &["private coop"], &[])], "ok", &["e1"]);
    let result = validate_rank_result(&value, &candidates(), 20).unwrap();
    assert_eq!(result.recommendations.len(), 1);
    assert_eq!(result.recommendations[0].app_id, 1);
    assert_eq!(f64::from_bits(result.recommendations[0].fit_score_bits), 0.9);
    assert_eq!(result.summary, "ok");
}

#[test]
fn rejects_out_of_candidate_app_id() {
    let value = answer(vec![item(pos_int(999), 0.9, 0.8, &[], &[], &[])], "", &[]);
    let err = validate_rank_result(&value, &candidates(), 20).unwrap_err();
    assert!(matches!(err, AiError::InvalidOutput(_)));
    assert_eq!(err, AiError::InvalidOutput("app_id 999 is outside the candidate set".into()));
}

#[test]
fn rejects_forged_evidence() {
    let value = answer(vec![item(pos_int(1), 0.5, 0.5, &["forged"], &["claim"], &[])], "", &[]);
    assert_eq!(
        validate_rank_result(&value, &candidates(), 20).unwrap_err(),
        AiError::InvalidOutput("evidence_id 'forged' is not allowed for app_id 1".into())
    );
}

#[test]
fn rejects_score_out_of_range() {
    let value = answer(vec![item(pos_int(1), 1.5, 0.5, &[], &[], &[])], "", &[]);
    assert_eq!(
        validate_rank_result(&value, &candidates(), 20).unwrap_err(),
        AiError::InvalidOutput("recommendations[0].fit_score must be in [0,1]".into())
    );
}

#[test]
fn rejects_app_id_that_overflows_u32() {
    let value = answer(vec![item(pos_int(4_294_967_297), 0.5, 0.5, &[], &[], &[])], "", &[]);
    assert_eq!(
        validate_rank_result(&value, &candidates(), 20).unwrap_err(),
        AiError::InvalidOutput("recommendations[0].app_id exceeds the supported range".into())
    );
}

#[test]
fn user_visible_cautions_and_summary_require_evidence() {
    let caution = answer(vec![item(pos_int(1), 0.5, 0.5, &[], &[], &["requires an external service"])], "", &[]);
    assert!(validate_rank_result(&caution, &candidates(), 20).is_err());

    let summary = answer(vec![], "Game 1 supports private co-op", &[]);
    assert_eq!(
        validate_rank_result(&summary, &candidates(), 20).unwrap_err(),
        AiError::InvalidOutput("summary requires summary_evidence_ids".into())
    );

    let html_summary = answer(vec![], "<b>Game 1</b>", &["e1"]);
    assert_eq!(
        validate_rank_result(&html_summary, &candidates(), 20).unwrap_err(),
        AiError::InvalidOutput("summary contains disallowed content".into())
    );
}

#[test]
fn validation_reports_shape_errors_in_order() {
    assert_eq!(
        validate_rank_result(&texts(&["x"]), &candidates(), 20).unwrap_err(),
        AiError::InvalidOutput("root must be an object".into())
    );
    let too_many = answer(vec![item(pos_int(1), 0.5, 0.5, &[], &[], &[]), item(pos_int(2), 0.5, 0.5, &[], &[], &[])], "", &[]);
    assert_eq!(
        validate_rank_result(&too_many, &candidates(), 1).unwrap_err(),
        AiError::InvalidOutput("recommendations length 2 exceeds max 1".into())
    );
    let twice = answer(vec![item(pos_int(1), 0.5, 0.5, &[], &[], &[]), item(pos_int(1), 0.5, 0.5, &[], &[], &[])], "", &[]);
    assert_eq!(
        validate_rank_result(&twice, &candidates(), 20).unwrap_err(),
        AiError::InvalidOutput("duplicate app_id 1".into())
    );
    let missing_ids = obj(vec![("recommendations", arr(vec![])), ("summary", text(""))]);
    assert_eq!(
        validate_rank_result(&missing_ids, &candidates(), 20).unwrap_err(),
        AiError::InvalidOutput("summary_evidence_ids is required".into())
    );
    let link = answer(vec![item(pos_int(1), 0.5, 0.5, &["e1"], &["see https://x.example"], &[])], "", &[]);
    assert_eq!(
        validate_rank_result(&link, &candidates(), 20).unwrap_err(),
        AiError::InvalidOutput("recommendations[0].reasons[0] contains disallowed content".into())
    );
    let integer_scores = obj(vec![
        ("recommendations", arr(vec![obj(vec![("app_id", pos_int(2)), ("fit_score", pos_int(1)), ("confidence", pos_int(0))])])),
        ("summary", text("")),
        ("summary_evidence_ids", texts(&[])),
    ]);
    let ok = validate_rank_result(&integer_scores, &candidates(), 20).unwrap();
    assert_eq!(f64::from_bits(ok.recommendations[0].fit_score_bits), 1.0);
    assert_eq!(f64::from_bits(ok.recommendations[0].confidence_bits), 0.0);
}

#[test]
fn sanitize_keeps_reasons_after_dropping_forged_evidence() {
    let raw = answer(
        vec![item(pos_int(1), 0.9, 0.8, &["forged", "web:99"], &["good private coop"], &[])],
        "nice picks",
        &["web:1"],
    );
    let (result, stripped) = sanitize_rank_result(&raw, &candidates(), 20).unwrap();
    assert!(stripped);
    assert_eq!(result.recommendations[0].reasons, vec!["good private coop"]);
    assert!(result.recommendations[0].reason_evidence_ids.iter().all(|id| id == "e1"));
    assert_eq!(result.summary, "nice picks");
    assert!(!result.summary_evidence_ids.is_empty());
    assert!(result.summary_evidence_ids.iter().all(|id| id == "e1" || id == "e2"));
}

#[test]
fn sanitize_drops_unusable_items_and_refuses_when_none_remain() {
    let raw = answer(vec![item(pos_int(7), 0.9, 0.8, &[], &[], &[])], "", &[]);
    assert_eq!(
        sanitize_rank_result(&raw, &candidates(), 20).unwrap_err(),
        AiError::InvalidOutput("no recommendations remained after sanitization".into())
    );
    let mixed = answer(
        vec![item(pos_int(2), 0.4, 0.3, &["e2"], &[], &[]), item(pos_int(1), 2.0, 0.3, &[], &[], &[])],
        "<script>",
        &["e1"],
    );
    let (result, stripped) = sanitize_rank_result(&mixed, &candidates(), 20).unwrap();
    assert!(stripped);
    assert_eq!(result.recommendations.len(), 1);
    assert_eq!(result.recommendations[0].app_id, 2);
    assert_eq!(result.summary, "");
    assert!(result.summary_evidence_ids.is_empty());
    let clean = answer(vec![item(pos_int(2), 0.4, 0.3, &["e2"], &["fine"], &[])], "fine", &["e2"]);
    let (_, stripped) = sanitize_rank_result(&clean, &candidates(), 20).unwrap();
    assert!(!stripped);
}

#[test]
fn sanitize_cites_the_least_ids_of_a_candidate() {
    let cands = vec![CandidateEvidence { app_id: 5, evidence_ids: vec!["z".into(), "b".into(), "a".into(), "c".into()] }];
    let raw = answer(vec![item(pos_int(5), 0.5, 0.5, &[], &["claim"], &[])], "", &[]);
    let (result, stripped) = sanitize_rank_result(&raw, &cands, 20).unwrap();
    assert!(stripped);
    assert_eq!(result.recommendations[0].reason_evidence_ids, vec!["a", "b", "c"]);
}

#[test]
fn expand_candidate_evidence_ids_adds_prompt_aliases() {
    let item = obj(vec![
        ("name", text("Game")),
        ("multiplayer", obj(vec![("dominant_mode", text("coop")), ("online_coop", JsonValue::Bool(true))])),
        ("party", obj(vec![("recommended_min", pos_int(2))])),
    ]);
    let expanded = expand_candidate_evidence_ids(42, &item, Vec::new());
    assert!(expanded.iter().any(|id| id == "feature:online_coop:42"));
    assert!(expanded.iter().any(|id| id == "app:42:multiplayer"));
    assert!(expanded.iter().any(|id| id == "42"));
    assert!(expanded.iter().any(|id| id == "app:42:name"));
    assert!(!expanded.iter().any(|id| id == "app:42:release"));
    let again = expand_candidate_evidence_ids(42, &item, expanded.clone());
    assert_eq!(again.len(), expanded.len());
}

#[test]
fn parse_models_list_extracts_sorted_unique_ids() {
    let payload = obj(vec![(
        "data",
        arr(vec![
            obj(vec![("id", text("grok-4.5"))]),
            obj(vec![("id", text("grok-4.3"))]),
            obj(vec![("id", text("grok-4.5"))]),
            obj(vec![("id", text("grok-chat-fast"))]),
        ]),
    )]);
    let ids = parse_models_list(&payload).unwrap();
    assert_eq!(ids, vec!["grok-4.3".to_owned(), "grok-4.5".to_owned(), "grok-chat-fast".to_owned()]);
    assert_eq!(
        parse_models_list(&obj(vec![("data", arr(vec![obj(vec![])]))])).unwrap_err(),
        AiError::InvalidOutput("models item missing id".into())
    );
    assert_eq!(
        parse_models_list(&texts(&[])).unwrap_err(),
        AiError::InvalidOutput("models response missing data array".into())
    );
}

fn block(text: &str, ids: &[&str], confidence: f64) -> SectionBlock {
    SectionBlock {
        text: text.to_owned(),
        evidence_ids: ids.iter().map(|s| s.to_string()).collect(),
        confidence_bits: confidence.to_bits(),
    }
}

fn empty_summary() -> GameAiSummary {
    GameAiSummary {
        who_it_fits: block("", &[], 0.0),
        how_to_play: block("", &[], 0.0),
        multiplayer_dependency: block("", &[], 0.0),
        review_strengths: block("", &[], 0.0),
        common_issues: block("", &[], 0.0),
        unknowns: block("", &[], 0.0),
    }
}

#[test]
fn non_empty_section_requires_evidence() {
    let summary = GameAiSummary { who_it_fits: block("great for 4", &[], 0.5), ..empty_summary() };
    let err = summary.validate_evidence(&Vec::new()).unwrap_err();
    assert!(matches!(err, AiError::InvalidOutput(_)));
    assert_eq!(err, AiError::InvalidOutput("summary.who_it_fits requires evidence_ids".into()));
    let unknowns = GameAiSummary { unknowns: block("not enriched yet", &[], 0.2), ..empty_summary() };
    assert!(unknowns.validate_evidence(&Vec::new()).is_ok());
    let bad_confidence = GameAiSummary { how_to_play: block("", &[], 1.5), ..empty_summary() };
    assert_eq!(
        bad_confidence.validate_evidence(&Vec::new()).unwrap_err(),
        AiError::InvalidOutput("summary.how_to_play.confidence out of range".into())
    );
    let forged = GameAiSummary { common_issues: block("crashes", &["x"], 0.5), ..empty_summary() };
    assert_eq!(
        forged.validate_evidence(&vec!["e1".to_owned()]).unwrap_err(),
        AiError::InvalidOutput("summary evidence_id 'x' is not allowed".into())
    );
}

#[test]
fn rule_summary_emits_party_and_dependency() {
    let s = rule_game_summary("Deep Rock", Some(1), Some(4), Some(true), Some(true), &["e1".into()]);
    assert!(s.who_it_fits.text.contains("1–4"));
    assert!(!s.multiplayer_dependency.evidence_ids.is_empty());
    assert_eq!(s.who_it_fits.text, "Deep Rock 适合想找 1–4 人 联机体验的小队。");
    assert_eq!(s.multiplayer_dependency.text, "支持私密局/好友局；可能支持自建服。");
    assert_eq!(f64::from_bits(s.who_it_fits.confidence_bits), 0.45);
    let unknown = rule_game_summary("X", None, None, None, None, &[]);
    assert!(unknown.who_it_fits.text.contains("人数未知"));
    assert!(unknown.validate_evidence(&Vec::new()).is_err());
}

#[test]
fn hash_embedding_uses_the_shared_v2_mapping() {
    let provider = HashEmbeddingProvider { dimensions: 64 };
    let counts = provider.bucket_counts("a");
    assert_eq!(counts.len(), 64);
    assert_eq!(counts[17], 1);
    assert_eq!(counts.iter().filter(|value| **value != 0).count(), 1);
    assert_eq!(HashEmbeddingProvider { dimensions: 0 }.dimensions(), 1);
    assert_eq!(HashEmbeddingProvider::default().dimensions, 32);
    assert_eq!(provider.model_name(), "hash-embed-v2");
}

#[test]
fn disabled_provider_offers_nothing() {
    let provider = DisabledProvider;
    assert_eq!(provider.name(), "disabled");
    assert!(!provider.is_available());
    assert_eq!(provider.dimensions(), 0);
    let caps = provider.capabilities();
    assert!(!caps.structured_output && !caps.embeddings);
    assert_eq!(caps.embedding_dimensions, None);
}

#[test]
fn disabled_gateway_returns_disabled() {
    let mut state = GatewayState::new();
    assert_eq!(state.begin_request(false, 0, &AiPolicy::default()), Err(AiError::Disabled));
}

#[test]
fn fake_gateway_succeeds() {
    let mut state = GatewayState::new();
    assert!(state.begin_request(true, 0, &AiPolicy::default()).is_ok());
    state.note_success();
    assert_eq!(state.circuit.consecutive_failures, 0);
}

#[test]
fn budget_exhaustion() {
    let policy = AiPolicy { minute_budget: 1, daily_budget: 100, ..AiPolicy::default() };
    let mut state = GatewayState::new();
    assert!(state.begin_request(true, 5_000, &policy).is_ok());
    assert_eq!(state.begin_request(true, 6_000, &policy), Err(AiError::BudgetExhausted));
}

#[test]
fn provider_timeout_opens_fallback_path() {
    let policy = AiPolicy { circuit_failure_threshold: 1, ..AiPolicy::default() };
    let mut state = GatewayState::new();
    assert!(state.begin_request(true, 1_000, &policy).is_ok());
    state.note_failure(&AiError::Timeout, 1_000, &policy);
    assert_eq!(state.begin_request(true, 2_000, &policy), Err(AiError::CircuitOpen));
    assert!(state.begin_request(true, 1_000 + policy.circuit_open_ms, &policy).is_ok());
}

fn ai_intent(party: Option<u8>, platforms: &[&str], hard: &[&str]) -> IntentFields {
    IntentFields {
        party_size: party,
        platforms: platforms.iter().map(|s| s.to_string()).collect(),
        hard_constraints: hard.iter().map(|s| s.to_string()).collect(),
        ..IntentFields::default()
    }
}

#[test]
fn rejects_unknown_hard_constraint_fields() {
    let intent = ai_intent(Some(3), &["windows"], &["drop_table"]);
    let err = validate_intent_shape(&intent).unwrap_err();
    assert!(matches!(err, AiError::InvalidOutput(_)));
}

#[test]
fn accepts_valid_intent_payload() {
    let intent = IntentFields {
        party_size: Some(3),
        platforms: vec!["windows".into()],
        modes_preferred: vec!["private_coop".into()],
        modes_excluded: vec!["matchmaking_competitive".into()],
        session_minutes: Some(SessionMinutes { min: Some(30), max: Some(90) }),
        budget: Some(BudgetIntent { currency: Some("CNY".into()), max_each: Some(10_000) }),
        self_hosting: Some("optional".into()),
        demo_required: Some(false),
        free_text_terms: vec!["不要太卷".into()],
        hard_constraints: vec!["party_size".into(), "platforms".into()],
    };
    assert!(validate_intent_shape(&intent).is_ok());
}

#[test]
fn low_confidence_ai_hard_fields_are_demoted() {
    let ai = ai_intent(Some(8), &["linux"], &["party_size", "platforms"]);
    let rules = RuleBaseline { party_size: Some(3), platforms: vec!["windows".into()], ..RuleBaseline::default() };
    let merged = merge_intent_with_rules(ai, ConfidenceBand::Low, &rules);
    assert_eq!(merged.party_size, Some(3));
    assert_eq!(merged.platforms, vec!["windows".to_owned()]);
    assert!(merged.is_hard("party_size"));
    assert!(merged.is_hard("platforms"));
}

#[test]
fn ai_cannot_weaken_rule_hard_party_size() {
    let ai = ai_intent(Some(2), &[], &["party_size"]);
    let rules = RuleBaseline { party_size: Some(4), ..RuleBaseline::default() };
    let merged = merge_intent_with_rules(ai, ConfidenceBand::VeryHigh, &rules);
    assert_eq!(merged.party_size, Some(4));
    assert!(merged.is_hard("party_size"));
}

#[test]
fn high_confidence_explicit_budget_can_become_hard() {
    let ai = IntentFields {
        budget: Some(BudgetIntent { currency: Some("CNY".into()), max_each: Some(10_000) }),
        hard_constraints: vec!["budget".into()],
        free_text_terms: vec!["预算一百".into()],
        ..IntentFields::default()
    };
    let merged = merge_intent_with_rules(ai, ConfidenceBand::VeryHigh, &RuleBaseline::default());
    assert!(merged.is_hard("budget"));
    assert_eq!(merged.budget.unwrap().max_each, Some(10_000));
}

#[test]
fn inventing_party_size_without_rules_requires_very_high_confidence() {
    let low = ai_intent(Some(5), &[], &["party_size"]);
    let merged_low = merge_intent_with_rules(low, ConfidenceBand::High, &RuleBaseline::default());
    assert!(!merged_low.is_hard("party_size"));

    let high = ai_intent(Some(5), &[], &["party_size"]);
    let merged_high = merge_intent_with_rules(high, ConfidenceBand::VeryHigh, &RuleBaseline::default());
    assert!(merged_high.is_hard("party_size"));
    assert_eq!(merged_high.party_size, Some(5));
}

#[test]
fn content_hash_is_stable_and_dedupes() {
    let a = web_content_hash("https://a.example/x", "t", "s");
    let b = web_content_hash("https://a.example/x", "t", "s");
    let c = web_content_hash("https://a.example/x", "t", "other");
    assert_eq!(a, b);
    assert_ne!(a, c);
    assert!(a.starts_with("sha256:"));
    assert_eq!(a.len(), "sha256:".len() + 64);
}

#[test]
fn whitelist_classifies_official_and_rejects_unknown_by_default() {
    let wl = SourceWhitelist::default();
    assert_eq!(SourceTier::from_host("store.steampowered.com", &wl), SourceTier::Official);
    let hits = normalize_search_hits(
        vec![
            ("https://store.steampowered.com/app/1".into(), "Game".into(), "private lobby".into()),
            ("https://evil.example/phish".into(), "nope".into(), "nope".into()),
        ],
        &wl,
        100,
        false,
    )
    .unwrap();
    assert_eq!(hits.len(), 1);
    assert_eq!(hits[0].source_tier, SourceTier::Official);
    assert_eq!(hits[0].host, "store.steampowered.com");
}

#[test]
fn discovery_query_includes_missing_features() {
    let q = discovery_query_for_app(548430, "Deep Rock Galactic", &["private_session"]);
    assert!(q.query.contains("Deep Rock"));
    assert!(q.query.contains("548430"));
    assert_eq!(q.missing_features, vec!["private_session".to_owned()]);
}

#[test]
fn fake_provider_returns_capped_hits() {
    let provider = FakeWebSearchProvider {
        hits: (0..10)
            .map(|i| WebSearchHit {
                url: format!("https://store.steampowered.com/app/{i}"),
                host: "store.steampowered.com".into(),
                title: format!("t{i}"),
                snippet: "s".into(),
                source_tier: SourceTier::Official,
                content_hash: format!("h{i}"),
                fetched_at_ms: 1,
            })
            .collect(),
        available: true,
    };
    let hits = provider
        .search(&WebSearchQuery {
            query: "test".into(),
            app_id: None,
            game_name: None,
            missing_features: vec![],
            limit: 3,
        })
        .unwrap();
    assert_eq!(hits.len(), 3);
    assert_eq!(hits[2].title, "t2");
}

#[test]
fn valid_answer_passes_sanitizer_unchanged() {
    let raw = answer(
        vec![
            item(pos_int(1), 0.9, 0.8, &["e1"], &["  private coop  "], &[]),
            item(pos_int(2), 1.0, 0.0, &["e2"], &[], &["short campaign"]),
        ],
        " two good picks ",
        &["e1", "e2"],
    );
    let validated = validate_rank_result(&raw, &candidates(), 20).unwrap();
    let (sanitized, stripped) = sanitize_rank_result(&raw, &candidates(), 20).unwrap();
    assert!(!stripped);
    assert_eq!(sanitized.summary, validated.summary);
    assert_eq!(sanitized.summary, "two good picks");
    assert_eq!(sanitized.summary_evidence_ids, validated.summary_evidence_ids);
    assert_eq!(sanitized.recommendations.len(), validated.recommendations.len());
    for (s, v) in sanitized.recommendations.iter().zip(validated.recommendations.iter()) {
        assert_eq!(s.app_id, v.app_id);
        assert_eq!(s.fit_score_bits, v.fit_score_bits);
        assert_eq!(s.confidence_bits, v.confidence_bits);
        assert_eq!(s.reason_evidence_ids, v.reason_evidence_ids);
        assert_eq!(s.reasons, v.reasons);
        assert_eq!(s.cautions, v.cautions);
    }
    assert_eq!(sanitized.recommendations[0].reasons, vec!["private coop"]);
}

#[test]
fn content_hash_is_sha256_prefix_and_lowercase_hex() {
    let a = web_content_hash("https://a.example/x", "t", "s");
    assert_eq!(a.len(), 71);
    assert!(a.starts_with("sha256:"));
    assert!(a[7..].chars().all(|c| c.is_ascii_digit() || ('a'..='f').contains(&c)));
}

#[test]
fn whitelist_allows_exactly_the_known_tiers() {
    let wl = SourceWhitelist::default();
    for host in [
        "store.steampowered.com",
        "STORE.STEAMPOWERED.COM ",
        "www.reddit.com",
        "evil.example",
        "",
        "steampowered.com.evil.example",
    ] {
        assert_eq!(wl.allows(host), SourceTier::from_host(host, &wl) != SourceTier::Unknown, "{host}");
    }
}

#[test]
fn default_summary_sections_are_empty() {
    let block = SectionBlock::default();
    assert!(block.text.is_empty());
    assert!(block.evidence_ids.is_empty());
    assert_eq!(block.confidence_bits, 0);
    let summary = GameAiSummary::default();
    for section in [
        &summary.who_it_fits,
        &summary.how_to_play,
        &summary.multiplayer_dependency,
        &summary.review_strengths,
        &summary.common_issues,
        &summary.unknowns,
    ] {
        assert!(section.text.is_empty() && section.evidence_ids.is_empty() && section.confidence_bits == 0);
    }
}
