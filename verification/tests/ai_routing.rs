use lobbytally::ai_error::AiError;
use lobbytally::ai_types::{build_ai_cache_key, AiStatus, AiTaskType, ApiProtocol, ModelCapabilities, TaskRouteConfig};
use lobbytally::breaker::RouterPolicy;
use lobbytally::model_registry::{apply_canary_result, capabilities_from_model_ids, ModelRegistry};
use lobbytally::router::{
    is_model_missing, is_protocol_rejection, AttemptOutcome, RoutedAttempt, TaskRouter, WalkStep,
};
use lobbytally::routes::{default_task_routes, multi_model_enabled, TaskRouteTable, DEFAULT_ROUTE_VERSION};

fn seeded(ids: &[&str]) -> ModelRegistry {
    let mut registry = ModelRegistry::new();
    registry.seed(capabilities_from_model_ids(ids));
    registry
}

/// Drive one structured completion through the router, answering each
/// attempt with `answer`.
fn complete(
    router: &mut TaskRouter,
    task: AiTaskType,
    now_ms: u64,
    answer: &dyn Fn(&str, ApiProtocol) -> AttemptOutcome,
) -> Result<RoutedAttempt, AiError> {
    let mut walk = router.begin_completion(true, task, None, None, 100, now_ms)?;
    loop {
        match router.next_step(&mut walk, now_ms) {
            WalkStep::Attempt { model, protocol, .. } => {
                let outcome = answer(&model, protocol);
                if let Some(done) = router.record_outcome(&mut walk, outcome, now_ms) {
                    return Ok(done);
                }
            }
            WalkStep::Skipped => {}
            WalkStep::Failed(error) => return Err(error),
        }
    }
}

#[test]
fn missing_models_are_skipped_after_discovery() {
    let registry = seeded(&["grok-4.3", "grok-chat-fast"]);
    assert!(registry.is_model_allowed("grok-4.3"));
    assert!(!registry.is_model_allowed("totally-missing-model"));
}

#[test]
fn empty_registry_allows_models_for_legacy_single_model_deploys() {
    let registry = ModelRegistry::new();
    assert!(registry.is_model_allowed("any-model"));
}

#[test]
fn canary_failure_on_chat_does_not_mark_responses_dead() {
    let mut caps = ModelCapabilities {
        model: "grok-4.5".into(),
        chat_completions: true,
        responses: true,
        structured_json: true,
        tool_calling: false,
        streaming: false,
        available: true,
    };
    apply_canary_result(&mut caps, ApiProtocol::ChatCompletions, false);
    assert!(!caps.chat_completions);
    assert!(caps.responses);
    assert!(caps.available);
}

#[test]
fn canary_failure_on_all_protocols_marks_unavailable() {
    let mut caps = ModelCapabilities {
        model: "broken".into(),
        chat_completions: true,
        responses: false,
        structured_json: true,
        tool_calling: false,
        streaming: false,
        available: true,
    };
    apply_canary_result(&mut caps, ApiProtocol::ChatCompletions, false);
    assert!(!caps.available);
}

#[test]
fn record_protocol_success_enables_responses_for_grok_45_style_models() {
    let mut registry = ModelRegistry::new();
    registry.record_protocol_success("grok-4.5", ApiProtocol::Responses);
    let caps = registry.get("grok-4.5").unwrap();
    assert!(caps.responses);
    assert!(caps.available);
    assert!(!caps.chat_completions);
}

#[test]
fn default_routes_cover_prd_online_tasks() {
    let routes = default_task_routes();
    assert!(routes.contains_key(&AiTaskType::IntentParse));
    assert!(routes.contains_key(&AiTaskType::RankExplain));
    assert!(routes.contains_key(&AiTaskType::GameSummary));
    assert!(routes.contains_key(&AiTaskType::CompareGames));
    assert!(routes.contains_key(&AiTaskType::GroupAdvice));
    assert!(routes.contains_key(&AiTaskType::DataQuality));

    let rank = routes.get(&AiTaskType::RankExplain).unwrap();
    assert_eq!(rank.primary_model, "grok-4.5");
    assert!(rank
        .fallback_models
        .iter()
        .any(|m| m.contains("4.20") || m == "grok-4.3"));
    assert_eq!(rank.protocol_preference[0], ApiProtocol::Responses);
    let compare = routes.get(&AiTaskType::CompareGames).unwrap();
    assert_eq!(compare.primary_model, "grok-4.5");
    assert_eq!(compare.protocol_preference[0], ApiProtocol::Responses);
}

#[test]
fn grok_45_routes_prefer_responses_and_intent_has_a_bounded_deadline() {
    let routes = default_task_routes();
    let intent = routes.get(&AiTaskType::IntentParse).unwrap();
    assert_eq!(intent.primary_model, "grok-4.5");
    assert_eq!(intent.protocol_preference[0], ApiProtocol::Responses);
    assert_eq!(intent.timeout_secs, 12);
    assert!(intent.max_output_tokens <= 1_024);
    let rank = routes.get(&AiTaskType::RankExplain).unwrap();
    assert!(intent.timeout_secs < rank.timeout_secs);

    let data_quality = routes.get(&AiTaskType::DataQuality).unwrap();
    assert_eq!(data_quality.primary_model, "grok-4.5");
    assert_eq!(data_quality.protocol_preference[0], ApiProtocol::Responses);
}

#[test]
fn multi_model_defaults_on_and_accepts_explicit_false() {
    assert!(multi_model_enabled(None));
    assert!(!multi_model_enabled(Some("false")));
    assert!(!multi_model_enabled(Some("single")));
    assert!(multi_model_enabled(Some("true")));
}

#[test]
fn route_version_is_shared_across_defaults() {
    let routes = default_task_routes();
    let versions: Vec<&str> = routes.values().iter().map(|r| r.route_version.as_str()).collect();
    assert!(!versions.is_empty());
    assert!(versions.iter().all(|v| *v == DEFAULT_ROUTE_VERSION));
}

#[test]
fn task_wire_names_match_prd() {
    assert_eq!(AiTaskType::IntentParse.as_str(), "intent_parse");
    assert_eq!(AiTaskType::RankExplain.as_str(), "rank_explain");
    assert_eq!(AiTaskType::GameSummary.as_str(), "game_summary");
    assert_eq!(AiTaskType::CompareGames.as_str(), "compare_games");
    assert_eq!(AiTaskType::GroupAdvice.as_str(), "group_advice");
    assert_eq!(AiTaskType::DataQuality.as_str(), "data_quality");
}

#[test]
fn cache_key_changes_when_route_or_model_changes() {
    let base = build_ai_cache_key(AiTaskType::RankExplain, "grok-4.3", "rank-v5", "route-v1", "snap-a", "input-a", "pref-a");
    let model_changed =
        build_ai_cache_key(AiTaskType::RankExplain, "grok-chat-fast", "rank-v5", "route-v1", "snap-a", "input-a", "pref-a");
    let route_changed =
        build_ai_cache_key(AiTaskType::RankExplain, "grok-4.3", "rank-v5", "route-v2", "snap-a", "input-a", "pref-a");
    assert_ne!(base, model_changed);
    assert_ne!(base, route_changed);
    assert_eq!(
        base,
        build_ai_cache_key(AiTaskType::RankExplain, "grok-4.3", "rank-v5", "route-v1", "snap-a", "input-a", "pref-a")
    );
}

#[test]
fn model_capabilities_prefer_responses_when_available() {
    let caps = ModelCapabilities {
        model: "grok-4.5".into(),
        chat_completions: true,
        responses: true,
        structured_json: true,
        tool_calling: false,
        streaming: false,
        available: true,
    };
    assert_eq!(caps.preferred_protocols(), vec![ApiProtocol::Responses, ApiProtocol::ChatCompletions]);
}

#[test]
fn task_route_model_chain_dedupes_primary() {
    let route = TaskRouteConfig {
        task: AiTaskType::IntentParse,
        primary_model: "a".into(),
        fallback_models: vec!["a".into(), "b".into()],
        protocol_preference: vec![],
        timeout_secs: 5,
        max_output_tokens: 256,
        enabled: true,
        route_version: "v1".into(),
    };
    assert_eq!(route.model_chain(), vec!["a", "b"]);
}

#[test]
fn router_uses_primary_model_when_available() {
    let registry = seeded(&["grok-4.5", "grok-4.3", "grok-4.20-0309-non-reasoning"]);
    let mut router = TaskRouter::new(default_task_routes(), registry, RouterPolicy::default());
    let result = complete(&mut router, AiTaskType::RankExplain, 1_000, &|_, _| AttemptOutcome::Succeeded).unwrap();
    assert_eq!(result.model, "grok-4.5");
    assert!(!result.used_fallback);
    assert_eq!(result.attempted_models, vec!["grok-4.5".to_owned()]);
}

#[test]
fn router_skips_missing_primary_and_uses_fallback() {
    let registry = seeded(&["grok-4.20-0309-non-reasoning", "grok-4.3"]);
    let mut router = TaskRouter::new(default_task_routes(), registry, RouterPolicy::default());
    let result = complete(&mut router, AiTaskType::RankExplain, 1_000, &|_, _| AttemptOutcome::Succeeded).unwrap();
    assert_eq!(result.model, "grok-4.20-0309-non-reasoning");
    assert!(result.used_fallback);
}

#[test]
fn router_falls_back_when_primary_errors() {
    let registry = seeded(&["grok-4.5", "grok-4.3", "grok-4.20-0309-non-reasoning"]);
    let mut router = TaskRouter::new(default_task_routes(), registry, RouterPolicy::default());
    let result = complete(&mut router, AiTaskType::RankExplain, 1_000, &|model, _| {
        if model == "grok-4.5" {
            AttemptOutcome::Failed(AiError::RateLimited)
        } else {
            AttemptOutcome::Succeeded
        }
    })
    .unwrap();
    assert_eq!(result.model, "grok-4.20-0309-non-reasoning");
    assert!(result.used_fallback);
    assert_eq!(
        result.attempted_models,
        vec!["grok-4.5".to_owned(), "grok-4.20-0309-non-reasoning".to_owned()]
    );
}

#[test]
fn router_does_not_pretend_success_when_all_models_fail() {
    let registry = seeded(&["grok-4.5", "grok-4.3", "grok-4.20-0309-non-reasoning"]);
    let mut router = TaskRouter::new(default_task_routes(), registry, RouterPolicy::default());
    let err = complete(&mut router, AiTaskType::RankExplain, 1_000, &|_, _| AttemptOutcome::TimedOut).unwrap_err();
    assert_eq!(err, AiError::Timeout);
}

#[test]
fn per_model_circuit_breaker_skips_open_model() {
    let registry = seeded(&["grok-4.5", "grok-4.20-0309-non-reasoning", "grok-4.3"]);
    let policy = RouterPolicy { circuit_failure_threshold: 1, circuit_open_ms: 60_000, ..RouterPolicy::default() };
    let mut router = TaskRouter::new(default_task_routes(), registry, policy);
    let answer = |model: &str, _: ApiProtocol| {
        if model == "grok-4.5" {
            AttemptOutcome::TimedOut
        } else {
            AttemptOutcome::Succeeded
        }
    };
    let first = complete(&mut router, AiTaskType::RankExplain, 10_000, &answer).unwrap();
    assert!(first.used_fallback);
    let second = complete(&mut router, AiTaskType::RankExplain, 10_500, &answer).unwrap();
    assert_eq!(second.attempted_models, vec!["grok-4.20-0309-non-reasoning".to_owned()]);
}

#[test]
fn chat_protocol_failure_retries_responses_before_next_model() {
    let mut routes = default_task_routes();
    routes.insert(TaskRouteConfig {
        task: AiTaskType::RankExplain,
        primary_model: "grok-4.5".into(),
        fallback_models: vec!["should-not-be-used".into()],
        protocol_preference: vec![ApiProtocol::ChatCompletions, ApiProtocol::Responses],
        timeout_secs: 5,
        max_output_tokens: 100,
        enabled: true,
        route_version: "test".into(),
    });
    let mut router = TaskRouter::new(routes, ModelRegistry::new(), RouterPolicy::default());
    let result = complete(&mut router, AiTaskType::RankExplain, 1_000, &|model, protocol| {
        if model == "grok-4.5" && protocol == ApiProtocol::ChatCompletions {
            AttemptOutcome::Failed(AiError::ProviderRejected("protocol chat/completions not supported".into()))
        } else {
            AttemptOutcome::Succeeded
        }
    })
    .unwrap();
    assert_eq!(result.model, "grok-4.5");
    assert_eq!(result.protocol, ApiProtocol::Responses);
    assert!(!result.used_fallback);
    assert_eq!(result.route_version, "test");
}

#[test]
fn disabled_provider_or_route_refuses_before_any_attempt() {
    let mut router = TaskRouter::new(default_task_routes(), ModelRegistry::new(), RouterPolicy::default());
    let err = router.begin_completion(false, AiTaskType::RankExplain, None, None, 100, 0).err().unwrap();
    assert_eq!(err, AiError::Disabled);
    let err = router.begin_completion(true, AiTaskType::Embed, None, None, 100, 0).err().unwrap();
    assert_eq!(err, AiError::Config("no route configured for task embed".into()));
}

#[test]
fn router_budget_refuses_the_request_over_the_minute_limit() {
    let policy = RouterPolicy { minute_budget: 1, ..RouterPolicy::default() };
    let mut router = TaskRouter::new(default_task_routes(), ModelRegistry::new(), policy);
    assert!(router.begin_completion(true, AiTaskType::RankExplain, None, None, 100, 60_000).is_ok());
    let err = router.begin_completion(true, AiTaskType::RankExplain, None, None, 100, 60_500).err().unwrap();
    assert_eq!(err, AiError::BudgetExhausted);
    assert!(router.begin_completion(true, AiTaskType::RankExplain, None, None, 100, 120_000).is_ok());
}

#[test]
fn walk_caps_output_tokens_and_reports_no_models_when_none_allowed() {
    let registry = seeded(&["other-model"]);
    let mut router = TaskRouter::new(default_task_routes(), registry, RouterPolicy::default());
    let err = complete(&mut router, AiTaskType::RankExplain, 1_000, &|_, _| AttemptOutcome::Succeeded).unwrap_err();
    assert_eq!(err, AiError::ProviderRejected("no available models for task after registry filter".into()));

    let mut router = TaskRouter::new(default_task_routes(), ModelRegistry::new(), RouterPolicy::default());
    let mut walk = router.begin_completion(true, AiTaskType::IntentParse, None, None, 10_000, 0).unwrap();
    match router.next_step(&mut walk, 0) {
        WalkStep::Attempt { model, protocol, max_output_tokens } => {
            assert_eq!(model, "grok-4.5");
            assert_eq!(protocol, ApiProtocol::Responses);
            assert_eq!(max_output_tokens, 512);
        }
        other => panic!("expected an attempt, got {other:?}"),
    }
}

#[test]
fn missing_model_rejection_marks_the_model_unavailable() {
    let registry = seeded(&["grok-4.5", "grok-4.20-0309-non-reasoning"]);
    let mut router = TaskRouter::new(default_task_routes(), registry, RouterPolicy::default());
    let result = complete(&mut router, AiTaskType::RankExplain, 1_000, &|model, _| {
        if model == "grok-4.5" {
            AttemptOutcome::Failed(AiError::ProviderRejected("model grok-4.5 not found".into()))
        } else {
            AttemptOutcome::Succeeded
        }
    })
    .unwrap();
    assert_eq!(result.model, "grok-4.20-0309-non-reasoning");
    assert!(!router.registry().is_model_allowed("grok-4.5"));
}

#[test]
fn rejection_kinds_are_read_from_the_provider_message() {
    assert!(is_protocol_rejection(&AiError::ProviderRejected("Responses API not supported".into())));
    assert!(!is_protocol_rejection(&AiError::Timeout));
    assert!(is_model_missing(&AiError::ProviderRejected("HTTP 404: Model does not exist".into())));
    assert!(!is_model_missing(&AiError::ProviderRejected("quota exceeded".into())));
}

#[test]
fn route_snapshot_rows_follow_task_names_and_registry() {
    let registry = seeded(&["grok-4.3"]);
    let router = TaskRouter::new(default_task_routes(), registry, RouterPolicy::default());
    let rows = router.route_snapshot();
    let tasks: Vec<&str> = rows.iter().map(|r| r.task.as_str()).collect();
    assert_eq!(
        tasks,
        vec!["compare_games", "data_quality", "game_summary", "group_advice", "intent_parse", "rank_explain"]
    );
    assert!(rows.iter().all(|r| !r.primary_available));
    let intent = rows.iter().find(|r| r.task == "intent_parse").unwrap();
    assert_eq!(intent.timeout_ms, 12_000);
    assert_eq!(intent.protocol_preference, vec!["responses".to_owned(), "chat_completions".to_owned()]);
    assert!(router.multi_model_active());
    assert_eq!(router.route_version(AiTaskType::Embed), DEFAULT_ROUTE_VERSION);
}

#[test]
fn single_model_routes_are_not_multi_model() {
    let mut routes = TaskRouteTable::new();
    for task in [AiTaskType::IntentParse, AiTaskType::RankExplain] {
        routes.insert(TaskRouteConfig {
            task,
            primary_model: "only".into(),
            fallback_models: vec![],
            protocol_preference: vec![],
            timeout_secs: 5,
            max_output_tokens: 256,
            enabled: true,
            route_version: "v1".into(),
        });
    }
    let router = TaskRouter::new(routes, ModelRegistry::new(), RouterPolicy::default());
    assert!(!router.multi_model_active());
}

#[test]
fn rank_analysis_alias_deserializes_to_rank_explain() {
    let name: String = serde_json::from_str("\"rank_analysis\"").unwrap();
    assert_eq!(AiTaskType::from_wire_name(&name), Some(AiTaskType::RankExplain));
    let name: String = serde_json::from_str("\"rank_explain\"").unwrap();
    assert_eq!(AiTaskType::from_wire_name(&name), Some(AiTaskType::RankExplain));
    assert_eq!(serde_json::to_string(AiTaskType::RankExplain.as_str()).unwrap(), "\"rank_explain\"");
}

#[test]
fn pending_status_is_wire_compatible() {
    assert_eq!(AiStatus::Pending.as_str(), "pending");
    assert_eq!(serde_json::to_string(AiStatus::Pending.as_str()).unwrap(), "\"pending\"");
}

#[test]
fn every_task_name_reads_back() {
    for task in [
        AiTaskType::IntentParse,
        AiTaskType::RankExplain,
        AiTaskType::FeatureExtract,
        AiTaskType::Embed,
        AiTaskType::GameSummary,
        AiTaskType::CompareGames,
        AiTaskType::GroupAdvice,
        AiTaskType::DataQuality,
    ] {
        assert_eq!(AiTaskType::from_wire_name(task.as_str()), Some(task));
    }
    assert_eq!(AiTaskType::from_wire_name("ranking"), None);
}

#[test]
fn registry_freshness_follows_its_time_to_live() {
    let mut registry = ModelRegistry::new();
    assert!(!registry.is_fresh());
    registry.seed(capabilities_from_model_ids(&["grok-4.3"]));
    assert!(registry.is_fresh());
    registry.replace_models(capabilities_from_model_ids(&["grok-4.3"]), 0);
    assert!(!registry.is_fresh());
    assert!(registry.is_model_allowed("grok-4.3"));
    registry.replace_models(capabilities_from_model_ids(&["grok-4.5"]), 60_000);
    assert!(registry.is_fresh());
    assert!(!registry.is_model_allowed("grok-4.3"));
}
