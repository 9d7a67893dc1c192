use lobbytally::ai_limits::AccountAiLimiter;
use lobbytally::api::{
    apply_feed_overrides, apply_feed_party_size, bearer_token, calendar_range_ok, check_admin, check_feedback,
    check_search, feed_limit, feed_page, feedback_hides,
    AdminRejection, FeedPage, FeedQuery,
};
use lobbytally::audit::{m3_gate, m7_gate, M7Coverage, M7Failure};
use lobbytally::client_keys::validate_client_key;
use lobbytally::commands::{parse_command, usage, DbCommand};
use lobbytally::collection::{
    after_search_page, enrichment_plan, report_progress, resume_start, search_retry_wait_secs, target_reached,
    CollectionStats, EnrichPlan, EnrichStats, EnrichSwitches, EnrichmentNeeds, SearchVerdict, StepResult,
    StoreSearchCursor,
};
use lobbytally::cors::{validate_origin, CorsConfig};
use lobbytally::domain::{FeedSection, FeedbackType, RecommendationConfig, UserPreferences};
use lobbytally::evidence::{
    check_feature_filter, evidence_entries, EvidenceEntry, GameEvidenceFacts, ProfileFeature, StoredEvidence,
};
use lobbytally::scheduler::{
    configured_interval, next_run_at, plan_scheduled_task, scheduled_status, steam_web_api_key_configured, RefreshStatus,
    ScheduledTask, TaskIntervals,
    TaskPlan,
};
use lobbytally::tool_options::{
    configured_worker_owner, enrich_inter_request_ms, enrich_retry_delay_ms, env_flag, meets_percentage,
    optional_catalog_page_count, optional_catalog_page_size, optional_enrich_limit, optional_target,
    optional_worker_job_limit, parse_m7_audit_options, required_path, steam_web_api_key_from, worker_completion_key,
    worker_job, worker_job_error_category, worker_retry_delay_ms, worker_task_status, RetryCause, WorkerJob, APP_LIST_PAGES_DEFAULT,
    APP_LIST_PAGES_MAX, WORKER_JOB_LIMIT_DEFAULT,
};

#[test]
fn limits_concurrent_requests_per_account_and_releases_on_drop() {
    let mut limiter = AccountAiLimiter::new(1, 1);
    let permit = limiter.try_acquire("u_1").expect("first request allowed");
    assert!(limiter.try_acquire("u_1").is_none());
    assert!(limiter.try_acquire("u_2").is_some());
    limiter.release(permit);
    assert!(limiter.try_acquire("u_1").is_some());
}

#[test]
fn limiter_settings_must_be_positive() {
    assert!(AccountAiLimiter::from_env(None, None).is_ok());
    assert!(AccountAiLimiter::from_env(Some("0"), None).is_err());
    let limiter = AccountAiLimiter::from_env(Some("7"), Some("2")).unwrap();
    assert_eq!(limiter.daily_budget(), 7);
}

#[test]
fn default_allows_tauri_origins() {
    let config = CorsConfig::default();
    assert!(config.allows("http://tauri.localhost"));
    assert!(config.allows("tauri://localhost"));
    assert!(config.allows("http://localhost:5173"));
    assert!(!config.allows("https://evil.example"));
}

#[test]
fn disabled_allows_nothing() {
    let mut config = CorsConfig::default();
    config.enabled = false;
    assert!(!config.allows("http://tauri.localhost"));
}

#[test]
fn validate_origin_rejects_paths_and_bad_schemes() {
    assert!(validate_origin("http://tauri.localhost").is_ok());
    assert!(validate_origin("https://store.example:8443").is_ok());
    assert!(validate_origin("tauri://localhost").is_ok());
    assert!(validate_origin("http://host/path").is_err());
    assert!(validate_origin("ftp://host").is_err());
    assert!(validate_origin("no-scheme").is_err());
    assert!(validate_origin("http://").is_err());
    assert!(validate_origin("http://ho st").is_err());
}

#[test]
fn admin_requests_need_the_configured_bearer_token() {
    assert_eq!(check_admin(None, Some("Bearer x")), Err(AdminRejection::NotConfigured));
    assert_eq!(check_admin(Some("secret"), None), Err(AdminRejection::InvalidToken));
    assert_eq!(check_admin(Some("secret"), Some("secret")), Err(AdminRejection::InvalidToken));
    assert_eq!(check_admin(Some("secret"), Some("Bearer wrong")), Err(AdminRejection::InvalidToken));
    assert_eq!(check_admin(Some("secret"), Some("Bearer secret")), Ok(()));
    assert_eq!(bearer_token(Some("Bearer abc")), Some("abc".to_owned()));
    assert_eq!(bearer_token(Some("bearer abc")), None);
    assert_eq!(AdminRejection::NotConfigured.message(), "MPGS_ADMIN_TOKEN is not configured");
}

fn query() -> FeedQuery {
    FeedQuery {
        limit: None,
        cursor: None,
        party_size: None,
        platforms: None,
        languages: None,
        session_minutes_min: None,
        session_minutes_max: None,
        max_price_minor: None,
        currency: None,
        demo_only: None,
    }
}

#[test]
fn feed_overrides_replace_filters_and_revalidate() {
    let mut prefs = UserPreferences::default();
    let q = FeedQuery {
        platforms: Some(" Linux , ,SteamDeck".into()),
        currency: Some("usd".into()),
        max_price_minor: Some(500),
        ..query()
    };
    assert_eq!(apply_feed_overrides(&mut prefs, &q), Ok(()));
    assert_eq!(prefs.platforms, vec!["linux".to_owned(), "steamdeck".to_owned()]);
    assert_eq!(prefs.budget_currency, "USD");
    assert_eq!(prefs.budget_max_each_minor, Some(500));

    let mut prefs = UserPreferences::default();
    let bad = FeedQuery { languages: Some(" , ".into()), ..query() };
    assert_eq!(
        apply_feed_overrides(&mut prefs, &bad),
        Err("languages must be a comma-separated list of 1 to 32 values".to_owned())
    );
    let inverted = FeedQuery { session_minutes_min: Some(200), session_minutes_max: Some(100), ..query() };
    assert_eq!(
        apply_feed_overrides(&mut prefs, &inverted),
        Err("session_minutes_min must be <= session_minutes_max".to_owned())
    );
}

#[test]
fn client_keys_stay_in_the_namespace() {
    assert!(validate_client_key("mpgs.settings").is_ok());
    assert_eq!(
        validate_client_key("mpgs.session.v1"),
        Err("session tokens must use secure credential storage".to_owned())
    );
    assert_eq!(validate_client_key("other"), Err("client storage key must use the mpgs namespace".to_owned()));
}

#[test]
fn scheduler_intervals_and_keys() {
    assert_eq!(configured_interval(None, 300, 30), 300);
    assert_eq!(configured_interval(Some("45"), 300, 30), 45);
    assert_eq!(configured_interval(Some("10"), 300, 30), 300);
    assert_eq!(configured_interval(Some("90000"), 300, 30), 300);
    let intervals = TaskIntervals::from_env(Some("120"), None, Some("x"));
    assert_eq!(intervals.catalog_sync_secs, 120);
    assert_eq!(intervals.candidate_collection_secs, 21_600);
    assert_eq!(intervals.enrichment_secs, 300);
    assert_eq!(TaskIntervals::default().catalog_sync_secs, 900);
    assert_eq!(next_run_at(1_000, 60), 61_000);
    assert_eq!(next_run_at(i64::MAX - 5, 60), i64::MAX);

    match plan_scheduled_task(ScheduledTask::Enrichment, true, None, false, 1_000_000, 300) {
        TaskPlan::Enqueue { idempotency_key, next_run_at_ms } => {
            assert_eq!(idempotency_key, "m7-scheduler:enrichment:3");
            assert_eq!(next_run_at_ms, 1_300_000);
        }
        other => panic!("expected a queued job, got {other:?}"),
    }
    assert!(matches!(
        plan_scheduled_task(ScheduledTask::Enrichment, true, Some(2_000_000), false, 1_000_000, 300),
        TaskPlan::NotDue
    ));
    match plan_scheduled_task(ScheduledTask::CatalogSync, false, Some(5), false, 1_000, 900) {
        TaskPlan::RecordDisabled { next_run_at_ms, error_category } => {
            assert_eq!(next_run_at_ms, 901_000);
            assert_eq!(error_category, "auth");
        }
        other => panic!("expected a disabled record, got {other:?}"),
    }
    assert_eq!(ScheduledTask::CandidateCollection.task_type(), "collect_candidates");
}

#[test]
fn steam_keys_are_thirty_two_hex_digits() {
    let key = "0123456789abcdefABCDEF0123456789";
    assert!(steam_web_api_key_configured(Some(key)));
    assert!(steam_web_api_key_configured(Some(" 0123456789abcdefABCDEF0123456789\n")));
    assert!(!steam_web_api_key_configured(Some("0123456789abcdefABCDEF012345678g")));
    assert!(!steam_web_api_key_configured(None));
    assert_eq!(steam_web_api_key_from(Some(" 0123456789abcdefABCDEF0123456789 ")).unwrap(), Some(key.to_owned()));
    assert_eq!(steam_web_api_key_from(None).unwrap(), None);
    assert!(steam_web_api_key_from(Some("short")).is_err());
}

#[test]
fn m7_audit_requires_an_explicit_single_line_upcoming_exception_reason() {
    let valid = vec!["--allow-upcoming-shortfall=Steam schedule has fewer releases".to_owned()];
    assert_eq!(parse_m7_audit_options(valid).unwrap().as_deref(), Some("Steam schedule has fewer releases"));

    let missing_reason = vec!["--allow-upcoming-shortfall=".to_owned()];
    assert!(parse_m7_audit_options(missing_reason).is_err());
    let unknown = vec!["--unexpected".to_owned()];
    assert!(parse_m7_audit_options(unknown).is_err());
    let twice = vec!["--allow-upcoming-shortfall=a".to_owned(), "--allow-upcoming-shortfall=b".to_owned()];
    assert!(parse_m7_audit_options(twice).is_err());
    assert_eq!(parse_m7_audit_options(Vec::new()).unwrap(), None);
}

#[test]
fn enrichment_retry_uses_a_long_rate_limit_cooldown() {
    assert_eq!(enrich_retry_delay_ms(RetryCause::RateLimited { retry_after_ms: None }, 0), 300_000);
    assert_eq!(enrich_retry_delay_ms(RetryCause::RateLimited { retry_after_ms: Some(600_000) }, 0), 600_000);
    assert_eq!(enrich_retry_delay_ms(RetryCause::Other, 1), 2_000);
    assert_eq!(enrich_retry_delay_ms(RetryCause::Other, 40), 64_000);
}

#[test]
fn catalog_arguments_stay_within_safe_bounds() {
    let max_results = 50_000;
    assert_eq!(optional_catalog_page_count(None).unwrap(), APP_LIST_PAGES_DEFAULT);
    assert!(optional_catalog_page_count(Some("0".into())).is_err());
    assert!(optional_catalog_page_count(Some((APP_LIST_PAGES_MAX + 1).to_string())).is_err());
    assert_eq!(optional_catalog_page_size(Some(max_results.to_string()), max_results).unwrap(), max_results);
    assert!(optional_catalog_page_size(Some("0".into()), max_results).is_err());
    assert!(optional_catalog_page_size(Some((max_results + 1).to_string()), max_results).is_err());
    assert_eq!(optional_worker_job_limit(None).unwrap(), WORKER_JOB_LIMIT_DEFAULT);
    assert!(optional_worker_job_limit(Some("0".into())).is_err());
    assert_eq!(worker_job_error_category("storage"), "network");
    assert_eq!(worker_job_error_category("response_too_large"), "parse_changed");
}

#[test]
fn tool_options_report_exact_messages() {
    assert_eq!(optional_target(None).unwrap(), 2_000);
    assert_eq!(optional_target(Some("x".into())), Err("invalid candidate target: x".to_owned()));
    assert_eq!(
        optional_enrich_limit(Some("5001".into())),
        Err("enrich limit must be between 1 and 5000".to_owned())
    );
    assert_eq!(required_path(None, "--db path"), Err("missing --db path".to_owned()));
    assert_eq!(
        required_path(Some("--db".into()), "--db path"),
        Err("expected path for --db path, got flag --db".to_owned())
    );
    assert_eq!(required_path(Some("data.db".into()), "--db path"), Ok("data.db".to_owned()));
    assert_eq!(configured_worker_owner(None, 42), Ok("mpgs-dbtool-42".to_owned()));
    assert_eq!(configured_worker_owner(Some("  w1 "), 42), Ok("w1".to_owned()));
    assert!(configured_worker_owner(Some("   "), 42).is_err());
    assert_eq!(worker_retry_delay_ms(0), 60_000);
    assert_eq!(worker_retry_delay_ms(3), 240_000);
    assert_eq!(worker_retry_delay_ms(99), 1_920_000);
    assert_eq!(worker_task_status("collect_candidates"), Some(("candidate_collection", "steam_store_search:multiplayer:reviews_desc")));
    assert_eq!(worker_task_status("other"), None);
    assert_eq!(worker_job_error_category("auth"), "auth");
    assert_eq!(worker_job_error_category("weird"), "invalid_payload");
    assert_eq!(worker_completion_key("w1", -3), "worker:w1:-3");
    assert!(meets_percentage(95, 100, 95));
    assert!(!meets_percentage(94, 100, 95));
    assert!(!meets_percentage(5, 0, 1));
    assert!(env_flag(Some(" ON ")));
    assert!(!env_flag(Some("off")));
    assert!(!env_flag(None));
    assert_eq!(enrich_inter_request_ms(Some(" 5000 ")), 5_000);
    assert_eq!(enrich_inter_request_ms(Some("10")), 2_500);
    assert_eq!(enrich_inter_request_ms(None), 2_500);
}

#[test]
fn feed_section_names_are_stable() {
    let names = FeedSection::ALL.map(FeedSection::as_str);
    assert_eq!(names, ["recent_release", "upcoming", "popular_legacy", "classic_legacy"]);
    assert_eq!(FeedSection::parse("classic_legacy"), Some(FeedSection::ClassicLegacy));
}

#[test]
fn default_preferences_validate() {
    assert!(UserPreferences::default().validate().is_ok());
}

#[test]
fn preferences_reject_negative_budget_and_invalid_currency() {
    let mut prefs = UserPreferences { budget_max_each_minor: Some(-1), ..UserPreferences::default() };
    assert!(prefs.validate().is_err());
    prefs.budget_max_each_minor = Some(100);
    prefs.budget_currency = "cny".into();
    assert!(prefs.validate().is_err());
    prefs.budget_currency = "CNY".into();
    prefs.coop_competitive_bits = 1.5f64.to_bits();
    assert_eq!(prefs.validate(), Err("coop_competitive must be between 0 and 1".to_owned()));
}

#[test]
fn feedback_type_roundtrip() {
    assert_eq!(FeedbackType::parse(FeedbackType::Like.as_str()), Some(FeedbackType::Like));
}

#[test]
fn recommendation_config_defaults_and_partial_json_validate() {
    let defaults = RecommendationConfig::default();
    assert!(defaults.validate().is_ok());
    assert_eq!(f64::from_bits(defaults.popular_min_wilson_bits), 0.58);
    let partial = RecommendationConfig { recent_days: 90, ..defaults };
    assert!(partial.validate().is_ok());
}

#[test]
fn recommendation_config_rejects_unsafe_ranges() {
    let config = RecommendationConfig { popular_high_ccu: 100, popular_min_ccu: 1_000, ..RecommendationConfig::default() };
    assert_eq!(config.validate(), Err("popular_high_ccu must be >= popular_min_ccu".to_owned()));
    let wilson = RecommendationConfig {
        popular_high_ccu_min_wilson_bits: 0.9f64.to_bits(),
        ..RecommendationConfig::default()
    };
    assert_eq!(
        wilson.validate(),
        Err("popular_high_ccu_min_wilson must be <= popular_min_wilson".to_owned())
    );
    let lambda = RecommendationConfig { mmr_lambda_bits: f64::NAN.to_bits(), ..RecommendationConfig::default() };
    assert_eq!(lambda.validate(), Err("mmr_lambda must be between 0 and 1".to_owned()));
}

#[test]
fn feed_limits_and_party_sizes_are_checked() {
    assert_eq!(feed_limit(&query()), Ok(20));
    assert_eq!(feed_limit(&FeedQuery { limit: Some(100), ..query() }), Ok(100));
    assert_eq!(feed_limit(&FeedQuery { limit: Some(0), ..query() }), Err("limit must be between 1 and 100".to_string()));
    assert_eq!(feed_limit(&FeedQuery { limit: Some(101), ..query() }), Err("limit must be between 1 and 100".to_string()));
    let mut prefs = UserPreferences::default();
    assert_eq!(apply_feed_party_size(&mut prefs, &FeedQuery { party_size: Some(6), ..query() }), Ok(()));
    assert_eq!(prefs.party_size, 6);
    assert_eq!(
        apply_feed_party_size(&mut prefs, &FeedQuery { party_size: Some(65), ..query() }),
        Err("party_size must be between 1 and 64".to_string())
    );
    assert_eq!(prefs.party_size, 6);
    assert!(apply_feed_party_size(&mut prefs, &FeedQuery { party_size: Some(0), ..query() }).is_err());
}

#[test]
fn feed_pages_and_hidden_feedback() {
    assert_eq!(feed_page(45, 0, 20), FeedPage { start: 0, end: 20, next_offset: Some(20) });
    assert_eq!(feed_page(45, 40, 20), FeedPage { start: 40, end: 45, next_offset: None });
    assert_eq!(feed_page(45, 25, 20), FeedPage { start: 25, end: 45, next_offset: None });
    assert_eq!(feed_page(10, 50, 20), FeedPage { start: 10, end: 10, next_offset: None });
    assert_eq!(feed_page(10, usize::MAX, 5), FeedPage { start: 10, end: 10, next_offset: None });
    assert!(feedback_hides(FeedbackType::NotInterested));
    assert!(feedback_hides(FeedbackType::PartySizeMismatch));
    assert!(!feedback_hides(FeedbackType::Like));
    assert!(!feedback_hides(FeedbackType::TooCompetitive));
}

#[test]
fn evidence_lists_rows_then_profile_and_review_facts() {
    assert_eq!(check_feature_filter(None), Ok(()));
    assert_eq!(check_feature_filter(Some("online_coop")), Ok(()));
    assert_eq!(check_feature_filter(Some("  ")), Err("feature must contain between 1 and 64 bytes".to_string()));
    assert!(check_feature_filter(Some(&"x".repeat(65))).is_err());
    assert!(check_feature_filter(Some(&"x".repeat(64))).is_ok());
    let rows = vec![
        StoredEvidence { feature_name: "online_coop".into(), evidence_key: "11".into() },
        StoredEvidence { feature_name: "online_coop".into(), evidence_key: "12".into() },
        StoredEvidence { feature_name: "lan".into(), evidence_key: "13".into() },
    ];
    let facts = GameEvidenceFacts {
        private_session: Some(true),
        self_hosted_server: None,
        online_coop: Some(false),
        total_reviews: Some(120),
    };
    let entries = evidence_entries(42, None, &rows, &facts);
    assert_eq!(
        entries,
        vec![
            EvidenceEntry::Stored { row: 0, evidence_id: "feature:online_coop:42".into() },
            EvidenceEntry::Stored { row: 1, evidence_id: "feature:online_coop:42:12".into() },
            EvidenceEntry::Stored { row: 2, evidence_id: "feature:lan:42".into() },
            EvidenceEntry::Profile {
                feature: ProfileFeature::PrivateSession,
                value: true,
                evidence_id: "feature:private_session:42".into(),
            },
            EvidenceEntry::ReviewSummary { total: 120, evidence_id: "review:42:summary".into() },
        ]
    );
    let only_reviews = evidence_entries(42, Some("review_summary"), &[], &facts);
    assert_eq!(only_reviews, vec![EvidenceEntry::ReviewSummary { total: 120, evidence_id: "review:42:summary".into() }]);
    let coop = evidence_entries(7, Some("online_coop"), &[], &facts);
    assert_eq!(
        coop,
        vec![EvidenceEntry::Profile {
            feature: ProfileFeature::OnlineCoop,
            value: false,
            evidence_id: "feature:online_coop:7".into(),
        }]
    );
}

#[test]
fn candidate_search_resumes_and_stops() {
    assert_eq!(resume_start(None), 0);
    let saved = StoreSearchCursor { next_start: 300, total_count: Some(900), target: 2_000, complete: false };
    assert_eq!(resume_start(Some(saved)), 300);
    assert_eq!(resume_start(Some(StoreSearchCursor { complete: true, ..saved })), 0);
    assert!(target_reached(2_000, 2_000));
    assert!(!target_reached(1_999, 2_000));
    let (cursor, verdict) = after_search_page(2_000, 150, 400, 900, false);
    assert_eq!(cursor, StoreSearchCursor { next_start: 400, total_count: Some(900), target: 2_000, complete: false });
    assert_eq!(verdict, SearchVerdict::Continue(400));
    let (_, verdict) = after_search_page(2_000, 150, 900, 900, true);
    assert_eq!(
        verdict,
        SearchVerdict::Exhausted("Steam search exhausted at 150 candidates before target 2000".to_string())
    );
    let (_, verdict) = after_search_page(100, 150, 900, 900, true);
    assert_eq!(verdict, SearchVerdict::TargetReached);
    assert_eq!(search_retry_wait_secs(0, true), Some(1));
    assert_eq!(search_retry_wait_secs(1, true), Some(2));
    assert_eq!(search_retry_wait_secs(2, true), None);
    assert_eq!(search_retry_wait_secs(0, false), None);
    let mut stats = CollectionStats::default();
    stats.note_request();
    stats.note_ingested(25);
    assert_eq!(stats, CollectionStats { request_count: 1, success_count: 25 });
    let mut full = CollectionStats { request_count: i64::MAX, success_count: 0 };
    full.note_request();
    assert_eq!(full.request_count, i64::MAX);
}

#[test]
fn enrichment_plans_and_counts() {
    let needs = EnrichmentNeeds {
        needs_store_details: false,
        needs_price: true,
        needs_reviews: true,
        needs_review_excerpts: true,
        needs_ccu: true,
    };
    let off = EnrichSwitches { store_only: false, skip_reviews: false, skip_ccu: false, skip_store: false };
    assert_eq!(
        enrichment_plan(needs, off),
        EnrichPlan { store: true, reviews: true, popular_reviews: true, ccu: true, pause_after_ccu: false }
    );
    assert_eq!(
        enrichment_plan(needs, EnrichSwitches { store_only: true, ..off }),
        EnrichPlan { store: true, reviews: false, popular_reviews: false, ccu: false, pause_after_ccu: false }
    );
    let ccu_only = EnrichmentNeeds {
        needs_store_details: false,
        needs_price: false,
        needs_reviews: false,
        needs_review_excerpts: false,
        needs_ccu: true,
    };
    assert_eq!(
        enrichment_plan(ccu_only, EnrichSwitches { skip_store: true, ..off }),
        EnrichPlan { store: false, reviews: false, popular_reviews: false, ccu: true, pause_after_ccu: true }
    );
    assert!(!enrichment_plan(ccu_only, EnrichSwitches { skip_ccu: true, ..off }).ccu);
    let mut stats = EnrichStats::default();
    stats.begin_app();
    let mut app_ok = 0;
    for result in [StepResult::StoreNotFound, StepResult::ReviewsOk, StepResult::Failed, StepResult::CcuOk] {
        if stats.note(result) {
            app_ok += 1;
        }
    }
    stats.finish_app(app_ok);
    assert_eq!(
        stats,
        EnrichStats {
            request_count: 0,
            success_count: 3,
            apps_attempted: 1,
            store_ok: 0,
            store_not_found: 1,
            reviews_ok: 1,
            popular_reviews_ok: 0,
            ccu_ok: 1,
            error_count: 1,
        }
    );
    assert!(report_progress(9, 25));
    assert!(!report_progress(10, 25));
    assert!(report_progress(24, 25));
}

fn cli(words: &[&str]) -> Result<DbCommand, String> {
    let args: Vec<String> = words.iter().map(|w| w.to_string()).collect();
    parse_command(&args, 50_000)
}

#[test]
fn database_tool_command_line() {
    assert_eq!(cli(&[]), Err(usage().to_string()));
    assert!(usage().starts_with("mpgs-dbtool <command> [args]\n\nCommands:\n  migrate <db-path>\n"));
    assert_eq!(cli(&["migrate", "db.sqlite", "extra"]), Ok(DbCommand::Migrate { db_path: "db.sqlite".into() }));
    assert_eq!(cli(&["integrity"]), Err("missing --db path".to_string()));
    assert_eq!(cli(&["m3-audit", "--x"]), Err("expected path for --db path, got flag --x".to_string()));
    assert_eq!(
        cli(&["m7-data-audit", "db", "--allow-upcoming-shortfall= late releases "]),
        Ok(DbCommand::M7DataAudit { db_path: "db".into(), upcoming_shortfall_reason: Some("late releases".into()) })
    );
    assert_eq!(
        cli(&["sync-retrieval", "db"]),
        Ok(DbCommand::SyncRetrieval { db_path: "db".into(), limit: 5_000, after_app_id: 0 })
    );
    assert_eq!(
        cli(&["sync-retrieval", "db", "0", "70"]),
        Ok(DbCommand::SyncRetrieval { db_path: "db".into(), limit: 1, after_app_id: 70 })
    );
    assert_eq!(
        cli(&["extract-offline-features", "db", "90000"]),
        Ok(DbCommand::ExtractOfflineFeatures { db_path: "db".into(), limit: 50_000, after_app_id: 0 })
    );
    assert_eq!(
        cli(&["extract-offline-features", "db", "ten"]),
        Err("extract-offline-features limit must be an integer".to_string())
    );
    assert_eq!(
        cli(&["sync-retrieval", "db", "10", "-1"]),
        Err("sync-retrieval after_app_id must be an integer".to_string())
    );
    assert_eq!(
        cli(&["materialize-store-profiles", "db", "x"]),
        Err("materialize-store-profiles accepts only db-path".to_string())
    );
    assert_eq!(
        cli(&["repair-empty-availability", "db"]),
        Ok(DbCommand::RepairEmptyAvailability { db_path: "db".into() })
    );
    assert_eq!(
        cli(&["embed-documents", "db", "20000", "100"]),
        Ok(DbCommand::EmbedDocuments { db_path: "db".into(), limit: 10_000, batch: 64 })
    );
    assert_eq!(
        cli(&["embed-documents", "db", "5", "x"]),
        Err("embed-documents batch must be an integer".to_string())
    );
    assert_eq!(
        cli(&["collect-steam-catalog", "db"]),
        Ok(DbCommand::CollectSteamCatalog { db_path: "db".into(), max_pages: 1, page_size: 1_000 })
    );
    assert_eq!(
        cli(&["collect-steam-catalog", "db", "1", "10", "x"]),
        Err("collect-steam-catalog accepts db-path, max-pages, and page-size only".to_string())
    );
    assert_eq!(
        cli(&["collect-steam-catalog", "db", "1", "50001"]),
        Err("catalog page size must be between 1 and 50000".to_string())
    );
    assert_eq!(
        cli(&["collect-steam-candidates", "db", "300"]),
        Ok(DbCommand::CollectSteamCandidates { db_path: "db".into(), target: 300 })
    );
    assert_eq!(
        cli(&["enrich-steam-candidates", "db", "5", "6"]),
        Err("enrich-steam-candidates accepts at most db-path and limit".to_string())
    );
    assert_eq!(
        cli(&["run-steam-worker-once", "db", "2"]),
        Ok(DbCommand::RunSteamWorkerOnce { db_path: "db".into(), job_limit: 2, enrich_limit: 100 })
    );
    assert_eq!(
        cli(&["import-golden-profiles", "db"]),
        Ok(DbCommand::ImportGoldenProfiles { db_path: "db".into() })
    );
    assert_eq!(
        cli(&["backup", "db", "out.bak"]),
        Ok(DbCommand::Backup { db_path: "db".into(), out_path: "out.bak".into() })
    );
    assert_eq!(cli(&["restore", "in.bak"]), Err("missing --to path".to_string()));
    assert_eq!(cli(&["--help"]), Ok(DbCommand::Help));
    assert_eq!(cli(&["frobnicate"]), Err(format!("unknown command 'frobnicate'\n{}", usage())));
}

#[test]
fn data_gates_name_each_shortfall() {
    assert_eq!(m3_gate(2_000), Ok(()));
    assert_eq!(
        m3_gate(1_500),
        Err("M3 catalog gate failed: 1500 normalized multiplayer candidates, need at least 2000".to_string())
    );
    let good = M7Coverage {
        normalized_multiplayer_candidates: 2_400,
        trusted_friend_multiplayer_profiles: 320,
        candidates_with_date: 2_300,
        candidates_with_cover: 2_400,
        upcoming_candidates: 25,
        recent_release_candidates: 40,
        popular_legacy_candidates: 40,
        classic_legacy_candidates: 40,
        trusted_profiles_with_seven_day_reviews: 300,
        trusted_profiles_with_seven_day_ccu: 310,
    };
    let verdict = m7_gate(&good, false);
    assert!(verdict.failures.is_empty());
    assert!(!verdict.exception_used);
    let verdict = m7_gate(&good, true);
    assert_eq!(
        verdict.failures,
        vec![M7Failure::Message(
            "--allow-upcoming-shortfall is only valid when fewer than 20 upcoming candidates are available".into()
        )]
    );
    let thin = M7Coverage {
        candidates_with_date: 2_000,
        upcoming_candidates: 5,
        classic_legacy_candidates: 3,
        trusted_profiles_with_seven_day_ccu: -1,
        ..good
    };
    let verdict = m7_gate(&thin, true);
    assert!(verdict.exception_used);
    assert_eq!(
        verdict.failures,
        vec![
            M7Failure::DateCoverage,
            M7Failure::Message("3 classic_legacy candidates, need at least 20".into()),
            M7Failure::Message("-1 trusted profiles have seven consecutive CCU days, need at least 300".into()),
        ]
    );
    let verdict = m7_gate(&thin, false);
    assert_eq!(
        verdict.failures[1],
        M7Failure::Message(
            "5 upcoming candidates, need at least 20 or an explicit documented shortfall exception".into()
        )
    );
    let empty = m7_gate(&M7Coverage::default(), false);
    assert_eq!(empty.failures.len(), 10);
}

#[test]
fn worker_refuses_unsupported_or_unauthorized_jobs() {
    assert_eq!(worker_job("sync_catalog", true), WorkerJob::SyncCatalog);
    assert_eq!(
        worker_job("sync_catalog", false),
        WorkerJob::Refused("auth", "MPGS_STEAM_WEB_API_KEY is not configured for the worker")
    );
    assert_eq!(worker_job("collect_candidates", false), WorkerJob::CollectCandidates);
    assert_eq!(worker_job("enrich_catalog", true), WorkerJob::EnrichCatalog);
    assert_eq!(worker_job("unsupported", true), WorkerJob::Refused("invalid_payload", "unsupported Steam job type"));
    assert_eq!(worker_job_error_category("invalid_payload"), "invalid_payload");
}

#[test]
fn search_calendar_and_feedback_requests_are_checked() {
    assert_eq!(check_search(Some(" deep rock ".into()), None), Ok((" deep rock ".to_string(), 20)));
    assert_eq!(check_search(None, Some(5)), Err("q is required"));
    assert_eq!(check_search(Some("  ".into()), Some(5)), Err("q is required"));
    assert_eq!(check_search(Some("x".into()), Some(101)), Err("limit must be between 1 and 100"));
    assert_eq!(check_search(Some("x".into()), Some(0)), Err("limit must be between 1 and 100"));
    assert!(calendar_range_ok(100, 466));
    assert!(!calendar_range_ok(100, 467));
    assert!(!calendar_range_ok(100, 99));
    assert!(calendar_range_ok(i64::MIN, i64::MIN));
    assert!(!calendar_range_ok(i64::MIN, i64::MAX));
    assert_eq!(check_feedback("like", Some("k-1")), Ok(FeedbackType::Like));
    assert_eq!(check_feedback("love", Some("k-1")), Err("unknown feedback type"));
    assert_eq!(check_feedback("played", None), Err("Idempotency-Key header is required"));
}

#[test]
fn records_only_completed_derived_work_as_success() {
    let intervals = TaskIntervals::default();
    let catalog = plan_scheduled_task(ScheduledTask::CatalogSync, false, None, false, 0, intervals.catalog_sync_secs);
    let catalog_status = match catalog {
        TaskPlan::RecordDisabled { next_run_at_ms, error_category } => {
            scheduled_status(None, next_run_at_ms, Some(error_category))
        }
        other => panic!("expected a disabled record, got {other:?}"),
    };
    assert_eq!(catalog_status.last_error_category.as_deref(), Some("auth"));
    assert!(catalog_status.last_success_at_ms.is_none());
    let collection = plan_scheduled_task(
        ScheduledTask::CandidateCollection,
        true,
        None,
        false,
        0,
        intervals.candidate_collection_secs,
    );
    let collection_status = match collection {
        TaskPlan::Enqueue { next_run_at_ms, .. } => scheduled_status(None, next_run_at_ms, None),
        other => panic!("expected a queued job, got {other:?}"),
    };
    assert!(collection_status.last_success_at_ms.is_none());
    assert!(collection_status.last_error_category.is_none());
}

#[test]
fn keeps_collection_success_when_scheduling_the_next_job() {
    let previous = RefreshStatus {
        last_success_at_ms: Some(123),
        next_run_at_ms: None,
        last_error_category: None,
        cursor_value: Some("cursor".into()),
    };
    let plan = plan_scheduled_task(ScheduledTask::CandidateCollection, true, previous.next_run_at_ms, false, 5_000, 300);
    let status = match plan {
        TaskPlan::Enqueue { next_run_at_ms, .. } => scheduled_status(Some(&previous), next_run_at_ms, None),
        other => panic!("expected a queued job, got {other:?}"),
    };
    assert_eq!(status.last_success_at_ms, Some(123));
    assert_eq!(status.cursor_value.as_deref(), Some("cursor"));
    assert!(status.next_run_at_ms.is_some());
    assert!(status.last_error_category.is_none());
}

#[test]
fn keeps_one_active_job_per_collection_task_and_respects_task_cadence() {
    let intervals = TaskIntervals { catalog_sync_secs: 60, candidate_collection_secs: 600, enrichment_secs: 60 };
    let first_collection = plan_scheduled_task(
        ScheduledTask::CandidateCollection,
        true,
        None,
        false,
        0,
        intervals.candidate_collection_secs,
    );
    let first_enrichment = plan_scheduled_task(ScheduledTask::Enrichment, true, None, false, 0, intervals.enrichment_secs);
    let (collection_next, enrichment_next) = match (first_collection, first_enrichment) {
        (TaskPlan::Enqueue { next_run_at_ms: c, .. }, TaskPlan::Enqueue { next_run_at_ms: e, .. }) => (c, e),
        other => panic!("expected two queued jobs, got {other:?}"),
    };
    assert_eq!((collection_next, enrichment_next), (600_000, 60_000));
    // One minute later both jobs are still active: nothing more is queued.
    assert!(matches!(
        plan_scheduled_task(ScheduledTask::Enrichment, true, Some(enrichment_next), true, 60_000, 60),
        TaskPlan::AlreadyQueued
    ));
    assert!(matches!(
        plan_scheduled_task(ScheduledTask::CandidateCollection, true, Some(collection_next), true, 60_000, 600),
        TaskPlan::NotDue
    ));
    // Once the jobs are done, enrichment is queued again and collection waits for its longer interval.
    assert!(matches!(
        plan_scheduled_task(ScheduledTask::Enrichment, true, Some(enrichment_next), false, 60_000, 60),
        TaskPlan::Enqueue { .. }
    ));
    assert!(matches!(
        plan_scheduled_task(ScheduledTask::CandidateCollection, true, Some(collection_next), false, 60_000, 600),
        TaskPlan::NotDue
    ));
}
