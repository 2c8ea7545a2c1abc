//! Failover: classification, retries, cooldowns, stickiness and selection of auth profiles.

use hope_core::failover::classify::{classify_error, classify_error_full, FailoverReason};
use hope_core::failover::cooldown::{ProfileCooldownTracker, COOLDOWN_PRUNE_ABOVE, NANOS_PER_SEC};
use hope_core::failover::llm_error::LlmError;
use hope_core::failover::policy::{rand_simple, retry_delay_ms};
use hope_core::failover::profile::{AuthProfile, ProviderConfig};
use hope_core::failover::selection::{next_profile, select_profile};
use hope_core::failover::sticky::{ProfileStickyMap, STICKY_MAX_SESSIONS_PER_PROVIDER};

/// A time on the clock of the cooldowns.
const NOW: u64 = 1_000_000_000_000;

#[test]
fn test_rate_limit() {
    assert_eq!(
        classify_error("429 Too Many Requests"),
        FailoverReason::RateLimit
    );
    assert_eq!(
        classify_error("Rate limit exceeded"),
        FailoverReason::RateLimit
    );
    assert_eq!(
        classify_error("RESOURCE_EXHAUSTED"),
        FailoverReason::RateLimit
    );
}

#[test]
fn test_overloaded() {
    assert_eq!(
        classify_error("503 Service Unavailable"),
        FailoverReason::Overloaded
    );
    assert_eq!(
        classify_error("The server is overloaded"),
        FailoverReason::Overloaded
    );
    assert_eq!(
        classify_error("502 Bad Gateway"),
        FailoverReason::Overloaded
    );
    assert_eq!(classify_error("server_error"), FailoverReason::Overloaded);
    assert_eq!(
        classify_error("An error occurred while processing your request. Please include the request ID 8d46da73-d9c2-44d5-af24-707fb7680aad in your message."),
        FailoverReason::Overloaded
    );
}

#[test]
fn test_timeout() {
    assert_eq!(classify_error("request timed out"), FailoverReason::Timeout);
    assert_eq!(classify_error("ETIMEDOUT"), FailoverReason::Timeout);
    assert_eq!(
        classify_error("connection reset by peer"),
        FailoverReason::Timeout
    );
    assert_eq!(
        classify_error("error decoding response body"),
        FailoverReason::Timeout
    );
    assert_eq!(
        classify_error("error reading a body from connection"),
        FailoverReason::Timeout
    );
    assert_eq!(
        classify_error("connection closed before message completed"),
        FailoverReason::Timeout
    );
}

#[test]
fn test_auth() {
    assert_eq!(classify_error("401 Unauthorized"), FailoverReason::Auth);
    assert_eq!(classify_error("Invalid API key"), FailoverReason::Auth);
    assert_eq!(classify_error("403 Forbidden"), FailoverReason::Auth);
}

#[test]
fn test_billing() {
    assert_eq!(
        classify_error("402 Payment Required"),
        FailoverReason::Billing
    );
    assert_eq!(
        classify_error("You exceeded your current quota"),
        FailoverReason::Billing
    );
}

#[test]
fn test_model_not_found() {
    assert_eq!(
        classify_error("404 Not Found"),
        FailoverReason::ModelNotFound
    );
    assert_eq!(
        classify_error("model_not_found"),
        FailoverReason::ModelNotFound
    );
    assert_eq!(
        classify_error("The model does not exist"),
        FailoverReason::ModelNotFound
    );
}

#[test]
fn test_context_overflow() {
    assert_eq!(
        classify_error("This model's maximum context length is 200000 tokens"),
        FailoverReason::ContextOverflow
    );
    assert_eq!(
        classify_error("context_length_exceeded"),
        FailoverReason::ContextOverflow
    );
}

#[test]
fn test_unknown() {
    assert_eq!(classify_error("some random error"), FailoverReason::Unknown);
}

// ── Structured LlmError classification tests ──────────────────

#[test]
fn test_llm_error_to_anyhow_roundtrip() {
    // Full structured error
    let err = LlmError::from_http_status(429, "Too Many Requests")
        .with_code("rate_limit_error")
        .with_retry_after(30);
    let msg = err.to_anyhow().to_string();
    assert!(msg.starts_with("LLM_ERR:429:rate_limit_error:30:Too Many Requests"));
    assert_eq!(classify_error(&msg), FailoverReason::RateLimit);

    // Minimal structured error (status only)
    let err = LlmError::from_http_status(503, "Service Unavailable");
    let msg = err.to_anyhow().to_string();
    assert!(msg.starts_with("LLM_ERR:503:-:-:Service Unavailable"));
    assert_eq!(classify_error(&msg), FailoverReason::Overloaded);

    // No status, only code
    let err = LlmError::new("prompt too long").with_code("context_length_exceeded");
    let msg = err.to_anyhow().to_string();
    assert!(msg.starts_with("LLM_ERR:-:context_length_exceeded:-:prompt too long"));
    assert_eq!(classify_error(&msg), FailoverReason::ContextOverflow);
}

#[test]
fn test_structured_status_classification() {
    let cases = [
        (429, FailoverReason::RateLimit),
        (502, FailoverReason::Overloaded),
        (503, FailoverReason::Overloaded),
        (521, FailoverReason::Overloaded),
        (522, FailoverReason::Overloaded),
        (524, FailoverReason::Overloaded),
        (401, FailoverReason::Auth),
        (403, FailoverReason::Auth),
        (402, FailoverReason::Billing),
        (404, FailoverReason::ModelNotFound),
        (500, FailoverReason::Unknown), // 500 not in status map → Unknown
    ];
    for (status, expected) in cases {
        let err = LlmError::from_http_status(status, "error");
        let msg = err.to_anyhow().to_string();
        assert_eq!(
            classify_error(&msg),
            expected,
            "status {} should classify as {:?}",
            status,
            expected
        );
    }
}

#[test]
fn test_structured_code_classification() {
    let cases = [
        ("context_length_exceeded", FailoverReason::ContextOverflow),
        ("context_overflow", FailoverReason::ContextOverflow),
        ("prompt_too_long", FailoverReason::ContextOverflow),
        ("rate_limit_error", FailoverReason::RateLimit),
        ("resource_exhausted", FailoverReason::RateLimit),
        ("throttle", FailoverReason::RateLimit),
        ("overloaded", FailoverReason::Overloaded),
        ("server_error", FailoverReason::Overloaded),
        ("invalid_api_key", FailoverReason::Auth),
        ("forbidden", FailoverReason::Auth),
        ("billing_not_active", FailoverReason::Billing),
        ("insufficient_quota", FailoverReason::Billing),
        ("model_not_found", FailoverReason::ModelNotFound),
        ("does_not_exist", FailoverReason::ModelNotFound),
    ];
    for (code, expected) in cases {
        let err = LlmError::new("error").with_code(code);
        let msg = err.to_anyhow().to_string();
        assert_eq!(
            classify_error(&msg),
            expected,
            "code {} should classify as {:?}",
            code,
            expected
        );
    }
}

#[test]
fn test_structured_message_fallback() {
    // No status, no code — falls back to substring matching on the message
    let err = LlmError::new("Rate limit exceeded, please slow down");
    let msg = err.to_anyhow().to_string();
    assert_eq!(classify_error(&msg), FailoverReason::RateLimit);

    let err = LlmError::new("something completely unexpected happened");
    let msg = err.to_anyhow().to_string();
    assert_eq!(classify_error(&msg), FailoverReason::Unknown);
}

#[test]
fn test_structured_priority_status_over_code() {
    // Status takes priority over code
    let err = LlmError::from_http_status(429, "error").with_code("context_length_exceeded");
    let msg = err.to_anyhow().to_string();
    assert_eq!(classify_error(&msg), FailoverReason::RateLimit);
}

#[test]
fn test_structured_malformed_fallback() {
    // Malformed LLM_ERR prefix (too few colons) falls back to substring matching
    assert_eq!(
        classify_error("LLM_ERR:429:incomplete"),
        FailoverReason::RateLimit // substring "429" matched
    );
}

#[test]
fn test_legacy_errors_still_work() {
    // Non-structured errors go through substring matching
    assert_eq!(
        classify_error("429 Too Many Requests"),
        FailoverReason::RateLimit
    );
    assert_eq!(
        classify_error("503 Service Unavailable"),
        FailoverReason::Overloaded
    );
    assert_eq!(
        classify_error("context_length_exceeded"),
        FailoverReason::ContextOverflow
    );
    assert_eq!(classify_error("some random error"), FailoverReason::Unknown);
}

// ── classify_error_full + retry_after tests ───────────────────

#[test]
fn test_classify_error_full_structured() {
    let err = LlmError::from_http_status(429, "Too Many Requests").with_retry_after(30);
    let classified = classify_error_full(&err.to_anyhow().to_string());
    assert_eq!(classified.reason, FailoverReason::RateLimit);
    assert_eq!(classified.retry_after_secs, Some(30));
}

#[test]
fn test_classify_error_full_no_retry_after() {
    let err = LlmError::from_http_status(503, "Service Unavailable");
    let classified = classify_error_full(&err.to_anyhow().to_string());
    assert_eq!(classified.reason, FailoverReason::Overloaded);
    assert_eq!(classified.retry_after_secs, None);
}

#[test]
fn test_classify_error_full_legacy() {
    let classified = classify_error_full("429 Too Many Requests");
    assert_eq!(classified.reason, FailoverReason::RateLimit);
    assert_eq!(classified.retry_after_secs, None);
}

#[test]
fn test_parse_retry_after() {
    assert_eq!(LlmError::parse_retry_after("30"), Some(30));
    assert_eq!(LlmError::parse_retry_after("  60  "), Some(60));
    assert_eq!(LlmError::parse_retry_after("0"), Some(0));
    // HTTP-date format — not supported, returns None
    assert_eq!(
        LlmError::parse_retry_after("Fri, 28 Jun 2026 12:00:00 GMT"),
        None
    );
    assert_eq!(LlmError::parse_retry_after(""), None);
    assert_eq!(LlmError::parse_retry_after("invalid"), None);
}

#[test]
fn test_retryable() {
    assert!(FailoverReason::RateLimit.is_retryable());
    assert!(FailoverReason::Overloaded.is_retryable());
    assert!(FailoverReason::Timeout.is_retryable());
    assert!(FailoverReason::Unknown.is_retryable());
    assert!(!FailoverReason::Auth.is_retryable());
    assert!(!FailoverReason::ContextOverflow.is_retryable());
}

#[test]
fn test_max_retries() {
    // Unknown errors capped at 1 retry regardless of policy
    assert_eq!(FailoverReason::Unknown.max_retries(2), 1);
    assert_eq!(FailoverReason::Unknown.max_retries(0), 0);
    // Other retryable errors use the full policy budget
    assert_eq!(FailoverReason::RateLimit.max_retries(2), 2);
    assert_eq!(FailoverReason::Overloaded.max_retries(3), 3);
    assert_eq!(FailoverReason::Timeout.max_retries(5), 5);
    // Non-retryable errors — max_retries is irrelevant (is_retryable=false)
    // but the method still returns the policy value
    assert_eq!(FailoverReason::Auth.max_retries(2), 2);
}

#[test]
fn test_terminal() {
    // ContextOverflow is no longer terminal — it triggers compaction first.
    assert!(!FailoverReason::ContextOverflow.is_terminal());
    assert!(!FailoverReason::RateLimit.is_terminal());
    assert!(!FailoverReason::Unknown.is_terminal());
}

#[test]
fn test_retry_delay() {
    for random in [0, 1, 99, 100, 199, 200, 201, 12_345, u64::MAX] {
        let d0 = retry_delay_ms(0, 1000, 10000, random);
        assert!(d0 >= 900 && d0 <= 1100); // ~1000 ±10%

        let d1 = retry_delay_ms(1, 1000, 10000, random);
        assert!(d1 >= 1800 && d1 <= 2200); // ~2000 ±10%

        let d_max = retry_delay_ms(10, 1000, 10000, random);
        assert!(d_max >= 9000 && d_max <= 11000); // clamped to ~10000
    }
}

// ── Profile rotation tests ──────────────────────────────────

#[test]
fn test_is_profile_rotatable() {
    assert!(FailoverReason::RateLimit.is_profile_rotatable());
    assert!(FailoverReason::Overloaded.is_profile_rotatable());
    assert!(FailoverReason::Auth.is_profile_rotatable());
    assert!(FailoverReason::Billing.is_profile_rotatable());
    assert!(!FailoverReason::Timeout.is_profile_rotatable());
    assert!(!FailoverReason::ModelNotFound.is_profile_rotatable());
    assert!(!FailoverReason::ContextOverflow.is_profile_rotatable());
    assert!(!FailoverReason::Unknown.is_profile_rotatable());
}

#[test]
fn test_profile_cooldown_secs() {
    assert_eq!(FailoverReason::Overloaded.profile_cooldown_secs(), 30);
    assert_eq!(FailoverReason::RateLimit.profile_cooldown_secs(), 60);
    assert_eq!(FailoverReason::Auth.profile_cooldown_secs(), 300);
    assert_eq!(FailoverReason::Billing.profile_cooldown_secs(), 600);
    assert_eq!(FailoverReason::Timeout.profile_cooldown_secs(), 0);
}

#[test]
fn test_cooldown_tracker_basic() {
    let mut tracker = ProfileCooldownTracker::new();
    assert!(tracker.is_available("p1", NOW));

    tracker.mark_cooldown("p1", &FailoverReason::RateLimit, NOW);
    assert!(!tracker.is_available("p1", NOW));
    assert!(tracker.is_available("p2", NOW));

    tracker.clear("p1");
    assert!(tracker.is_available("p1", NOW));
}

#[test]
fn test_cooldown_zero_duration_not_tracked() {
    let mut tracker = ProfileCooldownTracker::new();
    tracker.mark_cooldown("p1", &FailoverReason::Timeout, NOW); // 0 secs
    assert!(tracker.is_available("p1", NOW));
}

#[test]
fn test_sticky_map_basic() {
    let mut sticky = ProfileStickyMap::new();
    assert!(sticky.get("prov1", "sess1").is_none());

    sticky.set("prov1", "sess1", "profile-a");
    assert_eq!(sticky.get("prov1", "sess1").as_deref(), Some("profile-a"));
    assert!(sticky.get("prov1", "sess2").is_none());
}

#[test]
fn test_sticky_map_lru_eviction_preserves_recent() {
    // Hit the cap + 1 with distinct sessions; oldest is evicted but
    // newer ones must survive.
    let mut sticky = ProfileStickyMap::new();
    for i in 0..STICKY_MAX_SESSIONS_PER_PROVIDER {
        sticky.set("prov1", &format!("sess{}", i), "profile-a");
    }
    // One past the cap triggers eviction of sess0.
    sticky.set(
        "prov1",
        &format!("sess{}", STICKY_MAX_SESSIONS_PER_PROVIDER),
        "profile-a",
    );
    assert!(
        sticky.get("prov1", "sess0").is_none(),
        "oldest entry should have been evicted"
    );
    // Recently used entries must still be present.
    assert_eq!(
        sticky.get("prov1", "sess1").as_deref(),
        Some("profile-a"),
        "recent entries must not be wiped by cap enforcement"
    );
    assert_eq!(
        sticky
            .get(
                "prov1",
                &format!("sess{}", STICKY_MAX_SESSIONS_PER_PROVIDER)
            )
            .as_deref(),
        Some("profile-a"),
        "newest entry must be present"
    );
}

#[test]
fn test_sticky_map_lru_promotes_on_get() {
    let mut sticky = ProfileStickyMap::new();
    // Fill up to the cap so the next insert triggers exactly one
    // eviction. Seed the two oldest entries first so we can observe
    // the promotion effect before fillers arrive.
    sticky.set("prov1", "sess-a", "profile-a");
    sticky.set("prov1", "sess-b", "profile-b");
    for i in 0..(STICKY_MAX_SESSIONS_PER_PROVIDER - 2) {
        sticky.set("prov1", &format!("filler{}", i), "profile-a");
    }
    // Promote sess-a so sess-b is now the oldest.
    assert_eq!(sticky.get("prov1", "sess-a").as_deref(), Some("profile-a"));
    // Next insert overflows the cap by one → pop_front evicts sess-b.
    sticky.set("prov1", "trigger", "profile-a");
    assert_eq!(
        sticky.get("prov1", "sess-a").as_deref(),
        Some("profile-a"),
        "promoted entry must survive eviction"
    );
    assert!(
        sticky.get("prov1", "sess-b").is_none(),
        "untouched older entry should have been evicted"
    );
}

#[test]
fn test_select_profile_basic() {
    let mut cfg = ProviderConfig { id: "test".into(), auth_profiles: Vec::new() };
    cfg.auth_profiles = vec![
        AuthProfile::new("profile-a".into(), "A".into(), "key-a".into(), None),
        AuthProfile::new("profile-b".into(), "B".into(), "key-b".into(), None),
    ];

    let selected = select_profile(
        &cfg,
        "sess1",
        &mut ProfileStickyMap::new(),
        &ProfileCooldownTracker::new(),
        NOW,
    );
    assert!(selected.is_some());
    assert_eq!(selected.unwrap().api_key, "key-a");
}

#[test]
fn test_next_profile_excludes_tried() {
    let mut cfg = ProviderConfig { id: "test".into(), auth_profiles: Vec::new() };
    let p1 = AuthProfile::new("profile-a".into(), "A".into(), "key-a".into(), None);
    let p1_id = p1.id.clone();
    let p2 = AuthProfile::new("profile-b".into(), "B".into(), "key-b".into(), None);
    cfg.auth_profiles = vec![p1, p2];

    let next = next_profile(&cfg, &vec![p1_id], &ProfileCooldownTracker::new(), NOW);
    assert!(next.is_some());
    assert_eq!(next.unwrap().api_key, "key-b");
}

#[test]
fn test_next_profile_all_tried() {
    let mut cfg = ProviderConfig { id: "test".into(), auth_profiles: Vec::new() };
    let p1 = AuthProfile::new("profile-a".into(), "A".into(), "key-a".into(), None);
    let p1_id = p1.id.clone();
    let p2 = AuthProfile::new("profile-b".into(), "B".into(), "key-b".into(), None);
    let p2_id = p2.id.clone();
    cfg.auth_profiles = vec![p1, p2];

    let next = next_profile(&cfg, &vec![p1_id, p2_id], &ProfileCooldownTracker::new(), NOW);
    assert!(next.is_none());
}

// ── Details ──────────────────────────────────────────────────────

#[test]
fn structured_errors_keep_their_fields() {
    let err = LlmError::from_http_status(429, "slow: down").with_code("x").with_retry_after(7);
    let line = err.clone().to_anyhow();
    assert_eq!(line, "LLM_ERR:429:x:7:slow: down");
    assert_eq!(err.status, Some(429));
    assert_eq!(err.code.as_deref(), Some("x"));
    assert_eq!(err.message, "slow: down");
    assert_eq!(err.retry_after_secs, Some(7));
    let classified = classify_error_full(&line);
    assert_eq!(classified.reason, FailoverReason::RateLimit);
    assert_eq!(classified.retry_after_secs, Some(7));
}

#[test]
fn code_with_a_colon_shifts_the_fields() {
    let line = LlmError::new("m").with_code("a:b").with_retry_after(5).to_anyhow();
    assert_eq!(line, "LLM_ERR:-:a:b:5:m");
    assert_eq!(classify_error_full(&line).retry_after_secs, None);
}

#[test]
fn retry_after_takes_whole_seconds_only() {
    assert_eq!(LlmError::parse_retry_after("+5"), Some(5));
    assert_eq!(LlmError::parse_retry_after("-5"), None);
    assert_eq!(LlmError::parse_retry_after("1.5"), None);
    assert_eq!(LlmError::parse_retry_after("18446744073709551615"), Some(u64::MAX));
    assert_eq!(LlmError::parse_retry_after("18446744073709551616"), None);
}

#[test]
fn classification_ignores_case_beyond_ascii() {
    assert_eq!(classify_error("ÜBERLAST: SERVER OVERLOADED"), FailoverReason::Overloaded);
}

#[test]
fn retry_delays_are_exact_for_a_given_random_number() {
    // A tenth of 1000 is 100: the jitter runs over -100..=100.
    assert_eq!(retry_delay_ms(0, 1000, 10_000, 0), 900);
    assert_eq!(retry_delay_ms(0, 1000, 10_000, 100), 1000);
    assert_eq!(retry_delay_ms(0, 1000, 10_000, 200), 1100);
    assert_eq!(retry_delay_ms(0, 1000, 10_000, 201), 900);
    assert_eq!(retry_delay_ms(3, 1000, 10_000, 800), 8000);
    assert_eq!(retry_delay_ms(4, 1000, 10_000, 1000), 10_000);
    assert_eq!(retry_delay_ms(2, 2, 9, 77), 8);
    assert_eq!(retry_delay_ms(64, 0, 10_000, 5), 0);
    assert_eq!(retry_delay_ms(u32::MAX, 1, u64::MAX, u64::MAX / 10), u64::MAX);
}

#[test]
fn random_numbers_mix_time_and_count() {
    assert_eq!(rand_simple(5, 0), 5);
    assert_eq!(rand_simple(0, 1), 6364136223846793005);
    assert_eq!(rand_simple(0, 2), 6364136223846793005u64.wrapping_mul(2));
    assert_eq!(rand_simple(7, 3), 7 ^ 6364136223846793005u64.wrapping_mul(3));
}

#[test]
fn cooldown_ends_on_time() {
    let mut tracker = ProfileCooldownTracker::new();
    tracker.mark_cooldown("p1", &FailoverReason::RateLimit, NOW);
    tracker.mark_cooldown("p2", &FailoverReason::Billing, NOW);
    assert!(!tracker.is_available("p1", NOW + 60 * NANOS_PER_SEC - 1));
    assert!(tracker.is_available("p1", NOW + 60 * NANOS_PER_SEC));
    assert!(!tracker.is_available("p2", NOW + 599 * NANOS_PER_SEC));
    assert!(tracker.is_available("p2", NOW + 600 * NANOS_PER_SEC));
}

#[test]
fn later_failure_takes_the_place_of_an_earlier_one() {
    let mut tracker = ProfileCooldownTracker::new();
    tracker.mark_cooldown("p1", &FailoverReason::Billing, NOW);
    tracker.mark_cooldown("p1", &FailoverReason::Overloaded, NOW);
    assert!(tracker.is_available("p1", NOW + 30 * NANOS_PER_SEC));
}

#[test]
fn pruning_keeps_who_rests() {
    let mut tracker = ProfileCooldownTracker::new();
    for i in 0..(COOLDOWN_PRUNE_ABOVE + 5) {
        tracker.mark_cooldown(&format!("p{}", i), &FailoverReason::Auth, NOW);
    }
    tracker.mark_cooldown("short", &FailoverReason::Overloaded, NOW);
    let later = NOW + 31 * NANOS_PER_SEC;
    tracker.mark_cooldown("new", &FailoverReason::RateLimit, later);
    assert!(tracker.is_available("short", later));
    assert!(!tracker.is_available("p0", later));
    assert!(!tracker.is_available("new", later));
}

#[test]
fn available_profiles_keep_their_order() {
    let mut tracker = ProfileCooldownTracker::new();
    let profiles = vec![
        AuthProfile::new("a".into(), "A".into(), "key-a".into(), None),
        AuthProfile::new("b".into(), "B".into(), "key-b".into(), Some("https://b".into())),
        AuthProfile::new("c".into(), "C".into(), "key-c".into(), None),
    ];
    tracker.mark_cooldown("b", &FailoverReason::Auth, NOW);
    let usable = tracker.filter_available(&profiles, NOW);
    assert_eq!(usable.len(), 2);
    assert_eq!(usable[0].id, "a");
    assert_eq!(usable[1].id, "c");
    tracker.clear("b");
    let usable = tracker.filter_available(&profiles, NOW);
    assert_eq!(usable.len(), 3);
    assert_eq!(usable[1].base_url.as_deref(), Some("https://b"));
}

#[test]
fn providers_remember_apart() {
    let mut sticky = ProfileStickyMap::new();
    sticky.set("prov1", "sess", "profile-a");
    sticky.set("prov2", "sess", "profile-b");
    assert_eq!(sticky.get("prov1", "sess").as_deref(), Some("profile-a"));
    assert_eq!(sticky.get("prov2", "sess").as_deref(), Some("profile-b"));
    sticky.set("prov1", "sess", "profile-c");
    assert_eq!(sticky.get("prov1", "sess").as_deref(), Some("profile-c"));
    assert_eq!(sticky.get("prov2", "sess").as_deref(), Some("profile-b"));
}

#[test]
fn selection_keeps_to_the_session_profile() {
    let cfg = ProviderConfig {
        id: "prov".into(),
        auth_profiles: vec![
            AuthProfile::new("a".into(), "A".into(), "key-a".into(), None),
            AuthProfile::new("b".into(), "B".into(), "key-b".into(), None),
        ],
    };
    let mut sticky = ProfileStickyMap::new();
    let mut cooldowns = ProfileCooldownTracker::new();
    sticky.set("prov", "sess", "b");
    let chosen = select_profile(&cfg, "sess", &mut sticky, &cooldowns, NOW);
    assert_eq!(chosen.unwrap().id, "b");
    cooldowns.mark_cooldown("b", &FailoverReason::Auth, NOW);
    let chosen = select_profile(&cfg, "sess", &mut sticky, &cooldowns, NOW);
    assert_eq!(chosen.unwrap().id, "a");
    cooldowns.mark_cooldown("a", &FailoverReason::Auth, NOW);
    assert!(select_profile(&cfg, "sess", &mut sticky, &cooldowns, NOW).is_none());
    assert!(next_profile(&cfg, &Vec::new(), &cooldowns, NOW).is_none());
    let later = NOW + 300 * NANOS_PER_SEC;
    let chosen = select_profile(&cfg, "sess", &mut sticky, &cooldowns, later);
    assert_eq!(chosen.unwrap().id, "b");
}

#[test]
fn disabled_profiles_are_not_selected() {
    let mut off = AuthProfile::new("a".into(), "A".into(), "key-a".into(), None);
    off.enabled = false;
    let on = AuthProfile::new("b".into(), "B".into(), "key-b".into(), None);
    let cfg = ProviderConfig { id: "prov".into(), auth_profiles: vec![off, on] };
    let mut sticky = ProfileStickyMap::new();
    sticky.set("prov", "sess", "a");
    let cooldowns = ProfileCooldownTracker::new();
    let chosen = select_profile(&cfg, "sess", &mut sticky, &cooldowns, NOW);
    assert_eq!(chosen.unwrap().id, "b");
    assert!(next_profile(&cfg, &vec!["b".to_string()], &cooldowns, NOW).is_none());
}

#[test]
fn case_does_not_matter() {
    for message in ["Quota Exceeded", "QUOTA EXCEEDED", "quota exceeded"] {
        assert_eq!(classify_error(message), FailoverReason::Billing);
    }
}

#[test]
fn context_overflow_comes_first() {
    assert_eq!(
        classify_error("429 rate limit: request too large, timeout, 401, quota, 404"),
        FailoverReason::ContextOverflow
    );
    assert_eq!(classify_error("max_tokens exceeds it"), FailoverReason::ContextOverflow);
    assert_eq!(classify_error("max_tokens is fine"), FailoverReason::Unknown);
}

#[test]
fn more_text_never_lowers_the_rank() {
    let messages = [
        ("context window", FailoverReason::ContextOverflow),
        ("429", FailoverReason::RateLimit),
        ("503", FailoverReason::Overloaded),
        ("timeout", FailoverReason::Timeout),
        ("401", FailoverReason::Auth),
        ("402", FailoverReason::Billing),
        ("404", FailoverReason::ModelNotFound),
        ("hm", FailoverReason::Unknown),
    ];
    for (i, (a, first)) in messages.iter().enumerate() {
        for (b, _) in messages.iter().skip(i) {
            assert_eq!(classify_error(&format!("{} {}", a, b)), *first);
            assert_eq!(classify_error(&format!("{} {}", b, a)), *first);
        }
    }
}

#[test]
fn failure_without_a_cooldown_keeps_the_one_there_is() {
    let mut tracker = ProfileCooldownTracker::new();
    tracker.mark_cooldown("p1", &FailoverReason::RateLimit, NOW);
    tracker.mark_cooldown("p1", &FailoverReason::Timeout, NOW + NANOS_PER_SEC);
    assert!(!tracker.is_available("p1", NOW + 60 * NANOS_PER_SEC - 1));
    assert!(tracker.is_available("p1", NOW + 60 * NANOS_PER_SEC));
}

#[test]
fn setting_a_remembered_session_forgets_nothing() {
    let mut sticky = ProfileStickyMap::new();
    for i in 0..STICKY_MAX_SESSIONS_PER_PROVIDER {
        sticky.set("prov", &format!("sess{}", i), "a");
    }
    sticky.set("prov", "sess7", "b");
    for i in 0..STICKY_MAX_SESSIONS_PER_PROVIDER {
        let expected = if i == 7 { "b" } else { "a" };
        assert_eq!(sticky.get("prov", &format!("sess{}", i)).as_deref(), Some(expected));
    }
}
