use auto_doc::errors::LlmError;
use auto_doc::retry::{next_interval, RetryConfig, RetryDecision, RetryState, run_retry_schedule};

#[test]
fn rate_limited_operation_gets_three_attempts() {
    let cfg = RetryConfig {
        max_retries: 2,
        ..RetryConfig::default()
    };
    let outcomes: Vec<Option<LlmError>> = (0..5)
        .map(|_| Some(LlmError::RateLimit("429".to_string())))
        .collect();
    let report = run_retry_schedule(&cfg, &outcomes);
    assert_eq!(report.attempts, 3);
    assert!(!report.succeeded);
    assert!(matches!(outcomes[report.attempts - 1], Some(LlmError::RateLimit(_))));
}

#[test]
fn terminal_error_gets_one_attempt() {
    let cfg = RetryConfig::default();
    let outcomes: Vec<Option<LlmError>> = vec![
        Some(LlmError::Chat("401 Unauthorized".to_string())),
        None,
    ];
    let report = run_retry_schedule(&cfg, &outcomes);
    assert_eq!(report.attempts, 1);
    assert!(!report.succeeded);
}

#[test]
fn success_after_transient_failures() {
    let cfg = RetryConfig::default();
    let outcomes: Vec<Option<LlmError>> = vec![
        Some(LlmError::ServerError("503".to_string())),
        Some(LlmError::RateLimit("429".to_string())),
        None,
    ];
    let report = run_retry_schedule(&cfg, &outcomes);
    assert_eq!(report.attempts, 3);
    assert!(report.succeeded);
}

#[test]
fn default_configuration_values() {
    let cfg = RetryConfig::default();
    assert_eq!(cfg.max_retries, 5);
    assert_eq!(cfg.initial_interval, 1000);
    assert_eq!(cfg.max_interval, 60000);
    assert_eq!(cfg.multiplier, 200);
    assert_eq!(cfg.max_elapsed_time, 300000);
}

#[test]
fn intervals_double_and_cap() {
    let cfg = RetryConfig::default();
    assert_eq!(next_interval(&cfg, 1000), 2000);
    assert_eq!(next_interval(&cfg, 2000), 4000);
    assert_eq!(next_interval(&cfg, 40000), 60000);
}

#[test]
fn state_walks_the_backoff_schedule() {
    let cfg = RetryConfig::default();
    let mut state = RetryState::new(&cfg);
    assert_eq!(state.current_interval, 1000);
    let d1 = state.on_error(&cfg, true, 0);
    assert_eq!(d1, RetryDecision::RetryAfter(1000));
    assert_eq!(state.current_interval, 2000);
    let d2 = state.on_error(&cfg, true, 1000);
    assert_eq!(d2, RetryDecision::RetryAfter(2000));
    let d3 = state.on_error(&cfg, false, 3000);
    assert_eq!(d3, RetryDecision::GiveUp);
}

#[test]
fn exhausted_time_budget_gives_up() {
    let cfg = RetryConfig::default();
    let mut state = RetryState::new(&cfg);
    let d = state.on_error(&cfg, true, cfg.max_elapsed_time + 1);
    assert_eq!(d, RetryDecision::GiveUp);
}
