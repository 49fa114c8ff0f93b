use openai_gpt_broker::clamped_token_limit;
use openai_gpt_broker::moderation::{Moderation, ModerationResult};
use openai_gpt_broker::service::{
    load_rate_limiter, RateLimiter, ADA_EMBEDDING_PRICE_PER_1K_TOKEN, DAVINCI_PRICE_PER_1K_TOKEN,
    DEFAULT_MAX_COSTS, DEFAULT_WINDOW_MS, GPT_3_5_TURBO_PRICE_PER_1K_TOKEN,
};
use openai_gpt_broker::MAX_TOKENS;

#[test]
fn debit_subtracts_exact_cost() {
    // 5 tokens at the text completion rate: 5 * 20_000 nano-dollars
    let mut limiter = RateLimiter::new(25_000_000_000, 1000, 0);
    limiter.update_rate_limit(5, DAVINCI_PRICE_PER_1K_TOKEN);
    assert_eq!(limiter.remaining_budget, 25_000_000_000 - 100_000);
    limiter.update_rate_limit(1000, GPT_3_5_TURBO_PRICE_PER_1K_TOKEN);
    assert_eq!(limiter.remaining_budget, 25_000_000_000 - 100_000 - 2_000_000);
    limiter.update_rate_limit(0, ADA_EMBEDDING_PRICE_PER_1K_TOKEN);
    assert_eq!(limiter.remaining_budget, 25_000_000_000 - 100_000 - 2_000_000);
}

#[test]
fn budget_may_go_negative_without_clamping() {
    let mut limiter = RateLimiter::new(100, 1000, 0);
    limiter.update_rate_limit(3, 50);
    assert_eq!(limiter.remaining_budget, -50);
    assert!(!limiter.rate_limit(500));
}

#[test]
fn exhausted_budget_refuses_until_window_rolls_over() {
    // ceiling C = 1000 nano-dollars, window D = 1000 ms
    let mut limiter = RateLimiter::new(1000, 1000, 0);
    assert!(limiter.rate_limit(1));
    // debits totaling >= C within the window
    limiter.update_rate_limit(6, 100);
    limiter.update_rate_limit(4, 100);
    assert_eq!(limiter.remaining_budget, 0);
    // refused while now <= window_started_at + D
    assert!(!limiter.rate_limit(500));
    assert!(!limiter.rate_limit(1000));
    // granted again once now > window_started_at + D, with the budget back at C
    assert!(limiter.rate_limit(1001));
    assert_eq!(limiter.remaining_budget, 1000);
    assert_eq!(limiter.last_check, 1001);
}

#[test]
fn reset_only_after_full_window() {
    let mut limiter = RateLimiter::new(500, 100, 50);
    limiter.update_rate_limit(5, 100);
    assert_eq!(limiter.remaining_budget, 0);
    // the window started at 50, so 150 is still inside it
    assert!(!limiter.rate_limit(150));
    assert_eq!(limiter.last_check, 50);
    assert!(limiter.rate_limit(151));
    assert_eq!(limiter.remaining_budget, 500);
}

#[test]
fn zero_ceiling_never_grants() {
    let mut limiter = RateLimiter::new(0, 1000, 0);
    assert!(!limiter.rate_limit(1));
    assert!(!limiter.rate_limit(5000));
    assert_eq!(limiter.remaining_budget, 0);
}

#[test]
fn load_rate_limiter_uses_default_configuration() {
    let limiter = load_rate_limiter(7);
    assert_eq!(limiter.max_costs, DEFAULT_MAX_COSTS);
    assert_eq!(limiter.duration_ms, DEFAULT_WINDOW_MS);
    assert_eq!(limiter.remaining_budget, 25_000_000_000);
    assert_eq!(limiter.last_check, 7);
}

#[test]
fn token_limit_is_clamped_to_the_ceiling() {
    assert_eq!(clamped_token_limit(10), 10);
    assert_eq!(clamped_token_limit(4000), 4000);
    assert_eq!(clamped_token_limit(4001), MAX_TOKENS);
    assert_eq!(clamped_token_limit(u16::MAX), 4000);
}

#[test]
fn moderation_flag_is_any_flagged_result() {
    let clean = Moderation {
        id: "m1".to_string(),
        model: "screen".to_string(),
        results: vec![ModerationResult { flagged: false }, ModerationResult { flagged: false }],
    };
    assert!(!clean.is_flagged());
    let dirty = Moderation {
        id: "m2".to_string(),
        model: "screen".to_string(),
        results: vec![ModerationResult { flagged: false }, ModerationResult { flagged: true }],
    };
    assert!(dirty.is_flagged());
    let empty = Moderation { id: "m3".to_string(), model: "screen".to_string(), results: vec![] };
    assert!(!empty.is_flagged());
}
