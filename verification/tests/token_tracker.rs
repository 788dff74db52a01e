use doubao_translator::TokenTracker;
use doubao_translator::TranslationError;

const DAY: u32 = 738000;

#[test]
fn test_token_tracker() {
    let mut tracker = TokenTracker::new(1000, DAY);

    // Should be able to use tokens
    assert!(tracker.can_use_on(500, DAY));
    tracker.use_tokens_on(500, DAY).unwrap();

    // Should still have tokens remaining
    assert_eq!(tracker.remaining(), 500);

    // Should not be able to use more than available
    assert!(!tracker.can_use_on(600, DAY));

    // Should be able to use remaining tokens
    assert!(tracker.can_use_on(500, DAY));
    tracker.use_tokens_on(500, DAY).unwrap();

    // Should have no tokens left
    assert_eq!(tracker.remaining(), 0);
}

#[test]
fn test_low_quota_detection() {
    let mut tracker = TokenTracker::new(1000, DAY);
    tracker.use_tokens_on(950, DAY).unwrap();
    assert!(tracker.is_low());

    tracker.reset_on(DAY);
    assert!(!tracker.is_low());
}

#[test]
fn quota_never_overdrawn() {
    // budget of 10, five draws of 3: exactly three succeed, 9 of 10 consumed
    let mut tracker = TokenTracker::new(10, DAY);
    let mut granted = 0;
    for _ in 0..5 {
        match tracker.use_tokens_on(3, DAY) {
            Ok(()) => granted += 1,
            Err(TranslationError::QuotaExceededError) => {}
            Err(e) => panic!("unexpected error: {:?}", e),
        }
    }
    assert_eq!(granted, 3);
    let stats = tracker.get_stats();
    assert_eq!(stats.used_today, 9);
    assert!(stats.used_today <= stats.daily_limit);
    assert_eq!(tracker.remaining(), 1);
}

#[test]
fn quota_exact_failure_leaves_state() {
    let mut tracker = TokenTracker::new(100, DAY);
    tracker.use_tokens_on(90, DAY).unwrap();
    let r = tracker.use_tokens_on(20, DAY);
    assert!(matches!(r, Err(TranslationError::QuotaExceededError)));
    assert_eq!(tracker.get_stats().used_today, 90);
}

#[test]
fn day_rollover_resets_before_evaluating() {
    let mut tracker = TokenTracker::new(1000, DAY);
    tracker.use_tokens_on(900, DAY).unwrap();
    assert!(!tracker.can_use_on(200, DAY));

    // the next touch on a later calendar day sees a zeroed counter
    assert!(tracker.can_use_on(200, DAY + 1));
    let stats = tracker.get_stats();
    assert_eq!(stats.used_today, 0);
    assert_eq!(stats.last_reset_day, DAY + 1);

    tracker.use_tokens_on(1000, DAY + 1).unwrap();
    assert_eq!(tracker.remaining(), 0);
}
