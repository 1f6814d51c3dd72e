use reinject::throttle::{can_decide, comparable, decide_with_state};
use reinject::{
    read_consumer_state, record, reset_state, should_reinject, update_monitor,
    write_consumer_state,
    write_monitor_status, InjectReason, MonitorStatus, StateDir, ThrottleConfig, ThrottleDecision,
};

fn default_config() -> ThrottleConfig {
    ThrottleConfig::default()
}

fn status(nt: u64, th: u64) -> MonitorStatus {
    MonitorStatus {
        non_thinking_bytes: nt,
        thinking_bytes: th,
        ..Default::default()
    }
}

fn status_with_tokens(nt: u64, th: u64, tokens: u64) -> MonitorStatus {
    MonitorStatus {
        non_thinking_bytes: nt,
        thinking_bytes: th,
        usage_tokens: Some(tokens),
    }
}

#[test]
fn no_monitor_no_consumer_is_first_run() {
    let mut dir = StateDir::new();
    let result = should_reinject("hook-a", &default_config(), &mut dir);
    assert_eq!(result, ThrottleDecision::Inject(InjectReason::FirstRun));
}

#[test]
fn no_monitor_with_consumer_skips() {
    let mut dir = StateDir::new();
    write_consumer_state(&mut dir, "hook-a", &status(0, 0));
    let result = should_reinject("hook-a", &default_config(), &mut dir);
    assert_eq!(result, ThrottleDecision::Skip);
}

#[test]
fn monitor_exists_no_consumer_is_first_run() {
    let mut dir = StateDir::new();
    write_monitor_status(&mut dir, &status(50_000, 10_000));
    let result = should_reinject("hook-a", &default_config(), &mut dir);
    assert_eq!(result, ThrottleDecision::Inject(InjectReason::FirstRun));
}

#[test]
fn compaction_detected_when_monitor_nt_less_than_saved_nt() {
    let mut dir = StateDir::new();
    write_monitor_status(&mut dir, &status(10_000, 0));
    write_consumer_state(&mut dir, "hook-a", &status(50_000, 0));
    let result = should_reinject("hook-a", &default_config(), &mut dir);
    assert_eq!(
        result,
        ThrottleDecision::Inject(InjectReason::CompactionDetected)
    );
}

#[test]
fn growth_exceeded_threshold() {
    let mut dir = StateDir::new();
    let config = default_config(); // growth_bytes = 105_000
    write_monitor_status(&mut dir, &status(200_000, 0));
    write_consumer_state(&mut dir, "hook-a", &status(80_000, 0));
    // delta = 120_000 > 105_000
    let result = should_reinject("hook-a", &config, &mut dir);
    assert_eq!(
        result,
        ThrottleDecision::Inject(InjectReason::GrowthExceeded {
            delta: 120_000,
            threshold: 105_000
        })
    );
}

#[test]
fn growth_exactly_at_threshold_does_not_inject() {
    let mut dir = StateDir::new();
    let config = default_config(); // growth_bytes = 105_000
    write_monitor_status(&mut dir, &status(105_000, 0));
    write_consumer_state(&mut dir, "hook-a", &status(0, 0));
    // delta = 105_000, not > 105_000
    let result = should_reinject("hook-a", &config, &mut dir);
    // also check dead zone — saved_total = 0, position_pct = 0, not in zone
    assert_eq!(result, ThrottleDecision::Skip);
}

#[test]
fn dead_zone_middle_position_injects() {
    let mut dir = StateDir::new();
    // Large context so min_context_bytes is satisfied
    // Saved position is at 50% — between 15% and 85%
    write_monitor_status(&mut dir, &status(100_000, 100_000));
    // saved_total = 100_000; total = 200_000 → position_pct = 50
    write_consumer_state(&mut dir, "hook-a", &status(100_000, 0));
    // delta_nt = 0 (no growth) → won't hit growth branch
    let result = should_reinject("hook-a", &default_config(), &mut dir);
    assert_eq!(
        result,
        ThrottleDecision::Inject(InjectReason::DeadZone { position_pct: 50 })
    );
}

#[test]
fn position_in_primacy_zone_skips() {
    let mut dir = StateDir::new();
    // saved_total = 5_000; total = 200_000 → position_pct = 2 (< 15)
    write_monitor_status(&mut dir, &status(100_000, 100_000));
    write_consumer_state(&mut dir, "hook-a", &status(5_000, 0));
    let result = should_reinject("hook-a", &default_config(), &mut dir);
    assert_eq!(result, ThrottleDecision::Skip);
}

#[test]
fn position_in_recency_zone_skips() {
    let mut dir = StateDir::new();
    // monitor: nt=200_000, th=0. saved: nt=180_000, th=0.
    // delta_nt = 20_000 (below 105_000 threshold, no growth trigger).
    // saved_total = 180_000; total = 200_000 → position_pct = 90 (> 85) → recency zone → skip.
    write_monitor_status(&mut dir, &status(200_000, 0));
    write_consumer_state(&mut dir, "hook-a", &status(180_000, 0));
    let result = should_reinject("hook-a", &default_config(), &mut dir);
    assert_eq!(result, ThrottleDecision::Skip);
}

#[test]
fn small_context_skips_dead_zone_check() {
    let mut dir = StateDir::new();
    // total = 10_000 < min_context_bytes (21_000)
    write_monitor_status(&mut dir, &status(5_000, 5_000));
    write_consumer_state(&mut dir, "hook-a", &status(1_000, 0));
    // position would be 10%, primacy zone, but check doesn't run anyway
    let result = should_reinject("hook-a", &default_config(), &mut dir);
    assert_eq!(result, ThrottleDecision::Skip);
}

#[test]
fn no_conditions_met_skips() {
    let mut dir = StateDir::new();
    // delta = 1_000 (well below 105_000), position = 0% (primacy zone)
    write_monitor_status(&mut dir, &status(50_000, 0));
    write_consumer_state(&mut dir, "hook-a", &status(49_000, 0));
    let result = should_reinject("hook-a", &default_config(), &mut dir);
    assert_eq!(result, ThrottleDecision::Skip);
}

#[test]
fn usage_compaction_detected_when_tokens_drop() {
    // The cross-/clear scenario: byte counts kept growing (file is
    // append-only) but usage_tokens went from 758_000 down to 30_000
    // because the live window reset.
    let mut dir = StateDir::new();
    write_monitor_status(&mut dir, &status_with_tokens(7_000_000, 100_000, 30_000));
    write_consumer_state(&mut dir,
        "hook-a",
        &status_with_tokens(6_000_000, 50_000, 758_000),
    );
    let result = should_reinject("hook-a", &default_config(), &mut dir);
    assert_eq!(
        result,
        ThrottleDecision::Inject(InjectReason::CompactionDetected),
        "tokens dropped — must detect compaction even though bytes grew",
    );
}

#[test]
fn usage_growth_threshold_uses_tokens_not_bytes() {
    // Default growth_bytes = 105_000 → threshold_tokens = 35_000.
    let mut dir = StateDir::new();
    write_monitor_status(&mut dir, &status_with_tokens(60_000, 0, 100_000));
    write_consumer_state(&mut dir, "hook-a", &status_with_tokens(60_000, 0, 50_000));
    let result = should_reinject("hook-a", &default_config(), &mut dir);
    assert_eq!(
        result,
        ThrottleDecision::Inject(InjectReason::GrowthExceeded {
            delta: 50_000,
            threshold: 35_000,
        })
    );
}

#[test]
fn usage_dead_zone_position_in_token_space() {
    // Default min_context_bytes / 3 = 7_000 token floor.
    // monitor=20_000 tokens, saved=10_000 tokens → 50% position → dead zone.
    let mut dir = StateDir::new();
    write_monitor_status(&mut dir, &status_with_tokens(0, 0, 20_000));
    write_consumer_state(&mut dir, "hook-a", &status_with_tokens(0, 0, 10_000));
    let result = should_reinject("hook-a", &default_config(), &mut dir);
    assert_eq!(
        result,
        ThrottleDecision::Inject(InjectReason::DeadZone { position_pct: 50 })
    );
}

#[test]
fn falls_back_to_bytes_when_either_side_missing_usage() {
    // Monitor has tokens, consumer doesn't. Must fall back to byte logic.
    let mut dir = StateDir::new();
    write_monitor_status(&mut dir, &status_with_tokens(200_000, 0, 60_000));
    write_consumer_state(&mut dir, "hook-a", &status(80_000, 0));
    // Byte delta = 120_000 > 105_000 → byte-based growth fire.
    let result = should_reinject("hook-a", &default_config(), &mut dir);
    assert_eq!(
        result,
        ThrottleDecision::Inject(InjectReason::GrowthExceeded {
            delta: 120_000,
            threshold: 105_000,
        })
    );
}

#[test]
fn default_thresholds() {
    assert_eq!(
        default_config(),
        ThrottleConfig {
            growth_bytes: 105_000,
            recency_threshold: 85,
            primacy_threshold: 15,
            min_context_bytes: 21_000,
        }
    );
}

#[test]
fn reset_leads_to_injection() {
    let mut dir = StateDir::new();
    write_monitor_status(&mut dir, &status(50_000, 0));
    write_consumer_state(&mut dir, "hook-a", &status(50_000, 0));
    assert_eq!(
        should_reinject("hook-a", &default_config(), &mut dir),
        ThrottleDecision::Skip
    );
    reset_state(&mut dir);
    assert_eq!(
        should_reinject("hook-a", &default_config(), &mut dir),
        ThrottleDecision::Inject(InjectReason::FirstRun)
    );
}

#[test]
fn first_run_and_compaction_are_reported_once() {
    let mut dir = StateDir::new();
    should_reinject("hook-a", &default_config(), &mut dir);
    assert_eq!(read_consumer_state(&dir, "hook-a"), Some(status(0, 0)));
    assert_eq!(
        should_reinject("hook-a", &default_config(), &mut dir),
        ThrottleDecision::Skip
    );
    write_monitor_status(&mut dir, &status(60_000, 0));
    should_reinject("hook-b", &default_config(), &mut dir);
    assert_eq!(read_consumer_state(&dir, "hook-b"), Some(status(60_000, 0)));
    write_monitor_status(&mut dir, &status(30_000, 1));
    assert_eq!(
        should_reinject("hook-b", &default_config(), &mut dir),
        ThrottleDecision::Inject(InjectReason::CompactionDetected)
    );
    assert_eq!(read_consumer_state(&dir, "hook-b"), Some(status(30_000, 1)));
    assert_eq!(
        should_reinject("hook-b", &default_config(), &mut dir),
        ThrottleDecision::Skip
    );
}

#[test]
fn growth_is_reported_until_recorded() {
    let mut dir = StateDir::new();
    let now = status(200_000, 0);
    write_monitor_status(&mut dir, &now);
    write_consumer_state(&mut dir, "hook-a", &status(80_000, 0));
    let grown = ThrottleDecision::Inject(InjectReason::GrowthExceeded {
        delta: 120_000,
        threshold: 105_000,
    });
    assert_eq!(should_reinject("hook-a", &default_config(), &mut dir), grown);
    assert_eq!(should_reinject("hook-a", &default_config(), &mut dir), grown);
    assert_eq!(read_consumer_state(&dir, "hook-a"), Some(status(80_000, 0)));
    record(&mut dir, "hook-a", &now);
    assert_eq!(
        should_reinject("hook-a", &default_config(), &mut dir),
        ThrottleDecision::Skip
    );
}

#[test]
fn hooks_are_independent() {
    let mut dir = StateDir::new();
    write_monitor_status(&mut dir, &status(60_000, 0));
    write_consumer_state(&mut dir, "hook-b", &status(60_000, 0));
    should_reinject("hook-a", &default_config(), &mut dir);
    assert_eq!(
        should_reinject("hook-b", &default_config(), &mut dir),
        ThrottleDecision::Skip
    );
}

#[test]
fn dead_zone_ends_are_outside() {
    let config = default_config();
    let mut dir = StateDir::new();
    let monitor = status(100_000, 100_000);
    let mut decide =
        |saved: &MonitorStatus| decide_with_state("h", &config, &mut dir, &monitor, saved);
    assert_eq!(decide(&status(30_000, 0)), ThrottleDecision::Skip);
    assert_eq!(
        decide(&status(32_000, 0)),
        ThrottleDecision::Inject(InjectReason::DeadZone { position_pct: 16 })
    );
    assert_eq!(
        decide(&status(100_000, 69_999)),
        ThrottleDecision::Inject(InjectReason::DeadZone { position_pct: 84 })
    );
    assert_eq!(decide(&status(100_000, 70_000)), ThrottleDecision::Skip);
}

#[test]
fn context_at_the_floor_has_no_dead_zone() {
    let config = default_config();
    let mut dir = StateDir::new();
    let saved = status(10_000, 0);
    assert_eq!(
        decide_with_state("h", &config, &mut dir, &status(21_000, 0), &saved),
        ThrottleDecision::Skip
    );
    assert_eq!(
        decide_with_state("h", &config, &mut dir, &status(21_001, 0), &saved),
        ThrottleDecision::Inject(InjectReason::DeadZone { position_pct: 47 })
    );
}

#[test]
fn tokens_outrank_bytes() {
    let config = default_config();
    let mut dir = StateDir::new();
    assert_eq!(
        decide_with_state(
            "h",
            &config,
            &mut dir,
            &status_with_tokens(9_000_000, 0, 1_000),
            &status_with_tokens(0, 0, 1_000)
        ),
        ThrottleDecision::Skip
    );
}

#[test]
fn thinking_does_not_count_as_growth() {
    let config = default_config();
    let mut dir = StateDir::new();
    assert_eq!(
        decide_with_state("h", &config, &mut dir, &status(1_000, 900_000), &status(1_000, 0)),
        ThrottleDecision::Skip
    );
}

#[test]
fn stricter_tier_injects_as_often() {
    let high = ThrottleConfig {
        growth_bytes: 52_000,
        ..default_config()
    };
    let mut dir = StateDir::new();
    let monitor = status(60_000, 0);
    let saved = status(0, 0);
    assert_eq!(
        decide_with_state("h", &default_config(), &mut dir, &monitor, &saved),
        ThrottleDecision::Skip
    );
    assert_eq!(
        decide_with_state("h", &high, &mut dir, &monitor, &saved),
        ThrottleDecision::Inject(InjectReason::GrowthExceeded {
            delta: 60_000,
            threshold: 52_000
        })
    );
}

#[test]
fn readings_beyond_64_bits_cannot_be_compared() {
    let config = default_config();
    let limit = u64::MAX / 100;
    assert!(!comparable(&config, &status(u64::MAX, 1), &status(u64::MAX, 0)));
    assert!(!comparable(&config, &status(limit + 1, 0), &status(limit + 1, 0)));
    assert!(comparable(&config, &status(limit, 0), &status(limit, 0)));
    assert!(comparable(&config, &status(u64::MAX, 1), &status(0, 0)));
    assert!(comparable(&config, &status(0, 0), &status(u64::MAX, u64::MAX)));
    let tokens = status_with_tokens(0, 0, limit + 1);
    assert!(!comparable(&config, &tokens, &tokens));
    let mut dir = StateDir::new();
    assert!(can_decide("hook-a", &config, &dir));
    write_monitor_status(&mut dir, &tokens);
    write_consumer_state(&mut dir, "hook-a", &tokens);
    assert!(!can_decide("hook-a", &config, &dir));
}

#[test]
fn growth_keeps_calling() {
    let config = default_config();
    let mut dir = StateDir::new();
    for nt in [105_001, 200_000, 9_000_000] {
        assert_eq!(
            decide_with_state("h", &config, &mut dir, &status(nt, 0), &status(0, 0)),
            ThrottleDecision::Inject(InjectReason::GrowthExceeded {
                delta: nt,
                threshold: 105_000
            })
        );
    }
}

#[test]
fn bytes_decide_without_tokens() {
    let config = default_config();
    let mut dir = StateDir::new();
    let bytes_only =
        decide_with_state("h", &config, &mut dir, &status(100_000, 100_000), &status(100_000, 0));
    assert_eq!(
        decide_with_state(
            "h",
            &config,
            &mut dir,
            &status(100_000, 100_000),
            &status_with_tokens(100_000, 0, 1)
        ),
        bytes_only
    );
}

#[test]
fn token_drop_is_compaction() {
    let config = default_config();
    let mut dir = StateDir::new();
    assert_eq!(
        decide_with_state(
            "h",
            &config,
            &mut dir,
            &status_with_tokens(500_000, 0, 9),
            &status_with_tokens(0, 0, 10)
        ),
        ThrottleDecision::Inject(InjectReason::CompactionDetected)
    );
}

#[test]
fn growing_transcript_is_no_compaction() {
    let config = default_config();
    let mut dir = StateDir::new();
    let saved = status(1_000, 50);
    write_monitor_status(&mut dir, &saved);
    let totals = update_monitor(&mut dir, 10, (0, 0), None).unwrap();
    assert_eq!(
        decide_with_state("h", &config, &mut dir, &totals, &saved),
        ThrottleDecision::Skip
    );
}
