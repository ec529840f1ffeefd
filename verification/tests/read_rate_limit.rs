use aionui_server::environment::EnvValue;
use aionui_server::read_rate_limit::limits::{refusal, ReadDecision};
use aionui_server::read_rate_limit::model::{
    IDLE_EXPIRY, MAX_SUBJECTS, NANOS_PER_MILLI, NANOS_PER_SECOND,
};
use aionui_server::read_rate_limit::policy::read_value;
use aionui_server::read_rate_limit::{
    aggregate_read_rate_limit_middleware, user_read_rate_limit_middleware, IdentityReadLimits,
    ReadRatePolicy, TokenBuckets,
};

fn set(text: &str) -> EnvValue {
    EnvValue::Present(text.to_string())
}

#[test]
fn validates_bounded_capacity() {
    assert!(ReadRatePolicy::default().validate().is_ok());
    assert!(
        ReadRatePolicy {
            user_per_minute: 0,
            ..ReadRatePolicy::default()
        }
        .validate()
        .is_err()
    );
    assert!(
        ReadRatePolicy {
            user_burst: 601,
            ..ReadRatePolicy::default()
        }
        .validate()
        .is_err()
    );
    assert!(
        ReadRatePolicy {
            aggregate_per_minute: 60_001,
            ..ReadRatePolicy::default()
        }
        .validate()
        .is_err()
    );
}

#[test]
fn a_refused_policy_says_why() {
    let range = "Identity read rate capacities must be between 1 and 60000";
    let burst = "Identity read bursts must not exceed the respective per-minute rate";
    let good = ReadRatePolicy::default();
    let refused = |policy: ReadRatePolicy| policy.validate().unwrap_err();
    assert_eq!(refused(ReadRatePolicy { user_burst: 0, ..good }), range);
    assert_eq!(refused(ReadRatePolicy { aggregate_burst: 60_001, ..good }), range);
    assert_eq!(refused(ReadRatePolicy { user_burst: 601, ..good }), burst);
    assert_eq!(refused(ReadRatePolicy { aggregate_burst: 1201, ..good }), burst);
    // The range is looked at first.
    assert_eq!(refused(ReadRatePolicy { user_per_minute: 0, user_burst: 60_000, ..good }), range);
    let widest = ReadRatePolicy {
        user_per_minute: 60_000,
        user_burst: 60_000,
        aggregate_per_minute: 60_000,
        aggregate_burst: 60_000,
    };
    assert_eq!(widest.validate().unwrap().user_burst, 60_000);
}

#[test]
fn a_value_is_read_from_its_variable() {
    let complaint = Err("NAME must be a positive integer".to_string());
    assert_eq!(read_value("NAME", &set("17"), 5), Ok(17));
    assert_eq!(read_value("NAME", &set("+17"), 5), Ok(17));
    assert_eq!(read_value("NAME", &EnvValue::NotPresent, 5), Ok(5));
    assert_eq!(read_value("NAME", &EnvValue::NotUnicode, 5), complaint);
    assert_eq!(read_value("NAME", &set("-1"), 5), complaint);
    assert_eq!(read_value("NAME", &set("many"), 5), complaint);
}

#[test]
fn the_policy_comes_from_the_environment() {
    let unset = EnvValue::NotPresent;
    let policy = ReadRatePolicy::from_env(&unset, &unset, &unset, &unset).unwrap();
    assert_eq!(policy.user_per_minute, 600);
    assert_eq!(policy.user_burst, 60);
    assert_eq!(policy.aggregate_per_minute, 1200);
    assert_eq!(policy.aggregate_burst, 120);
    let policy =
        ReadRatePolicy::from_env(&set("10"), &set("2"), &set("30"), &set("4")).unwrap();
    assert_eq!(policy.user_per_minute, 10);
    assert_eq!(policy.user_burst, 2);
    assert_eq!(policy.aggregate_per_minute, 30);
    assert_eq!(policy.aggregate_burst, 4);
}

#[test]
fn the_first_wrong_variable_is_named() {
    let wrong = set("x");
    let right = set("1");
    let named = |a: &EnvValue, b: &EnvValue, c: &EnvValue, d: &EnvValue| {
        ReadRatePolicy::from_env(a, b, c, d).unwrap_err()
    };
    assert_eq!(
        named(&wrong, &wrong, &wrong, &wrong),
        "AIONUI_IDENTITY_READ_RPM must be a positive integer"
    );
    assert_eq!(
        named(&right, &wrong, &wrong, &wrong),
        "AIONUI_IDENTITY_READ_BURST must be a positive integer"
    );
    assert_eq!(
        named(&right, &right, &wrong, &wrong),
        "AIONUI_IDENTITY_AGGREGATE_RPM must be a positive integer"
    );
    assert_eq!(
        named(&right, &right, &right, &wrong),
        "AIONUI_IDENTITY_AGGREGATE_BURST must be a positive integer"
    );
    // A number that is out of range is read, and refused by the check.
    assert_eq!(
        named(&set("0"), &right, &right, &right),
        "Identity read rate capacities must be between 1 and 60000"
    );
}

#[test]
fn burst_refill_and_retry_are_deterministic() {
    let mut limiter = TokenBuckets::new(60, 2);
    let now: u128 = 0;
    assert_eq!(limiter.check_at("a", now), Ok(()));
    assert_eq!(limiter.check_at("a", now), Ok(()));
    assert_eq!(limiter.check_at("a", now), Err(1));
    assert_eq!(limiter.check_at("a", now + 999 * NANOS_PER_MILLI), Err(1));
    assert_eq!(limiter.check_at("a", now + NANOS_PER_SECOND), Ok(()));
    assert_eq!(limiter.check_at("b", now), Ok(()));
}

#[test]
fn requests_at_once_cannot_exceed_burst() {
    let mut limiter = TokenBuckets::new(600, 10);
    let mut accepted = 0;
    for _ in 0..40 {
        if limiter.check_at("a", 7).is_ok() {
            accepted += 1;
        }
    }
    assert_eq!(accepted, 10);
}

#[test]
fn subject_storage_is_bounded_and_expired_entries_are_reclaimed() {
    let mut limiter = TokenBuckets::new(60, 1);
    let now: u128 = 0;
    for index in 0..MAX_SUBJECTS {
        assert_eq!(limiter.check_at(&index.to_string(), now), Ok(()));
    }
    assert_eq!(limiter.check_at("overflow", now), Err(60));
    assert_eq!(limiter.check_at("overflow", now + IDLE_EXPIRY), Ok(()));
    assert_eq!(limiter.subject_count(), 1);
}

#[test]
fn a_known_subject_is_answered_while_the_storage_is_full() {
    let mut limiter = TokenBuckets::new(60, 2);
    for index in 0..MAX_SUBJECTS {
        assert_eq!(limiter.check_at(&index.to_string(), 0), Ok(()));
    }
    assert_eq!(limiter.check_at("17", 0), Ok(()));
    assert_eq!(limiter.check_at("17", 0), Err(1));
    assert_eq!(limiter.check_at("new", 0), Err(60));
    assert_eq!(limiter.subject_count(), MAX_SUBJECTS);
}

#[test]
fn a_cleanup_keeps_the_subjects_that_are_not_idle() {
    let mut limiter = TokenBuckets::new(60, 1);
    assert_eq!(limiter.check_at("early", 0), Ok(()));
    assert_eq!(limiter.check_at("late", 30 * NANOS_PER_SECOND), Ok(()));
    assert_eq!(limiter.check_at("other", IDLE_EXPIRY - 1), Ok(()));
    assert_eq!(limiter.subject_count(), 3);
    // Idle for two minutes, but the last cleanup was a moment ago.
    assert_eq!(limiter.check_at("other", IDLE_EXPIRY), Err(1));
    assert_eq!(limiter.subject_count(), 3);
    assert_eq!(limiter.check_at("new", IDLE_EXPIRY + 60 * NANOS_PER_SECOND), Ok(()));
    assert_eq!(limiter.subject_count(), 2);
}

#[test]
fn the_waiting_time_is_exact() {
    // Seven tokens a minute: one takes 8571.4 milliseconds.
    let mut limiter = TokenBuckets::new(7, 1);
    assert_eq!(limiter.check_at("a", 0), Ok(()));
    assert_eq!(limiter.check_at("a", 0), Err(9));
    assert_eq!(limiter.check_at("a", 5 * NANOS_PER_SECOND), Err(4));
    assert_eq!(limiter.check_at("a", 8571 * NANOS_PER_MILLI), Err(1));
    assert_eq!(limiter.check_at("a", 8572 * NANOS_PER_MILLI), Ok(()));
    let mut limiter = TokenBuckets::new(1, 1);
    assert_eq!(limiter.check_at("a", 0), Ok(()));
    assert_eq!(limiter.check_at("a", 0), Err(60));
    assert_eq!(limiter.check_at("a", 60 * NANOS_PER_SECOND - 1), Err(1));
    assert_eq!(limiter.check_at("a", 60 * NANOS_PER_SECOND + NANOS_PER_MILLI), Ok(()));
}

#[test]
fn a_bucket_never_overflows() {
    let mut limiter = TokenBuckets::new(u32::MAX, 3);
    assert_eq!(limiter.check_at("a", 0), Ok(()));
    for _ in 0..3 {
        assert_eq!(limiter.check_at("a", u128::MAX), Ok(()));
    }
    assert_eq!(limiter.check_at("a", u128::MAX), Err(1));
    // A clock that goes back refills nothing.
    assert_eq!(limiter.check_at("a", 5), Err(1));
}

#[test]
fn a_burst_of_zero_lets_nothing_pass() {
    let mut limiter = TokenBuckets::new(60, 0);
    assert_eq!(limiter.check_at("a", 0), Err(1));
    assert_eq!(limiter.check_at("a", NANOS_PER_SECOND), Err(1));
}

#[test]
fn subjects_do_not_share_credit() {
    let mut limiter = TokenBuckets::new(60, 1);
    assert_eq!(limiter.check_at("a", 0), Ok(()));
    assert_eq!(limiter.check_at("a", 0), Err(1));
    assert_eq!(limiter.check_at("b", 0), Ok(()));
    assert_eq!(limiter.check_at("a", 0), Err(1));
}

#[test]
fn rejection_carries_retry_after_without_exposing_subject() {
    let limits = IdentityReadLimits::new(ReadRatePolicy::default()).unwrap();
    let refused = limits.limited("identity_user", "private-user", 2);
    assert_eq!(refused.response.status, 429);
    assert_eq!(refused.response.retry_after, "2");
    assert_eq!(refused.record.limiter_class, "identity_user");
    assert_eq!(refused.record.retry_after, 2);
    assert_eq!(refused.record.subject_key.len(), 16);
    assert!(!refused.record.subject_key.contains("private-user"));
}

#[test]
fn the_logged_key_is_the_start_of_the_salted_digest() {
    let limits =
        IdentityReadLimits::from_salt(ReadRatePolicy::default(), Some([7u8; 32])).unwrap();
    assert_eq!(limits.limited("c", "private-user", 2).record.subject_key, "9da2d00ffefa1889");
    assert_eq!(limits.limited("c", "process", 2).record.subject_key, "aad15d3fffcf4f2a");
    assert_eq!(limits.limited("c", "ü", 2).record.subject_key, "831ffa4cc5d02e95");
}

#[test]
fn a_refusal_is_made_from_a_digest() {
    let mut digest = [0u8; 32];
    digest[0] = 0xde;
    digest[7] = 0x0f;
    digest[8] = 0xff;
    let made = refusal("class", &digest, 60);
    assert_eq!(made.response.status, 429);
    assert_eq!(made.response.retry_after, "60");
    assert_eq!(made.record.limiter_class, "class");
    assert_eq!(made.record.subject_key, "de0000000000000f");
    assert_eq!(made.record.retry_after, 60);
}

#[test]
fn every_process_has_its_own_salt() {
    let one = IdentityReadLimits::new(ReadRatePolicy::default()).unwrap();
    let two = IdentityReadLimits::new(ReadRatePolicy::default()).unwrap();
    assert_ne!(
        one.limited("c", "s", 1).record.subject_key,
        two.limited("c", "s", 1).record.subject_key
    );
}

#[test]
fn limits_are_not_made_without_a_policy_and_a_salt() {
    let bad = ReadRatePolicy { user_burst: 0, ..ReadRatePolicy::default() };
    let range = "Identity read rate capacities must be between 1 and 60000";
    assert_eq!(IdentityReadLimits::new(bad).err().unwrap(), range);
    assert_eq!(IdentityReadLimits::from_salt(bad, None).err().unwrap(), range);
    assert_eq!(
        IdentityReadLimits::from_salt(ReadRatePolicy::default(), None).err().unwrap(),
        "Cannot initialize rate-limit diagnostics"
    );
}

fn small_limits() -> IdentityReadLimits {
    let policy = ReadRatePolicy {
        user_per_minute: 60,
        user_burst: 1,
        aggregate_per_minute: 30,
        aggregate_burst: 2,
    };
    IdentityReadLimits::from_salt(policy, Some([7u8; 32])).unwrap()
}

#[test]
fn the_outer_gate_has_one_budget() {
    let mut limits = small_limits();
    for _ in 0..2 {
        let decision = aggregate_read_rate_limit_middleware(&mut limits, 0);
        assert!(matches!(decision, ReadDecision::Forward));
    }
    match aggregate_read_rate_limit_middleware(&mut limits, 0) {
        ReadDecision::Limited(refused) => {
            assert_eq!(refused.response.status, 429);
            assert_eq!(refused.response.retry_after, "2");
            assert_eq!(refused.record.limiter_class, "identity_aggregate");
            assert_eq!(refused.record.subject_key, "aad15d3fffcf4f2a");
        }
        _ => panic!("the third read comes too early"),
    }
    // The budgets of the users are untouched.
    let decision = user_read_rate_limit_middleware(&mut limits, Some("u"), 0);
    assert!(matches!(decision, ReadDecision::Forward));
    let decision = aggregate_read_rate_limit_middleware(&mut limits, 2 * NANOS_PER_SECOND);
    assert!(matches!(decision, ReadDecision::Forward));
}

#[test]
fn the_inner_gate_has_a_budget_for_each_user() {
    let mut limits = small_limits();
    match user_read_rate_limit_middleware(&mut limits, None, 0) {
        ReadDecision::Unauthorized(message) => assert_eq!(message, "Authentication required"),
        _ => panic!("there is no user"),
    }
    let decision = user_read_rate_limit_middleware(&mut limits, Some("private-user"), 0);
    assert!(matches!(decision, ReadDecision::Forward));
    match user_read_rate_limit_middleware(&mut limits, Some("private-user"), 0) {
        ReadDecision::Limited(refused) => {
            assert_eq!(refused.response.retry_after, "1");
            assert_eq!(refused.record.limiter_class, "identity_user");
            assert_eq!(refused.record.subject_key, "9da2d00ffefa1889");
        }
        _ => panic!("the second read comes too early"),
    }
    let decision = user_read_rate_limit_middleware(&mut limits, Some("process"), 0);
    assert!(matches!(decision, ReadDecision::Forward));
}

#[test]
fn forgetting_an_idle_subject_changes_no_credit() {
    let mut forgotten = TokenBuckets::new(60, 60);
    let mut kept = TokenBuckets::new(60, 60);
    for _ in 0..60 {
        assert_eq!(forgotten.check_at("a", 0), Ok(()));
        assert_eq!(kept.check_at("a", 0), Ok(()));
    }
    assert_eq!(kept.check_at("b", 59 * NANOS_PER_SECOND), Ok(()));
    assert_eq!(kept.check_at("b", IDLE_EXPIRY - 1), Ok(()));
    assert_eq!(forgotten.check_at("b", IDLE_EXPIRY), Ok(()));
    assert_eq!(kept.check_at("b", IDLE_EXPIRY), Ok(()));
    assert_eq!(forgotten.subject_count(), 1);
    assert_eq!(kept.subject_count(), 2);
    for _ in 0..60 {
        assert_eq!(forgotten.check_at("a", IDLE_EXPIRY), Ok(()));
        assert_eq!(kept.check_at("a", IDLE_EXPIRY), Ok(()));
    }
    assert_eq!(forgotten.check_at("a", IDLE_EXPIRY), Err(1));
    assert_eq!(kept.check_at("a", IDLE_EXPIRY), Err(1));
}

#[test]
fn the_rate_holds_over_time() {
    let mut limiter = TokenBuckets::new(60, 5);
    let mut accepted = 0;
    for tick in 0..=100u128 {
        for _ in 0..3 {
            if limiter.check_at("a", tick * 100 * NANOS_PER_MILLI).is_ok() {
                accepted += 1;
            }
        }
        assert!(limiter.check_at(&tick.to_string(), tick * 100 * NANOS_PER_MILLI).is_ok());
    }
    // Five at once, and one in each of ten seconds.
    assert_eq!(accepted, 15);
}

#[test]
fn waiting_as_told_suffices_whatever_others_do() {
    let mut limiter = TokenBuckets::new(7, 1);
    assert_eq!(limiter.check_at("a", 0), Ok(()));
    assert_eq!(limiter.check_at("a", 0), Err(9));
    for second in 1..9u128 {
        assert_eq!(limiter.check_at(&second.to_string(), second * NANOS_PER_SECOND), Ok(()));
    }
    assert_eq!(limiter.check_at("a", 9 * NANOS_PER_SECOND), Ok(()));
}

#[test]
fn a_refusal_costs_nothing() {
    let mut patient = TokenBuckets::new(60, 2);
    let mut hasty = TokenBuckets::new(60, 2);
    for _ in 0..2 {
        assert_eq!(patient.check_at("a", 0), Ok(()));
        assert_eq!(hasty.check_at("a", 0), Ok(()));
    }
    for milli in 0..1000u128 {
        assert_eq!(hasty.check_at("a", milli * NANOS_PER_MILLI), Err(1));
        assert_eq!(hasty.check_at("a", milli * NANOS_PER_MILLI), Err(1));
    }
    assert_eq!(patient.check_at("a", NANOS_PER_SECOND), Ok(()));
    assert_eq!(hasty.check_at("a", NANOS_PER_SECOND), Ok(()));
}

#[test]
fn a_refusal_drops_the_fraction_of_a_millisecond() {
    let mut limiter = TokenBuckets::new(60, 1);
    assert_eq!(limiter.check_at("a", 0), Ok(()));
    let mut now: u128 = 0;
    while now < 2 * NANOS_PER_SECOND {
        now += NANOS_PER_MILLI - 1;
        assert_eq!(limiter.check_at("a", now), Err(1));
    }
}

#[test]
fn a_subject_that_found_no_room_finds_some_when_others_have_been_idle() {
    let mut limiter = TokenBuckets::new(60, 1);
    for index in 0..MAX_SUBJECTS {
        assert_eq!(limiter.check_at(&index.to_string(), 0), Ok(()));
    }
    let refused = IDLE_EXPIRY - 1;
    assert_eq!(limiter.check_at("new", refused), Err(60));
    // Two minutes have passed, but the refused attempt cleaned up a moment before.
    assert_eq!(limiter.check_at("new", IDLE_EXPIRY), Err(60));
    assert_eq!(limiter.check_at("new", refused + 60 * NANOS_PER_SECOND), Ok(()));
    assert_eq!(limiter.subject_count(), 1);
}

#[test]
fn others_change_no_answer() {
    let mut crowded = TokenBuckets::new(30, 2);
    let mut alone = TokenBuckets::new(30, 2);
    let mut now: u128 = 0;
    for step in 0..200u128 {
        now += (step * 7_919) % 3_000 * NANOS_PER_MILLI + step;
        let other = (step % 5).to_string();
        let _ = crowded.check_at(&other, now);
        assert_eq!(crowded.check_at("a", now), alone.check_at("a", now));
        let _ = crowded.check_at(&other, now);
    }
}
