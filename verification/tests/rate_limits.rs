use web3_proxy::app::Web3ProxyApp;
use web3_proxy::balance::{Amount, Balance};
use web3_proxy::config::{RpcConfig, RpcSharedConfig};
use web3_proxy::rate_limit::{
    rate_limit_by_ip, rate_limit_by_key, FrontendErrorResponse, Ip, RateLimitResult,
};
use web3_proxy::secondary_user::{Column, Model, Relation, Role};
use web3_proxy::ttl_cache::{CacheWithTTL, Stored, UserCacheValue};
use web3_proxy::upstream::ThrottleOutcome;

fn app() -> Web3ProxyApp {
    Web3ProxyApp::spawn(&RpcConfig {
        shared: RpcSharedConfig {
            chain_id: 1,
            min_synced_upstreams: 1,
            reorg_depth: 10,
            response_cache_max_entries: 16,
            response_cache_max_bytes: None,
            request_timeout_secs: 60,
            rate_limit_redis: None,
        },
        balanced_rpcs: vec![],
        private_rpcs: vec![],
    })
    .unwrap()
}

fn user(user_id: u64, limit: Option<u64>) -> UserCacheValue {
    UserCacheValue { expires_at: 0, user_id, user_count_per_period: limit }
}

#[test]
fn the_limiter_decides_for_an_address() {
    let app = app();
    let ip = Ip::V4(0x7f00_0001);
    assert_eq!(app.rate_limit_by_ip(ip, ThrottleOutcome::Allowed), RateLimitResult::AllowedIp(ip));
    assert_eq!(
        app.rate_limit_by_ip(ip, ThrottleOutcome::RetryAt(77)),
        RateLimitResult::RateLimitedIp(ip, Some(77))
    );
    assert_eq!(
        app.rate_limit_by_ip(ip, ThrottleOutcome::RetryNever),
        RateLimitResult::RateLimitedIp(ip, None)
    );
    // a limiter that fails holds nobody back
    assert_eq!(app.rate_limit_by_ip(ip, ThrottleOutcome::Error), RateLimitResult::AllowedIp(ip));
}

#[test]
fn the_front_door_answers_for_an_address() {
    let ip = Ip::V6(1);
    assert_eq!(rate_limit_by_ip(RateLimitResult::AllowedIp(ip)), Ok(ip));
    assert_eq!(
        rate_limit_by_ip(RateLimitResult::RateLimitedIp(ip, Some(5))),
        Err(FrontendErrorResponse::RateLimitedIp(ip, Some(5)))
    );
}

#[test]
fn the_limiter_decides_for_a_key() {
    let app = app();
    let limited = user(7, Some(100));
    assert_eq!(Web3ProxyApp::throttle_request(&limited), Some(100));
    assert_eq!(
        app.rate_limit_by_key(&limited, ThrottleOutcome::Allowed),
        RateLimitResult::AllowedUser(7)
    );
    assert_eq!(
        app.rate_limit_by_key(&limited, ThrottleOutcome::RetryAt(9)),
        RateLimitResult::RateLimitedUser(7, Some(9))
    );
    assert_eq!(
        app.rate_limit_by_key(&limited, ThrottleOutcome::RetryNever),
        RateLimitResult::RateLimitedUser(7, None)
    );
    assert_eq!(
        app.rate_limit_by_key(&limited, ThrottleOutcome::Error),
        RateLimitResult::AllowedUser(7)
    );
}

#[test]
fn an_unknown_key_and_an_unlimited_user_need_no_limiter() {
    let app = app();
    assert_eq!(Web3ProxyApp::throttle_request(&user(0, Some(0))), None);
    assert_eq!(Web3ProxyApp::throttle_request(&user(7, None)), None);
    for outcome in [ThrottleOutcome::Allowed, ThrottleOutcome::RetryNever, ThrottleOutcome::Error] {
        assert_eq!(app.rate_limit_by_key(&user(0, Some(0)), outcome), RateLimitResult::UnknownKey);
        assert_eq!(app.rate_limit_by_key(&user(0, None), outcome), RateLimitResult::UnknownKey);
        assert_eq!(
            app.rate_limit_by_key(&user(7, None), outcome),
            RateLimitResult::AllowedUser(7)
        );
    }
}

#[test]
fn the_front_door_answers_for_a_key() {
    assert_eq!(rate_limit_by_key(RateLimitResult::AllowedUser(7)), Ok(7));
    assert_eq!(
        rate_limit_by_key(RateLimitResult::RateLimitedUser(7, None)),
        Err(FrontendErrorResponse::RateLimitedUser(7, None))
    );
    assert_eq!(
        rate_limit_by_key(RateLimitResult::UnknownKey),
        Err(FrontendErrorResponse::UnknownKey)
    );
}

#[test]
fn what_the_user_store_holds_is_remembered_for_a_minute() {
    let mut app = app();
    let key = 0x1234_5678_9abc_def0_1234_5678_9abc_def0u128;
    assert_eq!(app.cached_user(key, 1000), None);
    let kept = app.cache_user_data(key, Some((7, 100)), 1000);
    let value = UserCacheValue { expires_at: 61_000, user_id: 7, user_count_per_period: Some(100) };
    assert_eq!(kept, Stored { value, held: true });
    assert_eq!(app.cached_user(key, 1000), Some(value));
    assert_eq!(app.cached_user(key, 61_000), Some(value));
    assert_eq!(app.cached_user(key, 61_001), None);
    assert_eq!(app.cached_user(key + 1, 1000), None);
}

#[test]
fn a_key_that_is_held_is_written_over_and_stays() {
    let mut app = app();
    let first = app.cache_user_data(9, Some((7, 100)), 1000);
    assert!(first.held);
    // the entry has expired, and is still held
    assert_eq!(app.cached_user(9, 70_000), None);
    let second = app.cache_user_data(9, Some((7, 200)), 70_000);
    assert!(second.held);
    assert_eq!(second.value.user_count_per_period, Some(200));
    assert_eq!(second.value.expires_at, 130_000);
    assert_eq!(app.cached_user(9, 70_000), Some(second.value));
    let mut cache = CacheWithTTL::new_with_capacity(100, 50);
    for round in 0..20u64 {
        let stored = cache.insert(1, user(round, None), round);
        assert!(stored.held);
        assert_eq!(cache.get(&1, round), Some(stored.value));
    }
}

#[test]
fn a_store_without_room_says_that_it_holds_nothing() {
    let mut cache = CacheWithTTL::new_with_capacity(0, 50);
    let stored = cache.insert(1, user(7, None), 10);
    assert_eq!(stored.value.expires_at, 60);
    assert!(!stored.held);
    assert_eq!(cache.get(&1, 10), None);
}

#[test]
fn the_greatest_limit_stands_for_none_and_no_row_for_nobody() {
    let mut app = app();
    let unlimited = app.cache_user_data(1, Some((7, u64::MAX)), 0).value;
    assert_eq!(unlimited.user_count_per_period, None);
    assert_eq!(unlimited.user_id, 7);
    let nobody = app.cache_user_data(2, None, 0).value;
    assert_eq!(nobody, UserCacheValue { expires_at: 60_000, user_id: 0, user_count_per_period: Some(0) });
    assert_eq!(
        app.rate_limit_by_key(&nobody, ThrottleOutcome::Allowed),
        RateLimitResult::UnknownKey
    );
    let late = app.cache_user_data(3, Some((1, 1)), u64::MAX - 5).value;
    assert_eq!(late.expires_at, u64::MAX);
}

#[test]
fn the_cache_with_a_time_to_live() {
    let mut cache = CacheWithTTL::new_with_capacity(100, 50);
    assert_eq!(cache.get(&1, 0), None);
    let kept = cache.insert(1, user(7, None), 10);
    assert!(kept.held);
    let kept = kept.value;
    assert_eq!(kept.expires_at, 60);
    assert_eq!(cache.get(&1, 60), Some(kept));
    assert_eq!(cache.get(&1, 61), None);
    assert_eq!(cache.get(&2, 0), None);
    assert!(cache.remove(&1));
    assert!(!cache.remove(&1));
    assert_eq!(cache.get(&1, 10), None);
    let shared = CacheWithTTL::arc_with_capacity(10, 5);
    assert_eq!(shared.ttl, 5);
    assert_eq!(shared.get(&1, 0), None);
    let mut weighted = CacheWithTTL::new_with_weights(10, 10, 5);
    weighted.insert(3, user(3, Some(3)), 0);
    assert_eq!(weighted.get(&3, 5).unwrap().user_id, 3);
    let mut other = CacheWithTTL::new(10, 10, 7);
    assert_eq!(other.insert(4, user(4, None), 1).value.expires_at, 8);
}

#[test]
fn a_value_is_computed_only_on_a_miss() {
    let mut cache = CacheWithTTL::new_with_capacity(100, 50);
    assert_eq!(cache.get_value_or_guard_async(1, 0), Err(1));
    let failed: Result<UserCacheValue, String> = Err("no database".to_string());
    assert_eq!(cache.get_or_insert_async(&1, 0, failed), Err("no database".to_string()));
    assert_eq!(cache.get(&1, 0), None);
    let first = cache.get_or_insert_async::<String>(&1, 0, Ok(user(7, None))).unwrap();
    assert_eq!(first.user_id, 7);
    assert_eq!(first.expires_at, 50);
    // what is cached wins over what was computed in vain
    let second = cache.get_or_insert_async::<String>(&1, 20, Ok(user(8, None))).unwrap();
    assert_eq!(second, first);
    assert_eq!(cache.get_value_or_guard_async(1, 20), Ok(first));
    // once expired, the value is computed anew
    let third = cache.get_or_insert_async::<String>(&1, 51, Ok(user(9, None))).unwrap();
    assert_eq!(third.user_id, 9);
}

#[test]
fn what_remains_of_a_balance() {
    let balance = Balance {
        user_id: 1,
        total_spent_paid_credits: Amount { mantissa: 250, scale: 2 },
        total_spent: Amount { mantissa: 300, scale: 2 },
        total_deposits: Amount { mantissa: 1000, scale: 2 },
    };
    assert_eq!(balance.remaining(), Some(Amount { mantissa: 750, scale: 2 }));
    let overdrawn = Balance {
        total_deposits: Amount { mantissa: 1, scale: 0 },
        total_spent_paid_credits: Amount { mantissa: 175, scale: 2 },
        ..balance
    };
    assert_eq!(overdrawn.remaining(), Some(Amount { mantissa: -75, scale: 2 }));
    let beyond = Balance { total_deposits: Amount { mantissa: 1, scale: 29 }, ..balance };
    assert_eq!(beyond.remaining(), None);
    let huge = Balance {
        total_deposits: Amount { mantissa: 79_228_162_514_264_337_593_543_950_335, scale: 0 },
        total_spent_paid_credits: Amount { mantissa: -1, scale: 0 },
        ..balance
    };
    assert_eq!(huge.remaining(), None);
}

#[test]
fn nobody_has_no_balance() {
    let zero = Amount { mantissa: 0, scale: 0 };
    let row = Balance {
        user_id: 5,
        total_spent_paid_credits: zero,
        total_spent: zero,
        total_deposits: zero,
    };
    assert_eq!(Balance::try_from_db(0, Some(row)), None);
    assert_eq!(Balance::try_from_db(5, Some(row)), Some(row));
    assert_eq!(Balance::try_from_db(5, None), None);
    assert!(!Balance::is_stored(0));
    assert!(Balance::is_stored(5));
}

#[test]
fn a_secondary_user_belongs_to_a_key_and_a_user() {
    let row = Model {
        id: 1,
        user_id: 20,
        description: None,
        role: Role::Collaborator,
        rpc_secret_key_id: 300,
    };
    assert_eq!(Relation::RpcKey.def().from, Column::RpcSecretKeyId);
    assert_eq!(Relation::RpcKey.def().to, Relation::RpcKey);
    assert_eq!(Relation::User.def().from, Column::UserId);
    assert_eq!(row.related_id(Relation::RpcKey), 300);
    assert_eq!(row.related_id(Relation::User), 20);
}
