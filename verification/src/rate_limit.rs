//! Rate limiting at the front door: what to make of the answers of the
//! shared rate limiter and of the user store.

use vstd::prelude::*;
use crate::ttl_cache::UserCacheValue;
use crate::upstream::ThrottleOutcome;

verus! {

/// How long what was learnt of a user is used, in milliseconds.
pub const USER_CACHE_TTL_MS: u64 = 60_000;

/// The address of a client.
#[derive(Clone, Copy, Debug, PartialEq, Eq, Structural)]
pub enum Ip {
    V4(u32),
    V6(u128),
}

/// What rate limiting decided for a request.
#[derive(Clone, Copy, Debug, PartialEq, Eq, Structural)]
pub enum RateLimitResult {
    /// The address may go on.
    AllowedIp(Ip),
    /// The user may go on.
    AllowedUser(u64),
    /// The address is held back, until the given time where one is known.
    RateLimitedIp(Ip, Option<u64>),
    /// The user is held back, until the given time where one is known.
    RateLimitedUser(u64, Option<u64>),
    /// The API key belongs to nobody.
    UnknownKey,
}

/// The errors that rate limiting answers a client with.
#[derive(Clone, Copy, Debug, PartialEq, Eq, Structural)]
pub enum FrontendErrorResponse {
    RateLimitedIp(Ip, Option<u64>),
    RateLimitedUser(u64, Option<u64>),
    UnknownKey,
}

/// What rate limiting decides for the address `ip` on the answer of the
/// limiter. A failure of the limiter holds nobody back.
pub open spec fn ip_decision(ip: Ip, outcome: ThrottleOutcome) -> RateLimitResult {
    match outcome {
        ThrottleOutcome::Allowed => RateLimitResult::AllowedIp(ip),
        ThrottleOutcome::RetryAt(at) => RateLimitResult::RateLimitedIp(ip, Some(at)),
        ThrottleOutcome::RetryNever => RateLimitResult::RateLimitedIp(ip, None),
        ThrottleOutcome::Error => RateLimitResult::AllowedIp(ip),
    }
}

/// What the proxy remembers of the user behind an API key, from the row of
/// the user store: the id of the user and the requests per minute, where
/// the greatest number stands for no limit. A key without a row belongs to
/// nobody: user 0, who may make no request. The time of expiry is set when
/// the value is cached.
pub open spec fn user_data(row: Option<(u64, u64)>) -> UserCacheValue {
    match row {
        Some((user_id, requests_per_minute)) => UserCacheValue {
            expires_at: 0,
            user_id,
            user_count_per_period: if requests_per_minute == u64::MAX {
                None
            } else {
                Some(requests_per_minute)
            },
        },
        None => UserCacheValue { expires_at: 0, user_id: 0, user_count_per_period: Some(0) },
    }
}

/// The limit to ask the limiter with for a request of the user, where the
/// limiter is to be asked at all: not for an unknown key, nor for a user
/// without a limit.
pub open spec fn throttle_limit(user: UserCacheValue) -> Option<u64> {
    if user.user_id == 0 {
        None
    } else {
        user.user_count_per_period
    }
}

/// What rate limiting decides for a request of `user` on the answer of the
/// limiter. The key of user 0 is unknown. A user without a limit may go on
/// without the limiter being asked. For all others the limiter decides,
/// and a failure of it holds nobody back.
pub open spec fn key_decision(user: UserCacheValue, outcome: ThrottleOutcome) -> RateLimitResult {
    if user.user_id == 0 {
        RateLimitResult::UnknownKey
    } else if user.user_count_per_period is None {
        RateLimitResult::AllowedUser(user.user_id)
    } else {
        match outcome {
            ThrottleOutcome::Allowed => RateLimitResult::AllowedUser(user.user_id),
            ThrottleOutcome::RetryAt(at) => RateLimitResult::RateLimitedUser(user.user_id, Some(at)),
            ThrottleOutcome::RetryNever => RateLimitResult::RateLimitedUser(user.user_id, None),
            ThrottleOutcome::Error => RateLimitResult::AllowedUser(user.user_id),
        }
    }
}

/// What the front door makes of the decision for an address: the address
/// goes on, or the client is told that it is held back.
pub fn rate_limit_by_ip(decision: RateLimitResult) -> (r: Result<Ip, FrontendErrorResponse>)
    requires
        decision is AllowedIp || decision is RateLimitedIp,
    ensures
        decision matches RateLimitResult::AllowedIp(ip) ==> r == Ok::<Ip, FrontendErrorResponse>(ip),
        decision matches RateLimitResult::RateLimitedIp(ip, at) ==> r == Err::<
            Ip,
            FrontendErrorResponse,
        >(FrontendErrorResponse::RateLimitedIp(ip, at)),
{
    match decision {
        RateLimitResult::AllowedIp(x) => Ok(x),
        RateLimitResult::RateLimitedIp(x, retry_at) => Err(
            FrontendErrorResponse::RateLimitedIp(x, retry_at),
        ),
        RateLimitResult::AllowedUser(_) => Err(FrontendErrorResponse::UnknownKey),
        RateLimitResult::RateLimitedUser(_, _) => Err(FrontendErrorResponse::UnknownKey),
        RateLimitResult::UnknownKey => Err(FrontendErrorResponse::UnknownKey),
    }
}

/// What the front door makes of the decision for an API key: the user goes
/// on, or the client is told that the user is held back or that the key is
/// unknown.
pub fn rate_limit_by_key(decision: RateLimitResult) -> (r: Result<u64, FrontendErrorResponse>)
    requires
        decision is AllowedUser || decision is RateLimitedUser || decision is UnknownKey,
    ensures
        decision matches RateLimitResult::AllowedUser(id) ==> r == Ok::<u64, FrontendErrorResponse>(
            id,
        ),
        decision matches RateLimitResult::RateLimitedUser(id, at) ==> r == Err::<
            u64,
            FrontendErrorResponse,
        >(FrontendErrorResponse::RateLimitedUser(id, at)),
        decision is UnknownKey ==> r == Err::<u64, FrontendErrorResponse>(
            FrontendErrorResponse::UnknownKey,
        ),
{
    match decision {
        RateLimitResult::AllowedUser(x) => Ok(x),
        RateLimitResult::RateLimitedUser(x, retry_at) => Err(
            FrontendErrorResponse::RateLimitedUser(x, retry_at),
        ),
        RateLimitResult::UnknownKey => Err(FrontendErrorResponse::UnknownKey),
        RateLimitResult::AllowedIp(_) => Err(FrontendErrorResponse::UnknownKey),
        RateLimitResult::RateLimitedIp(_, _) => Err(FrontendErrorResponse::UnknownKey),
    }
}

/// The decisions for an address never concern a user, and the decisions
/// for a key never an address: what `rate_limit_by_ip` and
/// `rate_limit_by_key` demand of their argument, the decisions meet.
pub proof fn lemma_decisions_are_of_their_kind(ip: Ip, user: UserCacheValue, outcome: ThrottleOutcome)
    ensures
        ip_decision(ip, outcome) is AllowedIp || ip_decision(ip, outcome) is RateLimitedIp,
        key_decision(user, outcome) is AllowedUser || key_decision(user, outcome) is RateLimitedUser
            || key_decision(user, outcome) is UnknownKey,
{
}

} // verus!
