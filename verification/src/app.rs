//! The proxy as a whole: the router, the subscription fan-out, the index of
//! pending transactions and what is remembered of the users.

use vstd::prelude::*;
use crate::config::RpcConfig;
use crate::errors::ErrorKind;
use crate::inflight::InflightTable;
use crate::jsonrpc::{JsonRpcForwardedResponse, JsonRpcRequest, JsonRpcRequestEnum};
use crate::pending::PendingTxIndex;
use crate::pool::Pool;
use crate::rate_limit::{
    ip_decision, key_decision, throttle_limit, user_data, Ip, RateLimitResult, USER_CACHE_TTL_MS,
};
use crate::router::{request_routed, Action, Router};
use crate::subscription::Fanout;
use crate::ttl_cache::{
    expiry, stored, within, CacheWithTTL, Stored, TtlEntries, UserCacheValue,
};
use crate::upstream::ThrottleOutcome;

verus! {

/// The most responses that the cache holds where nothing else is
/// configured.
pub const RESPONSE_CACHE_CAP: usize = 1024;

/// The most users that are remembered at once.
pub const USER_CACHE_CAP: usize = 10_000;

/// How long a confirmed transaction stays in the index, in milliseconds:
/// about 256 blocks of twelve seconds.
pub const PENDING_TX_RETENTION_MS: u64 = 3_072_000;

/// The most pending transactions that are known at once.
pub const PENDING_TX_CAP: usize = 65_536;

/// The application.
pub struct Web3ProxyApp {
    /// The router, with the pools, the head tracker, the response cache and
    /// the requests in flight.
    pub router: Router,
    /// The subscriptions.
    pub fanout: Fanout,
    /// The pending transactions.
    pub pending_transactions: PendingTxIndex,
    /// What is remembered of the users.
    pub user_cache: CacheWithTTL,
}

/// The requests that a call holds: one, or those of a batch in order.
pub open spec fn requests_of(request: JsonRpcRequestEnum) -> Seq<JsonRpcRequest> {
    match request {
        JsonRpcRequestEnum::Single(r) => seq![r],
        JsonRpcRequestEnum::Batch(rs) => rs@,
    }
}

/// The requests were routed one after the other, each on the state that
/// the one before it left: `states` holds the router before the first
/// request, between the requests and after the last.
pub open spec fn routed_in_order(
    states: Seq<Router>,
    requests: Seq<JsonRpcRequest>,
    actions: Seq<Action>,
) -> bool {
    &&& states.len() == requests.len() + 1
    &&& actions.len() == requests.len()
    &&& forall|i: int|
        0 <= i < requests.len() ==> request_routed(
            states[i],
            states[i + 1],
            requests[i],
            #[trigger] actions[i],
        )
}

impl Web3ProxyApp {
    /// The invariant of the application: that of its parts.
    pub open spec fn wf(self) -> bool {
        self.router.wf() && self.fanout.wf() && self.pending_transactions.wf()
    }

    /// Whether `app` is the application that `config` describes, before it
    /// has heard of any head, request, subscription, transaction or user:
    /// the router as `Router::new` makes it, and everything else empty.
    pub open spec fn fresh_for(app: Web3ProxyApp, config: RpcConfig) -> bool {
        &&& app.router.chain_id == config.shared.chain_id
        &&& app.router.request_timeout_secs == config.shared.request_timeout_secs
        &&& app.router.max_retries == crate::dispatch::DEFAULT_MAX_RETRIES
        &&& app.router.max_head_age == crate::router::DEFAULT_MAX_HEAD_AGE_MS
        &&& Router::pool_matches(app.router.balanced_rpcs, config.balanced_rpcs)
        &&& app.router.private_rpcs is None <==> config.private_rpcs.len() == 0
        &&& app.router.private_rpcs matches Some(p) ==> Router::pool_matches(
            p,
            config.private_rpcs,
        )
        &&& app.router.tracker.tips@.len() == 0
        &&& app.router.tracker.canonical is None
        &&& app.router.tracker.min_synced_upstreams == config.shared.min_synced_upstreams
        &&& app.router.tracker.reorg_depth == config.shared.reorg_depth
        &&& app.router.cache@.len() == 0
        &&& app.router.cache.max_entries == config.shared.response_cache_max_entries
        &&& app.router.cache.max_bytes == config.shared.response_cache_max_bytes
        &&& app.router.inflight@ == crate::inflight::Flights::empty()
        &&& app.router.inflight.next_ticket == 0
        &&& app.fanout.next_subscription_id == 1
        &&& app.fanout.subscriptions@.len() == 0
        &&& app.pending_transactions@ == crate::pending::TxEntries::empty()
        &&& app.pending_transactions.order@.len() == 0
        &&& app.pending_transactions.reorg_depth == config.shared.reorg_depth
        &&& app.pending_transactions.retention == PENDING_TX_RETENTION_MS
        &&& app.pending_transactions.max_entries == PENDING_TX_CAP
        &&& app.user_cache@ == TtlEntries::empty()
        &&& app.user_cache.ttl == USER_CACHE_TTL_MS
    }

    /// The application that `config` describes, before it has heard of any
    /// head, request, subscription, transaction or user.
    pub fn spawn(config: &RpcConfig) -> (r: Result<Web3ProxyApp, ErrorKind>)
        ensures
            r is Ok <==> Router::buildable(*config),
            r matches Err(e) ==> e == ErrorKind::InvalidConfig,
            r matches Ok(app) ==> {
                &&& app.wf()
                &&& Web3ProxyApp::fresh_for(app, *config)
            },
    {
        match Router::new(config) {
            Err(e) => Err(e),
            Ok(router) => Ok(
                Web3ProxyApp {
                    router,
                    fanout: Fanout::new(),
                    pending_transactions: PendingTxIndex::new(
                        config.shared.reorg_depth,
                        PENDING_TX_RETENTION_MS,
                        PENDING_TX_CAP,
                    ),
                    user_cache: CacheWithTTL::new_with_capacity(USER_CACHE_CAP, USER_CACHE_TTL_MS),
                },
            ),
        }
    }

    /// The application for the first configuration that the watcher of the
    /// configuration file delivered. Without one there is nothing to start
    /// from.
    pub fn spawn_with_watched_config(first_config: Option<&RpcConfig>) -> (r: Result<
        Web3ProxyApp,
        ErrorKind,
    >)
        ensures
            r is Ok <==> (first_config matches Some(c) && Router::buildable(*c)),
            r matches Err(e) ==> e == ErrorKind::InvalidConfig,
            r matches Ok(app) ==> app.wf() && Web3ProxyApp::fresh_for(app, *first_config.unwrap()),
    {
        match first_config {
            None => Err(ErrorKind::InvalidConfig),
            Some(config) => Web3ProxyApp::spawn(config),
        }
    }

    /// Takes a new configuration while the proxy runs, as
    /// `Router::update_config` does: the chain id must not change, and a
    /// configuration that is rejected leaves the application exactly as it
    /// is.
    pub fn update_config(&mut self, new_config: &RpcConfig) -> (r: Result<
        (Pool, Option<Pool>),
        ErrorKind,
    >)
        requires
            old(self).wf(),
        ensures
            final(self).wf(),
            r is Ok <==> new_config.shared.chain_id == old(self).router.chain_id
                && Router::buildable(*new_config),
            r matches Err(e) ==> e == ErrorKind::InvalidConfig && *final(self) == *old(self),
            r matches Ok(previous) ==> {
                &&& previous.0 == old(self).router.balanced_rpcs
                &&& previous.1 == old(self).router.private_rpcs
                &&& Router::pool_matches(final(self).router.balanced_rpcs, new_config.balanced_rpcs)
                &&& final(self).router.private_rpcs is None <==> new_config.private_rpcs.len() == 0
                &&& final(self).router.private_rpcs matches Some(p) ==> Router::pool_matches(
                    p,
                    new_config.private_rpcs,
                )
                &&& final(self).router.chain_id == old(self).router.chain_id
                &&& final(self).router.request_timeout_secs == old(self).router.request_timeout_secs
                &&& final(self).router.max_retries == old(self).router.max_retries
                &&& final(self).router.max_head_age == old(self).router.max_head_age
                &&& final(self).router.tracker.min_synced_upstreams
                    == old(self).router.tracker.min_synced_upstreams
                &&& final(self).router.tracker.reorg_depth == old(self).router.tracker.reorg_depth
                &&& final(self).router.tracker.tips@.len() == 0
                &&& final(self).router.tracker.canonical == old(self).router.tracker.canonical
                &&& final(self).router.cache == old(self).router.cache
                &&& final(self).router.inflight == old(self).router.inflight
                &&& final(self).fanout == old(self).fanout
                &&& final(self).pending_transactions == old(self).pending_transactions
                &&& final(self).user_cache == old(self).user_cache
            },
    {
        self.router.update_config(new_config)
    }

    /// Handles a subscription request, as `Fanout::eth_subscribe` does:
    /// the subscription is registered and the request is answered with its
    /// id.
    pub fn eth_subscribe(&mut self, payload: &JsonRpcRequest) -> (r: Result<
        (u64, JsonRpcForwardedResponse),
        ErrorKind,
    >)
        requires
            old(self).wf(),
        ensures
            final(self).wf(),
            final(self).router == old(self).router,
            final(self).pending_transactions == old(self).pending_transactions,
            final(self).user_cache == old(self).user_cache,
            crate::subscription::subscribed(old(self).fanout, final(self).fanout, *payload, r),
    {
        self.fanout.eth_subscribe(payload)
    }

    /// The pending transactions.
    pub fn get_pending_transactions(&self) -> (r: &PendingTxIndex)
        ensures
            *r == self.pending_transactions,
    {
        &self.pending_transactions
    }

    /// The upstreams that requests are balanced over.
    pub fn get_balanced_rpcs(&self) -> (r: &Pool)
        ensures
            *r == self.router.balanced_rpcs,
    {
        &self.router.balanced_rpcs
    }

    /// The upstreams that transactions are submitted to: the private ones,
    /// or the balanced ones where no private upstream is configured.
    pub fn get_private_rpcs(&self) -> (r: &Pool)
        ensures
            *r == self.router.submission_pool(),
    {
        match &self.router.private_rpcs {
            Some(p) => p,
            None => &self.router.balanced_rpcs,
        }
    }

    /// The requests in flight.
    pub fn get_active_requests(&self) -> (r: &InflightTable)
        ensures
            *r == self.router.inflight,
    {
        &self.router.inflight
    }

    /// Decides what is to happen for one request, as `Router::route` does.
    pub fn proxy_web3_rpc_request(&mut self, request: &JsonRpcRequest) -> (action: Action)
        requires
            old(self).wf(),
        ensures
            final(self).wf(),
            final(self).fanout == old(self).fanout,
            final(self).pending_transactions == old(self).pending_transactions,
            final(self).user_cache == old(self).user_cache,
            request_routed(old(self).router, final(self).router, *request, action),
            old(self).router.same_pools_and_head(final(self).router),
    {
        self.router.route(request)
    }

    /// Decides what is to happen for each of `requests`: they are routed
    /// one after the other, each by itself, and the actions come in the
    /// order of the requests.
    pub fn proxy_web3_rpc_requests(&mut self, requests: &Vec<JsonRpcRequest>) -> (actions: Vec<
        Action,
    >)
        requires
            old(self).wf(),
        ensures
            final(self).wf(),
            final(self).fanout == old(self).fanout,
            final(self).pending_transactions == old(self).pending_transactions,
            final(self).user_cache == old(self).user_cache,
            old(self).router.same_pools_and_head(final(self).router),
            exists|states: Seq<Router>|
                states[0] == old(self).router && states.last() == final(self).router
                    && #[trigger] routed_in_order(states, requests@, actions@),
    {
        let mut actions: Vec<Action> = Vec::new();
        let ghost mut states: Seq<Router> = seq![self.router];
        let mut i: usize = 0;
        while i < requests.len()
            invariant
                i <= requests.len(),
                self.wf(),
                self.fanout == old(self).fanout,
                self.pending_transactions == old(self).pending_transactions,
                self.user_cache == old(self).user_cache,
                old(self).router.same_pools_and_head(self.router),
                states.len() == i + 1,
                states[0] == old(self).router,
                states.last() == self.router,
                routed_in_order(states, requests@.take(i as int), actions@),
            decreases requests.len() - i,
        {
            let ghost before = states;
            let ghost done = actions@;
            let action = self.router.route(&requests[i]);
            actions.push(action);
            proof {
                states = states.push(self.router);
                assert forall|k: int| 0 <= k < i + 1 implies request_routed(
                    states[k],
                    states[k + 1],
                    requests@.take(i + 1)[k],
                    #[trigger] actions@[k],
                ) by {
                    if k < i {
                        assert(states[k] == before[k]);
                        assert(states[k + 1] == before[k + 1]);
                        assert(requests@.take(i + 1)[k] == requests@.take(i as int)[k]);
                        assert(actions@[k] == done[k]);
                    }
                }
            }
            i += 1;
        }
        assert(requests@.take(requests.len() as int) =~= requests@);
        actions
    }

    /// Decides what is to happen for a call: for its one request, or for
    /// each request of its batch in order.
    pub fn proxy_web3_rpc(&mut self, request: &JsonRpcRequestEnum) -> (actions: Vec<Action>)
        requires
            old(self).wf(),
        ensures
            final(self).wf(),
            final(self).fanout == old(self).fanout,
            final(self).pending_transactions == old(self).pending_transactions,
            final(self).user_cache == old(self).user_cache,
            old(self).router.same_pools_and_head(final(self).router),
            exists|states: Seq<Router>|
                states[0] == old(self).router && states.last() == final(self).router
                    && #[trigger] routed_in_order(states, requests_of(*request), actions@),
    {
        match request {
            JsonRpcRequestEnum::Single(r) => {
                let ghost before = self.router;
                let action = self.router.route(r);
                let mut actions: Vec<Action> = Vec::new();
                actions.push(action);
                proof {
                    let states = seq![before, self.router];
                    assert(requests_of(*request) =~= seq![*r]);
                    assert(states.len() == 2 && states[0] == before && states[1] == self.router);
                    assert(actions@.len() == 1 && actions@[0] == action);
                    assert(request_routed(states[0], states[1], requests_of(*request)[0], actions@[0]));
                    assert(routed_in_order(states, requests_of(*request), actions@));
                    assert(states[0] == before && states.last() == self.router);
                }
                actions
            },
            JsonRpcRequestEnum::Batch(rs) => {
                let actions = self.proxy_web3_rpc_requests(rs);
                assert(requests_of(*request) == rs@);
                actions
            },
        }
    }

    /// What rate limiting decides for the address `ip` on the answer of the
    /// limiter.
    pub fn rate_limit_by_ip(&self, ip: Ip, outcome: ThrottleOutcome) -> (r: RateLimitResult)
        ensures
            r == ip_decision(ip, outcome),
    {
        match outcome {
            ThrottleOutcome::Allowed => RateLimitResult::AllowedIp(ip),
            ThrottleOutcome::RetryAt(retry_at) => RateLimitResult::RateLimitedIp(ip, Some(retry_at)),
            ThrottleOutcome::RetryNever => RateLimitResult::RateLimitedIp(ip, None),
            ThrottleOutcome::Error => RateLimitResult::AllowedIp(ip),
        }
    }

    /// What is remembered at `now` of the user behind the API key
    /// `user_key`, if anything is and has not expired.
    pub fn cached_user(&self, user_key: u128, now: u64) -> (r: Option<UserCacheValue>)
        ensures
            r == self.user_cache.live_at(user_key, now),
    {
        self.user_cache.get(&user_key, now)
    }

    /// Remembers what the user store holds for the API key `user_key`:
    /// `row` is the id of the user and the requests per minute, or `None`
    /// where the store has no active key like it. The value is to be kept
    /// for a minute from `now` and is returned as it was handed to the
    /// cache, together with what a lookup right after found: whether the
    /// cache holds it. The cache is bounded and may give up entries for a
    /// new key; the value of a key that it holds already, expired or not,
    /// is written over and stays.
    pub fn cache_user_data(&mut self, user_key: u128, row: Option<(u64, u64)>, now: u64) -> (r:
        Stored)
        ensures
            final(self).router == old(self).router,
            final(self).fanout == old(self).fanout,
            final(self).pending_transactions == old(self).pending_transactions,
            final(self).user_cache.ttl == old(self).user_cache.ttl,
            r.value == (UserCacheValue {
                expires_at: expiry(now, old(self).user_cache.ttl),
                ..user_data(row)
            }),
            within(final(self).user_cache@, old(self).user_cache@, user_key, r.value),
            r.held == (stored(final(self).user_cache@, user_key) == Some(r.value)),
            r.held ==> final(self).user_cache.live_at(user_key, now) == Some(r.value),
            old(self).user_cache@.contains_key(user_key) ==> r.held,
    {
        let value = match row {
            Some((user_id, requests_per_minute)) => UserCacheValue {
                expires_at: 0,
                user_id,
                user_count_per_period: if requests_per_minute == u64::MAX {
                    None
                } else {
                    Some(requests_per_minute)
                },
            },
            None => UserCacheValue { expires_at: 0, user_id: 0, user_count_per_period: Some(0) },
        };
        self.user_cache.insert(user_key, value, now)
    }

    /// The limit to ask the limiter with for a request of `user`, where
    /// the limiter is to be asked at all.
    pub fn throttle_request(user: &UserCacheValue) -> (r: Option<u64>)
        ensures
            r == throttle_limit(*user),
    {
        if user.user_id == 0 {
            None
        } else {
            user.user_count_per_period
        }
    }

    /// What rate limiting decides for a request of `user` on the answer of
    /// the limiter, which counts only where the limiter was to be asked.
    pub fn rate_limit_by_key(&self, user: &UserCacheValue, outcome: ThrottleOutcome) -> (r:
        RateLimitResult)
        ensures
            r == key_decision(*user, outcome),
    {
        if user.user_id == 0 {
            return RateLimitResult::UnknownKey;
        }
        if user.user_count_per_period.is_none() {
            return RateLimitResult::AllowedUser(user.user_id);
        }
        match outcome {
            ThrottleOutcome::Allowed => RateLimitResult::AllowedUser(user.user_id),
            ThrottleOutcome::RetryAt(retry_at) => RateLimitResult::RateLimitedUser(
                user.user_id,
                Some(retry_at),
            ),
            ThrottleOutcome::RetryNever => RateLimitResult::RateLimitedUser(user.user_id, None),
            ThrottleOutcome::Error => RateLimitResult::AllowedUser(user.user_id),
        }
    }
}

} // verus!
