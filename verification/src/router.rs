//! The request router: for each request it decides what is to happen next,
//! from the class of the method, the response cache, the requests in flight
//! and the state of the pools.
//!
//! The router performs no call itself. It returns an action; whoever drives
//! it performs the action and reports back what came of it.

use vstd::prelude::*;
use vstd::string::StringExecFns;
use crate::block::{BlockRef, CanonicalHead};
use crate::cache::{
    admits, after_insert, distinct_keys, holds, lookup, CacheKey, CacheKeyView, EntryView,
    ResponseCache,
};
use crate::config::{pool_spawnable, spawn_pool, RpcConfig};
use crate::dispatch::{after_attempt, attempt_result, Attempt, SendOutcome, DEFAULT_MAX_RETRIES};
use crate::encoding::{decimal_digits, quantity, u64_decimal, u64_quantity};
use crate::errors::ErrorKind;
use crate::head::{HeadReport, HeadTracker};
use crate::inflight::{Claim, Flights, InflightTable};
use crate::jsonrpc::{
    canonical_params, canonicalize, quoted, JsonRpcForwardedResponse, JsonRpcRequest, Payload,
};
use crate::method::{classify, method_class, MethodClass};
use crate::pool::{any_eligible, best_choice, is_all_healthy, Pool};
use crate::text::str_equal;
use crate::upstream::{ThrottleOutcome, Upstream};

verus! {

/// How old the head of a healthy upstream may be, in milliseconds, where
/// nothing else is configured.
pub const DEFAULT_MAX_HEAD_AGE_MS: u64 = 60_000;

/// What is to happen next for a request.
#[derive(Debug, PartialEq, Eq)]
pub enum Action {
    /// Answer with this payload.
    Respond(Payload),
    /// Answer with this error.
    Reject(ErrorKind),
    /// Another request is making the upstream call for `key`. Wait until the
    /// holder of `ticket` has finished, then ask again with `after_wait`.
    Wait { key: CacheKey, ticket: u64 },
    /// Send the request to upstream `upstream` of the balanced pool and
    /// report the outcome with `complete`. The request owns the call for
    /// `key`, under `ticket`.
    Send { upstream: usize, key: CacheKey, ticket: u64 },
    /// Send the request to every one of `targets` at once and combine the
    /// outcomes as a broadcast. With `private` the targets are upstreams of
    /// the private pool, else of the balanced one.
    Broadcast { private: bool, targets: Vec<usize> },
    /// Send the request to every one of `targets` of the balanced pool at
    /// once and combine the outcomes as a fan query.
    FanQuery { targets: Vec<usize> },
}

/// What follows the report of an upstream call.
#[derive(Debug, PartialEq, Eq)]
pub enum Completion {
    /// Send the request again, to upstream `upstream` of the balanced pool.
    Retry { upstream: usize },
    /// Answer with `result` and wake those who wait for `wake`.
    Done { result: Result<Payload, ErrorKind>, wake: Option<u64> },
}

/// What a shutdown does next.
#[derive(Clone, Copy, Debug, PartialEq, Eq, Structural)]
pub enum ShutdownStep {
    /// Nothing is in flight: the upstreams can be closed.
    Done,
    /// Requests are in flight and the grace period has not passed: wait.
    Wait,
    /// Requests are in flight and the grace period has passed: close the
    /// upstreams and cancel what is left.
    ForceCancel,
}

/// How a cacheable request is served.
#[derive(Clone, Copy, Debug, PartialEq, Eq, Structural)]
pub enum Resolution {
    /// From the cache.
    Hit,
    /// By waiting for the request that is in flight.
    Join,
    /// By an upstream call of its own.
    Own,
}

/// How a request for `key` is served, given what the cache and the table of
/// requests in flight hold.
pub open spec fn resolution(cache: Seq<EntryView>, table: Flights, key: CacheKeyView) -> Resolution {
    if holds(cache, key) {
        Resolution::Hit
    } else if table.contains_key(key) {
        Resolution::Join
    } else {
        Resolution::Own
    }
}

/// The key under which the result of a cacheable request is filed: with the
/// hash of the canonical head where the result depends on the head, without
/// where it does not.
pub open spec fn request_key(
    class: MethodClass,
    head: Option<CanonicalHead>,
    method: Seq<char>,
    params: Option<Seq<char>>,
) -> CacheKeyView {
    CacheKeyView {
        head: if class == MethodClass::HeadDependent && head is Some {
            Some(head.unwrap().hash@)
        } else {
            None
        },
        method,
        params,
    }
}

/// The answer that the proxy gives by itself to a method that depends on no
/// head: the chain id as a quantity for `eth_chainId`, in decimal for the
/// others, each as a JSON string.
pub open spec fn local_answer(chain_id: u64, method: Seq<char>) -> Seq<char> {
    if method == "eth_chainId"@ {
        quoted(quantity(chain_id as nat))
    } else {
        quoted(decimal_digits(chain_id as nat))
    }
}

/// The keys of one request at two different heads differ: what was cached
/// at one head is filed where no request at the other looks.
pub proof fn lemma_head_change_changes_key(
    a: CanonicalHead,
    b: CanonicalHead,
    method: Seq<char>,
    params: Option<Seq<char>>,
)
    requires
        a.hash@ != b.hash@,
    ensures
        request_key(MethodClass::HeadDependent, Some(a), method, params) != request_key(
            MethodClass::HeadDependent,
            Some(b),
            method,
            params,
        ),
{
}

/// A response cached at one head is not returned at another: after the
/// result of a head-dependent request has been stored at head `a`, the
/// same request at a head `b` with another hash finds in the cache only
/// what it found before.
pub proof fn lemma_cached_at_old_head_is_not_returned(
    cache: Seq<EntryView>,
    a: CanonicalHead,
    b: CanonicalHead,
    method: Seq<char>,
    params: Option<Seq<char>>,
    body: Seq<char>,
    max_entries: nat,
    limit: nat,
)
    requires
        distinct_keys(cache),
        a.hash@ != b.hash@,
    ensures
        ({
            let key_a = request_key(MethodClass::HeadDependent, Some(a), method, params);
            let key_b = request_key(MethodClass::HeadDependent, Some(b), method, params);
            let after = after_insert(cache, key_a, body, max_entries, limit);
            lookup(after, key_b) is Some ==> lookup(after, key_b) == lookup(cache, key_b)
        }),
{
    let key_a = request_key(MethodClass::HeadDependent, Some(a), method, params);
    let key_b = request_key(MethodClass::HeadDependent, Some(b), method, params);
    crate::cache::lemma_insert_keeps_other_keys_apart(cache, key_a, body, max_entries, limit, key_b);
}

/// Of two identical cacheable requests that overlap, the second makes no
/// upstream call: while the first is in flight it joins it, and once the
/// result of the first is stored it is served from the cache.
pub proof fn lemma_second_request_makes_no_call(
    cache: Seq<EntryView>,
    table: Flights,
    key: CacheKeyView,
    ticket: u64,
    body: Seq<char>,
    max_entries: nat,
    limit: nat,
)
    requires
        distinct_keys(cache),
        resolution(cache, table, key) == Resolution::Own,
        admits(cache, key, body, max_entries, limit),
    ensures
        resolution(cache, table.insert(key, ticket), key) == Resolution::Join,
        resolution(
            after_insert(cache, key, body, max_entries, limit),
            table.insert(key, ticket).remove(key),
            key,
        ) == Resolution::Hit,
        lookup(after_insert(cache, key, body, max_entries, limit), key) == Some(body),
{
    let after = after_insert(cache, key, body, max_entries, limit);
    let last = after.len() - 1;
    assert(after[last].key == key);
    assert(holds(after, key));
    let i = choose|i: int| 0 <= i < after.len() && (#[trigger] after[i]).key == key;
    if i != last {
        let n = crate::cache::evictions(cache, max_entries, limit, crate::cache::body_size(body)) as int;
        crate::cache::lemma_evictions_within(cache, max_entries, limit, crate::cache::body_size(body));
        assert(after[i] == cache[i + n]);
        assert(holds(cache, key));
    }
}

/// What `Router::resolve` does for the request filed under `key`.
///
/// Where the cache holds a response, that is the answer. Where a request
/// for the key is in flight, the caller waits for it. Otherwise the caller
/// becomes the owner of the upstream call and is told where to send; where
/// it cannot be sent, it is rejected and owns nothing. Nothing but the
/// requests in flight changes.
pub open spec fn resolved(before: Router, after: Router, key: CacheKeyView, action: Action) -> bool {
    &&& before.same_but_inflight(after)
    &&& match resolution(before.cache@, before.inflight@, key) {
        Resolution::Hit => {
            &&& action matches Action::Respond(Payload::Result(body))
            &&& Some(body@) == lookup(before.cache@, key)
            &&& after.inflight == before.inflight
        },
        Resolution::Join => {
            &&& action matches Action::Wait { key: k, ticket }
            &&& k@ == key
            &&& ticket == before.inflight@[key]
            &&& after.inflight == before.inflight
        },
        Resolution::Own => if before.can_send() {
            &&& action matches Action::Send { upstream, key: k, ticket }
            &&& k@ == key
            &&& ticket == before.inflight.next_ticket
            &&& best_choice(
                before.balanced_rpcs.upstreams@,
                before.tracker.canonical.unwrap(),
                upstream as int,
            )
            &&& after.inflight@ == before.inflight@.insert(key, ticket)
            &&& after.inflight.next_ticket == (if ticket == u64::MAX {
                0
            } else {
                ticket + 1
            })
        } else {
            &&& action matches Action::Reject(e)
            &&& e == before.cannot_send_error()
            &&& after.inflight == before.inflight
        },
    }
}

/// For one key at most one upstream call is in flight: a request is sent
/// only where none was in flight for its key, and from then on one is.
pub proof fn lemma_send_only_when_not_in_flight(
    before: Router,
    after: Router,
    key: CacheKeyView,
    action: Action,
)
    requires
        resolved(before, after, key, action),
        action is Send,
    ensures
        !before.inflight@.contains_key(key),
        !holds(before.cache@, key),
        after.inflight@.contains_key(key),
        resolution(after.cache@, after.inflight@, key) == Resolution::Join,
{
}

/// Whether a pool has a healthy upstream.
pub open spec fn any_healthy(pool: Pool) -> bool {
    exists|j: int| 0 <= j < pool.upstreams.len() && (#[trigger] pool.upstreams[j]).selectable()
}

/// The characters of an optional string.
pub open spec fn opt_view(s: Option<String>) -> Option<Seq<char>> {
    match s {
        Some(t) => Some(t@),
        None => None,
    }
}

/// What `Router::route_with` does for a request for `method` whose
/// parameters have the canonical form `params`.
///
/// A forbidden method is rejected as unsupported. A submission is broadcast
/// to the healthy upstreams of the private pool, or of the balanced one
/// where there is no private pool. A fan query is put to the healthy
/// upstreams of the balanced pool. Either finds no server where none is
/// healthy. A method that depends on no head is answered from the cache or
/// from the configuration, and the answer is cached. Every other method
/// needs a canonical head; with one, it is resolved under the key of the
/// request at that head.
pub open spec fn routed(
    before: Router,
    after: Router,
    method: Seq<char>,
    params: Option<Seq<char>>,
    action: Action,
) -> bool {
    let class = method_class(method);
    let key = request_key(class, before.tracker.canonical, method, params);
    match class {
        MethodClass::Forbidden => {
            &&& after == before
            &&& action matches Action::Reject(e)
            &&& e == ErrorKind::Unsupported
        },
        MethodClass::PrivateSend => {
            &&& after == before
            &&& if any_healthy(before.submission_pool()) {
                &&& action matches Action::Broadcast { private, targets }
                &&& private == before.private_rpcs is Some
                &&& is_all_healthy(before.submission_pool().upstreams@, targets@)
            } else {
                &&& action matches Action::Reject(e)
                &&& e == ErrorKind::NoServers
            }
        },
        MethodClass::FanQuery => {
            &&& after == before
            &&& if any_healthy(before.balanced_rpcs) {
                &&& action matches Action::FanQuery { targets }
                &&& is_all_healthy(before.balanced_rpcs.upstreams@, targets@)
            } else {
                &&& action matches Action::Reject(e)
                &&& e == ErrorKind::NoServers
            }
        },
        MethodClass::HeadIndependent => {
            &&& before.same_pools_and_head(after)
            &&& after.inflight == before.inflight
            &&& action matches Action::Respond(Payload::Result(body))
            &&& match lookup(before.cache@, key) {
                Some(cached) => body@ == cached && after.cache == before.cache,
                None => body@ == local_answer(before.chain_id, method) && after.cache@
                    == after_insert(
                    before.cache@,
                    key,
                    body@,
                    before.cache.max_entries as nat,
                    before.cache.limit(),
                ),
            }
        },
        MethodClass::HeadDependent => if before.tracker.canonical is None {
            &&& after == before
            &&& action matches Action::Reject(e)
            &&& e == ErrorKind::NotSynced
        } else {
            resolved(before, after, key, action)
        },
    }
}

/// What `Router::route` does for `request`: parameters of a cacheable
/// method that are no JSON make the request invalid; the rest is as
/// `routed` describes it, on the parameters in canonical form.
pub open spec fn request_routed(
    before: Router,
    after: Router,
    request: JsonRpcRequest,
    action: Action,
) -> bool {
    if !method_class(request.method@).cacheable() {
        routed(before, after, request.method@, None, action)
    } else {
        match canonical_params(request.params) {
            Ok(params) => routed(before, after, request.method@, params, action),
            Err(_) => {
                &&& after == before
                &&& action matches Action::Reject(e)
                &&& e == ErrorKind::InvalidRequest
            },
        }
    }
}

/// What `Router::complete` does when the upstream call for `key` has ended
/// with `outcome` after `retries` retries.
///
/// A failure of the transport that may still be retried sends the request
/// to the upstream that is the best by now, and nothing changes. Everything
/// else ends the flight: the key is in flight no more, those who wait for
/// its ticket are woken, and the request is answered. A result is stored in
/// the cache before that; an error is not.
pub open spec fn completed(
    before: Router,
    after: Router,
    key: CacheKeyView,
    outcome: SendOutcome,
    retries: u32,
    completion: Completion,
) -> bool {
    let attempt = attempt_result(outcome, retries, before.max_retries);
    &&& before.same_pools_and_head(after)
    &&& after.inflight.next_ticket == before.inflight.next_ticket
    &&& if attempt is Retry && before.can_send() {
        &&& completion matches Completion::Retry { upstream }
        &&& best_choice(
            before.balanced_rpcs.upstreams@,
            before.tracker.canonical.unwrap(),
            upstream as int,
        )
        &&& after.cache == before.cache
        &&& after.inflight == before.inflight
    } else {
        &&& completion matches Completion::Done { result, wake }
        &&& result == (match attempt {
            Attempt::Retry => Err(before.cannot_send_error()),
            Attempt::Done(r) => r,
        })
        &&& wake == crate::inflight::ticket_of(before.inflight@, key)
        &&& after.inflight@ == before.inflight@.remove(key)
        &&& match result {
            Ok(Payload::Result(body)) => after.cache@ == after_insert(
                before.cache@,
                key,
                body@,
                before.cache.max_entries as nat,
                before.cache.limit(),
            ),
            _ => after.cache == before.cache,
        }
    }
}

/// What `Router::begin_send` does: the pool that the request goes to
/// decides on the admission, as `Pool::begin_send` does; the other pool and
/// everything else stay as they are.
pub open spec fn send_begun(
    before: Router,
    after: Router,
    private: bool,
    upstream: usize,
    limiter: ThrottleOutcome,
    r: Result<(), ErrorKind>,
) -> bool {
    &&& after.chain_id == before.chain_id
    &&& after.request_timeout_secs == before.request_timeout_secs
    &&& after.max_retries == before.max_retries
    &&& after.max_head_age == before.max_head_age
    &&& after.tracker == before.tracker
    &&& after.cache == before.cache
    &&& after.inflight == before.inflight
    &&& after.private_rpcs is Some <==> before.private_rpcs is Some
    &&& if private && before.private_rpcs is Some {
        &&& after.balanced_rpcs == before.balanced_rpcs
        &&& crate::pool::send_begun(
            before.private_rpcs.unwrap(),
            after.private_rpcs.unwrap(),
            upstream,
            limiter,
            r,
        )
    } else {
        &&& after.private_rpcs == before.private_rpcs
        &&& crate::pool::send_begun(before.balanced_rpcs, after.balanced_rpcs, upstream, limiter, r)
    }
}

/// What `Router::end_send` does: the pool that the request went to records
/// the end of the send, as `Pool::end_send` does; the other pool and
/// everything else stay as they are.
pub open spec fn send_ended(
    before: Router,
    after: Router,
    private: bool,
    upstream: usize,
    transport_failed: bool,
    now: u64,
) -> bool {
    &&& after.chain_id == before.chain_id
    &&& after.request_timeout_secs == before.request_timeout_secs
    &&& after.max_retries == before.max_retries
    &&& after.max_head_age == before.max_head_age
    &&& after.tracker == before.tracker
    &&& after.cache == before.cache
    &&& after.inflight == before.inflight
    &&& after.private_rpcs is Some <==> before.private_rpcs is Some
    &&& if private && before.private_rpcs is Some {
        &&& after.balanced_rpcs == before.balanced_rpcs
        &&& crate::pool::send_ended(
            before.private_rpcs.unwrap(),
            after.private_rpcs.unwrap(),
            upstream,
            transport_failed,
            now,
        )
    } else {
        &&& after.private_rpcs == before.private_rpcs
        &&& crate::pool::send_ended(
            before.balanced_rpcs,
            after.balanced_rpcs,
            upstream,
            transport_failed,
            now,
        )
    }
}

/// What `Router::report_head` does with the report of upstream `upstream`
/// of the balanced pool that its head is `block`.
///
/// A report of an upstream that does not exist or is closed is dropped.
/// Otherwise the tracker takes it. Where the tracker ignores it, the
/// upstream is degraded; where not, the upstream records its new head.
pub open spec fn head_reported(
    before: Router,
    after: Router,
    upstream: usize,
    block: BlockRef,
    observed_at: u64,
    now: u64,
    r: Option<HeadReport>,
) -> bool {
    let pool = before.balanced_rpcs;
    &&& after.chain_id == before.chain_id
    &&& after.request_timeout_secs == before.request_timeout_secs
    &&& after.max_retries == before.max_retries
    &&& after.max_head_age == before.max_head_age
    &&& after.private_rpcs == before.private_rpcs
    &&& after.cache == before.cache
    &&& after.inflight == before.inflight
    &&& if upstream >= pool.upstreams.len() || pool.upstreams[upstream as int].health
        == crate::upstream::Health::Closed {
        r is None && after == before
    } else {
        &&& r matches Some(report)
        &&& crate::head::reported(
            before.tracker,
            after.tracker,
            pool.upstreams[upstream as int].id@,
            block,
            report,
        )
        &&& if report.ignored {
            crate::pool::fell_behind(pool, after.balanced_rpcs, upstream)
        } else {
            crate::pool::head_observed(
                pool,
                after.balanced_rpcs,
                upstream,
                block,
                observed_at,
                now,
                before.max_head_age,
            )
        }
    }
}

/// The router.
pub struct Router {
    /// The id of the chain that every upstream serves.
    pub chain_id: u64,
    /// The overall deadline of a request, in seconds.
    pub request_timeout_secs: u64,
    /// How often a call that failed in transport is sent again.
    pub max_retries: u32,
    /// How old the head of a healthy upstream may be, in milliseconds.
    pub max_head_age: u64,
    /// The upstreams that requests are balanced over.
    pub balanced_rpcs: Pool,
    /// The upstreams that transactions are submitted to, if there are any.
    pub private_rpcs: Option<Pool>,
    /// The head-block tracker.
    pub tracker: HeadTracker,
    /// The response cache.
    pub cache: ResponseCache,
    /// The requests in flight.
    pub inflight: InflightTable,
}

impl Router {
    /// The invariant of the router: that of each of its parts.
    pub open spec fn wf(self) -> bool {
        &&& self.balanced_rpcs.wf()
        &&& (self.private_rpcs matches Some(p) ==> p.wf())
        &&& self.tracker.wf()
        &&& self.cache.wf()
    }

    /// The pool that transactions are submitted to: the private one, or the
    /// balanced one where no private upstream is configured.
    pub open spec fn submission_pool(self) -> Pool {
        match self.private_rpcs {
            Some(p) => p,
            None => self.balanced_rpcs,
        }
    }

    /// Whether `other` differs from this router in nothing but the requests
    /// in flight.
    pub open spec fn same_but_inflight(self, other: Router) -> bool {
        &&& self.chain_id == other.chain_id
        &&& self.request_timeout_secs == other.request_timeout_secs
        &&& self.max_retries == other.max_retries
        &&& self.max_head_age == other.max_head_age
        &&& self.balanced_rpcs == other.balanced_rpcs
        &&& self.private_rpcs == other.private_rpcs
        &&& self.tracker == other.tracker
        &&& self.cache == other.cache
    }

    /// Whether `other` differs from this router in nothing but the cache
    /// and the requests in flight.
    pub open spec fn same_pools_and_head(self, other: Router) -> bool {
        &&& self.chain_id == other.chain_id
        &&& self.request_timeout_secs == other.request_timeout_secs
        &&& self.max_retries == other.max_retries
        &&& self.max_head_age == other.max_head_age
        &&& self.balanced_rpcs == other.balanced_rpcs
        &&& self.private_rpcs == other.private_rpcs
        &&& self.tracker == other.tracker
        &&& self.cache.max_entries == other.cache.max_entries
        &&& self.cache.max_bytes == other.cache.max_bytes
    }

    /// Whether a router can be made of `config`: a pool can be made of the
    /// balanced upstreams and one of the private upstreams.
    pub open spec fn buildable(config: RpcConfig) -> bool {
        let limiter = config.shared.rate_limit_redis.is_some();
        pool_spawnable(config.balanced_rpcs@, limiter) && pool_spawnable(
            config.private_rpcs@,
            limiter,
        )
    }

    /// Whether `pool` is the pool that `rpcs` describes.
    pub open spec fn pool_matches(pool: Pool, rpcs: crate::config::RpcSet) -> bool {
        &&& pool.upstreams.len() == rpcs.len()
        &&& forall|i: int|
            0 <= i < rpcs.len() ==> (#[trigger] pool.upstreams[i]) == Upstream::fresh(
                rpcs[i].0,
                rpcs[i].1.soft_limit,
                rpcs[i].1.hard_limit,
            )
    }

    /// The two pools that `config` describes; no private pool where no
    /// private upstream is configured.
    fn build_pools(config: &RpcConfig) -> (r: Result<(Pool, Option<Pool>), ErrorKind>)
        ensures
            r is Ok <==> Router::buildable(*config),
            r matches Err(e) ==> e == ErrorKind::InvalidConfig,
            r matches Ok(pools) ==> {
                &&& pools.0.wf()
                &&& Router::pool_matches(pools.0, config.balanced_rpcs)
                &&& pools.1 is None <==> config.private_rpcs.len() == 0
                &&& pools.1 matches Some(p) ==> p.wf() && Router::pool_matches(
                    p,
                    config.private_rpcs,
                )
            },
    {
        let limiter = config.has_rate_limiter();
        let balanced = match spawn_pool(&config.balanced_rpcs, limiter) {
            Ok(p) => p,
            Err(e) => {
                return Err(e);
            },
        };
        let private = match spawn_pool(&config.private_rpcs, limiter) {
            Ok(p) => p,
            Err(e) => {
                return Err(e);
            },
        };
        if config.private_rpcs.len() == 0 {
            Ok((balanced, None))
        } else {
            Ok((balanced, Some(private)))
        }
    }

    /// The router that `config` describes: its pools fresh, no head known,
    /// the cache empty and nothing in flight. A configuration of which no
    /// pools can be made is rejected.
    pub fn new(config: &RpcConfig) -> (r: Result<Router, ErrorKind>)
        ensures
            r is Ok <==> Router::buildable(*config),
            r matches Err(e) ==> e == ErrorKind::InvalidConfig,
            r matches Ok(router) ==> {
                &&& router.wf()
                &&& router.chain_id == config.shared.chain_id
                &&& router.request_timeout_secs == config.shared.request_timeout_secs
                &&& router.max_retries == DEFAULT_MAX_RETRIES
                &&& router.max_head_age == DEFAULT_MAX_HEAD_AGE_MS
                &&& Router::pool_matches(router.balanced_rpcs, config.balanced_rpcs)
                &&& router.private_rpcs is None <==> config.private_rpcs.len() == 0
                &&& router.private_rpcs matches Some(p) ==> Router::pool_matches(
                    p,
                    config.private_rpcs,
                )
                &&& router.tracker.tips@.len() == 0
                &&& router.tracker.canonical is None
                &&& router.tracker.min_synced_upstreams == config.shared.min_synced_upstreams
                &&& router.tracker.reorg_depth == config.shared.reorg_depth
                &&& router.cache@.len() == 0
                &&& router.cache.max_entries == config.shared.response_cache_max_entries
                &&& router.cache.max_bytes == config.shared.response_cache_max_bytes
                &&& router.inflight@ == Flights::empty()
                &&& router.inflight.next_ticket == 0
            },
    {
        match Router::build_pools(config) {
            Err(e) => Err(e),
            Ok(pools) => Ok(
                Router {
                    chain_id: config.shared.chain_id,
                    request_timeout_secs: config.shared.request_timeout_secs,
                    max_retries: DEFAULT_MAX_RETRIES,
                    max_head_age: DEFAULT_MAX_HEAD_AGE_MS,
                    balanced_rpcs: pools.0,
                    private_rpcs: pools.1,
                    tracker: HeadTracker::new(
                        config.shared.min_synced_upstreams,
                        config.shared.reorg_depth,
                    ),
                    cache: ResponseCache::new(
                        config.shared.response_cache_max_entries,
                        config.shared.response_cache_max_bytes,
                    ),
                    inflight: InflightTable::new(),
                },
            ),
        }
    }

    /// Takes a new configuration while the proxy runs. One with another
    /// chain id, or of which no pools can be made, is rejected, and the
    /// router stays exactly as it is. Otherwise the pools are replaced in
    /// one step by fresh ones, and the previous pools are handed back to be
    /// shut down once their last reader has let go. The tips of the
    /// previous upstreams are forgotten; the canonical head, the cache and
    /// the requests in flight stay.
    pub fn update_config(&mut self, new_config: &RpcConfig) -> (r: Result<
        (Pool, Option<Pool>),
        ErrorKind,
    >)
        requires
            old(self).wf(),
        ensures
            final(self).wf(),
            r is Ok <==> new_config.shared.chain_id == old(self).chain_id && Router::buildable(
                *new_config,
            ),
            r matches Err(e) ==> e == ErrorKind::InvalidConfig && *final(self) == *old(self),
            r matches Ok(previous) ==> {
                &&& previous.0 == old(self).balanced_rpcs
                &&& previous.1 == old(self).private_rpcs
                &&& Router::pool_matches(final(self).balanced_rpcs, new_config.balanced_rpcs)
                &&& final(self).private_rpcs is None <==> new_config.private_rpcs.len() == 0
                &&& final(self).private_rpcs matches Some(p) ==> Router::pool_matches(
                    p,
                    new_config.private_rpcs,
                )
                &&& final(self).chain_id == old(self).chain_id
                &&& final(self).request_timeout_secs == old(self).request_timeout_secs
                &&& final(self).max_retries == old(self).max_retries
                &&& final(self).max_head_age == old(self).max_head_age
                &&& final(self).tracker.tips@.len() == 0
                &&& final(self).tracker.canonical == old(self).tracker.canonical
                &&& final(self).tracker.min_synced_upstreams
                    == old(self).tracker.min_synced_upstreams
                &&& final(self).tracker.reorg_depth == old(self).tracker.reorg_depth
                &&& final(self).cache == old(self).cache
                &&& final(self).inflight == old(self).inflight
            },
    {
        if new_config.check_reload(self.chain_id).is_err() {
            return Err(ErrorKind::InvalidConfig);
        }
        match Router::build_pools(new_config) {
            Err(e) => Err(e),
            Ok(pools) => {
                let mut balanced = pools.0;
                let mut private = pools.1;
                std::mem::swap(&mut self.balanced_rpcs, &mut balanced);
                std::mem::swap(&mut self.private_rpcs, &mut private);
                self.tracker.clear_tips();
                Ok((balanced, private))
            },
        }
    }

    /// The overall deadline of a request, in milliseconds.
    pub fn deadline_ms(&self) -> (ms: u64)
        ensures
            ms == (if self.request_timeout_secs * 1000 <= u64::MAX {
                self.request_timeout_secs * 1000
            } else {
                u64::MAX as int
            }),
    {
        if self.request_timeout_secs <= u64::MAX / 1000 {
            self.request_timeout_secs * 1000
        } else {
            u64::MAX
        }
    }

    /// The upstream of the balanced pool to send a head-dependent request
    /// to: `NotSynced` while there is no canonical head, else what
    /// `Pool::best` selects at it.
    pub fn pick(&self) -> (r: Result<usize, ErrorKind>)
        requires
            self.wf(),
        ensures
            self.tracker.canonical is None ==> r == Err::<usize, ErrorKind>(ErrorKind::NotSynced),
            self.tracker.canonical matches Some(c) ==> {
                &&& r is Ok <==> (any_eligible(self.balanced_rpcs.upstreams@, c, true)
                    || any_eligible(self.balanced_rpcs.upstreams@, c, false))
                &&& r matches Ok(i) ==> best_choice(self.balanced_rpcs.upstreams@, c, i as int)
                &&& r matches Err(e) ==> e == ErrorKind::NoServers
            },
    {
        match &self.tracker.canonical {
            None => Err(ErrorKind::NotSynced),
            Some(c) => self.balanced_rpcs.best(c),
        }
    }

    /// Whether a request that found neither a cached response nor a request
    /// in flight can be sent: there is a canonical head and an upstream is
    /// eligible at it.
    pub open spec fn can_send(self) -> bool {
        self.tracker.canonical matches Some(c) && (any_eligible(
            self.balanced_rpcs.upstreams@,
            c,
            true,
        ) || any_eligible(self.balanced_rpcs.upstreams@, c, false))
    }

    /// The error for a request that cannot be sent.
    pub open spec fn cannot_send_error(self) -> ErrorKind {
        if self.tracker.canonical is None {
            ErrorKind::NotSynced
        } else {
            ErrorKind::NoServers
        }
    }

    /// Decides how the cacheable request filed under `key` is served: from
    /// the cache, by waiting for the request in flight, or by an upstream
    /// call of its own.
    pub fn resolve(&mut self, key: CacheKey) -> (action: Action)
        requires
            old(self).wf(),
        ensures
            final(self).wf(),
            resolved(*old(self), *final(self), key@, action),
    {
        if let Some(body) = self.cache.get(&key) {
            return Action::Respond(Payload::Result(body));
        }
        if let Some(ticket) = self.inflight.get(&key) {
            return Action::Wait { key, ticket };
        }
        match self.pick() {
            Err(e) => Action::Reject(e),
            Ok(upstream) => match self.inflight.claim(&key) {
                Claim::Owner(ticket) => Action::Send { upstream, key, ticket },
                Claim::Join(ticket) => Action::Wait { key, ticket },
            },
        }
    }

    /// Asks again for a request that has waited for another: the cache is
    /// read once more, and where it still holds nothing the request joins
    /// the next flight or makes the call itself.
    pub fn after_wait(&mut self, key: CacheKey) -> (action: Action)
        requires
            old(self).wf(),
        ensures
            final(self).wf(),
            resolved(*old(self), *final(self), key@, action),
    {
        self.resolve(key)
    }

    /// The answer to a method that depends on no head.
    fn answer_locally(&self, method: &str) -> (body: String)
        ensures
            body@ == local_answer(self.chain_id, method@),
    {
        let number = if str_equal(method, "eth_chainId") {
            u64_quantity(self.chain_id)
        } else {
            u64_decimal(self.chain_id)
        };
        let mut body = String::from_str("\"");
        body.append(number.as_str());
        body.append("\"");
        body
    }

    /// Decides what is to happen for a request for `method` whose
    /// parameters have the canonical form `params`.
    pub fn route_with(&mut self, method: &str, params: Option<String>) -> (action: Action)
        requires
            old(self).wf(),
        ensures
            final(self).wf(),
            routed(*old(self), *final(self), method@, opt_view(params), action),
    {
        let class = classify(method);
        match class {
            MethodClass::Forbidden => Action::Reject(ErrorKind::Unsupported),
            MethodClass::PrivateSend => {
                let targets = match &self.private_rpcs {
                    Some(p) => p.all(),
                    None => self.balanced_rpcs.all(),
                };
                let ghost pool = self.submission_pool();
                if targets.len() == 0 {
                    assert(!any_healthy(pool)) by {
                        if any_healthy(pool) {
                            let j = choose|j: int|
                                0 <= j < pool.upstreams.len() && (
                                #[trigger] pool.upstreams[j]).selectable();
                            assert(targets@.contains(j as usize));
                        }
                    }
                    Action::Reject(ErrorKind::NoServers)
                } else {
                    assert(pool.upstreams[targets[0] as int].selectable());
                    Action::Broadcast { private: self.private_rpcs.is_some(), targets }
                }
            },
            MethodClass::FanQuery => {
                let targets = self.balanced_rpcs.all();
                let ghost pool = self.balanced_rpcs;
                if targets.len() == 0 {
                    assert(!any_healthy(pool)) by {
                        if any_healthy(pool) {
                            let j = choose|j: int|
                                0 <= j < pool.upstreams.len() && (
                                #[trigger] pool.upstreams[j]).selectable();
                            assert(targets@.contains(j as usize));
                        }
                    }
                    Action::Reject(ErrorKind::NoServers)
                } else {
                    assert(pool.upstreams[targets[0] as int].selectable());
                    Action::FanQuery { targets }
                }
            },
            MethodClass::HeadIndependent => {
                let key = CacheKey { head_hash: None, method: String::from_str(method), params };
                match self.cache.get(&key) {
                    Some(body) => Action::Respond(Payload::Result(body)),
                    None => {
                        let body = self.answer_locally(method);
                        let _ = self.cache.insert_if_absent(key, body.clone());
                        Action::Respond(Payload::Result(body))
                    },
                }
            },
            MethodClass::HeadDependent => match self.tracker.canonical {
                None => Action::Reject(ErrorKind::NotSynced),
                Some(head) => {
                    let key = CacheKey {
                        head_hash: Some(head.hash),
                        method: String::from_str(method),
                        params,
                    };
                    self.resolve(key)
                },
            },
        }
    }

    /// Decides what is to happen for `request`. Where the method is
    /// cacheable, its parameters are brought into canonical form first;
    /// parameters that are no JSON make the request invalid. The rest is as
    /// `route_with` describes it.
    pub fn route(&mut self, request: &JsonRpcRequest) -> (action: Action)
        requires
            old(self).wf(),
        ensures
            final(self).wf(),
            request_routed(*old(self), *final(self), *request, action),
    {
        let class = classify(request.method.as_str());
        if !class.is_cacheable() {
            return self.route_with(request.method.as_str(), None);
        }
        match canonicalize(&request.params) {
            Ok(params) => self.route_with(request.method.as_str(), params),
            Err(e) => Action::Reject(e),
        }
    }

    /// Takes the report that the upstream call for `key` has ended with
    /// `outcome`, after `retries` retries.
    pub fn complete(&mut self, key: &CacheKey, outcome: SendOutcome, retries: u32) -> (completion:
        Completion)
        requires
            old(self).wf(),
        ensures
            final(self).wf(),
            completed(*old(self), *final(self), key@, outcome, retries, completion),
    {
        let result = match after_attempt(outcome, retries, self.max_retries) {
            Attempt::Retry => match self.pick() {
                Ok(upstream) => {
                    return Completion::Retry { upstream };
                },
                Err(e) => Err(e),
            },
            Attempt::Done(r) => r,
        };
        if let Ok(Payload::Result(body)) = &result {
            let _ = self.cache.insert_if_absent(key.duplicate(), body.clone());
        }
        let wake = self.inflight.release(key);
        Completion::Done { result, wake }
    }

    /// Takes the report of upstream `upstream` of the balanced pool that its
    /// head is `block`, seen at `observed_at` and reported at `now`, both in
    /// milliseconds. The report that is handed back says whether a new
    /// canonical head is to be published.
    pub fn report_head(&mut self, upstream: usize, block: BlockRef, observed_at: u64, now: u64) -> (r:
        Option<HeadReport>)
        requires
            old(self).wf(),
        ensures
            final(self).wf(),
            head_reported(*old(self), *final(self), upstream, block, observed_at, now, r),
    {
        if upstream >= self.balanced_rpcs.upstreams.len() {
            return None;
        }
        if self.balanced_rpcs.upstreams[upstream].health == crate::upstream::Health::Closed {
            return None;
        }
        let id = self.balanced_rpcs.upstreams[upstream].id.clone();
        let report = self.tracker.report(id, block);
        if report.ignored {
            self.balanced_rpcs.mark_behind(upstream);
        } else {
            self.balanced_rpcs.observe_head(upstream, block, observed_at, now, self.max_head_age);
        }
        Some(report)
    }

    /// Takes the report of upstream `upstream` of the private pool that its
    /// head is `block`. The private upstreams have no say in the canonical
    /// head; the report only tells whether the upstream is alive.
    pub fn report_private_head(
        &mut self,
        upstream: usize,
        block: BlockRef,
        observed_at: u64,
        now: u64,
    )
        requires
            old(self).wf(),
        ensures
            final(self).wf(),
            final(self).chain_id == old(self).chain_id,
            final(self).request_timeout_secs == old(self).request_timeout_secs,
            final(self).max_retries == old(self).max_retries,
            final(self).max_head_age == old(self).max_head_age,
            final(self).balanced_rpcs == old(self).balanced_rpcs,
            final(self).tracker == old(self).tracker,
            final(self).cache == old(self).cache,
            final(self).inflight == old(self).inflight,
            match old(self).private_rpcs {
                None => final(self).private_rpcs is None,
                Some(pool) => final(self).private_rpcs is Some && crate::pool::head_observed(
                    pool,
                    final(self).private_rpcs.unwrap(),
                    upstream,
                    block,
                    observed_at,
                    now,
                    old(self).max_head_age,
                ),
            },
    {
        let max_head_age = self.max_head_age;
        if let Some(pool) = &mut self.private_rpcs {
            pool.observe_head(upstream, block, observed_at, now, max_head_age);
        }
    }

    /// The periodic check at time `now`: in both pools every healthy
    /// upstream whose head is older than the maximum head age is degraded.
    pub fn check_head_ages(&mut self, now: u64)
        requires
            old(self).wf(),
        ensures
            final(self).wf(),
            final(self).chain_id == old(self).chain_id,
            final(self).request_timeout_secs == old(self).request_timeout_secs,
            final(self).max_retries == old(self).max_retries,
            final(self).max_head_age == old(self).max_head_age,
            final(self).tracker == old(self).tracker,
            final(self).cache == old(self).cache,
            final(self).inflight == old(self).inflight,
            crate::pool::ages_checked(
                old(self).balanced_rpcs,
                final(self).balanced_rpcs,
                now,
                old(self).max_head_age,
            ),
            match old(self).private_rpcs {
                None => final(self).private_rpcs is None,
                Some(pool) => final(self).private_rpcs is Some && crate::pool::ages_checked(
                    pool,
                    final(self).private_rpcs.unwrap(),
                    now,
                    old(self).max_head_age,
                ),
            },
    {
        let max_head_age = self.max_head_age;
        self.balanced_rpcs.check_head_ages(now, max_head_age);
        if let Some(pool) = &mut self.private_rpcs {
            pool.check_head_ages(now, max_head_age);
        }
    }

    /// Whether a request is in flight at an upstream of either pool.
    pub open spec fn busy(self) -> bool {
        crate::pool::busy(self.balanced_rpcs) || (self.private_rpcs matches Some(p)
            && crate::pool::busy(p))
    }

    /// What a graceful shutdown does next, `waited` milliseconds after it
    /// began and with a grace period of `grace` milliseconds: the requests
    /// in flight are given the grace period to end, and are cancelled only
    /// then.
    pub fn drain(&self, waited: u64, grace: u64) -> (r: ShutdownStep)
        ensures
            r == (if !self.busy() {
                ShutdownStep::Done
            } else if waited < grace {
                ShutdownStep::Wait
            } else {
                ShutdownStep::ForceCancel
            }),
    {
        let private_busy = match &self.private_rpcs {
            Some(p) => p.is_busy(),
            None => false,
        };
        if !(self.balanced_rpcs.is_busy() || private_busy) {
            ShutdownStep::Done
        } else if waited < grace {
            ShutdownStep::Wait
        } else {
            ShutdownStep::ForceCancel
        }
    }

    /// Shuts every upstream of both pools down. The sends still in flight
    /// are to fail as cancelled, and no request is sent any more.
    pub fn shutdown(&mut self)
        requires
            old(self).wf(),
        ensures
            final(self).wf(),
            final(self).chain_id == old(self).chain_id,
            final(self).request_timeout_secs == old(self).request_timeout_secs,
            final(self).max_retries == old(self).max_retries,
            final(self).max_head_age == old(self).max_head_age,
            final(self).tracker == old(self).tracker,
            final(self).cache == old(self).cache,
            final(self).inflight == old(self).inflight,
            crate::pool::all_closed(old(self).balanced_rpcs, final(self).balanced_rpcs),
            match old(self).private_rpcs {
                None => final(self).private_rpcs is None,
                Some(pool) => final(self).private_rpcs is Some && crate::pool::all_closed(
                    pool,
                    final(self).private_rpcs.unwrap(),
                ),
            },
            !any_healthy(final(self).balanced_rpcs),
    {
        self.balanced_rpcs.shutdown();
        if let Some(pool) = &mut self.private_rpcs {
            pool.shutdown();
        }
    }

    /// Admission to a send to upstream `upstream`: of the private pool with
    /// `private` where there is one, else of the balanced pool.
    pub fn begin_send(&mut self, private: bool, upstream: usize, limiter: ThrottleOutcome) -> (r:
        Result<(), ErrorKind>)
        requires
            old(self).wf(),
        ensures
            final(self).wf(),
            send_begun(*old(self), *final(self), private, upstream, limiter, r),
    {
        if private {
            if let Some(pool) = &mut self.private_rpcs {
                return pool.begin_send(upstream, limiter);
            }
        }
        self.balanced_rpcs.begin_send(upstream, limiter)
    }

    /// The end of a send to upstream `upstream` that was admitted: of the
    /// private pool with `private` where there is one, else of the balanced
    /// pool.
    pub fn end_send(&mut self, private: bool, upstream: usize, transport_failed: bool, now: u64)
        requires
            old(self).wf(),
        ensures
            final(self).wf(),
            send_ended(*old(self), *final(self), private, upstream, transport_failed, now),
    {
        if private {
            if let Some(pool) = &mut self.private_rpcs {
                pool.end_send(upstream, transport_failed, now);
                return ;
            }
        }
        self.balanced_rpcs.end_send(upstream, transport_failed, now);
    }
}

/// Holds a request to its deadline: `finished` is what the request came to
/// where it ended in time, and `None` where the deadline passed first. A
/// request that did not end in time has timed out, whatever its upstream
/// does.
pub fn within_deadline<T>(finished: Option<T>) -> (r: Result<T, ErrorKind>)
    ensures
        r == (match finished {
            Some(t) => Ok(t),
            None => Err(ErrorKind::Timeout),
        }),
{
    match finished {
        Some(t) => Ok(t),
        None => Err(ErrorKind::Timeout),
    }
}

/// The response to the request `id` that `result` leads to: the payload
/// where there is one, else the error object of the error. An error that is
/// not answered on the JSON-RPC level gives no response.
pub fn respond(id: String, result: Result<Payload, ErrorKind>) -> (r: Option<
    JsonRpcForwardedResponse,
>)
    ensures
        result matches Ok(p) ==> r == Some(JsonRpcForwardedResponse { id, payload: p }),
        result matches Err(e) ==> {
            &&& r is Some <==> crate::jsonrpc::error_object(e) is Some
            &&& r matches Some(resp) ==> resp.id == id && resp.payload is Error && Some(
                resp.payload.json(),
            ) == crate::jsonrpc::error_object(e)
        },
{
    match result {
        Ok(payload) => Some(JsonRpcForwardedResponse { id, payload }),
        Err(e) => JsonRpcForwardedResponse::from_error(e, id),
    }
}

} // verus!
