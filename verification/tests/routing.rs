use web3_proxy::block::{BlockRef, Digest};
use web3_proxy::cache::CacheKey;
use web3_proxy::config::{RpcConfig, RpcSharedConfig, Web3ConnectionConfig};
use web3_proxy::dispatch::{
    after_attempt, combine_broadcast, combine_fan_query, Attempt, SendOutcome,
};
use web3_proxy::errors::ErrorKind;
use web3_proxy::jsonrpc::{canonicalize, JsonRpcRequest, Payload};
use web3_proxy::method::{classify, MethodClass};
use web3_proxy::router::{respond, within_deadline, Action, Router, ShutdownStep};
use web3_proxy::upstream::ThrottleOutcome;

fn block(fill: u8, number: u64) -> BlockRef {
    BlockRef { hash: Digest::new([fill; 32]), number, parent_hash: Digest::new([0; 32]) }
}

fn rpcs(names: &[(&str, u32)]) -> Vec<(String, Web3ConnectionConfig)> {
    names
        .iter()
        .map(|(name, soft)| {
            (
                name.to_string(),
                Web3ConnectionConfig {
                    url: format!("http://{}", name),
                    soft_limit: *soft,
                    hard_limit: None,
                },
            )
        })
        .collect()
}

fn config(chain_id: u64, balanced: &[(&str, u32)], private: &[(&str, u32)]) -> RpcConfig {
    RpcConfig {
        shared: RpcSharedConfig {
            chain_id,
            min_synced_upstreams: 1,
            reorg_depth: 10,
            response_cache_max_entries: 16,
            response_cache_max_bytes: None,
            request_timeout_secs: 60,
            rate_limit_redis: None,
        },
        balanced_rpcs: rpcs(balanced),
        private_rpcs: rpcs(private),
    }
}

fn request(method: &str, params: Option<&str>) -> JsonRpcRequest {
    JsonRpcRequest {
        id: "1".to_string(),
        method: method.to_string(),
        params: params.map(|p| p.to_string()),
    }
}

fn result(json: &str) -> SendOutcome {
    SendOutcome::Reply(Payload::Result(json.to_string()))
}

fn make_healthy(router: &mut Router) {
    for i in 0..router.balanced_rpcs.upstreams.len() {
        router.report_head(i, block(0xaa, 16), 0, 0).unwrap();
    }
    if let Some(private) = &mut router.private_rpcs {
        for i in 0..private.upstreams.len() {
            private.observe_head(i, block(0xaa, 16), 0, 0, 1000);
        }
    }
}

#[test]
fn methods_fall_into_their_classes() {
    for m in ["admin_addPeer", "admin_anything", "personal_sign", "personal_x", "miner_start",
        "miner_", "debug_setHead", "debug_setAnything", "debug_goTrace", "debug_writeMemProfile",
        "les_addBalance", "les_setDefaultParams", "debug_standardTraceBadBlockToFile"]
    {
        assert_eq!(classify(m), MethodClass::Forbidden, "{}", m);
    }
    assert_eq!(classify("eth_sendRawTransaction"), MethodClass::PrivateSend);
    assert_eq!(classify("eth_getTransactionByHash"), MethodClass::FanQuery);
    assert_eq!(classify("eth_getTransactionReceipt"), MethodClass::FanQuery);
    assert_eq!(classify("eth_chainId"), MethodClass::HeadIndependent);
    assert_eq!(classify("net_version"), MethodClass::HeadIndependent);
    for m in ["eth_blockNumber", "eth_call", "debug_traceTransaction", "admin", "les_other",
        "personal", "", "eth_sendRawTransaction2", "Eth_chainId"]
    {
        assert_eq!(classify(m), MethodClass::HeadDependent, "{}", m);
    }
    assert!(MethodClass::HeadDependent.is_cacheable());
    assert!(MethodClass::HeadIndependent.is_cacheable());
    assert!(!MethodClass::FanQuery.is_cacheable());
    assert!(!MethodClass::PrivateSend.is_cacheable());
    assert!(!MethodClass::Forbidden.is_cacheable());
}

#[test]
fn unsupported_method() {
    let mut router = Router::new(&config(1, &[("a", 10)], &[])).unwrap();
    make_healthy(&mut router);
    let action = router.route(&request("personal_sign", Some("[\"0xdeadbeef\", \"0x01\"]")));
    // rejected before any upstream is named
    assert_eq!(action, Action::Reject(ErrorKind::Unsupported));
    assert_eq!(router.balanced_rpcs.upstreams[0].inflight_count, 0);
    let response = respond("7".to_string(), Err(ErrorKind::Unsupported)).unwrap();
    assert_eq!(ErrorKind::Unsupported.code(), Some(-32601));
    assert_eq!(
        response.to_text(),
        "{\"jsonrpc\":\"2.0\",\"id\":7,\"error\":{\"code\":-32601,\"message\":\"unsupported method\"}}"
    );
}

#[test]
fn broadcast_transaction() {
    let mut router = Router::new(&config(1, &[("pub", 10)], &[("A", 10), ("B", 10)])).unwrap();
    make_healthy(&mut router);
    let action = router.route(&request("eth_sendRawTransaction", Some("[\"0xdeadbeef\"]")));
    // both private upstreams receive the call, the public one does not
    assert_eq!(action, Action::Broadcast { private: true, targets: vec![0, 1] });
    for i in 0..2 {
        assert_eq!(router.begin_send(true, i, ThrottleOutcome::Allowed), Ok(()));
    }
    assert_eq!(router.private_rpcs.as_ref().unwrap().upstreams[0].inflight_count, 1);
    assert_eq!(router.private_rpcs.as_ref().unwrap().upstreams[1].inflight_count, 1);
    assert_eq!(router.balanced_rpcs.upstreams[0].inflight_count, 0);
    // A answers first
    let outcomes = vec![result("\"0xtxhash\""), result("\"0xother\"")];
    assert_eq!(combine_broadcast(&outcomes), Ok(Payload::Result("\"0xtxhash\"".to_string())));
    for i in 0..2 {
        router.end_send(true, i, false, 1);
    }
    assert_eq!(router.private_rpcs.as_ref().unwrap().upstreams[1].inflight_count, 0);
    // nothing of it is cached
    assert_eq!(router.cache.len(), 0);
}

#[test]
fn a_submission_goes_to_the_balanced_pool_without_a_private_one() {
    let mut router = Router::new(&config(1, &[("a", 10), ("b", 10)], &[])).unwrap();
    assert_eq!(
        router.route(&request("eth_sendRawTransaction", Some("[\"0x00\"]"))),
        Action::Reject(ErrorKind::NoServers)
    );
    make_healthy(&mut router);
    assert_eq!(
        router.route(&request("eth_sendRawTransaction", Some("[\"0x00\"]"))),
        Action::Broadcast { private: false, targets: vec![0, 1] }
    );
    assert_eq!(router.begin_send(true, 1, ThrottleOutcome::Allowed), Ok(()));
    assert_eq!(router.balanced_rpcs.upstreams[1].inflight_count, 1);
}

#[test]
fn a_broadcast_skips_upstreams_that_are_not_healthy() {
    let mut router = Router::new(&config(1, &[("pub", 10)], &[("A", 10), ("B", 10)])).unwrap();
    make_healthy(&mut router);
    router.private_rpcs.as_mut().unwrap().mark_behind(0);
    assert_eq!(
        router.route(&request("eth_sendRawTransaction", Some("[\"0x00\"]"))),
        Action::Broadcast { private: true, targets: vec![1] }
    );
}

#[test]
fn a_broadcast_answers_with_the_first_result() {
    let error = SendOutcome::Reply(Payload::Error("{\"code\":-32000}".to_string()));
    let outcomes = vec![SendOutcome::Transport, error.clone(), result("1"), result("2")];
    assert_eq!(combine_broadcast(&outcomes), Ok(Payload::Result("1".to_string())));
    // null is a result like any other for a broadcast
    assert_eq!(
        combine_broadcast(&vec![result("null"), result("1")]),
        Ok(Payload::Result("null".to_string()))
    );
}

#[test]
fn a_broadcast_that_fails_answers_with_the_most_severe_error() {
    let error = SendOutcome::Reply(Payload::Error("{\"code\":-32000}".to_string()));
    let other = SendOutcome::Reply(Payload::Error("{\"code\":-1}".to_string()));
    assert_eq!(
        combine_broadcast(&vec![SendOutcome::Capacity, SendOutcome::Transport, error, other]),
        Ok(Payload::Error("{\"code\":-32000}".to_string()))
    );
    assert_eq!(
        combine_broadcast(&vec![SendOutcome::Capacity, SendOutcome::Transport, SendOutcome::Canceled]),
        Err(ErrorKind::Transport)
    );
    assert_eq!(
        combine_broadcast(&vec![SendOutcome::Canceled, SendOutcome::Capacity]),
        Err(ErrorKind::Capacity)
    );
    assert_eq!(combine_broadcast(&vec![SendOutcome::Canceled]), Err(ErrorKind::Canceled));
    assert_eq!(combine_broadcast(&vec![]), Err(ErrorKind::NoServers));
}

#[test]
fn a_fan_query_answers_with_the_first_value() {
    let mut router = Router::new(&config(1, &[("a", 10), ("b", 10)], &[("p", 1)])).unwrap();
    make_healthy(&mut router);
    assert_eq!(
        router.route(&request("eth_getTransactionByHash", Some("[\"0x01\"]"))),
        Action::FanQuery { targets: vec![0, 1] }
    );
    let value = "{\"hash\":\"0x01\"}";
    assert_eq!(
        combine_fan_query(&vec![result("null"), result(value)]),
        Ok(Payload::Result(value.to_string()))
    );
    assert_eq!(
        combine_fan_query(&vec![result(value), result("null")]),
        Ok(Payload::Result(value.to_string()))
    );
    assert_eq!(
        combine_fan_query(&vec![SendOutcome::Transport, result("null"), result("1"), result("2")]),
        Ok(Payload::Result("1".to_string()))
    );
}

#[test]
fn a_fan_query_without_a_value_answers_null_or_the_worst() {
    assert_eq!(
        combine_fan_query(&vec![SendOutcome::Transport, result("null"), result("null")]),
        Ok(Payload::Result("null".to_string()))
    );
    assert_eq!(
        combine_fan_query(&vec![SendOutcome::Transport, SendOutcome::Capacity]),
        Err(ErrorKind::Transport)
    );
    assert_eq!(combine_fan_query(&vec![]), Err(ErrorKind::NoServers));
    let mut router = Router::new(&config(1, &[("a", 10)], &[])).unwrap();
    assert_eq!(
        router.route(&request("eth_getTransactionReceipt", Some("[\"0x01\"]"))),
        Action::Reject(ErrorKind::NoServers)
    );
}

#[test]
fn the_chain_id_is_answered_locally() {
    let mut router = Router::new(&config(137, &[("a", 10)], &[])).unwrap();
    // no head and no healthy upstream is needed
    assert_eq!(
        router.route(&request("eth_chainId", None)),
        Action::Respond(Payload::Result("\"0x89\"".to_string()))
    );
    assert_eq!(
        router.route(&request("net_version", Some("[]"))),
        Action::Respond(Payload::Result("\"137\"".to_string()))
    );
    assert_eq!(router.cache.len(), 2);
    // the answers are filed without a head
    let filed = CacheKey { head_hash: None, method: "eth_chainId".to_string(), params: None };
    assert_eq!(router.cache.get(&filed), Some("\"0x89\"".to_string()));
    assert_eq!(
        router.route(&request("eth_chainId", None)),
        Action::Respond(Payload::Result("\"0x89\"".to_string()))
    );
    assert_eq!(router.cache.len(), 2);
}

#[test]
fn a_request_that_needs_a_head_waits_for_the_sync() {
    let mut router = Router::new(&config(1, &[("a", 10)], &[])).unwrap();
    assert_eq!(
        router.route(&request("eth_blockNumber", None)),
        Action::Reject(ErrorKind::NotSynced)
    );
    assert_eq!(router.pick(), Err(ErrorKind::NotSynced));
    assert_eq!(ErrorKind::NotSynced.code(), Some(-32002));
    let response = respond("1".to_string(), Err(ErrorKind::NotSynced)).unwrap();
    assert!(response.to_text().contains("not synced"));
}

#[test]
fn a_request_without_a_server_is_rejected_and_owns_nothing() {
    let mut router = Router::new(&config(1, &[("a", 10)], &[])).unwrap();
    make_healthy(&mut router);
    router.balanced_rpcs.mark_behind(0);
    assert_eq!(
        router.route(&request("eth_blockNumber", None)),
        Action::Reject(ErrorKind::NoServers)
    );
    let response = respond("1".to_string(), Err(ErrorKind::NoServers)).unwrap();
    assert!(response.to_text().contains("\"code\":-32603"));
    assert!(response.to_text().contains("no servers"));
}

#[test]
fn parameters_that_mean_the_same_share_a_key() {
    let mut router = Router::new(&config(1, &[("a", 10)], &[])).unwrap();
    make_healthy(&mut router);
    let spaced = "[ { \"to\" : \"0x01\", \"data\" : \"0x02\" } , \"latest\" ]";
    let key = match router.route(&request("eth_call", Some(spaced))) {
        Action::Send { key, .. } => key,
        other => panic!("expected a send, got {:?}", other),
    };
    assert_eq!(key.params, Some("[{\"data\":\"0x02\",\"to\":\"0x01\"},\"latest\"]".to_string()));
    let compact = "[{\"data\":\"0x02\",\"to\":\"0x01\"},\"latest\"]";
    assert!(matches!(router.route(&request("eth_call", Some(compact))), Action::Wait { .. }));
    // other parameters are another request
    assert!(matches!(
        router.route(&request("eth_call", Some("[{\"to\":\"0x01\"},\"latest\"]"))),
        Action::Send { .. }
    ));
}

#[test]
fn canonical_parameters_have_sorted_keys_and_no_white_space() {
    assert_eq!(canonicalize(&None), Ok(None));
    assert_eq!(
        canonicalize(&Some(" { \"b\" : [ 1 , 2 ] , \"a\" : null } ".to_string())),
        Ok(Some("{\"a\":null,\"b\":[1,2]}".to_string()))
    );
    assert_eq!(canonicalize(&Some("[1, 2".to_string())), Err(ErrorKind::InvalidRequest));
    assert_eq!(canonicalize(&Some("".to_string())), Err(ErrorKind::InvalidRequest));
}

#[test]
fn parameters_that_are_no_json_make_a_cacheable_request_invalid() {
    let mut router = Router::new(&config(1, &[("a", 10)], &[])).unwrap();
    make_healthy(&mut router);
    assert_eq!(
        router.route(&request("eth_call", Some("{nonsense"))),
        Action::Reject(ErrorKind::InvalidRequest)
    );
    assert_eq!(ErrorKind::InvalidRequest.code(), Some(-32600));
    // a forbidden method is unsupported whatever its parameters are
    assert_eq!(
        router.route(&request("admin_addPeer", Some("{nonsense"))),
        Action::Reject(ErrorKind::Unsupported)
    );
}

#[test]
fn route_with_takes_canonical_parameters() {
    let mut router = Router::new(&config(1, &[("a", 10), ("b", 20)], &[])).unwrap();
    make_healthy(&mut router);
    match router.route_with("eth_getBalance", Some("[\"0x01\"]".to_string())) {
        Action::Send { upstream, key, ticket } => {
            assert_eq!(upstream, 1);
            assert_eq!(ticket, 0);
            assert_eq!(key.method, "eth_getBalance");
            assert_eq!(key.params, Some("[\"0x01\"]".to_string()));
            assert_eq!(key.head_hash, Some(Digest::new([0xaa; 32])));
        }
        other => panic!("expected a send, got {:?}", other),
    }
}

#[test]
fn timeout() {
    // the upstream never replies: the deadline passes first
    let router = Router::new(&config(1, &[("a", 10)], &[])).unwrap();
    assert_eq!(router.deadline_ms(), 60_000);
    let finished: Option<Payload> = None;
    let result = within_deadline(finished);
    assert_eq!(result, Err(ErrorKind::Timeout));
    assert_eq!(ErrorKind::Timeout.code(), Some(-32603));
    let response = respond("1".to_string(), result).unwrap();
    assert_eq!(
        response.to_text(),
        "{\"jsonrpc\":\"2.0\",\"id\":1,\"error\":{\"code\":-32603,\"message\":\"timeout\"}}"
    );
    // a request that ends in time is answered with what it came to
    assert_eq!(within_deadline(Some(5)), Ok(5));
}

#[test]
fn the_deadline_in_milliseconds_saturates() {
    let mut c = config(1, &[("a", 10)], &[]);
    c.shared.request_timeout_secs = u64::MAX / 1000 + 1;
    assert_eq!(Router::new(&c).unwrap().deadline_ms(), u64::MAX);
    c.shared.request_timeout_secs = 0;
    assert_eq!(Router::new(&c).unwrap().deadline_ms(), 0);
}

#[test]
fn what_follows_an_attempt() {
    assert_eq!(after_attempt(result("1"), 0, 3), Attempt::Done(Ok(Payload::Result("1".into()))));
    assert_eq!(after_attempt(SendOutcome::Transport, 0, 3), Attempt::Retry);
    assert_eq!(after_attempt(SendOutcome::Transport, 2, 3), Attempt::Retry);
    assert_eq!(
        after_attempt(SendOutcome::Transport, 3, 3),
        Attempt::Done(Err(ErrorKind::Transport))
    );
    assert_eq!(after_attempt(SendOutcome::Capacity, 0, 3), Attempt::Done(Err(ErrorKind::Capacity)));
    assert_eq!(after_attempt(SendOutcome::Canceled, 0, 3), Attempt::Done(Err(ErrorKind::Canceled)));
}

#[test]
fn a_report_of_an_unknown_or_closed_upstream_is_dropped() {
    let mut router = Router::new(&config(1, &[("a", 10)], &[])).unwrap();
    assert_eq!(router.report_head(5, block(0xaa, 1), 0, 0), None);
    router.balanced_rpcs.shutdown();
    assert_eq!(router.report_head(0, block(0xaa, 1), 0, 0), None);
    assert_eq!(router.tracker.canonical_head(), None);
}

#[test]
fn a_report_far_behind_degrades_the_upstream() {
    let mut c = config(1, &[("a", 10), ("b", 10)], &[]);
    c.shared.reorg_depth = 2;
    let mut router = Router::new(&c).unwrap();
    router.report_head(0, block(0xaa, 10), 0, 0).unwrap();
    router.report_head(1, block(0xaa, 10), 0, 0).unwrap();
    let report = router.report_head(1, block(0x07, 7), 1, 1).unwrap();
    assert!(report.ignored);
    assert_eq!(router.balanced_rpcs.all(), vec![0]);
    // its head stays what it was
    assert_eq!(router.balanced_rpcs.upstreams[1].head(), Some(block(0xaa, 10)));
}

#[test]
fn a_private_upstream_reports_its_head_without_a_say() {
    let mut router = Router::new(&config(1, &[("pub", 10)], &[("A", 10)])).unwrap();
    assert_eq!(
        router.route(&request("eth_sendRawTransaction", Some("[\"0x00\"]"))),
        Action::Reject(ErrorKind::NoServers)
    );
    router.report_private_head(0, block(0xcc, 99), 0, 0);
    assert_eq!(router.tracker.canonical_head(), None);
    assert_eq!(
        router.route(&request("eth_sendRawTransaction", Some("[\"0x00\"]"))),
        Action::Broadcast { private: true, targets: vec![0] }
    );
    // a report for an upstream that does not exist changes nothing
    router.report_private_head(7, block(0xcc, 99), 0, 0);
    assert_eq!(router.private_rpcs.as_ref().unwrap().upstreams.len(), 1);
}

#[test]
fn old_heads_degrade_in_both_pools() {
    let mut router = Router::new(&config(1, &[("a", 10)], &[("p", 10)])).unwrap();
    router.report_head(0, block(0xaa, 1), 1000, 1000).unwrap();
    router.report_private_head(0, block(0xaa, 1), 1000, 1000);
    router.check_head_ages(61_000);
    assert_eq!(router.balanced_rpcs.all(), vec![0]);
    router.check_head_ages(61_001);
    assert_eq!(router.balanced_rpcs.all(), Vec::<usize>::new());
    assert_eq!(router.private_rpcs.as_ref().unwrap().all(), Vec::<usize>::new());
    assert_eq!(
        router.route(&request("eth_blockNumber", None)),
        Action::Reject(ErrorKind::NoServers)
    );
    // a fresh head brings the upstream back
    router.report_head(0, block(0xbb, 2), 61_001, 61_001).unwrap();
    assert_eq!(router.balanced_rpcs.all(), vec![0]);
}

#[test]
fn after_the_shutdown_nothing_is_sent() {
    let mut router = Router::new(&config(1, &[("a", 10)], &[("p", 10)])).unwrap();
    make_healthy(&mut router);
    router.shutdown();
    assert_eq!(
        router.route(&request("eth_blockNumber", None)),
        Action::Reject(ErrorKind::NoServers)
    );
    assert_eq!(
        router.route(&request("eth_sendRawTransaction", Some("[\"0x00\"]"))),
        Action::Reject(ErrorKind::NoServers)
    );
    assert_eq!(router.begin_send(false, 0, ThrottleOutcome::Allowed), Err(ErrorKind::Canceled));
    assert_eq!(router.begin_send(true, 0, ThrottleOutcome::Allowed), Err(ErrorKind::Canceled));
}

#[test]
fn a_shutdown_waits_for_what_is_in_flight() {
    let mut router = Router::new(&config(1, &[("a", 10)], &[("p", 10)])).unwrap();
    make_healthy(&mut router);
    assert_eq!(router.drain(0, 1000), ShutdownStep::Done);
    router.begin_send(true, 0, ThrottleOutcome::Allowed).unwrap();
    assert_eq!(router.drain(0, 1000), ShutdownStep::Wait);
    assert_eq!(router.drain(999, 1000), ShutdownStep::Wait);
    assert_eq!(router.drain(1000, 1000), ShutdownStep::ForceCancel);
    router.end_send(true, 0, false, 5);
    assert_eq!(router.drain(5000, 1000), ShutdownStep::Done);
    router.begin_send(false, 0, ThrottleOutcome::Allowed).unwrap();
    assert!(router.balanced_rpcs.is_busy());
    assert_eq!(router.drain(5000, 1000), ShutdownStep::ForceCancel);
}
