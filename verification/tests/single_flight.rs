use web3_proxy::block::{BlockRef, Digest};
use web3_proxy::cache::CacheKey;
use web3_proxy::config::{RpcConfig, RpcSharedConfig, Web3ConnectionConfig};
use web3_proxy::dispatch::SendOutcome;
use web3_proxy::errors::ErrorKind;
use web3_proxy::inflight::{Claim, InflightTable};
use web3_proxy::jsonrpc::{JsonRpcRequest, Payload};
use web3_proxy::router::{Action, Completion, Router};

fn block(fill: u8, number: u64) -> BlockRef {
    BlockRef { hash: Digest::new([fill; 32]), number, parent_hash: Digest::new([0; 32]) }
}

fn config(balanced: &[(&str, u32)], max_entries: usize) -> RpcConfig {
    RpcConfig {
        shared: RpcSharedConfig {
            chain_id: 1,
            min_synced_upstreams: 1,
            reorg_depth: 10,
            response_cache_max_entries: max_entries,
            response_cache_max_bytes: None,
            request_timeout_secs: 60,
            rate_limit_redis: None,
        },
        balanced_rpcs: balanced
            .iter()
            .map(|(name, soft)| {
                (
                    name.to_string(),
                    Web3ConnectionConfig {
                        url: format!("http://{}", name),
                        soft_limit: *soft,
                        hard_limit: None,
                    },
                )
            })
            .collect(),
        private_rpcs: vec![],
    }
}

fn synced_router(max_entries: usize) -> Router {
    let mut router = Router::new(&config(&[("only", 10)], max_entries)).unwrap();
    let report = router.report_head(0, block(0xaa, 16), 0, 0).unwrap();
    assert!(report.emitted.is_some());
    router
}

fn request(id: &str, method: &str, params: Option<&str>) -> JsonRpcRequest {
    JsonRpcRequest {
        id: id.to_string(),
        method: method.to_string(),
        params: params.map(|p| p.to_string()),
    }
}

fn key(head: u8, method: &str) -> CacheKey {
    CacheKey { head_hash: Some(Digest::new([head; 32])), method: method.to_string(), params: None }
}

#[test]
fn the_first_of_many_identical_requests_owns_the_call() {
    let mut table = InflightTable::new();
    let k = key(0xaa, "eth_blockNumber");
    let mut owners = 0;
    for _ in 0..25 {
        if let Claim::Owner(_) = table.claim(&k) {
            owners += 1;
        }
    }
    assert_eq!(owners, 1);
    assert_eq!(table.claim(&k), Claim::Join(0));
    assert_eq!(table.get(&k), Some(0));
}

#[test]
fn different_keys_fly_separately() {
    let mut table = InflightTable::new();
    assert_eq!(table.claim(&key(0xaa, "a")), Claim::Owner(0));
    assert_eq!(table.claim(&key(0xaa, "b")), Claim::Owner(1));
    assert_eq!(table.claim(&key(0xbb, "a")), Claim::Owner(2));
    assert_eq!(table.claim(&key(0xaa, "a")), Claim::Join(0));
    assert_eq!(table.release(&key(0xaa, "a")), Some(0));
    assert_eq!(table.get(&key(0xaa, "a")), None);
    assert_eq!(table.get(&key(0xaa, "b")), Some(1));
    assert_eq!(table.release(&key(0xaa, "a")), None);
    assert_eq!(table.claim(&key(0xaa, "a")), Claim::Owner(3));
}

#[test]
fn each_owner_gets_a_ticket_of_its_own() {
    let mut router = synced_router(1024);
    let mut tickets = Vec::new();
    for method in ["eth_call", "eth_getBalance", "eth_getCode"] {
        match router.route(&request("1", method, Some("[]"))) {
            Action::Send { ticket, .. } => tickets.push(ticket),
            other => panic!("expected a send, got {:?}", other),
        }
        // a request that joins takes no ticket
        assert!(matches!(router.route(&request("2", method, Some("[]"))), Action::Wait { .. }));
    }
    assert_eq!(tickets, vec![0, 1, 2]);
    assert_eq!(router.inflight.next_ticket, 3);
}

#[test]
fn cached_read_makes_one_upstream_call() {
    // one upstream that always answers "0x10"; two clients ask at once
    let mut router = synced_router(1024);
    let mut upstream_calls = 0;
    let first = router.route(&request("1", "eth_blockNumber", None));
    let (upstream, key, ticket) = match first {
        Action::Send { upstream, key, ticket } => (upstream, key, ticket),
        other => panic!("the first request must be sent, got {:?}", other),
    };
    assert_eq!(upstream, 0);
    let second = router.route(&request("2", "eth_blockNumber", None));
    let waited_for = match second {
        Action::Wait { key: k, ticket: t } => {
            assert_eq!(k, key);
            t
        }
        other => panic!("the second request must wait, got {:?}", other),
    };
    assert_eq!(waited_for, ticket);
    upstream_calls += 1;
    let reply = SendOutcome::Reply(Payload::Result("\"0x10\"".to_string()));
    let done = router.complete(&key, reply, 0);
    assert_eq!(
        done,
        Completion::Done {
            result: Ok(Payload::Result("\"0x10\"".to_string())),
            wake: Some(ticket)
        }
    );
    let second = router.after_wait(key.duplicate());
    assert_eq!(second, Action::Respond(Payload::Result("\"0x10\"".to_string())));
    // a third request, after the flight, is served from the cache
    let third = router.route(&request("3", "eth_blockNumber", None));
    assert_eq!(third, Action::Respond(Payload::Result("\"0x10\"".to_string())));
    assert_eq!(upstream_calls, 1);
}

#[test]
fn head_change_invalidates() {
    let mut router = synced_router(1024);
    let key = match router.route(&request("1", "eth_blockNumber", None)) {
        Action::Send { key, .. } => key,
        other => panic!("expected a send, got {:?}", other),
    };
    assert_eq!(key.head_hash, Some(Digest::new([0xaa; 32])));
    router.complete(&key, SendOutcome::Reply(Payload::Result("\"0x10\"".to_string())), 0);
    assert_eq!(
        router.route(&request("2", "eth_blockNumber", None)),
        Action::Respond(Payload::Result("\"0x10\"".to_string()))
    );
    // the head moves on
    let report = router.report_head(0, block(0xbb, 17), 1, 1).unwrap();
    assert_eq!(report.emitted.unwrap().hash, Digest::new([0xbb; 32]));
    let key = match router.route(&request("3", "eth_blockNumber", None)) {
        Action::Send { key, .. } => key,
        other => panic!("a new upstream call is due, got {:?}", other),
    };
    assert_eq!(key.head_hash, Some(Digest::new([0xbb; 32])));
    let done = router.complete(&key, SendOutcome::Reply(Payload::Result("\"0x11\"".to_string())), 0);
    assert!(matches!(done, Completion::Done { result: Ok(Payload::Result(ref b)), .. } if b == "\"0x11\""));
    assert_eq!(
        router.route(&request("4", "eth_blockNumber", None)),
        Action::Respond(Payload::Result("\"0x11\"".to_string()))
    );
}

#[test]
fn a_failed_call_is_not_cached_and_wakes_the_waiters() {
    let mut router = synced_router(1024);
    let (key, ticket) = match router.route(&request("1", "eth_call", Some("[]"))) {
        Action::Send { key, ticket, .. } => (key, ticket),
        other => panic!("expected a send, got {:?}", other),
    };
    assert!(matches!(router.route(&request("2", "eth_call", Some("[]"))), Action::Wait { .. }));
    let done = router.complete(&key, SendOutcome::Capacity, 0);
    assert_eq!(done, Completion::Done { result: Err(ErrorKind::Capacity), wake: Some(ticket) });
    assert_eq!(router.cache.len(), 0);
    // the waiter sees a miss and makes the call itself
    assert!(matches!(router.after_wait(key), Action::Send { .. }));
}

#[test]
fn an_upstream_error_is_relayed_and_not_cached() {
    let mut router = synced_router(1024);
    let key = match router.route(&request("1", "eth_call", Some("[]"))) {
        Action::Send { key, .. } => key,
        other => panic!("expected a send, got {:?}", other),
    };
    let error = Payload::Error("{\"code\":3,\"message\":\"execution reverted\"}".to_string());
    let done = router.complete(&key, SendOutcome::Reply(error.clone()), 0);
    assert!(matches!(done, Completion::Done { result: Ok(ref p), .. } if *p == error));
    assert_eq!(router.cache.len(), 0);
}

#[test]
fn a_transport_failure_is_retried_three_times() {
    let mut router = synced_router(1024);
    let key = match router.route(&request("1", "eth_call", Some("[]"))) {
        Action::Send { key, .. } => key,
        other => panic!("expected a send, got {:?}", other),
    };
    for retries in 0..3 {
        let next = router.complete(&key, SendOutcome::Transport, retries);
        assert_eq!(next, Completion::Retry { upstream: 0 });
        assert!(router.inflight.get(&key).is_some());
    }
    let done = router.complete(&key, SendOutcome::Transport, 3);
    assert!(matches!(done, Completion::Done { result: Err(ErrorKind::Transport), .. }));
    assert_eq!(router.inflight.get(&key), None);
}

#[test]
fn a_retry_without_a_server_ends_the_flight() {
    let mut router = synced_router(1024);
    let (key, ticket) = match router.route(&request("1", "eth_call", Some("[]"))) {
        Action::Send { key, ticket, .. } => (key, ticket),
        other => panic!("expected a send, got {:?}", other),
    };
    router.balanced_rpcs.shutdown();
    let done = router.complete(&key, SendOutcome::Transport, 0);
    assert_eq!(done, Completion::Done { result: Err(ErrorKind::NoServers), wake: Some(ticket) });
}

#[test]
fn without_a_cache_the_second_request_calls_again() {
    let mut router = synced_router(0);
    let key = match router.route(&request("1", "eth_blockNumber", None)) {
        Action::Send { key, .. } => key,
        other => panic!("expected a send, got {:?}", other),
    };
    router.complete(&key, SendOutcome::Reply(Payload::Result("\"0x10\"".to_string())), 0);
    assert!(matches!(router.route(&request("2", "eth_blockNumber", None)), Action::Send { .. }));
}
