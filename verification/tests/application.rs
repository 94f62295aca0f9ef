use web3_proxy::app::Web3ProxyApp;
use web3_proxy::block::{BlockRef, Digest};
use web3_proxy::config::{RpcConfig, RpcSharedConfig, Web3ConnectionConfig};
use web3_proxy::errors::ErrorKind;
use web3_proxy::jsonrpc::{JsonRpcRequest, JsonRpcRequestEnum, Payload};
use web3_proxy::pending::{TxObservation, TxStatus};
use web3_proxy::router::Action;

fn config(balanced: &[&str], private: &[&str]) -> RpcConfig {
    let rpc = |n: &&str| {
        (
            n.to_string(),
            Web3ConnectionConfig { url: format!("ws://{}", n), soft_limit: 10, hard_limit: None },
        )
    };
    RpcConfig {
        shared: RpcSharedConfig {
            chain_id: 1,
            min_synced_upstreams: 1,
            reorg_depth: 4,
            response_cache_max_entries: 1024,
            response_cache_max_bytes: None,
            request_timeout_secs: 60,
            rate_limit_redis: None,
        },
        balanced_rpcs: balanced.iter().map(rpc).collect(),
        private_rpcs: private.iter().map(rpc).collect(),
    }
}

fn request(id: &str, method: &str) -> JsonRpcRequest {
    JsonRpcRequest { id: id.to_string(), method: method.to_string(), params: None }
}

fn block(fill: u8, number: u64) -> BlockRef {
    BlockRef { hash: Digest::new([fill; 32]), number, parent_hash: Digest::new([0; 32]) }
}

#[test]
fn the_application_starts_empty() {
    let app = Web3ProxyApp::spawn(&config(&["a"], &[])).unwrap();
    assert_eq!(app.get_balanced_rpcs().upstreams.len(), 1);
    // without private upstreams, submissions go to the balanced ones
    assert_eq!(app.get_private_rpcs().upstreams[0].id, "a");
    assert_eq!(app.get_pending_transactions().reorg_depth, 4);
    assert_eq!(app.get_pending_transactions().get(&Digest::new([1; 32])), None);
    assert_eq!(app.get_active_requests().next_ticket, 0);
    assert_eq!(app.fanout.next_subscription_id, 1);
    let app = Web3ProxyApp::spawn(&config(&["a"], &["p"])).unwrap();
    assert_eq!(app.get_private_rpcs().upstreams[0].id, "p");
}

#[test]
fn the_application_needs_a_first_configuration() {
    assert!(matches!(
        Web3ProxyApp::spawn_with_watched_config(None),
        Err(ErrorKind::InvalidConfig)
    ));
    let c = config(&["a"], &[]);
    assert!(Web3ProxyApp::spawn_with_watched_config(Some(&c)).is_ok());
    let bad = config(&["a", "a"], &[]);
    assert!(matches!(
        Web3ProxyApp::spawn_with_watched_config(Some(&bad)),
        Err(ErrorKind::InvalidConfig)
    ));
    assert!(matches!(Web3ProxyApp::spawn(&bad), Err(ErrorKind::InvalidConfig)));
}

#[test]
fn a_batch_is_routed_request_by_request() {
    let mut app = Web3ProxyApp::spawn(&config(&["a"], &[])).unwrap();
    app.router.report_head(0, block(0xaa, 1), 0, 0).unwrap();
    let batch = JsonRpcRequestEnum::Batch(vec![
        request("1", "eth_chainId"),
        request("2", "personal_sign"),
        request("3", "eth_blockNumber"),
        request("4", "eth_blockNumber"),
    ]);
    let actions = app.proxy_web3_rpc(&batch);
    assert_eq!(actions.len(), 4);
    assert_eq!(actions[0], Action::Respond(Payload::Result("\"0x1\"".to_string())));
    assert_eq!(actions[1], Action::Reject(ErrorKind::Unsupported));
    assert!(matches!(actions[2], Action::Send { upstream: 0, ticket: 0, .. }));
    // the fourth is the same request as the third and joins it
    assert!(matches!(actions[3], Action::Wait { ticket: 0, .. }));
    let single = app.proxy_web3_rpc(&JsonRpcRequestEnum::Single(request("5", "net_version")));
    assert_eq!(single, vec![Action::Respond(Payload::Result("\"1\"".to_string()))]);
    assert_eq!(app.proxy_web3_rpc(&JsonRpcRequestEnum::Batch(vec![])), vec![]);
    assert_eq!(
        app.proxy_web3_rpc_request(&request("6", "admin_peers")),
        Action::Reject(ErrorKind::Unsupported)
    );
}

#[test]
fn the_application_subscribes_and_publishes() {
    let mut app = Web3ProxyApp::spawn(&config(&["a"], &[])).unwrap();
    let mut subscribe = request("1", "eth_subscribe");
    subscribe.params = Some("[\"newPendingTransactions\"]".to_string());
    let (id, response) = app.eth_subscribe(&subscribe).unwrap();
    assert_eq!(id, 1);
    assert_eq!(response.to_text(), "{\"jsonrpc\":\"2.0\",\"id\":1,\"result\":\"0x1\"}");
    let hash = Digest::new([3; 32]);
    let published =
        app.pending_transactions.observe(&hash, TxObservation::SeenPending, Some(1), 0);
    assert_eq!(published, Some(TxStatus::Pending));
    assert_eq!(app.get_pending_transactions().get(&hash).unwrap().state, TxStatus::Pending);
}
