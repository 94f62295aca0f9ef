use web3_proxy::app::Web3ProxyApp;
use web3_proxy::block::{BlockRef, Digest};
use web3_proxy::config::{
    spawn_pool, CliConfig, RpcConfig, RpcSharedConfig, Web3ConnectionConfig, DEFAULT_PORT,
};
use web3_proxy::errors::ErrorKind;
use web3_proxy::jsonrpc::{JsonRpcRequest, Payload};
use web3_proxy::router::{Action, Router};
use web3_proxy::upstream::{Health, Upstream};

fn rpc(soft_limit: u32, hard_limit: Option<u32>) -> Web3ConnectionConfig {
    Web3ConnectionConfig { url: "http://localhost:8545".to_string(), soft_limit, hard_limit }
}

fn config(chain_id: u64, balanced: &[&str], private: &[&str]) -> RpcConfig {
    RpcConfig {
        shared: RpcSharedConfig {
            chain_id,
            min_synced_upstreams: 1,
            reorg_depth: 10,
            response_cache_max_entries: 16,
            response_cache_max_bytes: Some(1000),
            request_timeout_secs: 60,
            rate_limit_redis: None,
        },
        balanced_rpcs: balanced.iter().map(|n| (n.to_string(), rpc(10, None))).collect(),
        private_rpcs: private.iter().map(|n| (n.to_string(), rpc(10, None))).collect(),
    }
}

fn block(fill: u8, number: u64) -> BlockRef {
    BlockRef { hash: Digest::new([fill; 32]), number, parent_hash: Digest::new([0; 32]) }
}

fn request(method: &str) -> JsonRpcRequest {
    JsonRpcRequest { id: "1".to_string(), method: method.to_string(), params: None }
}

#[test]
fn a_reload_with_another_chain_id_is_rejected() {
    let mut router = Router::new(&config(1, &["a", "b"], &[])).unwrap();
    router.report_head(0, block(0xaa, 16), 0, 0).unwrap();
    assert_eq!(
        router.route(&request("eth_chainId")),
        Action::Respond(Payload::Result("\"0x1\"".to_string()))
    );
    let r = router.update_config(&config(2, &["c"], &["p"]));
    assert_eq!(r, Err(ErrorKind::InvalidConfig));
    // the previous state works as before
    assert_eq!(router.chain_id, 1);
    assert_eq!(router.balanced_rpcs.upstreams.len(), 2);
    assert_eq!(router.balanced_rpcs.upstreams[0].id, "a");
    assert_eq!(router.balanced_rpcs.upstreams[0].health, Health::Healthy);
    assert!(router.private_rpcs.is_none());
    assert_eq!(router.cache.len(), 1);
    assert!(matches!(router.route(&request("eth_blockNumber")), Action::Send { upstream: 0, .. }));
}

#[test]
fn a_reload_with_the_same_chain_id_swaps_the_pools() {
    let mut router = Router::new(&config(1, &["a", "b"], &[])).unwrap();
    router.report_head(0, block(0xaa, 16), 0, 0).unwrap();
    router.route(&request("eth_chainId"));
    let (old_balanced, old_private) = router.update_config(&config(1, &["c"], &["p"])).unwrap();
    assert_eq!(old_balanced.upstreams.len(), 2);
    assert_eq!(old_balanced.upstreams[0].health, Health::Healthy);
    assert!(old_private.is_none());
    assert_eq!(router.balanced_rpcs.upstreams.len(), 1);
    assert_eq!(router.balanced_rpcs.upstreams[0].id, "c");
    assert_eq!(router.balanced_rpcs.upstreams[0].health, Health::Connecting);
    assert_eq!(router.private_rpcs.as_ref().unwrap().upstreams[0].id, "p");
    // the cache and the head stay, the tips of the old upstreams go
    assert_eq!(router.cache.len(), 1);
    assert!(router.tracker.canonical_head().is_some());
    assert_eq!(router.tracker.tips.len(), 0);
    // until a new upstream has reported, no request can be sent
    assert_eq!(
        router.route(&request("eth_blockNumber")),
        Action::Reject(ErrorKind::NoServers)
    );
    router.report_head(0, block(0xaa, 16), 5, 5).unwrap();
    assert!(matches!(router.route(&request("eth_blockNumber")), Action::Send { upstream: 0, .. }));
}

#[test]
fn a_reload_that_cannot_be_built_changes_nothing() {
    let mut router = Router::new(&config(1, &["a"], &[])).unwrap();
    assert_eq!(router.update_config(&config(1, &["c", "c"], &[])), Err(ErrorKind::InvalidConfig));
    let mut bad = config(1, &["c"], &[]);
    bad.balanced_rpcs[0].1.soft_limit = 0;
    assert_eq!(router.update_config(&bad), Err(ErrorKind::InvalidConfig));
    assert_eq!(router.balanced_rpcs.upstreams[0].id, "a");
}

#[test]
fn the_application_keeps_its_chain_id_too() {
    let mut app = Web3ProxyApp::spawn(&config(5, &["a"], &[])).unwrap();
    assert_eq!(app.update_config(&config(6, &["a"], &[])), Err(ErrorKind::InvalidConfig));
    assert_eq!(app.router.chain_id, 5);
    assert!(app.update_config(&config(5, &["b"], &[])).is_ok());
    assert_eq!(app.get_balanced_rpcs().upstreams[0].id, "b");
    assert_eq!(config(5, &[], &[]).check_reload(5), Ok(()));
    assert_eq!(config(5, &[], &[]).check_reload(4), Err(ErrorKind::InvalidConfig));
}

#[test]
fn a_router_is_built_from_its_configuration() {
    let router = Router::new(&config(1, &["a", "b"], &["p"])).unwrap();
    assert_eq!(router.chain_id, 1);
    assert_eq!(router.request_timeout_secs, 60);
    assert_eq!(router.max_retries, 3);
    assert_eq!(router.max_head_age, 60_000);
    assert_eq!(router.inflight.next_ticket, 0);
    assert_eq!(router.tracker.tips.len(), 0);
    assert_eq!(router.cache.max_entries, 16);
    assert_eq!(router.cache.max_bytes, Some(1000));
    assert_eq!(router.tracker.min_synced_upstreams, 1);
    assert_eq!(router.tracker.reorg_depth, 10);
    assert_eq!(router.balanced_rpcs.upstreams.len(), 2);
    assert_eq!(router.private_rpcs.as_ref().unwrap().upstreams.len(), 1);
    assert_eq!(
        router.balanced_rpcs.upstreams[1],
        Upstream::new("b".to_string(), 10, None).unwrap()
    );
    assert!(Router::new(&config(1, &["a", "a"], &[])).is_err());
    assert!(Router::new(&config(1, &["a"], &["p", "p"])).is_err());
    assert!(Router::new(&config(1, &[], &[])).is_ok());
}

#[test]
fn a_hard_limit_needs_a_rate_limiter() {
    // whether a configuration may be spawned is asked first
    assert!(rpc(10, None).is_spawnable(false));
    assert!(rpc(10, Some(1)).is_spawnable(true));
    assert!(!rpc(10, Some(1)).is_spawnable(false));
    assert!(!rpc(0, None).is_spawnable(true));
    let made = rpc(10, Some(20)).spawn("a".to_string(), true).unwrap();
    assert_eq!(made.hard_limit, Some(20));
    assert_eq!(made.limiter_request(), Some(20));
    assert_eq!(made.id, "a");
    let made = rpc(10, None).spawn("b".to_string(), false).unwrap();
    assert_eq!(made.hard_limit, None);
    assert_eq!(made.limiter_request(), None);
    assert!(rpc(10, None).spawn("c".to_string(), true).is_ok());
    assert_eq!(rpc(0, None).spawn("a".to_string(), true), Err(ErrorKind::InvalidConfig));
    // a pool asks by itself and rejects what may not be spawned
    let mut c = config(1, &["a"], &[]);
    c.balanced_rpcs[0].1.hard_limit = Some(5);
    assert!(!c.has_rate_limiter());
    assert_eq!(spawn_pool(&c.balanced_rpcs, false).err(), Some(ErrorKind::InvalidConfig));
    assert!(Router::new(&c).is_err());
    c.shared.rate_limit_redis = Some("redis://localhost".to_string());
    assert!(c.has_rate_limiter());
    assert!(Router::new(&c).is_ok());
}

#[test]
fn a_pool_is_spawned_in_the_order_of_the_configuration() {
    let rpcs = vec![("z".to_string(), rpc(1, None)), ("a".to_string(), rpc(2, None))];
    let pool = spawn_pool(&rpcs, false).unwrap();
    assert_eq!(pool.upstreams[0].id, "z");
    assert_eq!(pool.upstreams[1].id, "a");
    assert_eq!(pool.upstreams[1].soft_limit, 2);
    assert_eq!(spawn_pool(&vec![], false).unwrap().upstreams.len(), 0);
}

#[test]
fn the_command_line_has_defaults() {
    let cli = CliConfig::default();
    assert_eq!(cli.port, 8544);
    assert_eq!(cli.port, DEFAULT_PORT);
    assert_eq!(cli.workers, 0);
    assert_eq!(cli.config, "./config/development.toml");
}
