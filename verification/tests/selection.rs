use web3_proxy::block::{BlockRef, CanonicalHead, Digest};
use web3_proxy::errors::ErrorKind;
use web3_proxy::pool::{is_preferred, Pool};
use web3_proxy::upstream::{ThrottleOutcome, Upstream};

fn block(fill: u8, number: u64) -> BlockRef {
    BlockRef { hash: Digest::new([fill; 32]), number, parent_hash: Digest::new([0; 32]) }
}

fn canonical(fill: u8, number: u64) -> CanonicalHead {
    CanonicalHead { hash: Digest::new([fill; 32]), number, minimum_confirming_upstreams: 1 }
}

fn healthy(id: &str, soft_limit: u32, head: BlockRef) -> Upstream {
    let mut u = Upstream::new(id.to_string(), soft_limit, None).unwrap();
    u.observe_head(head, 0, 0, 1000);
    u
}

fn loaded(id: &str, soft_limit: u32, head: BlockRef, inflight: u32) -> Upstream {
    let mut u = healthy(id, soft_limit, head);
    for _ in 0..inflight {
        u.begin_send(ThrottleOutcome::Allowed).unwrap();
    }
    u
}

#[test]
fn best_prefers_the_highest_soft_limit() {
    let head = block(0xaa, 16);
    let pool = Pool::new(vec![
        healthy("a", 10, head),
        healthy("b", 30, head),
        healthy("c", 20, head),
    ])
    .unwrap();
    assert_eq!(pool.best(&canonical(0xaa, 16)), Ok(1));
}

#[test]
fn best_breaks_ties_by_the_lowest_id() {
    let head = block(0xaa, 16);
    let pool = Pool::new(vec![
        healthy("zeta", 10, head),
        healthy("alpha", 10, head),
        healthy("beta", 10, head),
    ])
    .unwrap();
    assert_eq!(pool.best(&canonical(0xaa, 16)), Ok(1));
}

#[test]
fn best_orders_ids_by_their_bytes() {
    let head = block(0xaa, 16);
    let pool = Pool::new(vec![
        healthy("node10", 10, head),
        healthy("node2", 10, head),
        healthy("node1", 10, head),
    ])
    .unwrap();
    // "node1" is a proper prefix of "node10" and sorts before it
    assert_eq!(pool.best(&canonical(0xaa, 16)), Ok(2));
}

#[test]
fn best_without_upstreams_finds_no_server() {
    let pool = Pool::new(vec![]).unwrap();
    assert_eq!(pool.best(&canonical(0xaa, 16)), Err(ErrorKind::NoServers));
}

#[test]
fn best_prefers_the_lowest_load_over_the_highest_soft_limit() {
    let head = block(0xaa, 16);
    let pool = Pool::new(vec![loaded("a", 10, head, 5), loaded("b", 5, head, 0)]).unwrap();
    assert_eq!(pool.best(&canonical(0xaa, 16)), Ok(1));
}

#[test]
fn best_compares_load_as_a_ratio() {
    let head = block(0xaa, 16);
    // 3 of 10 is less than 1 of 3
    let pool = Pool::new(vec![loaded("a", 3, head, 1), loaded("b", 10, head, 3)]).unwrap();
    assert_eq!(pool.best(&canonical(0xaa, 16)), Ok(1));
    // 2 of 10 equals 1 of 5: the higher soft limit wins
    let pool = Pool::new(vec![loaded("a", 5, head, 1), loaded("b", 10, head, 2)]).unwrap();
    assert_eq!(pool.best(&canonical(0xaa, 16)), Ok(1));
}

#[test]
fn best_skips_upstreams_that_are_not_healthy() {
    let head = block(0xaa, 16);
    let connecting = Upstream::new("big".to_string(), 100, None).unwrap();
    let mut degraded = healthy("bigger", 200, head);
    degraded.mark_behind();
    let pool = Pool::new(vec![connecting, degraded, healthy("small", 1, head)]).unwrap();
    assert_eq!(pool.best(&canonical(0xaa, 16)), Ok(2));
}

#[test]
fn best_takes_the_canonical_head_before_a_neighbour() {
    let pool = Pool::new(vec![
        healthy("near", 100, block(0xbb, 17)),
        healthy("exact", 1, block(0xaa, 16)),
    ])
    .unwrap();
    assert_eq!(pool.best(&canonical(0xaa, 16)), Ok(1));
}

#[test]
fn best_falls_back_to_upstreams_within_one_block() {
    let pool = Pool::new(vec![
        healthy("far", 100, block(0xcc, 14)),
        healthy("behind", 10, block(0xbb, 15)),
        healthy("ahead", 20, block(0xdd, 17)),
    ])
    .unwrap();
    assert_eq!(pool.best(&canonical(0xaa, 16)), Ok(2));
    let pool = Pool::new(vec![healthy("far", 100, block(0xcc, 14))]).unwrap();
    assert_eq!(pool.best(&canonical(0xaa, 16)), Err(ErrorKind::NoServers));
}

#[test]
fn preference_is_strict() {
    let head = block(0xaa, 16);
    let a = healthy("a", 10, head);
    let b = healthy("b", 10, head);
    assert!(is_preferred(&a, &b));
    assert!(!is_preferred(&b, &a));
    assert!(!is_preferred(&a, &a));
}

#[test]
fn all_names_each_healthy_upstream_once() {
    let head = block(0xaa, 16);
    let mut closed = healthy("c", 10, head);
    closed.shutdown();
    let pool = Pool::new(vec![
        healthy("a", 10, head),
        Upstream::new("b".to_string(), 10, None).unwrap(),
        closed,
        healthy("d", 10, head),
    ])
    .unwrap();
    assert_eq!(pool.all(), vec![0, 3]);
}

#[test]
fn a_pool_rejects_a_repeated_id() {
    let head = block(0xaa, 16);
    let r = Pool::new(vec![healthy("a", 10, head), healthy("b", 10, head), healthy("a", 20, head)]);
    assert_eq!(r, Err(ErrorKind::InvalidConfig));
}

#[test]
fn swap_replaces_the_set_and_returns_the_old_one() {
    let head = block(0xaa, 16);
    let mut pool = Pool::new(vec![healthy("old", 10, head)]).unwrap();
    let next = Pool::new(vec![healthy("new1", 10, head), healthy("new2", 10, head)]).unwrap();
    let previous = pool.swap_rpcs(next);
    assert_eq!(previous.upstreams.len(), 1);
    assert_eq!(previous.upstreams[0].id, "old");
    assert_eq!(pool.upstreams.len(), 2);
    assert_eq!(pool.upstreams[0].id, "new1");
}

#[test]
fn pool_operations_touch_one_upstream() {
    let head = block(0xaa, 16);
    let mut pool = Pool::new(vec![healthy("a", 10, head), healthy("b", 10, head)]).unwrap();
    assert_eq!(pool.begin_send(1, ThrottleOutcome::Allowed), Ok(()));
    assert_eq!(pool.upstreams[0].inflight_count, 0);
    assert_eq!(pool.upstreams[1].inflight_count, 1);
    pool.end_send(1, false, 5);
    assert_eq!(pool.upstreams[1].inflight_count, 0);
    assert_eq!(pool.begin_send(2, ThrottleOutcome::Allowed), Err(ErrorKind::NoServers));
    pool.check_head_ages(5000, 1000);
    assert_eq!(pool.all(), Vec::<usize>::new());
    pool.shutdown();
    assert_eq!(pool.begin_send(0, ThrottleOutcome::Allowed), Err(ErrorKind::Canceled));
}

#[test]
fn a_pool_rejects_an_upstream_that_breaks_its_invariant() {
    let head = block(0xaa, 16);
    let mut broken = healthy("a", 10, head);
    broken.soft_limit = 0;
    assert!(!broken.is_wf());
    assert_eq!(Pool::new(vec![healthy("b", 10, head), broken]), Err(ErrorKind::InvalidConfig));
    let mut overdrawn = healthy("a", 1, head);
    overdrawn.inflight_count = 3;
    assert!(!overdrawn.is_wf());
    overdrawn.inflight_count = 2;
    assert!(overdrawn.is_wf());
    let mut flat = healthy("a", 1, head);
    flat.overshoot = 0;
    assert!(!flat.is_wf());
}
