//! The configuration that the proxy consumes, and what it builds from it.

use vstd::prelude::*;
use crate::errors::ErrorKind;
use crate::pool::Pool;
use crate::upstream::Upstream;

verus! {

/// The port that the proxy listens on where none is given.
pub const DEFAULT_PORT: u16 = 8544;

/// The overall deadline of a request, in seconds, where none is given.
pub const DEFAULT_REQUEST_TIMEOUT_SECS: u64 = 60;

/// What the command line configures.
#[derive(Clone, Debug, PartialEq, Eq)]
pub struct CliConfig {
    /// The port the proxy listens on.
    pub port: u16,
    /// The number of worker threads; 0 stands for one per logical processor.
    pub workers: usize,
    /// The path of the file that holds an `RpcConfig`.
    pub config: String,
}

impl Default for CliConfig {
    fn default() -> (c: CliConfig)
        ensures
            c.port == DEFAULT_PORT,
            c.workers == 0,
            c.config@ == "./config/development.toml"@,
    {
        CliConfig {
            port: DEFAULT_PORT,
            workers: 0,
            config: "./config/development.toml".to_string(),
        }
    }
}

/// What all upstreams of one proxy share.
#[derive(Clone, Debug, PartialEq, Eq)]
pub struct RpcSharedConfig {
    /// The id of the chain that every upstream serves. It never changes
    /// while the proxy runs.
    pub chain_id: u64,
    /// How many upstreams have to be at a block for it to become canonical.
    pub min_synced_upstreams: u32,
    /// How deep a reorganization may reach.
    pub reorg_depth: u64,
    /// The most entries that the response cache holds.
    pub response_cache_max_entries: usize,
    /// The most bytes that the response cache holds, if bounded.
    pub response_cache_max_bytes: Option<usize>,
    /// The overall deadline of a request, in seconds.
    pub request_timeout_secs: u64,
    /// Where the shared rate limiter keeps its state, if one is used.
    pub rate_limit_redis: Option<String>,
}

/// One upstream as it is configured.
#[derive(Clone, Debug, PartialEq, Eq)]
pub struct Web3ConnectionConfig {
    pub url: String,
    pub soft_limit: u32,
    pub hard_limit: Option<u32>,
}

impl Web3ConnectionConfig {
    /// Whether an upstream can be made of this configuration: it has
    /// capacity, and a hard limit only where a shared rate limiter enforces
    /// it.
    pub open spec fn spawnable(self, has_rate_limiter: bool) -> bool {
        self.soft_limit >= 1 && (self.hard_limit is Some ==> has_rate_limiter)
    }

    /// Whether an upstream can be made of this configuration.
    pub fn is_spawnable(&self, has_rate_limiter: bool) -> (r: bool)
        ensures
            r == self.spawnable(has_rate_limiter),
    {
        self.soft_limit >= 1 && (self.hard_limit.is_none() || has_rate_limiter)
    }

    /// The upstream named `name` that this configuration describes, as it
    /// starts out. `has_rate_limiter` says whether a shared rate limiter is
    /// connected; a hard limit is enforced by that limiter, so a
    /// configuration with a hard limit may only be spawned where one is
    /// connected (`is_spawnable` tells). A configuration without capacity is
    /// rejected.
    pub fn spawn(self, name: String, has_rate_limiter: bool) -> (r: Result<Upstream, ErrorKind>)
        requires
            self.hard_limit is Some ==> has_rate_limiter,
        ensures
            r is Ok <==> self.soft_limit >= 1,
            r matches Ok(u) ==> u.wf() && u == Upstream::fresh(
                name,
                self.soft_limit,
                self.hard_limit,
            ),
            r matches Err(e) ==> e == ErrorKind::InvalidConfig,
    {
        Upstream::new(name, self.soft_limit, self.hard_limit)
    }
}

/// The upstreams of one pool as they are configured: each with its name.
pub type RpcSet = Vec<(String, Web3ConnectionConfig)>;

/// Whether a pool can be made of these upstreams: an upstream can be made
/// of each, and no name occurs twice.
pub open spec fn pool_spawnable(
    rpcs: Seq<(String, Web3ConnectionConfig)>,
    has_rate_limiter: bool,
) -> bool {
    &&& forall|i: int| 0 <= i < rpcs.len() ==> (#[trigger] rpcs[i]).1.spawnable(has_rate_limiter)
    &&& forall|i: int, j: int|
        0 <= i < rpcs.len() && 0 <= j < rpcs.len() && i != j ==> (#[trigger] rpcs[i]).0@ != (
        #[trigger] rpcs[j]).0@
}

/// The pool that `rpcs` describes: one fresh upstream for each entry, in
/// the order of the entries.
pub fn spawn_pool(rpcs: &RpcSet, has_rate_limiter: bool) -> (r: Result<Pool, ErrorKind>)
    ensures
        r is Ok <==> pool_spawnable(rpcs@, has_rate_limiter),
        r matches Ok(p) ==> p.wf() && p.upstreams.len() == rpcs.len() && forall|i: int|
            0 <= i < rpcs.len() ==> (#[trigger] p.upstreams[i]) == Upstream::fresh(
                rpcs[i].0,
                rpcs[i].1.soft_limit,
                rpcs[i].1.hard_limit,
            ),
        r matches Err(e) ==> e == ErrorKind::InvalidConfig,
{
    let mut upstreams: Vec<Upstream> = Vec::new();
    let mut i: usize = 0;
    while i < rpcs.len()
        invariant
            i <= rpcs.len(),
            upstreams.len() == i,
            forall|k: int| 0 <= k < i ==> (#[trigger] rpcs[k]).1.spawnable(has_rate_limiter),
            forall|k: int|
                0 <= k < i ==> (#[trigger] upstreams[k]).wf() && upstreams[k] == Upstream::fresh(
                    rpcs[k].0,
                    rpcs[k].1.soft_limit,
                    rpcs[k].1.hard_limit,
                ),
        decreases rpcs.len() - i,
    {
        let entry = &rpcs[i];
        if !entry.1.is_spawnable(has_rate_limiter) {
            return Err(ErrorKind::InvalidConfig);
        }
        match Upstream::new(entry.0.clone(), entry.1.soft_limit, entry.1.hard_limit) {
            Ok(u) => {
                upstreams.push(u);
            },
            Err(e) => {
                return Err(e);
            },
        }
        i += 1;
    }
    let ghost made = upstreams@;
    assert(forall|k: int| 0 <= k < made.len() ==> (#[trigger] made[k]).id == rpcs[k].0);
    assert(forall|k: int| 0 <= k < made.len() ==> (#[trigger] made[k]).wf());
    let pool = Pool::new(upstreams);
    proof {
        if pool_spawnable(rpcs@, has_rate_limiter) {
            assert forall|a: int, b: int|
                0 <= a < made.len() && 0 <= b < made.len() && a != b implies (#[trigger] made[a]).id@
                != (#[trigger] made[b]).id@ by {
                assert(rpcs[a].0@ != rpcs[b].0@);
            }
        }
        if crate::pool::distinct_and_wf(made) {
            assert forall|a: int, b: int|
                0 <= a < rpcs.len() && 0 <= b < rpcs.len() && a != b implies (#[trigger] rpcs[a]).0@
                != (#[trigger] rpcs[b]).0@ by {
                assert(made[a].id@ != made[b].id@);
            }
        }
    }
    pool
}

/// The whole configuration of the upstreams.
#[derive(Clone, Debug, PartialEq, Eq)]
pub struct RpcConfig {
    pub shared: RpcSharedConfig,
    /// The upstreams that requests are balanced over.
    pub balanced_rpcs: RpcSet,
    /// The upstreams that transactions are submitted to. Where there is
    /// none, they go to the balanced ones.
    pub private_rpcs: RpcSet,
}

impl RpcConfig {
    /// Whether a shared rate limiter is configured.
    pub fn has_rate_limiter(&self) -> (r: bool)
        ensures
            r == self.shared.rate_limit_redis.is_some(),
    {
        self.shared.rate_limit_redis.is_some()
    }

    /// Whether this configuration may replace `current` while the proxy
    /// runs: the chain id has to stay.
    pub fn check_reload(&self, current_chain_id: u64) -> (r: Result<(), ErrorKind>)
        ensures
            r is Ok <==> self.shared.chain_id == current_chain_id,
            r matches Err(e) ==> e == ErrorKind::InvalidConfig,
    {
        if self.shared.chain_id != current_chain_id {
            Err(ErrorKind::InvalidConfig)
        } else {
            Ok(())
        }
    }
}

} // verus!
