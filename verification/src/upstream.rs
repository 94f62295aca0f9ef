//! One upstream RPC endpoint as the pool sees it: its limits, its last
//! observed head, its health and the requests it has in flight.
//!
//! The transport and the shared rate limiter live outside this library. What
//! they report comes in as plain values, and every decision on them is taken
//! here.

use vstd::prelude::*;
use crate::block::BlockRef;
use crate::errors::ErrorKind;

verus! {

/// How many consecutive errors degrade a healthy upstream.
pub const MAX_CONSECUTIVE_ERRORS: u32 = 3;

/// The overshoot factor of an upstream that was given none: the requests in
/// flight never exceed the soft limit times this factor.
pub const DEFAULT_OVERSHOOT: u32 = 2;

/// The health of an upstream.
#[derive(Clone, Copy, Debug, PartialEq, Eq, Structural)]
pub enum Health {
    /// No head has been observed yet.
    Connecting,
    /// Eligible for selection.
    Healthy,
    /// Excluded from selection, still polled for recovery.
    Degraded,
    /// Shut down for good.
    Closed,
}

/// What happened to an upstream, as far as its health is concerned.
#[derive(Clone, Copy, Debug, PartialEq, Eq, Structural)]
pub enum HealthEvent {
    /// A head was observed; `fresh` says that it is no older than the
    /// configured maximum head age.
    HeadObserved { fresh: bool },
    /// A call failed; `consecutive` counts the failures in a row, this one
    /// included.
    CallFailed { consecutive: u32 },
    /// The last observed head has become older than the maximum head age.
    HeadStale,
    /// A head report fell further behind the canonical head than a
    /// reorganization reaches, and was ignored.
    FellBehind,
    /// The upstream was shut down.
    Shutdown,
}

/// The health that follows `health` on `event`.
pub open spec fn next_health(health: Health, event: HealthEvent) -> Health {
    match (health, event) {
        (_, HealthEvent::Shutdown) => Health::Closed,
        (Health::Closed, _) => Health::Closed,
        (Health::Connecting, HealthEvent::HeadObserved { .. }) => Health::Healthy,
        (Health::Degraded, HealthEvent::HeadObserved { fresh }) => if fresh {
            Health::Healthy
        } else {
            Health::Degraded
        },
        (Health::Healthy, HealthEvent::CallFailed { consecutive }) => if consecutive
            >= MAX_CONSECUTIVE_ERRORS {
            Health::Degraded
        } else {
            Health::Healthy
        },
        (Health::Healthy, HealthEvent::HeadStale) => Health::Degraded,
        (_, HealthEvent::FellBehind) => Health::Degraded,
        (h, _) => h,
    }
}

impl Health {
    /// The health that follows this one on `event`.
    pub fn step(self, event: HealthEvent) -> (next: Health)
        ensures
            next == next_health(self, event),
    {
        match event {
            HealthEvent::Shutdown => Health::Closed,
            HealthEvent::HeadObserved { fresh } => match self {
                Health::Closed => Health::Closed,
                Health::Connecting => Health::Healthy,
                Health::Degraded => if fresh {
                    Health::Healthy
                } else {
                    Health::Degraded
                },
                Health::Healthy => Health::Healthy,
            },
            HealthEvent::CallFailed { consecutive } => match self {
                Health::Healthy => if consecutive >= MAX_CONSECUTIVE_ERRORS {
                    Health::Degraded
                } else {
                    Health::Healthy
                },
                h => h,
            },
            HealthEvent::HeadStale => match self {
                Health::Healthy => Health::Degraded,
                h => h,
            },
            HealthEvent::FellBehind => match self {
                Health::Closed => Health::Closed,
                _ => Health::Degraded,
            },
        }
    }
}

/// A closed upstream stays closed whatever happens, and only a shutdown
/// closes one.
pub proof fn lemma_closed_is_final(health: Health, event: HealthEvent)
    ensures
        health == Health::Closed ==> next_health(health, event) == Health::Closed,
        next_health(health, event) == Health::Closed ==> (health == Health::Closed || event
            == HealthEvent::Shutdown),
{
}

/// An upstream becomes healthy only by a head observation, and a degraded
/// one only by a fresh observation.
pub proof fn lemma_recovery_needs_a_head(health: Health, event: HealthEvent)
    requires
        health != Health::Healthy,
        next_health(health, event) == Health::Healthy,
    ensures
        event is HeadObserved,
        health == Health::Degraded ==> event->fresh,
{
}

/// What the shared rate limiter answered to a throttle request.
#[derive(Clone, Copy, Debug, PartialEq, Eq, Structural)]
pub enum ThrottleOutcome {
    /// The call may go ahead.
    Allowed,
    /// The call may be retried at the given time, in milliseconds.
    RetryAt(u64),
    /// The call will never be allowed.
    RetryNever,
    /// The limiter itself failed.
    Error,
}

impl ThrottleOutcome {
    /// Whether the limiter lets the call pass. A failure of the limiter
    /// counts as permission.
    pub open spec fn permits(self) -> bool {
        self == ThrottleOutcome::Allowed || self == ThrottleOutcome::Error
    }

    /// Whether the limiter lets the call pass.
    pub fn is_permitted(&self) -> (r: bool)
        ensures
            r == self.permits(),
    {
        match self {
            ThrottleOutcome::Allowed => true,
            ThrottleOutcome::Error => true,
            _ => false,
        }
    }
}

/// One upstream endpoint.
#[derive(Clone, Debug, PartialEq, Eq)]
pub struct Upstream {
    /// The stable identifier.
    pub id: String,
    /// The number of requests in flight that the upstream takes comfortably.
    pub soft_limit: u32,
    /// The number of requests in flight beyond which it takes none.
    pub hard_limit: Option<u32>,
    /// How far the requests in flight may exceed the soft limit, as a factor.
    pub overshoot: u32,
    /// The head it reported last.
    pub current_head: Option<BlockRef>,
    /// When that head was observed, in milliseconds.
    pub last_head_at: Option<u64>,
    /// When it failed last, in milliseconds.
    pub last_error_at: Option<u64>,
    /// The failures in a row.
    pub consecutive_errors: u32,
    /// The requests in flight.
    pub inflight_count: u32,
    /// Its health.
    pub health: Health,
}

impl Upstream {
    /// The most requests that may be in flight at once.
    pub open spec fn inflight_bound(self) -> int {
        self.soft_limit * self.overshoot
    }

    /// The invariant of an upstream: it has capacity, and the requests in
    /// flight stay within the soft limit times the overshoot factor.
    pub open spec fn wf(self) -> bool {
        &&& self.soft_limit >= 1
        &&& self.overshoot >= 1
        &&& self.inflight_count <= self.inflight_bound()
    }

    /// Whether the invariant holds.
    pub fn is_wf(&self) -> (r: bool)
        ensures
            r == self.wf(),
    {
        if self.soft_limit == 0 || self.overshoot == 0 {
            return false;
        }
        assert(self.soft_limit * self.overshoot <= 0xffff_ffff * 0xffff_ffff) by (nonlinear_arith)
            requires
                self.soft_limit <= 0xffff_ffff,
                self.overshoot <= 0xffff_ffff,
        ;
        (self.inflight_count as u64) <= (self.soft_limit as u64) * (self.overshoot as u64)
    }

    /// Whether the pool may select this upstream.
    pub open spec fn selectable(self) -> bool {
        self.health == Health::Healthy
    }

    /// Whether one more request may be sent, given the limiter's answer: the
    /// upstream is not closed, the limiter permits, and the requests in
    /// flight are below the hard limit, below the bound of the invariant and
    /// below what the counter can hold.
    pub open spec fn admits(self, limiter: ThrottleOutcome) -> bool {
        &&& self.health != Health::Closed
        &&& limiter.permits()
        &&& (self.hard_limit matches Some(h) ==> self.inflight_count < h)
        &&& self.inflight_count < self.inflight_bound()
        &&& self.inflight_count < u32::MAX
    }

    /// The upstream `id` as it starts out: connecting, idle, without a
    /// head, with the default overshoot factor.
    pub open spec fn fresh(id: String, soft_limit: u32, hard_limit: Option<u32>) -> Upstream {
        Upstream {
            id,
            soft_limit,
            hard_limit,
            overshoot: DEFAULT_OVERSHOOT,
            current_head: None,
            last_head_at: None,
            last_error_at: None,
            consecutive_errors: 0,
            inflight_count: 0,
            health: Health::Connecting,
        }
    }

    /// A new upstream. One without capacity is rejected.
    pub fn new(id: String, soft_limit: u32, hard_limit: Option<u32>) -> (r: Result<
        Upstream,
        ErrorKind,
    >)
        ensures
            r is Err <==> soft_limit == 0,
            r matches Err(e) ==> e == ErrorKind::InvalidConfig,
            r matches Ok(u) ==> u.wf() && u == Upstream::fresh(id, soft_limit, hard_limit),
    {
        if soft_limit == 0 {
            return Err(ErrorKind::InvalidConfig);
        }
        assert(0 <= soft_limit * DEFAULT_OVERSHOOT) by (nonlinear_arith)
            requires
                soft_limit >= 1,
        ;
        Ok(
            Upstream {
                id,
                soft_limit,
                hard_limit,
                overshoot: DEFAULT_OVERSHOOT,
                current_head: None,
                last_head_at: None,
                last_error_at: None,
                consecutive_errors: 0,
                inflight_count: 0,
                health: Health::Connecting,
            },
        )
    }

    /// The head this upstream observed last, if it ever saw one.
    pub fn head(&self) -> (r: Option<BlockRef>)
        ensures
            r == self.current_head,
    {
        self.current_head
    }

    /// The limit to hand to the shared rate limiter before a send, where this
    /// upstream has a hard limit.
    pub fn limiter_request(&self) -> (r: Option<u32>)
        ensures
            r == self.hard_limit,
    {
        self.hard_limit
    }

    /// Admission to a send. `limiter` is what the shared rate limiter
    /// answered (`Allowed` where the upstream has no hard limit). On success
    /// one more request is in flight; otherwise nothing changes and the error
    /// says why: `Canceled` for a closed upstream, `Capacity` for the rest.
    pub fn begin_send(&mut self, limiter: ThrottleOutcome) -> (r: Result<(), ErrorKind>)
        requires
            old(self).wf(),
        ensures
            final(self).wf(),
            r is Ok <==> old(self).admits(limiter),
            r is Ok ==> *final(self) == (Upstream {
                inflight_count: (old(self).inflight_count + 1) as u32,
                ..*old(self)
            }),
            r is Err ==> *final(self) == *old(self),
            r matches Err(e) ==> e == (if old(self).health == Health::Closed {
                ErrorKind::Canceled
            } else {
                ErrorKind::Capacity
            }),
    {
        if self.health == Health::Closed {
            return Err(ErrorKind::Canceled);
        }
        if !limiter.is_permitted() {
            return Err(ErrorKind::Capacity);
        }
        if let Some(h) = self.hard_limit {
            if self.inflight_count >= h {
                return Err(ErrorKind::Capacity);
            }
        }
        assert(self.soft_limit * self.overshoot <= 0xffff_ffff * 0xffff_ffff) by (nonlinear_arith)
            requires
                self.soft_limit <= 0xffff_ffff,
                self.overshoot <= 0xffff_ffff,
        ;
        let bound: u64 = (self.soft_limit as u64) * (self.overshoot as u64);
        if (self.inflight_count as u64) >= bound || self.inflight_count == u32::MAX {
            return Err(ErrorKind::Capacity);
        }
        self.inflight_count = self.inflight_count + 1;
        Ok(())
    }

    /// The end of a send that was admitted. One request fewer is in flight.
    /// A transport failure at time `now` counts towards degradation; any
    /// other end breaks the run of failures.
    pub fn end_send(&mut self, transport_failed: bool, now: u64)
        requires
            old(self).wf(),
        ensures
            final(self).wf(),
            final(self).inflight_count == (if old(self).inflight_count > 0 {
                old(self).inflight_count - 1
            } else {
                0
            }),
            final(self).consecutive_errors == (if !transport_failed {
                0
            } else if old(self).consecutive_errors < u32::MAX {
                old(self).consecutive_errors + 1
            } else {
                u32::MAX as int
            }),
            final(self).last_error_at == (if transport_failed {
                Some(now)
            } else {
                old(self).last_error_at
            }),
            final(self).health == (if transport_failed {
                next_health(
                    old(self).health,
                    HealthEvent::CallFailed { consecutive: final(self).consecutive_errors },
                )
            } else {
                old(self).health
            }),
            final(self).id == old(self).id,
            final(self).soft_limit == old(self).soft_limit,
            final(self).hard_limit == old(self).hard_limit,
            final(self).overshoot == old(self).overshoot,
            final(self).current_head == old(self).current_head,
            final(self).last_head_at == old(self).last_head_at,
    {
        if self.inflight_count > 0 {
            self.inflight_count = self.inflight_count - 1;
        }
        if transport_failed {
            if self.consecutive_errors < u32::MAX {
                self.consecutive_errors = self.consecutive_errors + 1;
            }
            self.last_error_at = Some(now);
            self.health = self.health.step(
                HealthEvent::CallFailed { consecutive: self.consecutive_errors },
            );
        } else {
            self.consecutive_errors = 0;
        }
    }

    /// A head report. `observed_at` is when the upstream saw the block and
    /// `now` the current time, both in milliseconds; the observation is
    /// fresh when it is no older than `max_head_age`. A closed upstream
    /// takes no reports.
    pub fn observe_head(&mut self, block: BlockRef, observed_at: u64, now: u64, max_head_age: u64)
        requires
            old(self).wf(),
        ensures
            final(self).wf(),
            old(self).health == Health::Closed ==> *final(self) == *old(self),
            old(self).health != Health::Closed ==> *final(self) == (Upstream {
                current_head: Some(block),
                last_head_at: Some(observed_at),
                consecutive_errors: 0,
                health: next_health(
                    old(self).health,
                    HealthEvent::HeadObserved { fresh: is_fresh(observed_at, now, max_head_age) },
                ),
                ..*old(self)
            }),
    {
        if self.health == Health::Closed {
            return ;
        }
        let fresh = now <= observed_at || now - observed_at <= max_head_age;
        self.current_head = Some(block);
        self.last_head_at = Some(observed_at);
        self.consecutive_errors = 0;
        self.health = self.health.step(HealthEvent::HeadObserved { fresh });
    }

    /// The periodic check of the head's age at time `now`: a healthy
    /// upstream whose head is older than `max_head_age` is degraded.
    pub fn check_head_age(&mut self, now: u64, max_head_age: u64)
        requires
            old(self).wf(),
        ensures
            final(self).wf(),
            *final(self) == (Upstream {
                health: if old(self).head_is_stale(now, max_head_age) {
                    next_health(old(self).health, HealthEvent::HeadStale)
                } else {
                    old(self).health
                },
                ..*old(self)
            }),
    {
        let stale = match self.last_head_at {
            Some(at) => !(now <= at || now - at <= max_head_age),
            None => false,
        };
        if stale {
            self.health = self.health.step(HealthEvent::HeadStale);
        }
    }

    /// Whether the last observed head is older than `max_head_age` at `now`.
    pub open spec fn head_is_stale(self, now: u64, max_head_age: u64) -> bool {
        self.last_head_at matches Some(at) && !is_fresh(at, now, max_head_age)
    }

    /// The head tracker ignored a report of this upstream because it fell
    /// too far behind: the upstream is degraded, unless it is closed.
    pub fn mark_behind(&mut self)
        requires
            old(self).wf(),
        ensures
            final(self).wf(),
            *final(self) == (Upstream {
                health: next_health(old(self).health, HealthEvent::FellBehind),
                ..*old(self)
            }),
    {
        self.health = self.health.step(HealthEvent::FellBehind);
    }

    /// Shuts the upstream down. It is closed from now on, and the sends
    /// still in flight are to fail with `Canceled`.
    pub fn shutdown(&mut self)
        requires
            old(self).wf(),
        ensures
            final(self).wf(),
            *final(self) == (Upstream { health: Health::Closed, ..*old(self) }),
    {
        self.health = self.health.step(HealthEvent::Shutdown);
    }
}

/// An observation made at `observed_at` is fresh at `now` when it is no older
/// than `max_head_age`.
pub open spec fn is_fresh(observed_at: u64, now: u64, max_head_age: u64) -> bool {
    now - observed_at <= max_head_age
}

} // verus!
