//! The connection pool: the current set of upstreams and the two ways of
//! selecting from it.

use vstd::prelude::*;
use vstd::utf8::encode_utf8;
use crate::block::CanonicalHead;
use crate::errors::ErrorKind;
use crate::order::{bytes_less, lex_less};
use crate::block::BlockRef;
use crate::upstream::{is_fresh, next_health, Health, HealthEvent, ThrottleOutcome, Upstream};

verus! {

/// The bytes by which the id of an upstream is ranked: its UTF-8 encoding.
pub open spec fn id_bytes(u: Upstream) -> Seq<u8> {
    encode_utf8(u.id@)
}

/// `a` carries strictly less load than `b`: fewer requests in flight per
/// unit of soft limit.
pub open spec fn load_less(a: Upstream, b: Upstream) -> bool {
    a.inflight_count * b.soft_limit < b.inflight_count * a.soft_limit
}

/// `a` and `b` carry the same load.
pub open spec fn load_equal(a: Upstream, b: Upstream) -> bool {
    a.inflight_count * b.soft_limit == b.inflight_count * a.soft_limit
}

/// `a` is preferred to `b`: it carries less load; at equal load it has the
/// higher soft limit; at equal soft limit its id sorts first.
pub open spec fn ranks_before(a: Upstream, b: Upstream) -> bool {
    ||| load_less(a, b)
    ||| (load_equal(a, b) && a.soft_limit > b.soft_limit)
    ||| (load_equal(a, b) && a.soft_limit == b.soft_limit && lex_less(id_bytes(a), id_bytes(b)))
}

/// Whether `u` may serve a request at the canonical head `canon`. With
/// `exact` its head has to be the canonical block itself; without, to lie
/// within one block of it.
pub open spec fn eligible(u: Upstream, canon: CanonicalHead, exact: bool) -> bool {
    &&& u.selectable()
    &&& u.current_head matches Some(h) && if exact {
        h.hash@ == canon.hash@
    } else {
        h.number - canon.number <= 1 && canon.number - h.number <= 1
    }
}

/// Whether any upstream of `s` is eligible.
pub open spec fn any_eligible(s: Seq<Upstream>, canon: CanonicalHead, exact: bool) -> bool {
    exists|j: int| 0 <= j < s.len() && eligible(#[trigger] s[j], canon, exact)
}

/// Upstream `i` is eligible and preferred to every other eligible one.
pub open spec fn is_best(s: Seq<Upstream>, canon: CanonicalHead, exact: bool, i: int) -> bool {
    &&& 0 <= i < s.len()
    &&& eligible(s[i], canon, exact)
    &&& forall|j: int|
        0 <= j < s.len() && j != i && eligible(#[trigger] s[j], canon, exact) ==> ranks_before(
            s[i],
            s[j],
        )
}

/// Upstream `i` is the one to send to: the best of those at the canonical
/// head, or, where none is there, the best of those within one block of it.
pub open spec fn best_choice(s: Seq<Upstream>, canon: CanonicalHead, i: int) -> bool {
    if any_eligible(s, canon, true) {
        is_best(s, canon, true, i)
    } else {
        is_best(s, canon, false, i)
    }
}

/// The invariant of a set of upstreams: each is well-formed and no id occurs
/// twice.
pub open spec fn distinct_and_wf(s: Seq<Upstream>) -> bool {
    &&& forall|i: int| 0 <= i < s.len() ==> (#[trigger] s[i]).wf()
    &&& forall|i: int, j: int|
        0 <= i < s.len() && 0 <= j < s.len() && i != j ==> (#[trigger] s[i]).id@ != (
        #[trigger] s[j]).id@
}

proof fn lemma_ratio_transitive(i1: int, s1: int, i2: int, s2: int, i3: int, s3: int)
    requires
        s1 > 0,
        s2 > 0,
        s3 > 0,
        i1 >= 0,
        i2 >= 0,
        i3 >= 0,
        i1 * s2 <= i2 * s1,
        i2 * s3 <= i3 * s2,
    ensures
        i1 * s3 <= i3 * s1,
        (i1 * s2 < i2 * s1 || i2 * s3 < i3 * s2) ==> i1 * s3 < i3 * s1,
{
    assert((i1 * s2) * s3 <= (i2 * s1) * s3) by (nonlinear_arith)
        requires
            i1 * s2 <= i2 * s1,
            s3 > 0,
    ;
    assert((i2 * s3) * s1 <= (i3 * s2) * s1) by (nonlinear_arith)
        requires
            i2 * s3 <= i3 * s2,
            s1 > 0,
    ;
    assert((i2 * s1) * s3 == (i2 * s3) * s1) by (nonlinear_arith);
    assert((i1 * s2) * s3 == (i1 * s3) * s2) by (nonlinear_arith);
    assert((i3 * s2) * s1 == (i3 * s1) * s2) by (nonlinear_arith);
    assert(i1 * s3 <= i3 * s1) by (nonlinear_arith)
        requires
            (i1 * s3) * s2 <= (i3 * s1) * s2,
            s2 > 0,
    ;
    if i1 * s2 < i2 * s1 {
        assert((i1 * s2) * s3 < (i2 * s1) * s3) by (nonlinear_arith)
            requires
                i1 * s2 < i2 * s1,
                s3 > 0,
        ;
        assert(i1 * s3 < i3 * s1) by (nonlinear_arith)
            requires
                (i1 * s3) * s2 < (i3 * s1) * s2,
                s2 > 0,
        ;
    }
    if i2 * s3 < i3 * s2 {
        assert((i2 * s3) * s1 < (i3 * s2) * s1) by (nonlinear_arith)
            requires
                i2 * s3 < i3 * s2,
                s1 > 0,
        ;
        assert(i1 * s3 < i3 * s1) by (nonlinear_arith)
            requires
                (i1 * s3) * s2 < (i3 * s1) * s2,
                s2 > 0,
        ;
    }
}

/// Preference is transitive.
pub proof fn lemma_rank_transitive(a: Upstream, b: Upstream, c: Upstream)
    requires
        a.wf(),
        b.wf(),
        c.wf(),
        ranks_before(a, b),
        ranks_before(b, c),
    ensures
        ranks_before(a, c),
{
    lemma_ratio_transitive(
        a.inflight_count as int,
        a.soft_limit as int,
        b.inflight_count as int,
        b.soft_limit as int,
        c.inflight_count as int,
        c.soft_limit as int,
    );
    if load_equal(a, b) && load_equal(b, c) {
        lemma_ratio_transitive(
            c.inflight_count as int,
            c.soft_limit as int,
            b.inflight_count as int,
            b.soft_limit as int,
            a.inflight_count as int,
            a.soft_limit as int,
        );
        if a.soft_limit == b.soft_limit && b.soft_limit == c.soft_limit {
            crate::order::lemma_lex_transitive(id_bytes(a), id_bytes(b), id_bytes(c));
        }
    }
}

/// Of two upstreams with different ids exactly one is preferred to the
/// other.
pub proof fn lemma_rank_total(a: Upstream, b: Upstream)
    requires
        a.id@ != b.id@,
    ensures
        ranks_before(a, b) || ranks_before(b, a),
        !(ranks_before(a, b) && ranks_before(b, a)),
{
    vstd::utf8::encode_utf8_decode_utf8(a.id@);
    vstd::utf8::encode_utf8_decode_utf8(b.id@);
    assert(id_bytes(a) != id_bytes(b));
    crate::order::lemma_lex_total(id_bytes(a), id_bytes(b));
}

/// Only a healthy upstream is selected: one that is connecting, degraded
/// or closed is never the one to send to.
pub proof fn lemma_selected_is_healthy(s: Seq<Upstream>, canon: CanonicalHead, i: int)
    requires
        best_choice(s, canon, i),
    ensures
        0 <= i < s.len(),
        s[i].health == Health::Healthy,
        s[i].current_head is Some,
{
}

/// The selection is deterministic: in a set without repeated ids at most one
/// upstream is the best.
pub proof fn lemma_best_is_unique(
    s: Seq<Upstream>,
    canon: CanonicalHead,
    exact: bool,
    i: int,
    k: int,
)
    requires
        distinct_and_wf(s),
        is_best(s, canon, exact, i),
        is_best(s, canon, exact, k),
    ensures
        i == k,
{
    if i != k {
        lemma_rank_total(s[i], s[k]);
    }
}

/// Where all upstreams are eligible and idle, the one selected has the
/// highest soft limit, and of those with that soft limit the id that sorts
/// first.
pub proof fn lemma_idle_selection(s: Seq<Upstream>, canon: CanonicalHead, exact: bool, i: int)
    requires
        distinct_and_wf(s),
        forall|j: int| 0 <= j < s.len() ==> eligible(#[trigger] s[j], canon, exact),
        forall|j: int| 0 <= j < s.len() ==> (#[trigger] s[j]).inflight_count == 0,
        is_best(s, canon, exact, i),
    ensures
        forall|j: int| 0 <= j < s.len() ==> (#[trigger] s[j]).soft_limit <= s[i].soft_limit,
        forall|j: int|
            0 <= j < s.len() && j != i && (#[trigger] s[j]).soft_limit == s[i].soft_limit
                ==> lex_less(id_bytes(s[i]), id_bytes(s[j])),
{
    assert forall|j: int| 0 <= j < s.len() implies (#[trigger] s[j]).soft_limit
        <= s[i].soft_limit by {
        if j != i {
            assert(eligible(s[j], canon, exact));
            assert(ranks_before(s[i], s[j]));
        }
    }
    assert forall|j: int|
        0 <= j < s.len() && j != i && (#[trigger] s[j]).soft_limit
            == s[i].soft_limit implies lex_less(id_bytes(s[i]), id_bytes(s[j])) by {
        assert(eligible(s[j], canon, exact));
        assert(ranks_before(s[i], s[j]));
    }
}

/// Whether `a` is preferred to `b`.
pub fn is_preferred(a: &Upstream, b: &Upstream) -> (r: bool)
    ensures
        r == ranks_before(*a, *b),
{
    assert(a.inflight_count * b.soft_limit <= 0xffff_ffff * 0xffff_ffff) by (nonlinear_arith)
        requires
            0 <= a.inflight_count <= 0xffff_ffff,
            0 <= b.soft_limit <= 0xffff_ffff,
    ;
    assert(b.inflight_count * a.soft_limit <= 0xffff_ffff * 0xffff_ffff) by (nonlinear_arith)
        requires
            0 <= b.inflight_count <= 0xffff_ffff,
            0 <= a.soft_limit <= 0xffff_ffff,
    ;
    let load_a: u64 = (a.inflight_count as u64) * (b.soft_limit as u64);
    let load_b: u64 = (b.inflight_count as u64) * (a.soft_limit as u64);
    if load_a < load_b {
        true
    } else if load_a > load_b {
        false
    } else if a.soft_limit != b.soft_limit {
        a.soft_limit > b.soft_limit
    } else {
        bytes_less(a.id.as_str().as_bytes(), b.id.as_str().as_bytes())
    }
}

/// Whether `u` may serve a request at the canonical head `canon`.
pub fn is_eligible(u: &Upstream, canon: &CanonicalHead, exact: bool) -> (r: bool)
    ensures
        r == eligible(*u, *canon, exact),
{
    if u.health != Health::Healthy {
        return false;
    }
    match u.current_head {
        None => false,
        Some(h) => if exact {
            h.hash.same(&canon.hash)
        } else if h.number >= canon.number {
            h.number - canon.number <= 1
        } else {
            canon.number - h.number <= 1
        },
    }
}

/// `targets` names the healthy upstreams of `s`: each of them, none else,
/// in rising order.
pub open spec fn is_all_healthy(s: Seq<Upstream>, targets: Seq<usize>) -> bool {
    &&& forall|k: int|
        0 <= k < targets.len() ==> (#[trigger] targets[k]) < s.len() && s[targets[k] as int].selectable()
    &&& forall|k1: int, k2: int| 0 <= k1 < k2 < targets.len() ==> targets[k1] < targets[k2]
    &&& forall|j: int|
        0 <= j < s.len() && (#[trigger] s[j]).selectable() ==> targets.contains(j as usize)
}

/// A broadcast reaches every healthy upstream exactly once: each occurs at
/// one place among the targets and at no other.
pub proof fn lemma_broadcast_reaches_each_once(s: Seq<Upstream>, targets: Seq<usize>, j: int)
    requires
        is_all_healthy(s, targets),
        s.len() <= usize::MAX,
        0 <= j < s.len(),
        s[j].selectable(),
    ensures
        exists|k: int|
            0 <= k < targets.len() && (#[trigger] targets[k]) == j && forall|k2: int|
                0 <= k2 < targets.len() && k2 != k ==> targets[k2] != j,
{
    assert(targets.contains(j as usize));
    let k = choose|k: int| 0 <= k < targets.len() && targets[k] == j as usize;
    assert(targets[k] == j);
    assert forall|k2: int| 0 <= k2 < targets.len() && k2 != k implies targets[k2] != j by {
        if k2 < k {
            assert(targets[k2] < targets[k]);
        } else {
            assert(targets[k] < targets[k2]);
        }
    }
}

/// The set of upstreams that requests are balanced over.
#[derive(Clone, Debug, PartialEq, Eq)]
pub struct Pool {
    pub upstreams: Vec<Upstream>,
}

/// `after` is `before` but for upstream `i`.
pub open spec fn same_but(before: Pool, after: Pool, i: usize) -> bool {
    &&& after.upstreams.len() == before.upstreams.len()
    &&& forall|j: int|
        0 <= j < before.upstreams.len() && j != i ==> (#[trigger] after.upstreams[j])
            == before.upstreams[j]
}

/// What `Pool::begin_send` does: upstream `i` decides on the admission, the
/// others stay as they are; an index that names no upstream finds no server.
pub open spec fn send_begun(
    before: Pool,
    after: Pool,
    i: usize,
    limiter: ThrottleOutcome,
    r: Result<(), ErrorKind>,
) -> bool {
    &&& same_but(before, after, i)
    &&& i >= before.upstreams.len() ==> r == Err::<(), ErrorKind>(ErrorKind::NoServers)
    &&& i < before.upstreams.len() ==> {
        let u = before.upstreams[i as int];
        let v = after.upstreams[i as int];
        &&& r is Ok <==> u.admits(limiter)
        &&& r is Ok ==> v == (Upstream { inflight_count: (u.inflight_count + 1) as u32, ..u })
        &&& r is Err ==> v == u
        &&& r matches Err(e) ==> e == (if u.health == Health::Closed {
            ErrorKind::Canceled
        } else {
            ErrorKind::Capacity
        })
    }
}

/// What `Pool::end_send` does: upstream `i` has one request fewer in
/// flight, and a failure of the transport counts towards its degradation;
/// the others stay as they are.
pub open spec fn send_ended(
    before: Pool,
    after: Pool,
    i: usize,
    transport_failed: bool,
    now: u64,
) -> bool {
    &&& same_but(before, after, i)
    &&& i < before.upstreams.len() ==> {
        let u = before.upstreams[i as int];
        let v = after.upstreams[i as int];
        &&& v.id == u.id
        &&& v.soft_limit == u.soft_limit
        &&& v.hard_limit == u.hard_limit
        &&& v.overshoot == u.overshoot
        &&& v.current_head == u.current_head
        &&& v.last_head_at == u.last_head_at
        &&& v.inflight_count == (if u.inflight_count > 0 {
            u.inflight_count - 1
        } else {
            0
        })
        &&& v.consecutive_errors == (if !transport_failed {
            0
        } else if u.consecutive_errors < u32::MAX {
            u.consecutive_errors + 1
        } else {
            u32::MAX as int
        })
        &&& v.last_error_at == (if transport_failed {
            Some(now)
        } else {
            u.last_error_at
        })
        &&& v.health == (if transport_failed {
            next_health(u.health, HealthEvent::CallFailed { consecutive: v.consecutive_errors })
        } else {
            u.health
        })
    }
}

/// What `Pool::observe_head` does: upstream `i` takes the report unless it
/// is closed; the others stay as they are.
pub open spec fn head_observed(
    before: Pool,
    after: Pool,
    i: usize,
    block: BlockRef,
    observed_at: u64,
    now: u64,
    max_head_age: u64,
) -> bool {
    &&& same_but(before, after, i)
    &&& i < before.upstreams.len() ==> {
        let u = before.upstreams[i as int];
        let v = after.upstreams[i as int];
        &&& u.health == Health::Closed ==> v == u
        &&& u.health != Health::Closed ==> v == (Upstream {
            current_head: Some(block),
            last_head_at: Some(observed_at),
            consecutive_errors: 0,
            health: next_health(
                u.health,
                HealthEvent::HeadObserved { fresh: is_fresh(observed_at, now, max_head_age) },
            ),
            ..u
        })
    }
}

/// What `Pool::mark_behind` does: upstream `i` is degraded unless it is
/// closed; the others stay as they are.
pub open spec fn fell_behind(before: Pool, after: Pool, i: usize) -> bool {
    &&& same_but(before, after, i)
    &&& i < before.upstreams.len() ==> after.upstreams[i as int] == (Upstream {
        health: next_health(before.upstreams[i as int].health, HealthEvent::FellBehind),
        ..before.upstreams[i as int]
    })
}

/// What `Pool::check_head_ages` does: every healthy upstream whose head
/// is older than `max_head_age` at `now` is degraded; nothing else changes.
pub open spec fn ages_checked(before: Pool, after: Pool, now: u64, max_head_age: u64) -> bool {
    &&& after.upstreams.len() == before.upstreams.len()
    &&& forall|j: int|
        0 <= j < before.upstreams.len() ==> (#[trigger] after.upstreams[j]) == (Upstream {
            health: if before.upstreams[j].head_is_stale(now, max_head_age) {
                next_health(before.upstreams[j].health, HealthEvent::HeadStale)
            } else {
                before.upstreams[j].health
            },
            ..before.upstreams[j]
        })
}

/// What `Pool::shutdown` does: every upstream is closed; nothing else
/// changes.
pub open spec fn all_closed(before: Pool, after: Pool) -> bool {
    &&& after.upstreams.len() == before.upstreams.len()
    &&& forall|j: int|
        0 <= j < before.upstreams.len() ==> (#[trigger] after.upstreams[j]) == (Upstream {
            health: Health::Closed,
            ..before.upstreams[j]
        })
}

/// Whether an upstream of the pool has a request in flight.
pub open spec fn busy(pool: Pool) -> bool {
    exists|j: int| 0 <= j < pool.upstreams.len() && (#[trigger] pool.upstreams[j]).inflight_count > 0
}

impl Pool {
    /// The invariant of a pool.
    pub open spec fn wf(self) -> bool {
        distinct_and_wf(self.upstreams@)
    }

    /// A pool of the given upstreams. A set in which an id occurs twice, or
    /// which holds an upstream that breaks its invariant, is rejected.
    pub fn new(upstreams: Vec<Upstream>) -> (r: Result<Pool, ErrorKind>)
        ensures
            r is Ok <==> distinct_and_wf(upstreams@),
            r matches Ok(p) ==> p.upstreams == upstreams,
            r matches Err(e) ==> e == ErrorKind::InvalidConfig,
    {
        let n = upstreams.len();
        let mut i: usize = 0;
        while i < n
            invariant
                n == upstreams.len(),
                i <= n,
                forall|a: int| 0 <= a < i ==> (#[trigger] upstreams[a]).wf(),
                forall|a: int, b: int|
                    0 <= a < i && 0 <= b < n && a != b ==> (#[trigger] upstreams[a]).id@ != (
                    #[trigger] upstreams[b]).id@,
            decreases n - i,
        {
            if !upstreams[i].is_wf() {
                return Err(ErrorKind::InvalidConfig);
            }
            let mut j: usize = 0;
            while j < n
                invariant
                    n == upstreams.len(),
                    i < n,
                    j <= n,
                    forall|b: int|
                        0 <= b < j && b != i ==> upstreams[i as int].id@ != (
                        #[trigger] upstreams[b]).id@,
                decreases n - j,
            {
                if j != i && upstreams[i].id == upstreams[j].id {
                    return Err(ErrorKind::InvalidConfig);
                }
                j += 1;
            }
            i += 1;
        }
        Ok(Pool { upstreams })
    }

    /// The best upstream of one tier, by index.
    fn best_of_tier(&self, canon: &CanonicalHead, exact: bool) -> (r: Option<usize>)
        requires
            self.wf(),
        ensures
            r is Some <==> any_eligible(self.upstreams@, *canon, exact),
            r matches Some(i) ==> is_best(self.upstreams@, *canon, exact, i as int),
    {
        let n = self.upstreams.len();
        let mut best: Option<usize> = None;
        let mut i: usize = 0;
        while i < n
            invariant
                n == self.upstreams.len(),
                i <= n,
                self.wf(),
                best is None ==> forall|j: int|
                    0 <= j < i ==> !eligible(#[trigger] self.upstreams[j], *canon, exact),
                best matches Some(b) ==> b < i && eligible(self.upstreams[b as int], *canon, exact)
                    && forall|j: int|
                    0 <= j < i && j != b && eligible(#[trigger] self.upstreams[j], *canon, exact)
                        ==> ranks_before(self.upstreams[b as int], self.upstreams[j]),
            decreases n - i,
        {
            if is_eligible(&self.upstreams[i], canon, exact) {
                match best {
                    None => {
                        best = Some(i);
                    },
                    Some(b) => {
                        if is_preferred(&self.upstreams[i], &self.upstreams[b]) {
                            assert forall|j: int|
                                0 <= j < i + 1 && j != i && eligible(
                                    #[trigger] self.upstreams[j],
                                    *canon,
                                    exact,
                                ) implies ranks_before(
                                self.upstreams[i as int],
                                self.upstreams[j],
                            ) by {
                                if j != b {
                                    lemma_rank_transitive(
                                        self.upstreams[i as int],
                                        self.upstreams[b as int],
                                        self.upstreams[j],
                                    );
                                }
                            }
                            best = Some(i);
                        } else {
                            proof {
                                lemma_rank_total(
                                    self.upstreams[i as int],
                                    self.upstreams[b as int],
                                );
                            }
                        }
                    },
                }
            }
            i += 1;
        }
        best
    }

    /// The upstream to send a request to, by its index: among the healthy
    /// upstreams whose head is the canonical head, the preferred one; where
    /// there is none, the preferred one among the healthy upstreams whose
    /// head is within one block of it; `NoServers` where there is none
    /// either.
    pub fn best(&self, canon: &CanonicalHead) -> (r: Result<usize, ErrorKind>)
        requires
            self.wf(),
        ensures
            r is Ok <==> (any_eligible(self.upstreams@, *canon, true) || any_eligible(
                self.upstreams@,
                *canon,
                false,
            )),
            r matches Ok(i) ==> best_choice(self.upstreams@, *canon, i as int),
            r matches Err(e) ==> e == ErrorKind::NoServers,
    {
        match self.best_of_tier(canon, true) {
            Some(i) => Ok(i),
            None => match self.best_of_tier(canon, false) {
                Some(i) => Ok(i),
                None => Err(ErrorKind::NoServers),
            },
        }
    }

    /// The healthy upstreams, by index, in the order of the pool. A
    /// broadcast goes to each of them once.
    pub fn all(&self) -> (r: Vec<usize>)
        ensures
            is_all_healthy(self.upstreams@, r@),
    {
        let n = self.upstreams.len();
        let mut out: Vec<usize> = Vec::new();
        let mut i: usize = 0;
        while i < n
            invariant
                n == self.upstreams.len(),
                i <= n,
                forall|k: int|
                    0 <= k < out.len() ==> (#[trigger] out[k]) < i
                        && self.upstreams[out[k] as int].selectable(),
                forall|k1: int, k2: int| 0 <= k1 < k2 < out.len() ==> out[k1] < out[k2],
                forall|j: int|
                    0 <= j < i && (#[trigger] self.upstreams[j]).selectable() ==> out@.contains(
                        j as usize,
                    ),
            decreases n - i,
        {
            if self.upstreams[i].health == Health::Healthy {
                let ghost before = out@;
                out.push(i);
                assert forall|j: int|
                    0 <= j < i + 1 && (#[trigger] self.upstreams[j]).selectable() implies out@.contains(
                    j as usize,
                ) by {
                    if j < i {
                        let k = choose|k: int| 0 <= k < before.len() && before[k] == j as usize;
                        assert(out@[k] == j as usize);
                    } else {
                        assert(out@[before.len() as int] == i);
                    }
                }
            }
            i += 1;
        }
        out
    }

    /// Admission to a send to upstream `i`, as `Upstream::begin_send` decides
    /// it. An index that names no upstream finds no server.
    pub fn begin_send(&mut self, i: usize, limiter: ThrottleOutcome) -> (r: Result<(), ErrorKind>)
        requires
            old(self).wf(),
        ensures
            final(self).wf(),
            send_begun(*old(self), *final(self), i, limiter, r),
    {
        if i >= self.upstreams.len() {
            return Err(ErrorKind::NoServers);
        }
        let u = &mut self.upstreams[i];
        u.begin_send(limiter)
    }

    /// The end of a send to upstream `i` that was admitted, as
    /// `Upstream::end_send` records it.
    pub fn end_send(&mut self, i: usize, transport_failed: bool, now: u64)
        requires
            old(self).wf(),
        ensures
            final(self).wf(),
            send_ended(*old(self), *final(self), i, transport_failed, now),
    {
        if i < self.upstreams.len() {
            let u = &mut self.upstreams[i];
            u.end_send(transport_failed, now);
        }
    }

    /// A head report of upstream `i`, as `Upstream::observe_head` records
    /// it.
    pub fn observe_head(
        &mut self,
        i: usize,
        block: BlockRef,
        observed_at: u64,
        now: u64,
        max_head_age: u64,
    )
        requires
            old(self).wf(),
        ensures
            final(self).wf(),
            head_observed(*old(self), *final(self), i, block, observed_at, now, max_head_age),
    {
        if i < self.upstreams.len() {
            let u = &mut self.upstreams[i];
            u.observe_head(block, observed_at, now, max_head_age);
        }
    }

    /// Degrades upstream `i`, whose head report fell too far behind.
    pub fn mark_behind(&mut self, i: usize)
        requires
            old(self).wf(),
        ensures
            final(self).wf(),
            fell_behind(*old(self), *final(self), i),
    {
        if i < self.upstreams.len() {
            let u = &mut self.upstreams[i];
            u.mark_behind();
        }
    }

    /// The periodic check of the heads' ages at time `now`: every healthy
    /// upstream whose head is older than `max_head_age` is degraded.
    pub fn check_head_ages(&mut self, now: u64, max_head_age: u64)
        requires
            old(self).wf(),
        ensures
            final(self).wf(),
            ages_checked(*old(self), *final(self), now, max_head_age),
    {
        let n = self.upstreams.len();
        let mut i: usize = 0;
        while i < n
            invariant
                i <= n,
                n == old(self).upstreams.len(),
                self.upstreams.len() == n,
                self.wf(),
                forall|j: int| i <= j < n ==> (#[trigger] self.upstreams[j]) == old(self).upstreams[j],
                forall|j: int|
                    0 <= j < i ==> (#[trigger] self.upstreams[j]) == (Upstream {
                        health: if old(self).upstreams[j].head_is_stale(now, max_head_age) {
                            next_health(old(self).upstreams[j].health, HealthEvent::HeadStale)
                        } else {
                            old(self).upstreams[j].health
                        },
                        ..old(self).upstreams[j]
                    }),
            decreases n - i,
        {
            let ghost before = self.upstreams@;
            let u = &mut self.upstreams[i];
            u.check_head_age(now, max_head_age);
            assert(forall|j: int| 0 <= j < n && j != i ==> self.upstreams[j] == before[j]);
            i += 1;
        }
    }

    /// Whether an upstream has a request in flight.
    pub fn is_busy(&self) -> (r: bool)
        ensures
            r == busy(*self),
    {
        let mut i: usize = 0;
        while i < self.upstreams.len()
            invariant
                i <= self.upstreams.len(),
                forall|j: int| 0 <= j < i ==> (#[trigger] self.upstreams[j]).inflight_count == 0,
            decreases self.upstreams.len() - i,
        {
            if self.upstreams[i].inflight_count > 0 {
                return true;
            }
            i += 1;
        }
        false
    }

    /// Shuts every upstream down.
    pub fn shutdown(&mut self)
        requires
            old(self).wf(),
        ensures
            final(self).wf(),
            all_closed(*old(self), *final(self)),
    {
        let n = self.upstreams.len();
        let mut i: usize = 0;
        while i < n
            invariant
                i <= n,
                n == old(self).upstreams.len(),
                self.upstreams.len() == n,
                self.wf(),
                forall|j: int| i <= j < n ==> (#[trigger] self.upstreams[j]) == old(self).upstreams[j],
                forall|j: int|
                    0 <= j < i ==> (#[trigger] self.upstreams[j]) == (Upstream {
                        health: Health::Closed,
                        ..old(self).upstreams[j]
                    }),
            decreases n - i,
        {
            let ghost before = self.upstreams@;
            let u = &mut self.upstreams[i];
            u.shutdown();
            assert(forall|j: int| 0 <= j < n && j != i ==> self.upstreams[j] == before[j]);
            i += 1;
        }
    }

    /// Replaces the set of upstreams by `next` in one step and hands back
    /// the previous set, which is to be shut down once its last reader has
    /// let go of it.
    pub fn swap_rpcs(&mut self, next: Pool) -> (previous: Pool)
        requires
            next.wf(),
        ensures
            *final(self) == next,
            previous == *old(self),
    {
        let mut next = next;
        std::mem::swap(self, &mut next);
        next
    }
}

} // verus!
