//! The head-block tracker: it fuses the heads that the upstreams report into
//! one canonical head.

use vstd::prelude::*;
use crate::block::{
    block_before, lemma_block_order_strict, lemma_block_order_transitive, BlockRef, CanonicalHead,
};

verus! {

/// The head that one upstream reported last.
#[derive(Clone, Debug, PartialEq, Eq)]
pub struct Tip {
    /// The id of the upstream.
    pub upstream: String,
    /// Its head.
    pub block: BlockRef,
}

/// A tip as the contracts see it.
pub struct TipView {
    pub upstream: Seq<char>,
    pub block: BlockRef,
}

impl View for Tip {
    type V = TipView;

    open spec fn view(&self) -> TipView {
        TipView { upstream: self.upstream@, block: self.block }
    }
}

/// The views of `tips`, in order.
pub open spec fn tip_views(tips: Seq<Tip>) -> Seq<TipView> {
    Seq::new(tips.len(), |i: int| tips[i]@)
}

/// How many of `tips` are at the block with hash `hash`: the size of its
/// confirming set.
pub open spec fn support(tips: Seq<TipView>, hash: Seq<u8>) -> nat
    decreases tips.len(),
{
    if tips.len() == 0 {
        0
    } else {
        support(tips.drop_last(), hash) + if tips.last().block.hash@ == hash {
            1nat
        } else {
            0nat
        }
    }
}

/// Block `a` outranks block `b` among `tips`: more upstreams confirm it; or
/// as many, and it comes after `b` in the order of blocks (the higher
/// number, then the greater hash).
pub open spec fn outranks(tips: Seq<TipView>, a: BlockRef, b: BlockRef) -> bool {
    support(tips, a.hash@) > support(tips, b.hash@) || (support(tips, a.hash@) == support(
        tips,
        b.hash@,
    ) && block_before(b, a))
}

/// The block of tip `i` is outranked by none.
pub open spec fn is_leader(tips: Seq<TipView>, i: int) -> bool {
    &&& 0 <= i < tips.len()
    &&& forall|j: int|
        0 <= j < tips.len() ==> !outranks(tips, (#[trigger] tips[j]).block, tips[i].block)
}

/// Whether upstream `id` has a tip among `tips`.
pub open spec fn has_tip(tips: Seq<TipView>, id: Seq<char>) -> bool {
    exists|k: int| 0 <= k < tips.len() && (#[trigger] tips[k]).upstream == id
}

/// The tips after upstream `id` has reported `block`: its earlier tip is
/// replaced where it had one, else a new one is added at the end.
pub open spec fn tips_after(tips: Seq<TipView>, id: Seq<char>, block: BlockRef) -> Seq<TipView> {
    let tip = TipView { upstream: id, block };
    if has_tip(tips, id) {
        tips.update(choose|k: int| 0 <= k < tips.len() && (#[trigger] tips[k]).upstream == id, tip)
    } else {
        tips.push(tip)
    }
}

/// No upstream has two tips.
pub open spec fn distinct_upstreams(tips: Seq<TipView>) -> bool {
    forall|i: int, j: int|
        0 <= i < tips.len() && 0 <= j < tips.len() && i != j ==> (#[trigger] tips[i]).upstream != (
        #[trigger] tips[j]).upstream
}

/// Whether two canonical heads, or their absence, differ: by hash or by
/// number.
pub open spec fn heads_differ(a: Option<CanonicalHead>, b: Option<CanonicalHead>) -> bool {
    match (a, b) {
        (None, None) => false,
        (Some(x), Some(y)) => x.hash@ != y.hash@ || x.number != y.number,
        _ => true,
    }
}

/// Whether a report of `block` is to be ignored: it lies more than
/// `reorg_depth` blocks behind the canonical head.
pub open spec fn falls_behind(
    canonical: Option<CanonicalHead>,
    block: BlockRef,
    reorg_depth: u64,
) -> bool {
    canonical matches Some(c) && block.number < c.number - reorg_depth
}

/// Two leaders name the same block, by hash and by number: the canonical
/// head is determined by the tips.
pub proof fn lemma_leader_is_unique(tips: Seq<TipView>, i: int, k: int)
    requires
        is_leader(tips, i),
        is_leader(tips, k),
    ensures
        tips[i].block.hash@ == tips[k].block.hash@,
        tips[i].block.number == tips[k].block.number,
{
    lemma_block_order_strict(tips[i].block, tips[k].block);
    assert(!outranks(tips, tips[k].block, tips[i].block));
    assert(!outranks(tips, tips[i].block, tips[k].block));
}

proof fn lemma_outranks_transitive(tips: Seq<TipView>, a: BlockRef, b: BlockRef, c: BlockRef)
    requires
        outranks(tips, a, b),
        outranks(tips, b, c),
    ensures
        outranks(tips, a, c),
{
    if support(tips, a.hash@) == support(tips, b.hash@) && support(tips, b.hash@) == support(
        tips,
        c.hash@,
    ) {
        lemma_block_order_transitive(c, b, a);
    }
}

/// What the tracker made of one report.
#[derive(Clone, Copy, Debug, PartialEq, Eq)]
pub struct HeadReport {
    /// The report was ignored; the upstream is to be marked degraded.
    pub ignored: bool,
    /// The canonical head to publish, where it changed.
    pub emitted: Option<CanonicalHead>,
}

/// The head-block tracker.
#[derive(Clone, Debug)]
pub struct HeadTracker {
    /// The last head of each upstream that has reported.
    pub tips: Vec<Tip>,
    /// The canonical head that was emitted last.
    pub canonical: Option<CanonicalHead>,
    /// How many upstreams have to be at a block for it to become canonical.
    pub min_synced_upstreams: u32,
    /// How deep a reorganization may reach.
    pub reorg_depth: u64,
}

/// What `HeadTracker::report` does with the report of upstream `upstream`
/// that its head is `block`.
///
/// A block more than `reorg_depth` behind the canonical head is ignored:
/// nothing changes. Otherwise the tip of the upstream is set. Of the blocks
/// at the tips, the one that none outranks becomes the canonical head if at
/// least `min_synced_upstreams` upstreams are at it; else the canonical head
/// stays as it is. The head is emitted only where it differs from the
/// previous one.
pub open spec fn reported(
    before: HeadTracker,
    after: HeadTracker,
    upstream: Seq<char>,
    block: BlockRef,
    r: HeadReport,
) -> bool {
    &&& after.min_synced_upstreams == before.min_synced_upstreams
    &&& after.reorg_depth == before.reorg_depth
    &&& r.ignored == falls_behind(before.canonical, block, before.reorg_depth)
    &&& r.ignored ==> after == before && r.emitted.is_none()
    &&& !r.ignored ==> {
        let tips = after.tip_views();
        &&& tips == tips_after(before.tip_views(), upstream, block)
        &&& exists|i: int| is_leader(tips, i)
        &&& forall|i: int| #[trigger]
            is_leader(tips, i) ==> if support(tips, tips[i].block.hash@)
                >= before.min_synced_upstreams {
                &&& after.canonical matches Some(c)
                &&& c.hash@ == tips[i].block.hash@
                &&& c.number == tips[i].block.number
                &&& c.minimum_confirming_upstreams == before.min_synced_upstreams
            } else {
                after.canonical == before.canonical
            }
        &&& r.emitted == (if heads_differ(before.canonical, after.canonical) {
            after.canonical
        } else {
            None
        })
    }
}

impl HeadTracker {
    /// The tips as the contracts see them.
    pub open spec fn tip_views(self) -> Seq<TipView> {
        tip_views(self.tips@)
    }

    /// The invariant of a tracker.
    pub open spec fn wf(self) -> bool {
        distinct_upstreams(self.tip_views())
    }

    /// A tracker that has heard of no head yet.
    pub fn new(min_synced_upstreams: u32, reorg_depth: u64) -> (t: HeadTracker)
        ensures
            t.wf(),
            t.tips@.len() == 0,
            t.canonical.is_none(),
            t.min_synced_upstreams == min_synced_upstreams,
            t.reorg_depth == reorg_depth,
    {
        HeadTracker { tips: Vec::new(), canonical: None, min_synced_upstreams, reorg_depth }
    }

    /// The canonical head, once there is one.
    pub fn canonical_head(&self) -> (r: Option<CanonicalHead>)
        ensures
            r == self.canonical,
    {
        self.canonical
    }

    /// The size of the confirming set of the block of tip `i`.
    fn support_of(&self, i: usize) -> (n: usize)
        requires
            i < self.tips.len(),
        ensures
            n == support(self.tip_views(), self.tips[i as int].block.hash@),
    {
        let ghost views = self.tip_views();
        let ghost hash = self.tips[i as int].block.hash@;
        let mut n: usize = 0;
        let mut j: usize = 0;
        assert(views.take(0) =~= Seq::<TipView>::empty());
        while j < self.tips.len()
            invariant
                j <= self.tips.len(),
                i < self.tips.len(),
                views == self.tip_views(),
                hash == self.tips[i as int].block.hash@,
                n == support(views.take(j as int), hash),
                n <= j,
            decreases self.tips.len() - j,
        {
            assert(views.take(j + 1).drop_last() =~= views.take(j as int));
            assert(views.take(j + 1).last() == views[j as int]);
            if self.tips[j].block.hash.same(&self.tips[i].block.hash) {
                n += 1;
            }
            j += 1;
        }
        assert(views.take(self.tips.len() as int) =~= views);
        n
    }

    /// Whether the block of tip `a` outranks that of tip `b`.
    fn tip_outranks(&self, a: usize, b: usize) -> (r: bool)
        requires
            a < self.tips.len(),
            b < self.tips.len(),
        ensures
            r == outranks(self.tip_views(), self.tips[a as int].block, self.tips[b as int].block),
    {
        let sa = self.support_of(a);
        let sb = self.support_of(b);
        sa > sb || (sa == sb && self.tips[b].block.is_before(&self.tips[a].block))
    }

    /// A tip whose block none outranks.
    fn leader(&self) -> (i: usize)
        requires
            self.tips.len() > 0,
        ensures
            is_leader(self.tip_views(), i as int),
    {
        let ghost views = self.tip_views();
        let mut best: usize = 0;
        let mut i: usize = 1;
        proof {
            lemma_block_order_strict(views[0].block, views[0].block);
        }
        while i < self.tips.len()
            invariant
                1 <= i <= self.tips.len(),
                best < i,
                views == self.tip_views(),
                forall|j: int|
                    0 <= j < i ==> !outranks(views, (#[trigger] views[j]).block, views[best as int].block),
            decreases self.tips.len() - i,
        {
            if self.tip_outranks(i, best) {
                assert forall|j: int| 0 <= j < i + 1 implies !outranks(
                    views,
                    (#[trigger] views[j]).block,
                    views[i as int].block,
                ) by {
                    if outranks(views, views[j].block, views[i as int].block) {
                        if j < i {
                            lemma_outranks_transitive(
                                views,
                                views[j].block,
                                views[i as int].block,
                                views[best as int].block,
                            );
                        } else {
                            lemma_block_order_strict(views[i as int].block, views[i as int].block);
                        }
                    }
                }
                best = i;
            }
            i += 1;
        }
        best
    }

    /// The position of the tip of upstream `id`, where it has one.
    fn position(&self, id: &String) -> (r: Option<usize>)
        ensures
            r is Some <==> has_tip(self.tip_views(), id@),
            r matches Some(k) ==> k < self.tips.len() && self.tips[k as int].upstream@ == id@,
    {
        let mut k: usize = 0;
        while k < self.tips.len()
            invariant
                k <= self.tips.len(),
                forall|j: int| 0 <= j < k ==> (#[trigger] self.tip_views()[j]).upstream != id@,
            decreases self.tips.len() - k,
        {
            if self.tips[k].upstream == *id {
                assert(self.tip_views()[k as int].upstream == id@);
                return Some(k);
            }
            k += 1;
        }
        None
    }

    /// Takes the report of upstream `upstream` that its head is `block`.
    ///
    /// A block more than `reorg_depth` behind the canonical head is ignored:
    /// nothing changes, and the caller is told to degrade the upstream.
    /// Otherwise the tip of the upstream is set. Of the blocks at the tips,
    /// the one that none outranks becomes the canonical head if at least
    /// `min_synced_upstreams` upstreams are at it; else the canonical head
    /// stays as it is. The new head is emitted only where it differs from
    /// the previous one.
    pub fn report(&mut self, upstream: String, block: BlockRef) -> (r: HeadReport)
        requires
            old(self).wf(),
        ensures
            final(self).wf(),
            reported(*old(self), *final(self), upstream@, block, r),
    {
        if let Some(c) = self.canonical {
            if block.number < c.number && c.number - block.number > self.reorg_depth {
                return HeadReport { ignored: true, emitted: None };
            }
        }
        let ghost old_views = self.tip_views();
        match self.position(&upstream) {
            Some(k) => {
                let ghost chosen = choose|k: int|
                    0 <= k < old_views.len() && (#[trigger] old_views[k]).upstream == upstream@;
                assert(old_views[k as int].upstream == upstream@);
                assert(chosen == k);
                self.tips[k] = Tip { upstream, block };
                assert(self.tip_views() =~= tips_after(old_views, upstream@, block));
            },
            None => {
                self.tips.push(Tip { upstream, block });
                assert(self.tip_views() =~= tips_after(old_views, upstream@, block));
            },
        }
        let ghost views = self.tip_views();
        assert(distinct_upstreams(views));
        let lead = self.leader();
        let backing = self.support_of(lead);
        let before = self.canonical;
        if backing >= self.min_synced_upstreams as usize {
            let chosen = self.tips[lead].block;
            self.canonical = Some(
                CanonicalHead {
                    hash: chosen.hash,
                    number: chosen.number,
                    minimum_confirming_upstreams: self.min_synced_upstreams,
                },
            );
        }
        assert(self.tip_views() == views);
        assert forall|i: int| #[trigger] is_leader(views, i) implies {
            if support(views, views[i].block.hash@) >= old(self).min_synced_upstreams {
                self.canonical matches Some(c) && c.hash@ == views[i].block.hash@ && c.number
                    == views[i].block.number && c.minimum_confirming_upstreams
                    == old(self).min_synced_upstreams
            } else {
                self.canonical == old(self).canonical
            }
        } by {
            lemma_leader_is_unique(views, i, lead as int);
        }
        let differs = match (before, self.canonical) {
            (None, None) => false,
            (Some(x), Some(y)) => !x.hash.same(&y.hash) || x.number != y.number,
            _ => true,
        };
        HeadReport { ignored: false, emitted: if differs { self.canonical } else { None } }
    }

    /// Forgets the tip of upstream `id`, which has left the pool: it is
    /// taken out, and the other tips stay as they are, in their order. The
    /// canonical head stays until the next report.
    pub fn forget(&mut self, id: &String)
        requires
            old(self).wf(),
        ensures
            final(self).wf(),
            final(self).canonical == old(self).canonical,
            final(self).min_synced_upstreams == old(self).min_synced_upstreams,
            final(self).reorg_depth == old(self).reorg_depth,
            !has_tip(old(self).tip_views(), id@) ==> final(self).tips@ == old(self).tips@,
            has_tip(old(self).tip_views(), id@) ==> exists|k: int|
                0 <= k < old(self).tips.len() && (#[trigger] old(self).tips[k]).upstream@ == id@
                    && final(self).tips@ == old(self).tips@.remove(k),
            !has_tip(final(self).tip_views(), id@),
    {
        if let Some(k) = self.position(id) {
            let ghost before = self.tip_views();
            let _ = self.tips.remove(k);
            assert(self.tip_views() =~= before.remove(k as int));
            assert(!has_tip(self.tip_views(), id@)) by {
                if has_tip(self.tip_views(), id@) {
                    let j = choose|j: int|
                        0 <= j < self.tip_views().len() && (
                        #[trigger] self.tip_views()[j]).upstream == id@;
                    if j < k {
                        assert(before[j].upstream == before[k as int].upstream);
                    } else {
                        assert(before[j + 1].upstream == before[k as int].upstream);
                    }
                }
            }
            assert forall|i: int, j: int|
                0 <= i < self.tip_views().len() && 0 <= j < self.tip_views().len() && i
                    != j implies (#[trigger] self.tip_views()[i]).upstream != (
            #[trigger] self.tip_views()[j]).upstream by {
                let a = if i < k {
                    i
                } else {
                    i + 1
                };
                let b = if j < k {
                    j
                } else {
                    j + 1
                };
                assert(self.tip_views()[i] == before[a]);
                assert(self.tip_views()[j] == before[b]);
            }
        }
    }

    /// Forgets every tip: the upstreams were replaced, and those that are
    /// gone have no say any more. The canonical head stays until the new
    /// upstreams have agreed on one.
    pub fn clear_tips(&mut self)
        ensures
            final(self).wf(),
            final(self).tips@.len() == 0,
            final(self).canonical == old(self).canonical,
            final(self).min_synced_upstreams == old(self).min_synced_upstreams,
            final(self).reorg_depth == old(self).reorg_depth,
    {
        self.tips.clear();
    }
}

} // verus!
