//! The pending-transaction index: what is known of each transaction that an
//! upstream has announced, and the transitions between its states.

use vstd::prelude::*;
use dashmap::DashMap;
use std::collections::VecDeque;
use crate::block::Digest;

verus! {

/// A transaction as it travels through the proxy. The proxy reads none of
/// its fields but the hash; the body and the raw form are handed through to
/// subscribers.
#[derive(Clone, Debug, PartialEq, Eq)]
pub struct Transaction {
    /// The hash of the transaction.
    pub hash: Digest,
    /// The whole transaction object, as JSON text.
    pub body: String,
    /// The RLP encoding, as a hex string with its `0x`.
    pub raw: String,
}

/// The state of a transaction.
#[derive(Clone, Copy, Debug, PartialEq, Eq, Structural)]
pub enum TxStatus {
    /// Announced, not yet in a block.
    Pending,
    /// Included in a block of the canonical chain.
    Confirmed,
    /// Its block was superseded by a reorganization.
    Orphaned,
}

/// A transaction together with the state it has reached, as it is published
/// to the subscription fan-out.
#[derive(Clone, Debug, PartialEq, Eq)]
pub enum TxState {
    Pending(Transaction),
    Confirmed(Transaction),
    Orphaned(Transaction),
}

impl TxState {
    /// The state alone.
    pub open spec fn spec_status(self) -> TxStatus {
        match self {
            TxState::Pending(_) => TxStatus::Pending,
            TxState::Confirmed(_) => TxStatus::Confirmed,
            TxState::Orphaned(_) => TxStatus::Orphaned,
        }
    }

    /// The transaction alone.
    pub open spec fn spec_transaction(self) -> Transaction {
        match self {
            TxState::Pending(tx) => tx,
            TxState::Confirmed(tx) => tx,
            TxState::Orphaned(tx) => tx,
        }
    }

    /// The transaction `tx` in state `status`.
    pub fn new(status: TxStatus, tx: Transaction) -> (r: TxState)
        ensures
            r.spec_status() == status,
            r.spec_transaction() == tx,
    {
        match status {
            TxStatus::Pending => TxState::Pending(tx),
            TxStatus::Confirmed => TxState::Confirmed(tx),
            TxStatus::Orphaned => TxState::Orphaned(tx),
        }
    }

    /// The state alone.
    pub fn status(&self) -> (r: TxStatus)
        ensures
            r == self.spec_status(),
    {
        match self {
            TxState::Pending(_) => TxStatus::Pending,
            TxState::Confirmed(_) => TxStatus::Confirmed,
            TxState::Orphaned(_) => TxStatus::Orphaned,
        }
    }

    /// The transaction alone.
    pub fn transaction(&self) -> (r: &Transaction)
        ensures
            *r == self.spec_transaction(),
    {
        match self {
            TxState::Pending(tx) => tx,
            TxState::Confirmed(tx) => tx,
            TxState::Orphaned(tx) => tx,
        }
    }
}

/// What the index holds of one transaction.
#[derive(Clone, Copy, Debug, PartialEq, Eq)]
pub struct PendingTxEntry {
    /// The hash of the transaction.
    pub tx_hash: Digest,
    /// Its state.
    pub state: TxStatus,
    /// When it reached that state, in milliseconds.
    pub observed_at: u64,
}

/// What an upstream reported of a transaction.
#[derive(Clone, Copy, Debug, PartialEq, Eq, Structural)]
pub enum TxObservation {
    /// The transaction was seen pending.
    SeenPending,
    /// The transaction is included in the block with this number.
    Included { block_number: u64 },
    /// The block that includes the transaction was superseded by a
    /// reorganization that reaches this many blocks deep.
    Reorged { depth: u64 },
}

/// The state that a transaction moves to when `what` is observed of it, or
/// `None` where the observation changes nothing. `entry` is what the index
/// holds of it, `canonical` the number of the canonical head.
///
/// An unknown transaction becomes pending when it is first seen. A pending
/// one is confirmed by inclusion in a block at or before the canonical head.
/// A confirmed one is orphaned by a reorganization within `reorg_depth`. An
/// orphaned one becomes pending when it is seen pending again.
pub open spec fn transition(
    entry: Option<PendingTxEntry>,
    what: TxObservation,
    canonical: Option<u64>,
    reorg_depth: u64,
) -> Option<TxStatus> {
    match (entry, what) {
        (None, TxObservation::SeenPending) => Some(TxStatus::Pending),
        (None, _) => None,
        (Some(e), TxObservation::SeenPending) => if e.state == TxStatus::Orphaned {
            Some(TxStatus::Pending)
        } else {
            None
        },
        (Some(e), TxObservation::Included { block_number }) => if e.state == TxStatus::Pending
            && canonical.is_some() && block_number <= canonical.unwrap() {
            Some(TxStatus::Confirmed)
        } else {
            None
        },
        (Some(e), TxObservation::Reorged { depth }) => if e.state == TxStatus::Confirmed && depth
            <= reorg_depth {
            Some(TxStatus::Orphaned)
        } else {
            None
        },
    }
}

/// What the index holds of the transaction after the observation.
pub open spec fn entry_after(
    entry: Option<PendingTxEntry>,
    tx_hash: Digest,
    what: TxObservation,
    canonical: Option<u64>,
    reorg_depth: u64,
    now: u64,
) -> Option<PendingTxEntry> {
    match transition(entry, what, canonical, reorg_depth) {
        Some(state) => Some(PendingTxEntry { tx_hash, state, observed_at: now }),
        None => entry,
    }
}

/// Whether the entry outlives a sweep at time `now`: all but the confirmed
/// ones that are older than `retention`.
pub open spec fn survives(e: PendingTxEntry, now: u64, retention: u64) -> bool {
    !(e.state == TxStatus::Confirmed && now - e.observed_at > retention)
}

/// Whether the entry outlives a sweep at time `now`.
pub fn is_kept(e: &PendingTxEntry, now: u64, retention: u64) -> (r: bool)
    ensures
        r == survives(*e, now, retention),
{
    !(e.state == TxStatus::Confirmed && now > e.observed_at && now - e.observed_at > retention)
}

/// One observation of a transaction, with the circumstances under which it
/// was made.
pub struct TxStep {
    pub what: TxObservation,
    pub canonical: Option<u64>,
    pub now: u64,
}

/// What the index holds of a transaction after the first `n` of `steps`,
/// starting from `start`.
pub open spec fn entry_at(
    start: Option<PendingTxEntry>,
    tx_hash: Digest,
    reorg_depth: u64,
    steps: Seq<TxStep>,
    n: int,
) -> Option<PendingTxEntry>
    decreases n,
{
    if n <= 0 {
        start
    } else {
        entry_after(
            entry_at(start, tx_hash, reorg_depth, steps, n - 1),
            tx_hash,
            steps[n - 1].what,
            steps[n - 1].canonical,
            reorg_depth,
            steps[n - 1].now,
        )
    }
}

/// The state that step `n` of `steps` publishes, if it publishes one.
pub open spec fn published_at(
    start: Option<PendingTxEntry>,
    tx_hash: Digest,
    reorg_depth: u64,
    steps: Seq<TxStep>,
    n: int,
) -> Option<TxStatus> {
    transition(
        entry_at(start, tx_hash, reorg_depth, steps, n),
        steps[n].what,
        steps[n].canonical,
        reorg_depth,
    )
}

/// A confirmed transaction is not published as pending: whatever is
/// observed of it, it stays confirmed or becomes orphaned.
pub proof fn lemma_confirmed_is_not_pending_again(
    e: PendingTxEntry,
    what: TxObservation,
    canonical: Option<u64>,
    reorg_depth: u64,
)
    requires
        e.state == TxStatus::Confirmed,
    ensures
        transition(Some(e), what, canonical, reorg_depth) != Some(TxStatus::Pending),
        transition(Some(e), what, canonical, reorg_depth) is Some ==> transition(
            Some(e),
            what,
            canonical,
            reorg_depth,
        ) == Some(TxStatus::Orphaned),
{
}

proof fn lemma_stays_confirmed(
    start: Option<PendingTxEntry>,
    tx_hash: Digest,
    reorg_depth: u64,
    steps: Seq<TxStep>,
    i: int,
    j: int,
)
    requires
        0 <= i < j <= steps.len(),
        published_at(start, tx_hash, reorg_depth, steps, i) == Some(TxStatus::Confirmed),
        forall|k: int|
            i < k < j ==> published_at(start, tx_hash, reorg_depth, steps, k) != Some(
                TxStatus::Orphaned,
            ),
    ensures
        entry_at(start, tx_hash, reorg_depth, steps, j) matches Some(e) && e.state
            == TxStatus::Confirmed,
    decreases j - i,
{
    if j > i + 1 {
        lemma_stays_confirmed(start, tx_hash, reorg_depth, steps, i, j - 1);
        assert(published_at(start, tx_hash, reorg_depth, steps, j - 1) != Some(TxStatus::Orphaned));
    }
}

/// Over any run of observations of one transaction whose entry stays in
/// the index, a step that publishes it as confirmed is followed by one that
/// publishes it as pending only with a step in between that publishes it
/// as orphaned.
pub proof fn lemma_pending_after_confirmed_needs_orphaned(
    start: Option<PendingTxEntry>,
    tx_hash: Digest,
    reorg_depth: u64,
    steps: Seq<TxStep>,
    i: int,
    j: int,
)
    requires
        0 <= i < j < steps.len(),
        published_at(start, tx_hash, reorg_depth, steps, i) == Some(TxStatus::Confirmed),
        published_at(start, tx_hash, reorg_depth, steps, j) == Some(TxStatus::Pending),
    ensures
        exists|k: int|
            i < k < j && published_at(start, tx_hash, reorg_depth, steps, k) == Some(
                TxStatus::Orphaned,
            ),
{
    if forall|k: int|
        i < k < j ==> published_at(start, tx_hash, reorg_depth, steps, k) != Some(
            TxStatus::Orphaned,
        ) {
        lemma_stays_confirmed(start, tx_hash, reorg_depth, steps, i, j);
    }
}

#[verifier::external_type_specification]
#[verifier::external_body]
#[verifier::reject_recursive_types(K)]
#[verifier::reject_recursive_types(V)]
#[verifier::reject_recursive_types(S)]
pub struct ExDashMap<K, V, S>(DashMap<K, V, S>);

/// The concurrent map that holds the entries, keyed by the 32 bytes of the
/// transaction hash.
pub type TxMap = DashMap<[u8; 32], PendingTxEntry>;

/// The entries as the contracts see them, keyed by the bytes of the hash.
pub type TxEntries = Map<Seq<u8>, PendingTxEntry>;

/// What a transaction map holds.
pub uninterp spec fn tx_entries(m: TxMap) -> TxEntries;

/// The entry under `key`, if there is one.
pub open spec fn entry_of(entries: TxEntries, key: Seq<u8>) -> Option<PendingTxEntry> {
    if entries.contains_key(key) {
        Some(entries[key])
    } else {
        None
    }
}

/// `DashMap::new`: the map it makes holds nothing.
#[verifier::external_body]
fn tx_map_new() -> (m: TxMap)
    ensures
        tx_entries(m) == TxEntries::empty(),
{
    DashMap::new()
}

/// `DashMap::get`, with the value copied out of the guard: the entry under
/// the key, or `None` where the map has none.
#[verifier::external_body]
fn tx_map_get(m: &TxMap, key: &Digest) -> (r: Option<PendingTxEntry>)
    ensures
        r == entry_of(tx_entries(*m), key@),
{
    m.get(&key.bytes).map(|e| *e.value())
}

/// `DashMap::insert`: afterwards the key holds the value and every other key
/// what it held; the value that the key held before is returned.
#[verifier::external_body]
fn tx_map_insert(m: &mut TxMap, key: &Digest, value: PendingTxEntry) -> (previous: Option<
    PendingTxEntry,
>)
    ensures
        tx_entries(*final(m)) == tx_entries(*old(m)).insert(key@, value),
        previous == entry_of(tx_entries(*old(m)), key@),
{
    m.insert(key.bytes, value)
}

/// `DashMap::remove`: afterwards the key holds nothing and every other key
/// what it held; the value that the key held is returned.
#[verifier::external_body]
fn tx_map_remove(m: &mut TxMap, key: &Digest) -> (previous: Option<PendingTxEntry>)
    ensures
        tx_entries(*final(m)) == tx_entries(*old(m)).remove(key@),
        previous == entry_of(tx_entries(*old(m)), key@),
{
    m.remove(&key.bytes).map(|kv| kv.1)
}

/// `DashMap::retain`, with the test of the sweep: exactly the entries that
/// survive stay, unchanged.
#[verifier::external_body]
fn tx_map_sweep(m: &mut TxMap, now: u64, retention: u64)
    ensures
        forall|k: Seq<u8>| #[trigger]
            tx_entries(*final(m)).contains_key(k) <==> tx_entries(*old(m)).contains_key(k)
                && survives(tx_entries(*old(m))[k], now, retention),
        forall|k: Seq<u8>| #[trigger]
            tx_entries(*final(m)).contains_key(k) ==> tx_entries(*final(m))[k] == tx_entries(
                *old(m),
            )[k],
{
    m.retain(|_, e| is_kept(e, now, retention))
}

/// The map of the index, which only the index reaches into.
pub struct TxStore {
    map: TxMap,
}

impl View for TxStore {
    type V = TxEntries;

    closed spec fn view(&self) -> TxEntries {
        tx_entries(self.map)
    }
}

/// The hashes in `order` all have an entry, every entry has its hash in
/// `order`, and no hash occurs twice.
pub open spec fn queue_matches(order: Seq<Digest>, entries: TxEntries) -> bool {
    &&& forall|i: int| 0 <= i < order.len() ==> entries.contains_key((#[trigger] order[i])@)
    &&& forall|k: Seq<u8>| #[trigger]
        entries.contains_key(k) ==> exists|i: int| 0 <= i < order.len() && (#[trigger] order[i])@ == k
    &&& forall|i: int, j: int|
        0 <= i < order.len() && 0 <= j < order.len() && i != j ==> (#[trigger] order[i])@ != (
        #[trigger] order[j])@
}

/// The hashes of `order` that have an entry, in their order.
pub open spec fn surviving(order: Seq<Digest>, entries: TxEntries) -> Seq<Digest>
    decreases order.len(),
{
    if order.len() == 0 {
        Seq::empty()
    } else if entries.contains_key(order.last()@) {
        surviving(order.drop_last(), entries).push(order.last())
    } else {
        surviving(order.drop_last(), entries)
    }
}

proof fn lemma_surviving(order: Seq<Digest>, entries: TxEntries)
    ensures
        forall|a: int|
            0 <= a < surviving(order, entries).len() ==> entries.contains_key(
                (#[trigger] surviving(order, entries)[a])@,
            ) && exists|j: int| 0 <= j < order.len() && order[j] == surviving(order, entries)[a],
        forall|j: int|
            0 <= j < order.len() && entries.contains_key((#[trigger] order[j])@) ==> exists|a: int|
                0 <= a < surviving(order, entries).len() && surviving(order, entries)[a] == order[j],
        (forall|i: int, j: int|
            0 <= i < order.len() && 0 <= j < order.len() && i != j ==> (#[trigger] order[i])@ != (
            #[trigger] order[j])@) ==> forall|a: int, b: int|
            0 <= a < surviving(order, entries).len() && 0 <= b < surviving(order, entries).len()
                && a != b ==> (#[trigger] surviving(order, entries)[a])@ != (
            #[trigger] surviving(order, entries)[b])@,
    decreases order.len(),
{
    if order.len() > 0 {
        let rest = order.drop_last();
        let last = order.last();
        let kept = surviving(order, entries);
        let before = surviving(rest, entries);
        lemma_surviving(rest, entries);
        assert forall|a: int| 0 <= a < kept.len() implies entries.contains_key(
            (#[trigger] kept[a])@,
        ) && exists|j: int| 0 <= j < order.len() && order[j] == kept[a] by {
            if a < before.len() {
                assert(kept[a] == before[a]);
                let j = choose|j: int| 0 <= j < rest.len() && rest[j] == before[a];
                assert(order[j] == kept[a]);
            } else {
                assert(order[order.len() - 1] == kept[a]);
            }
        }
        assert forall|j: int|
            0 <= j < order.len() && entries.contains_key((#[trigger] order[j])@) implies exists|
            a: int,
        | 0 <= a < kept.len() && kept[a] == order[j] by {
            if j < rest.len() {
                assert(rest[j] == order[j]);
                let a = choose|a: int| 0 <= a < before.len() && before[a] == rest[j];
                assert(kept[a] == order[j]);
            } else {
                assert(kept[kept.len() - 1] == order[j]);
            }
        }
        if forall|i: int, j: int|
            0 <= i < order.len() && 0 <= j < order.len() && i != j ==> (#[trigger] order[i])@ != (
            #[trigger] order[j])@ {
            assert forall|i: int, j: int|
                0 <= i < rest.len() && 0 <= j < rest.len() && i != j implies (#[trigger] rest[i])@ != (
            #[trigger] rest[j])@ by {
                assert(rest[i] == order[i] && rest[j] == order[j]);
            }
            assert forall|a: int, b: int|
                0 <= a < kept.len() && 0 <= b < kept.len() && a != b implies (#[trigger] kept[a])@ != (
            #[trigger] kept[b])@ by {
                if a < before.len() && b < before.len() {
                    assert(kept[a] == before[a] && kept[b] == before[b]);
                } else {
                    let inner = if a < before.len() {
                        a
                    } else {
                        b
                    };
                    assert(kept[inner] == before[inner]);
                    let j = choose|j: int| 0 <= j < rest.len() && rest[j] == before[inner];
                    assert(order[j] == before[inner]);
                    assert(order[order.len() - 1] == last);
                }
            }
        }
    }
}

/// The pending-transaction index.
pub struct PendingTxIndex {
    /// The entries.
    pub entries: TxStore,
    /// The hashes of the entries in the order in which they were made, the
    /// oldest first.
    pub order: VecDeque<Digest>,
    /// The most entries that the index holds.
    pub max_entries: usize,
    /// How deep a reorganization may reach.
    pub reorg_depth: u64,
    /// How long a confirmed entry is kept, in milliseconds.
    pub retention: u64,
}

impl View for PendingTxIndex {
    type V = TxEntries;

    open spec fn view(&self) -> TxEntries {
        self.entries@
    }
}

/// The entries after an observation of the transaction `tx_hash`, given the
/// state `published` that it moves to. An entry that exists is rewritten. A
/// new entry is added as the youngest; where the index is full, the oldest
/// entry goes for it, and an index that may hold nothing stays empty.
pub open spec fn entries_after(
    entries: TxEntries,
    order: Seq<Digest>,
    max_entries: usize,
    tx_hash: Digest,
    published: Option<TxStatus>,
    now: u64,
) -> TxEntries {
    match published {
        None => entries,
        Some(state) => {
            let entry = PendingTxEntry { tx_hash, state, observed_at: now };
            if entries.contains_key(tx_hash@) {
                entries.insert(tx_hash@, entry)
            } else if max_entries == 0 {
                entries
            } else if order.len() >= max_entries {
                entries.remove(order[0]@).insert(tx_hash@, entry)
            } else {
                entries.insert(tx_hash@, entry)
            }
        },
    }
}

/// The order of the entries after an observation of the transaction
/// `tx_hash`, as `entries_after` describes it.
pub open spec fn order_after(
    entries: TxEntries,
    order: Seq<Digest>,
    max_entries: usize,
    tx_hash: Digest,
    published: Option<TxStatus>,
) -> Seq<Digest> {
    if published is None || entries.contains_key(tx_hash@) || max_entries == 0 {
        order
    } else if order.len() >= max_entries {
        order.drop_first().push(tx_hash)
    } else {
        order.push(tx_hash)
    }
}

impl PendingTxIndex {
    /// The invariant of the index: the order names the entries, each once,
    /// and the index holds no more entries than it may.
    pub open spec fn wf(self) -> bool {
        queue_matches(self.order@, self@) && self.order@.len() <= self.max_entries
    }

    /// An empty index that holds up to `max_entries` entries.
    pub fn new(reorg_depth: u64, retention: u64, max_entries: usize) -> (index: PendingTxIndex)
        ensures
            index.wf(),
            index@ == TxEntries::empty(),
            index.order@.len() == 0,
            index.reorg_depth == reorg_depth,
            index.retention == retention,
            index.max_entries == max_entries,
    {
        PendingTxIndex {
            entries: TxStore { map: tx_map_new() },
            order: VecDeque::new(),
            max_entries,
            reorg_depth,
            retention,
        }
    }

    /// The number of entries.
    pub fn len(&self) -> (n: usize)
        ensures
            n == self.order@.len(),
    {
        self.order.len()
    }

    /// What the index holds of the transaction `tx_hash`.
    pub fn get(&self, tx_hash: &Digest) -> (r: Option<PendingTxEntry>)
        ensures
            r == entry_of(self@, tx_hash@),
    {
        tx_map_get(&self.entries.map, tx_hash)
    }

    /// Takes one observation of the transaction `tx_hash`, made at time
    /// `now` while the canonical head had the number `canonical`. Where the
    /// observation moves the transaction to another state, the entry is
    /// written and the new state is returned: it is to be published. Where
    /// it does not, nothing changes and nothing is returned. A new entry
    /// may push the oldest one out.
    pub fn observe(
        &mut self,
        tx_hash: &Digest,
        what: TxObservation,
        canonical: Option<u64>,
        now: u64,
    ) -> (published: Option<TxStatus>)
        requires
            old(self).wf(),
        ensures
            final(self).wf(),
            final(self).reorg_depth == old(self).reorg_depth,
            final(self).retention == old(self).retention,
            final(self).max_entries == old(self).max_entries,
            published == transition(
                entry_of(old(self)@, tx_hash@),
                what,
                canonical,
                old(self).reorg_depth,
            ),
            final(self)@ == entries_after(
                old(self)@,
                old(self).order@,
                old(self).max_entries,
                *tx_hash,
                published,
                now,
            ),
            final(self).order@ == order_after(
                old(self)@,
                old(self).order@,
                old(self).max_entries,
                *tx_hash,
                published,
            ),
    {
        let entry = tx_map_get(&self.entries.map, tx_hash);
        let next = match (entry, what) {
            (None, TxObservation::SeenPending) => Some(TxStatus::Pending),
            (None, _) => None,
            (Some(e), TxObservation::SeenPending) => match e.state {
                TxStatus::Orphaned => Some(TxStatus::Pending),
                _ => None,
            },
            (Some(e), TxObservation::Included { block_number }) => match (e.state, canonical) {
                (TxStatus::Pending, Some(c)) => if block_number <= c {
                    Some(TxStatus::Confirmed)
                } else {
                    None
                },
                _ => None,
            },
            (Some(e), TxObservation::Reorged { depth }) => match e.state {
                TxStatus::Confirmed => if depth <= self.reorg_depth {
                    Some(TxStatus::Orphaned)
                } else {
                    None
                },
                _ => None,
            },
        };
        let ghost before = self@;
        let ghost queue = self.order@;
        if let Some(state) = next {
            let fresh = PendingTxEntry { tx_hash: *tx_hash, state, observed_at: now };
            if entry.is_some() {
                let _ = tx_map_insert(&mut self.entries.map, tx_hash, fresh);
                assert(queue_matches(queue, self@)) by {
                    assert forall|k: Seq<u8>| #[trigger] self@.contains_key(k) implies exists|
                        i: int,
                    | 0 <= i < queue.len() && (#[trigger] queue[i])@ == k by {
                        assert(before.contains_key(k));
                    }
                }
            } else if self.max_entries > 0 {
                if self.order.len() >= self.max_entries {
                    let oldest = self.order.pop_front();
                    if let Some(gone) = oldest {
                        let _ = tx_map_remove(&mut self.entries.map, &gone);
                    }
                    assert(self.order@ =~= queue.drop_first());
                }
                let ghost kept = self.order@;
                let ghost held = self@;
                assert(queue_matches(kept, held)) by {
                    if kept.len() < queue.len() {
                        assert forall|i: int| 0 <= i < kept.len() implies held.contains_key(
                            (#[trigger] kept[i])@,
                        ) by {
                            assert(kept[i] == queue[i + 1]);
                        }
                        assert forall|k: Seq<u8>| #[trigger] held.contains_key(k) implies exists|
                            i: int,
                        | 0 <= i < kept.len() && (#[trigger] kept[i])@ == k by {
                            assert(before.contains_key(k));
                            let j = choose|j: int| 0 <= j < queue.len() && (#[trigger] queue[j])@ == k;
                            assert(kept[j - 1] == queue[j]);
                        }
                        assert forall|i: int, j: int|
                            0 <= i < kept.len() && 0 <= j < kept.len() && i != j implies (
                        #[trigger] kept[i])@ != (#[trigger] kept[j])@ by {
                            assert(kept[i] == queue[i + 1] && kept[j] == queue[j + 1]);
                        }
                    }
                }
                assert(!held.contains_key(tx_hash@));
                let _ = tx_map_insert(&mut self.entries.map, tx_hash, fresh);
                self.order.push_back(*tx_hash);
                assert(queue_matches(self.order@, self@)) by {
                    let after = self.order@;
                    assert(after =~= kept.push(*tx_hash));
                    assert forall|i: int| 0 <= i < after.len() implies self@.contains_key(
                        (#[trigger] after[i])@,
                    ) by {
                        if i < kept.len() {
                            assert(after[i] == kept[i]);
                        }
                    }
                    assert forall|k: Seq<u8>| #[trigger] self@.contains_key(k) implies exists|
                        i: int,
                    | 0 <= i < after.len() && (#[trigger] after[i])@ == k by {
                        if k == tx_hash@ {
                            assert(after[after.len() - 1]@ == k);
                        } else {
                            assert(held.contains_key(k));
                            let j = choose|j: int| 0 <= j < kept.len() && (#[trigger] kept[j])@ == k;
                            assert(after[j] == kept[j]);
                        }
                    }
                    assert forall|i: int, j: int|
                        0 <= i < after.len() && 0 <= j < after.len() && i != j implies (
                    #[trigger] after[i])@ != (#[trigger] after[j])@ by {
                        if i < kept.len() {
                            assert(after[i] == kept[i]);
                        }
                        if j < kept.len() {
                            assert(after[j] == kept[j]);
                        }
                    }
                }
            }
        }
        next
    }

    /// The position of `tx_hash` in the order.
    fn position(&self, tx_hash: &Digest) -> (r: Option<usize>)
        ensures
            r matches Some(i) ==> i < self.order@.len() && self.order@[i as int]@ == tx_hash@,
            r is None ==> forall|i: int|
                0 <= i < self.order@.len() ==> (#[trigger] self.order@[i])@ != tx_hash@,
    {
        let mut i: usize = 0;
        while i < self.order.len()
            invariant
                i <= self.order@.len(),
                forall|j: int| 0 <= j < i ==> (#[trigger] self.order@[j])@ != tx_hash@,
            decreases self.order@.len() - i,
        {
            if self.order[i].same(tx_hash) {
                return Some(i);
            }
            i += 1;
        }
        None
    }

    /// Removes the entry of the transaction `tx_hash` and returns it. The
    /// other entries stay, in their order.
    pub fn remove(&mut self, tx_hash: &Digest) -> (r: Option<PendingTxEntry>)
        requires
            old(self).wf(),
        ensures
            final(self).wf(),
            final(self).reorg_depth == old(self).reorg_depth,
            final(self).retention == old(self).retention,
            final(self).max_entries == old(self).max_entries,
            r == entry_of(old(self)@, tx_hash@),
            final(self)@ == old(self)@.remove(tx_hash@),
            final(self).order@ == surviving(old(self).order@, final(self)@),
    {
        let ghost queue = self.order@;
        let ghost before = self@;
        let r = tx_map_remove(&mut self.entries.map, tx_hash);
        self.rebuild_order(Ghost(before));
        r
    }

    /// Drops from the order the hashes that have no entry any more.
    fn rebuild_order(&mut self, Ghost(before): Ghost<TxEntries>)
        requires
            queue_matches(old(self).order@, before),
            old(self).order@.len() <= old(self).max_entries,
            forall|k: Seq<u8>| #[trigger] old(self)@.contains_key(k) ==> before.contains_key(k),
        ensures
            final(self).wf(),
            final(self).entries == old(self).entries,
            final(self).reorg_depth == old(self).reorg_depth,
            final(self).retention == old(self).retention,
            final(self).max_entries == old(self).max_entries,
            final(self).order@ == surviving(old(self).order@, old(self)@),
    {
        let ghost queue = self.order@;
        let ghost held = self@;
        let mut kept: VecDeque<Digest> = VecDeque::new();
        let mut i: usize = 0;
        assert(queue.take(0) =~= Seq::<Digest>::empty());
        while i < self.order.len()
            invariant
                i <= queue.len(),
                queue == self.order@,
                held == self@,
                kept@ == surviving(queue.take(i as int), held),
                kept@.len() <= i,
            decreases queue.len() - i,
        {
            let hash = self.order[i];
            assert(queue.take(i + 1).drop_last() =~= queue.take(i as int));
            assert(queue.take(i + 1).last() == hash);
            if tx_map_get(&self.entries.map, &hash).is_some() {
                kept.push_back(hash);
            }
            i += 1;
        }
        assert(queue.take(queue.len() as int) =~= queue);
        proof {
            lemma_surviving(queue, held);
            assert forall|k: Seq<u8>| #[trigger] held.contains_key(k) implies exists|i: int|
                0 <= i < kept@.len() && (#[trigger] kept@[i])@ == k by {
                assert(before.contains_key(k));
                let j = choose|j: int| 0 <= j < queue.len() && (#[trigger] queue[j])@ == k;
                assert(held.contains_key(queue[j]@));
                let a = choose|a: int| 0 <= a < kept@.len() && kept@[a] == queue[j];
                assert(kept@[a]@ == k);
            }
        }
        self.order = kept;
    }

    /// The sweep at time `now`: the confirmed entries older than the
    /// retention are removed, all others stay as they are, in their order.
    pub fn prune(&mut self, now: u64)
        requires
            old(self).wf(),
        ensures
            final(self).wf(),
            final(self).reorg_depth == old(self).reorg_depth,
            final(self).retention == old(self).retention,
            final(self).max_entries == old(self).max_entries,
            forall|k: Seq<u8>| #[trigger]
                final(self)@.contains_key(k) <==> old(self)@.contains_key(k) && survives(
                    old(self)@[k],
                    now,
                    old(self).retention,
                ),
            forall|k: Seq<u8>| #[trigger]
                final(self)@.contains_key(k) ==> final(self)@[k] == old(self)@[k],
            final(self).order@ == surviving(old(self).order@, final(self)@),
    {
        let ghost before = self@;
        tx_map_sweep(&mut self.entries.map, now, self.retention);
        self.rebuild_order(Ghost(before));
    }
}

} // verus!
