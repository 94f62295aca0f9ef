//! The response cache: a bounded map from cache keys to response bodies
//! that gives up its oldest entries first. The entries are held in a linked
//! hash map, which keeps them in the order in which they were inserted.

use vstd::prelude::*;
use vstd::utf8::encode_utf8;
use linked_hash_map::LinkedHashMap;
use crate::block::Digest;

verus! {

/// What a cached response is filed under.
#[derive(Clone, Debug, PartialEq, Eq)]
pub struct CacheKey {
    /// The hash of the canonical head that the response depends on; `None`
    /// for a method whose result depends on no head.
    pub head_hash: Option<Digest>,
    /// The name of the method.
    pub method: String,
    /// The parameters in canonical form.
    pub params: Option<String>,
}

/// A cache key as the contracts see it.
pub struct CacheKeyView {
    pub head: Option<Seq<u8>>,
    pub method: Seq<char>,
    pub params: Option<Seq<char>>,
}

impl View for CacheKey {
    type V = CacheKeyView;

    open spec fn view(&self) -> CacheKeyView {
        CacheKeyView {
            head: match self.head_hash {
                Some(h) => Some(h@),
                None => None,
            },
            method: self.method@,
            params: match self.params {
                Some(p) => Some(p@),
                None => None,
            },
        }
    }
}

impl CacheKey {
    /// Whether both keys are the same.
    pub fn same(&self, other: &CacheKey) -> (r: bool)
        ensures
            r == (self@ == other@),
    {
        let heads = match (&self.head_hash, &other.head_hash) {
            (Some(a), Some(b)) => a.same(b),
            (None, None) => true,
            _ => false,
        };
        let params = match (&self.params, &other.params) {
            (Some(a), Some(b)) => *a == *b,
            (None, None) => true,
            _ => false,
        };
        heads && params && self.method == other.method
    }

    /// A copy of the key.
    pub fn duplicate(&self) -> (r: CacheKey)
        ensures
            r@ == self@,
    {
        CacheKey {
            head_hash: self.head_hash,
            method: self.method.clone(),
            params: match &self.params {
                Some(p) => Some(p.clone()),
                None => None,
            },
        }
    }
}

/// A cache key in the form in which the maps of this library file it.
pub type RawKey = (Option<[u8; 32]>, String, Option<String>);

/// The cache key that a raw key stands for.
pub open spec fn raw_view(k: RawKey) -> CacheKeyView {
    CacheKeyView {
        head: match k.0 {
            Some(h) => Some(h@),
            None => None,
        },
        method: k.1@,
        params: match k.2 {
            Some(p) => Some(p@),
            None => None,
        },
    }
}

/// The raw form of `key`.
pub fn raw_key(key: &CacheKey) -> (raw: RawKey)
    ensures
        raw_view(raw) == key@,
{
    (
        match &key.head_hash {
            Some(h) => Some(h.bytes),
            None => None,
        },
        key.method.clone(),
        match &key.params {
            Some(p) => Some(p.clone()),
            None => None,
        },
    )
}

/// The key that `raw` stands for.
pub fn key_of(raw: RawKey) -> (key: CacheKey)
    ensures
        key@ == raw_view(raw),
{
    CacheKey {
        head_hash: match raw.0 {
            Some(bytes) => Some(Digest::new(bytes)),
            None => None,
        },
        method: raw.1,
        params: raw.2,
    }
}

/// The length of `body` in bytes, as it is written.
pub open spec fn body_size(body: Seq<char>) -> nat {
    encode_utf8(body).len()
}

/// A response in the cache.
#[derive(Clone, Debug, PartialEq, Eq)]
pub struct CachedResponse {
    pub key: CacheKey,
    /// The body of the response.
    pub body: String,
    /// The length of the body in bytes.
    pub size: usize,
}

/// A cached response as the contracts see it.
pub struct EntryView {
    pub key: CacheKeyView,
    pub body: Seq<char>,
}

impl View for CachedResponse {
    type V = EntryView;

    open spec fn view(&self) -> EntryView {
        EntryView { key: self.key@, body: self.body@ }
    }
}

/// Whether `entries` hold a response under `key`.
pub open spec fn holds(entries: Seq<EntryView>, key: CacheKeyView) -> bool {
    exists|i: int| 0 <= i < entries.len() && (#[trigger] entries[i]).key == key
}

/// The body that `entries` hold under `key`.
pub open spec fn lookup(entries: Seq<EntryView>, key: CacheKeyView) -> Option<Seq<char>> {
    if holds(entries, key) {
        Some(entries[choose|i: int| 0 <= i < entries.len() && (#[trigger] entries[i]).key == key].body)
    } else {
        None
    }
}

/// No key occurs twice.
pub open spec fn distinct_keys(entries: Seq<EntryView>) -> bool {
    forall|i: int, j: int|
        0 <= i < entries.len() && 0 <= j < entries.len() && i != j ==> (#[trigger] entries[i]).key
            != (#[trigger] entries[j]).key
}

/// The bytes that the bodies of `entries` take together.
pub open spec fn total_size(entries: Seq<EntryView>) -> nat
    decreases entries.len(),
{
    if entries.len() == 0 {
        0
    } else {
        body_size(entries[0].body) + total_size(entries.drop_first())
    }
}

/// Whether a body of `size` bytes can be added to `entries` without
/// exceeding a bound.
pub open spec fn has_room(entries: Seq<EntryView>, max_entries: nat, limit: nat, size: nat) -> bool {
    entries.len() < max_entries && total_size(entries) + size <= limit
}

/// How many of the oldest entries have to go before a body of `size` bytes
/// can be added.
pub open spec fn evictions(entries: Seq<EntryView>, max_entries: nat, limit: nat, size: nat) -> nat
    decreases entries.len(),
{
    if entries.len() == 0 || has_room(entries, max_entries, limit, size) {
        0
    } else {
        1 + evictions(entries.drop_first(), max_entries, limit, size)
    }
}

/// Whether an insertion of `body` under `key` takes place: the key is not
/// held yet, and the body alone does not exceed the bounds.
pub open spec fn admits(
    entries: Seq<EntryView>,
    key: CacheKeyView,
    body: Seq<char>,
    max_entries: nat,
    limit: nat,
) -> bool {
    !holds(entries, key) && max_entries >= 1 && body_size(body) <= limit
}

/// The entries after an insertion of `body` under `key`: where it takes
/// place, the oldest entries go as far as needed and the new one is added
/// as the youngest.
pub open spec fn after_insert(
    entries: Seq<EntryView>,
    key: CacheKeyView,
    body: Seq<char>,
    max_entries: nat,
    limit: nat,
) -> Seq<EntryView> {
    if admits(entries, key, body, max_entries, limit) {
        entries.skip(evictions(entries, max_entries, limit, body_size(body)) as int).push(
            EntryView { key, body },
        )
    } else {
        entries
    }
}

proof fn lemma_total_size_push(entries: Seq<EntryView>, e: EntryView)
    ensures
        total_size(entries.push(e)) == total_size(entries) + body_size(e.body),
    decreases entries.len(),
{
    if entries.len() == 0 {
        assert(entries.push(e).drop_first() =~= entries);
    } else {
        assert(entries.push(e).drop_first() =~= entries.drop_first().push(e));
        lemma_total_size_push(entries.drop_first(), e);
    }
}

/// An insertion makes nothing retrievable under another key: what the
/// cache holds under `other` afterwards, it held before.
pub proof fn lemma_insert_keeps_other_keys_apart(
    entries: Seq<EntryView>,
    key: CacheKeyView,
    body: Seq<char>,
    max_entries: nat,
    limit: nat,
    other: CacheKeyView,
)
    requires
        distinct_keys(entries),
        other != key,
    ensures
        lookup(after_insert(entries, key, body, max_entries, limit), other) is Some ==> lookup(
            after_insert(entries, key, body, max_entries, limit),
            other,
        ) == lookup(entries, other),
{
    let after = after_insert(entries, key, body, max_entries, limit);
    if holds(after, other) && admits(entries, key, body, max_entries, limit) {
        let n = evictions(entries, max_entries, limit, body_size(body)) as int;
        lemma_evictions_within(entries, max_entries, limit, body_size(body));
        let i = choose|i: int| 0 <= i < after.len() && (#[trigger] after[i]).key == other;
        assert(i < after.len() - 1);
        assert(after[i] == entries[i + n]);
        assert(holds(entries, other));
        let j = choose|j: int| 0 <= j < entries.len() && (#[trigger] entries[j]).key == other;
        assert(j == i + n);
    }
}

/// No more entries go than there are.
pub proof fn lemma_evictions_within(entries: Seq<EntryView>, max_entries: nat, limit: nat, size: nat)
    ensures
        evictions(entries, max_entries, limit, size) <= entries.len(),
    decreases entries.len(),
{
    if !(entries.len() == 0 || has_room(entries, max_entries, limit, size)) {
        lemma_evictions_within(entries.drop_first(), max_entries, limit, size);
    }
}

#[verifier::external_type_specification]
#[verifier::external_body]
#[verifier::reject_recursive_types(K)]
#[verifier::reject_recursive_types(V)]
#[verifier::reject_recursive_types(S)]
pub struct ExLinkedHashMap<K, V, S>(LinkedHashMap<K, V, S>);

/// The linked hash map that holds the bodies, each under its raw key.
pub type BodyMap = LinkedHashMap<RawKey, String>;

/// What a body map holds: its entries in the order in which they were
/// inserted, the oldest first.
pub uninterp spec fn cached(m: BodyMap) -> Seq<EntryView>;

/// `LinkedHashMap::new`: the map it makes holds nothing.
#[verifier::external_body]
fn body_map_new() -> (m: BodyMap)
    ensures
        cached(m).len() == 0,
{
    LinkedHashMap::new()
}

/// `LinkedHashMap::len`: the number of entries.
#[verifier::external_body]
fn body_map_len(m: &BodyMap) -> (n: usize)
    ensures
        n == cached(*m).len(),
{
    m.len()
}

/// `LinkedHashMap::contains_key`: whether an entry has the key.
#[verifier::external_body]
fn body_map_contains(m: &BodyMap, key: &RawKey) -> (r: bool)
    ensures
        r == holds(cached(*m), raw_view(*key)),
{
    m.contains_key(key)
}

/// `LinkedHashMap::get`, with the body cloned: the body of an entry with
/// the key, or `None` where no entry has it. The order stays.
#[verifier::external_body]
fn body_map_get(m: &BodyMap, key: &RawKey) -> (r: Option<String>)
    ensures
        r is Some <==> holds(cached(*m), raw_view(*key)),
        r matches Some(body) ==> exists|i: int|
            0 <= i < cached(*m).len() && (#[trigger] cached(*m)[i]).key == raw_view(*key) && cached(
                *m,
            )[i].body == body@,
{
    m.get(key).cloned()
}

/// `LinkedHashMap::insert`: under a key that no entry has, the body is
/// added as the youngest entry and the others stay as they are. Under a
/// key that an entry has, that entry gets the body and becomes the
/// youngest, and the map holds as many entries as before.
#[verifier::external_body]
fn body_map_insert(m: &mut BodyMap, key: RawKey, body: String)
    ensures
        !holds(cached(*old(m)), raw_view(key)) ==> cached(*final(m)) == cached(*old(m)).push(
            (EntryView { key: raw_view(key), body: body@ }),
        ),
        holds(cached(*old(m)), raw_view(key)) ==> cached(*final(m)).len() == cached(*old(m)).len()
            && cached(*final(m)).last() == (EntryView { key: raw_view(key), body: body@ }),
{
    let _ = m.insert(key, body);
}

/// `LinkedHashMap::pop_front`: the oldest entry leaves the map and is
/// returned, and the others stay as they are; an empty map stays empty.
#[verifier::external_body]
fn body_map_pop_front(m: &mut BodyMap) -> (r: Option<(RawKey, String)>)
    ensures
        cached(*old(m)).len() == 0 ==> r is None && cached(*final(m)) == cached(*old(m)),
        cached(*old(m)).len() > 0 ==> r is Some && cached(*final(m)) == cached(
            *old(m),
        ).drop_first(),
        r matches Some(entry) ==> raw_view(entry.0) == cached(*old(m))[0].key && entry.1@ == cached(
            *old(m),
        )[0].body,
{
    m.pop_front()
}

/// The map of the cache, which only the cache reaches into.
pub struct BodyStore {
    map: BodyMap,
}

impl View for BodyStore {
    type V = Seq<EntryView>;

    closed spec fn view(&self) -> Seq<EntryView> {
        cached(self.map)
    }
}

/// The response cache.
pub struct ResponseCache {
    /// The entries, the oldest first.
    pub entries: BodyStore,
    /// The most entries that the cache holds.
    pub max_entries: usize,
    /// The most bytes that the bodies take together, if bounded.
    pub max_bytes: Option<usize>,
    /// The bytes that the bodies take together.
    pub total_bytes: usize,
}

impl View for ResponseCache {
    type V = Seq<EntryView>;

    open spec fn view(&self) -> Seq<EntryView> {
        self.entries@
    }
}

impl ResponseCache {
    /// The bound on the bytes: the configured one, or what a counter can
    /// hold.
    pub open spec fn limit(self) -> nat {
        match self.max_bytes {
            Some(b) => b as nat,
            None => usize::MAX as nat,
        }
    }

    /// The invariant of the cache: no key occurs twice, the bytes are
    /// counted right, and both bounds hold.
    pub open spec fn wf(self) -> bool {
        &&& distinct_keys(self@)
        &&& self@.len() <= self.max_entries
        &&& self.total_bytes == total_size(self@)
        &&& self.total_bytes <= self.limit()
    }

    /// An empty cache with the given bounds.
    pub fn new(max_entries: usize, max_bytes: Option<usize>) -> (c: ResponseCache)
        ensures
            c.wf(),
            c@.len() == 0,
            c.max_entries == max_entries,
            c.max_bytes == max_bytes,
    {
        ResponseCache {
            entries: BodyStore { map: body_map_new() },
            max_entries,
            max_bytes,
            total_bytes: 0,
        }
    }

    /// The number of entries.
    pub fn len(&self) -> (n: usize)
        ensures
            n == self@.len(),
    {
        body_map_len(&self.entries.map)
    }

    /// The body stored under `key`, if there is one.
    pub fn get(&self, key: &CacheKey) -> (r: Option<String>)
        requires
            self.wf(),
        ensures
            r is Some <==> holds(self@, key@),
            r matches Some(body) ==> lookup(self@, key@) == Some(body@),
    {
        let raw = raw_key(key);
        let r = body_map_get(&self.entries.map, &raw);
        proof {
            if r is Some {
                let body = r.unwrap()@;
                let i = choose|i: int|
                    0 <= i < self@.len() && (#[trigger] self@[i]).key == key@ && self@[i].body
                        == body;
                let j = choose|j: int| 0 <= j < self@.len() && (#[trigger] self@[j]).key == key@;
                assert(j == i);
            }
        }
        r
    }

    /// Removes the oldest entry and returns it.
    pub fn evict_one(&mut self) -> (r: Option<CachedResponse>)
        requires
            old(self).wf(),
        ensures
            final(self).wf(),
            final(self).max_entries == old(self).max_entries,
            final(self).max_bytes == old(self).max_bytes,
            old(self)@.len() == 0 ==> r is None && final(self)@ == old(self)@,
            old(self)@.len() > 0 ==> r is Some && r.unwrap()@ == old(self)@[0] && r.unwrap().size
                == body_size(old(self)@[0].body) && final(self)@ == old(self)@.drop_first(),
    {
        let ghost before = self@;
        match body_map_pop_front(&mut self.entries.map) {
            None => None,
            Some(entry) => {
                let size: usize = entry.1.as_str().as_bytes().len();
                assert(size == body_size(before[0].body));
                self.total_bytes = self.total_bytes - size;
                proof {
                    assert forall|i: int, j: int|
                        0 <= i < self@.len() && 0 <= j < self@.len() && i != j implies (
                    #[trigger] self@[i]).key != (#[trigger] self@[j]).key by {
                        assert(self@[i] == before[i + 1]);
                        assert(self@[j] == before[j + 1]);
                    }
                }
                Some(CachedResponse { key: key_of(entry.0), body: entry.1, size })
            },
        }
    }

    /// Stores `body` under `key` unless the key is held already. To make
    /// room, the oldest entries are removed first, as many as needed to
    /// keep both bounds. A body that alone exceeds the bound on the bytes
    /// is not stored, nor anything in a cache that may hold no entry.
    /// Returns whether the body was stored.
    pub fn insert_if_absent(&mut self, key: CacheKey, body: String) -> (stored: bool)
        requires
            old(self).wf(),
        ensures
            final(self).wf(),
            final(self).max_entries == old(self).max_entries,
            final(self).max_bytes == old(self).max_bytes,
            stored == admits(
                old(self)@,
                key@,
                body@,
                old(self).max_entries as nat,
                old(self).limit(),
            ),
            final(self)@ == after_insert(
                old(self)@,
                key@,
                body@,
                old(self).max_entries as nat,
                old(self).limit(),
            ),
    {
        let ghost before = self@;
        let ghost cap = self.max_entries as nat;
        let ghost limit = self.limit();
        let size: usize = body.as_str().as_bytes().len();
        let bound: usize = match self.max_bytes {
            Some(b) => b,
            None => usize::MAX,
        };
        if self.max_entries == 0 || size > bound {
            return false;
        }
        let raw = raw_key(&key);
        if body_map_contains(&self.entries.map, &raw) {
            return false;
        }
        let ghost mut gone: int = 0;
        while self.len() >= self.max_entries || self.total_bytes > bound - size
            invariant
                self.wf(),
                self.max_entries == old(self).max_entries,
                self.max_bytes == old(self).max_bytes,
                cap == self.max_entries,
                limit == self.limit(),
                bound == limit,
                size == body_size(body@),
                size <= bound,
                cap >= 1,
                0 <= gone <= before.len(),
                self@ == before.skip(gone),
                evictions(before, cap, limit, size as nat) == gone + evictions(
                    self@,
                    cap,
                    limit,
                    size as nat,
                ),
            decreases self@.len(),
        {
            // an empty cache has room
            assert(self@.len() > 0) by {
                if self@.len() == 0 {
                    assert(total_size(self@) == 0);
                }
            }
            let _ = self.evict_one();
            proof {
                assert(self@ =~= before.skip(gone + 1));
                gone = gone + 1;
            }
        }
        assert(has_room(self@, cap, limit, size as nat));
        assert(!holds(self@, key@)) by {
            if holds(self@, key@) {
                let i = choose|i: int| 0 <= i < self@.len() && (#[trigger] self@[i]).key == key@;
                assert(before[i + gone].key == key@);
            }
        }
        let ghost kept = self@;
        let ghost view = EntryView { key: key@, body: body@ };
        body_map_insert(&mut self.entries.map, raw, body);
        self.total_bytes = self.total_bytes + size;
        proof {
            assert(self@ =~= kept.push(view));
            lemma_total_size_push(kept, view);
            assert forall|i: int, j: int|
                0 <= i < self@.len() && 0 <= j < self@.len() && i != j implies (#[trigger] self@[i]).key
                != (#[trigger] self@[j]).key by {
                if i < kept.len() {
                    assert(self@[i] == kept[i]);
                }
                if j < kept.len() {
                    assert(self@[j] == kept[j]);
                }
            }
        }
        true
    }
}

} // verus!
