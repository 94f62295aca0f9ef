//! Digests and block references.

use vstd::prelude::*;
use crate::encoding::{data_value, parse_data};
use crate::order::{bytes_equal, bytes_less, lex_less};

verus! {

/// A 32-byte digest: the hash of a block or of a transaction.
#[derive(Clone, Copy, Debug, PartialEq, Eq, Hash)]
pub struct Digest {
    pub bytes: [u8; 32],
}

impl View for Digest {
    type V = Seq<u8>;

    open spec fn view(&self) -> Seq<u8> {
        self.bytes@
    }
}

impl Digest {
    /// The digest that holds `bytes`.
    pub fn new(bytes: [u8; 32]) -> (d: Digest)
        ensures
            d@ == bytes@,
            d.bytes == bytes,
    {
        Digest { bytes }
    }

    /// The digest that `text` stands for: `0x` and the 64 hexadecimal
    /// digits of its 32 bytes.
    pub fn from_hex(text: &str) -> (r: Option<Digest>)
        ensures
            r is Some <==> (data_value(text@) matches Some(bytes) && bytes.len() == 32),
            r matches Some(d) ==> data_value(text@) == Some(d@),
    {
        let parsed = match parse_data(text) {
            Some(v) => v,
            None => {
                return None;
            },
        };
        if parsed.len() != 32 {
            return None;
        }
        let mut bytes = [0u8; 32];
        let mut i: usize = 0;
        while i < 32
            invariant
                i <= 32,
                parsed.len() == 32,
                forall|j: int| 0 <= j < i ==> bytes@[j] == parsed@[j],
            decreases 32 - i,
        {
            bytes[i] = parsed[i];
            i += 1;
        }
        assert(bytes@ =~= parsed@);
        Some(Digest { bytes })
    }

    /// The digest as JSON-RPC writes it.
    pub fn to_hex(&self) -> (text: String)
        ensures
            text@ == crate::encoding::data(self@),
    {
        crate::encoding::bytes_data(&self.bytes)
    }

    /// Whether both digests hold the same bytes.
    pub fn same(&self, other: &Digest) -> (r: bool)
        ensures
            r == (self@ == other@),
    {
        bytes_equal(&self.bytes, &other.bytes)
    }

    /// Whether this digest sorts strictly before `other`, byte by byte.
    pub fn sorts_before(&self, other: &Digest) -> (r: bool)
        ensures
            r == lex_less(self@, other@),
    {
        bytes_less(&self.bytes, &other.bytes)
    }
}

/// A block as an upstream reports it: its hash, its height and its parent.
#[derive(Clone, Copy, Debug, Eq)]
pub struct BlockRef {
    pub hash: Digest,
    pub number: u64,
    pub parent_hash: Digest,
}

/// `a` comes strictly before `b`: by number, and by hash where the numbers
/// are equal.
pub open spec fn block_before(a: BlockRef, b: BlockRef) -> bool {
    a.number < b.number || (a.number == b.number && lex_less(a.hash@, b.hash@))
}

impl BlockRef {
    /// Two references name the same block when their hashes are equal.
    pub open spec fn same_block(self, other: BlockRef) -> bool {
        self.hash@ == other.hash@
    }

    /// Whether both references name the same block.
    pub fn is_same_block(&self, other: &BlockRef) -> (r: bool)
        ensures
            r == self.same_block(*other),
    {
        self.hash.same(&other.hash)
    }

    /// Whether this block comes strictly before `other` in the order of
    /// blocks.
    pub fn is_before(&self, other: &BlockRef) -> (r: bool)
        ensures
            r == block_before(*self, *other),
    {
        self.number < other.number || (self.number == other.number && self.hash.sorts_before(
            &other.hash,
        ))
    }
}

/// The block that the proxy treats as the tip of the chain.
#[derive(Clone, Copy, Debug, PartialEq, Eq)]
pub struct CanonicalHead {
    /// The hash of the block.
    pub hash: Digest,
    /// Its height.
    pub number: u64,
    /// How many upstreams, at the least, stood behind it when it was chosen.
    pub minimum_confirming_upstreams: u32,
}

impl PartialEq for BlockRef {
    fn eq(&self, other: &BlockRef) -> (r: bool) {
        self.hash.same(&other.hash)
    }
}

impl vstd::std_specs::cmp::PartialEqSpecImpl for BlockRef {
    open spec fn obeys_eq_spec() -> bool {
        true
    }

    open spec fn eq_spec(&self, other: &BlockRef) -> bool {
        self.hash@ == other.hash@
    }
}

/// The order of blocks is strict: no block comes before itself, and of two
/// blocks with different hashes exactly one comes before the other.
pub proof fn lemma_block_order_strict(a: BlockRef, b: BlockRef)
    ensures
        !block_before(a, a),
        !(block_before(a, b) && block_before(b, a)),
        !a.same_block(b) ==> (block_before(a, b) || block_before(b, a)),
{
    crate::order::lemma_lex_irreflexive(a.hash@);
    crate::order::lemma_lex_total(a.hash@, b.hash@);
}

/// The order of blocks is transitive.
pub proof fn lemma_block_order_transitive(a: BlockRef, b: BlockRef, c: BlockRef)
    requires
        block_before(a, b),
        block_before(b, c),
    ensures
        block_before(a, c),
{
    if a.number == b.number && b.number == c.number {
        crate::order::lemma_lex_transitive(a.hash@, b.hash@, c.hash@);
    }
}

} // verus!
