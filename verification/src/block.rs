use vstd::prelude::*;

use crate::hashable::Hashable;
use crate::hashable::sha256;
use crate::hashable::sha256_of;
use crate::spec_difficulty_window;

verus! {

/// One ledger entry. `hash` is all zero until mining commits a digest that
/// satisfies the difficulty predicate.
pub struct Block {
    pub index: usize,
    pub timestamp: u128,
    pub hash: Vec<u8>,
    pub prev_block_hash: Vec<u8>,
    pub nonce: u64,
    pub payload: String,
    pub difficulty: u128,
}

/// The mathematical model of a block: each field as a plain value.
pub ghost struct BlockView {
    pub index: int,
    pub timestamp: u128,
    pub hash: Seq<u8>,
    pub prev_block_hash: Seq<u8>,
    pub nonce: u64,
    pub payload: Seq<char>,
    pub difficulty: u128,
}

impl View for Block {
    type V = BlockView;

    open spec fn view(&self) -> BlockView {
        BlockView {
            index: self.index as int,
            timestamp: self.timestamp,
            hash: self.hash@,
            prev_block_hash: self.prev_block_hash@,
            nonce: self.nonce,
            payload: self.payload@,
            difficulty: self.difficulty,
        }
    }
}

/// The all-zero placeholder digest.
pub open spec fn zero_hash() -> Seq<u8> {
    Seq::new(32, |i: int| 0u8)
}

/// The canonical serialization of a block: every field but `hash`, each
/// integer fixed-width little-endian, in a fixed order.
pub open spec fn spec_block_bytes(v: BlockView) -> Seq<u8> {
    vstd::bytes::spec_u64_to_le_bytes(v.index as u64) + vstd::bytes::spec_u128_to_le_bytes(
        v.timestamp,
    ) + v.prev_block_hash + vstd::bytes::spec_u64_to_le_bytes(v.nonce)
        + vstd::utf8::encode_utf8(v.payload) + vstd::bytes::spec_u128_to_le_bytes(v.difficulty)
}

/// The digest a block's current field values serialize and hash to.
pub open spec fn spec_block_digest(v: BlockView) -> Seq<u8> {
    sha256_of(spec_block_bytes(v))
}

/// The difficulty predicate: the digest's 16-byte window, read little-endian,
/// lies strictly below the difficulty threshold. Larger difficulty values
/// admit more digests.
pub open spec fn spec_check_difficulty(h: Seq<u8>, difficulty: u128) -> bool {
    difficulty > spec_difficulty_window(h)
}

/// Does nonce `n`, substituted into the block, give a digest that satisfies
/// the block's own difficulty? Independent of the block's `nonce` and `hash`.
pub open spec fn spec_nonce_ok(v: BlockView, n: u64) -> bool {
    spec_check_difficulty(spec_block_digest(BlockView { nonce: n, ..v }), v.difficulty)
}

/// The serialization leaves `hash` out, so whether a candidate nonce
/// satisfies the difficulty depends on neither `hash` nor the stored nonce.
pub proof fn lemma_nonce_ok_ignores_hash_and_nonce(a: BlockView, b: BlockView)
    requires
        a.index == b.index,
        a.timestamp == b.timestamp,
        a.prev_block_hash == b.prev_block_hash,
        a.payload == b.payload,
        a.difficulty == b.difficulty,
    ensures
        forall|n: u64| spec_nonce_ok(a, n) == spec_nonce_ok(b, n),
{
    assert forall|n: u64| spec_nonce_ok(a, n) == spec_nonce_ok(b, n) by {
        assert(spec_block_bytes(BlockView { nonce: n, ..a }) == spec_block_bytes(
            BlockView { nonce: n, ..b },
        ));
    }
}

/// Two blocks whose serialized fields agree serialize alike and hash alike,
/// whatever their stored `hash` placeholders are.
pub proof fn lemma_equal_fields_equal_digest(a: BlockView, b: BlockView)
    requires
        a.index == b.index,
        a.timestamp == b.timestamp,
        a.prev_block_hash == b.prev_block_hash,
        a.nonce == b.nonce,
        a.payload == b.payload,
        a.difficulty == b.difficulty,
    ensures
        spec_block_bytes(a) == spec_block_bytes(b),
        spec_block_digest(a) == spec_block_digest(b),
{
}

/// The difficulty predicate is monotonic in the threshold: a digest that
/// passes under some difficulty passes under every larger one.
pub proof fn lemma_check_difficulty_monotonic(h: Seq<u8>, d1: u128, d2: u128)
    requires
        spec_check_difficulty(h, d1),
        d1 <= d2,
    ensures
        spec_check_difficulty(h, d2),
{
}

/// Dually, a digest that fails under some difficulty fails under every
/// smaller one.
pub proof fn lemma_check_difficulty_antitone(h: Seq<u8>, d1: u128, d2: u128)
    requires
        !spec_check_difficulty(h, d1),
        d2 <= d1,
    ensures
        !spec_check_difficulty(h, d2),
{
}

/// Re-mining cannot raise the nonce: if a block's stored nonce already
/// satisfies its difficulty, the least satisfying nonce `m` that a fresh
/// search commits is no higher than the stored one.
pub proof fn lemma_remine_nonce_le(v: BlockView, m: u64)
    requires
        spec_nonce_ok(v, v.nonce),
        spec_nonce_ok(v, m),
        forall|k: u64| k < m ==> !spec_nonce_ok(v, k),
    ensures
        m <= v.nonce,
{
    if v.nonce < m {
        assert(!spec_nonce_ok(v, v.nonce));
    }
}

/// Mining is deterministic in its inputs: two blocks that agree on every
/// field the serialization reads (their nonces and placeholders aside) have
/// the same least satisfying nonce and, at it, the same digest.
pub proof fn lemma_mining_deterministic(a: BlockView, b: BlockView, na: u64, nb: u64)
    requires
        a.index == b.index,
        a.timestamp == b.timestamp,
        a.prev_block_hash == b.prev_block_hash,
        a.payload == b.payload,
        a.difficulty == b.difficulty,
        spec_nonce_ok(a, na),
        forall|k: u64| k < na ==> !spec_nonce_ok(a, k),
        spec_nonce_ok(b, nb),
        forall|k: u64| k < nb ==> !spec_nonce_ok(b, k),
    ensures
        na == nb,
        spec_block_digest(BlockView { nonce: na, ..a }) == spec_block_digest(
            BlockView { nonce: nb, ..b },
        ),
{
    lemma_nonce_ok_ignores_hash_and_nonce(a, b);
    if na < nb {
        assert(!spec_nonce_ok(b, na));
        assert(false);
    }
    if nb < na {
        assert(!spec_nonce_ok(a, nb));
        assert(false);
    }
    assert(spec_block_bytes(BlockView { nonce: na, ..a }) == spec_block_bytes(
        BlockView { nonce: nb, ..b },
    ));
}

/// True iff the digest's difficulty window lies strictly below `difficulty`.
pub fn check_difficulty(hash: &Vec<u8>, difficulty: u128) -> (r: bool)
    requires
        32 <= hash@.len(),
    ensures
        r == spec_check_difficulty(hash@, difficulty),
{
    difficulty > crate::difficulty_bytes_as_u128(hash.as_slice())
}

impl Block {
    /// Build a block from the given field values verbatim, with `hash` set to
    /// the 32-byte zero placeholder. No validation happens here.
    pub fn new(
        index: usize,
        timestamp: u128,
        prev_block_hash: Vec<u8>,
        nonce: u64,
        payload: String,
        difficulty: u128,
    ) -> (r: Block)
        ensures
            r@ == (BlockView {
                index: index as int,
                timestamp: timestamp,
                hash: zero_hash(),
                prev_block_hash: prev_block_hash@,
                nonce: nonce,
                payload: payload@,
                difficulty: difficulty,
            }),
    {
        let hash: Vec<u8> = vec![0u8; 32];
        proof {
            assert(hash@ =~= zero_hash());
        }
        Block { index, timestamp, hash, prev_block_hash, nonce, payload, difficulty }
    }

    /// Try nonce values from 0 upward; commit the first nonce whose digest
    /// satisfies the block's difficulty, together with that digest. If no
    /// nonce below `u64::MAX` satisfies it, the search ends with `hash` left
    /// as it was: an unmined block, not an error.
    pub fn mine(&mut self)
        ensures
            final(self)@.index == old(self)@.index,
            final(self)@.timestamp == old(self)@.timestamp,
            final(self)@.prev_block_hash == old(self)@.prev_block_hash,
            final(self)@.payload == old(self)@.payload,
            final(self)@.difficulty == old(self)@.difficulty,
            (exists|n: u64| n < u64::MAX && spec_nonce_ok(old(self)@, n)) ==> {
                &&& spec_nonce_ok(old(self)@, final(self)@.nonce)
                &&& forall|k: u64| k < final(self)@.nonce ==> !spec_nonce_ok(old(self)@, k)
                &&& final(self)@.hash == spec_block_digest(final(self)@)
                &&& spec_check_difficulty(final(self)@.hash, final(self)@.difficulty)
            },
            !(exists|n: u64| n < u64::MAX && spec_nonce_ok(old(self)@, n)) ==> {
                &&& final(self)@.hash == old(self)@.hash
                &&& final(self)@.nonce == u64::MAX - 1
            },
    {
        let mut nonce_attempt: u64 = 0;
        while nonce_attempt < u64::MAX
            invariant
                self@.index == old(self)@.index,
                self@.timestamp == old(self)@.timestamp,
                self@.hash == old(self)@.hash,
                self@.prev_block_hash == old(self)@.prev_block_hash,
                self@.payload == old(self)@.payload,
                self@.difficulty == old(self)@.difficulty,
                forall|k: u64| k < nonce_attempt ==> !spec_nonce_ok(old(self)@, k),
                nonce_attempt > 0 ==> self@.nonce == nonce_attempt - 1,
                nonce_attempt == 0 ==> self@.nonce == old(self)@.nonce,
            decreases u64::MAX - nonce_attempt,
        {
            self.nonce = nonce_attempt;
            let hash = self.hash();
            if check_difficulty(&hash, self.difficulty) {
                proof {
                    assert(spec_block_bytes(self@) == spec_block_bytes(
                        BlockView { nonce: nonce_attempt, ..old(self)@ },
                    ));
                }
                self.hash = hash;
                proof {
                    assert(spec_block_bytes(self@) == spec_block_bytes(
                        BlockView { nonce: nonce_attempt, ..old(self)@ },
                    ));
                    assert(spec_nonce_ok(old(self)@, nonce_attempt));
                }
                return ;
            }
            proof {
                assert(spec_block_bytes(self@) == spec_block_bytes(
                    BlockView { nonce: nonce_attempt, ..old(self)@ },
                ));
                assert(!spec_nonce_ok(old(self)@, nonce_attempt));
            }
            nonce_attempt = nonce_attempt + 1;
        }
    }
}

impl Hashable for Block {
    open spec fn canonical_bytes(&self) -> Seq<u8> {
        spec_block_bytes(self@)
    }

    fn bytes(&self) -> (r: Vec<u8>)
        ensures
            r@ == self.canonical_bytes(),
    {
        let mut bytes: Vec<u8> = vstd::bytes::u64_to_le_bytes(self.index as u64);
        let mut ts = vstd::bytes::u128_to_le_bytes(self.timestamp);
        bytes.append(&mut ts);
        let mut prev = self.prev_block_hash.clone();
        bytes.append(&mut prev);
        let mut nonce = vstd::bytes::u64_to_le_bytes(self.nonce);
        bytes.append(&mut nonce);
        let mut payload = self.payload.as_str().as_bytes_vec();
        bytes.append(&mut payload);
        let mut difficulty = vstd::bytes::u128_to_le_bytes(self.difficulty);
        bytes.append(&mut difficulty);
        bytes
    }

    fn hash(&self) -> (r: Vec<u8>)
        ensures
            r@ == sha256_of(self.canonical_bytes()),
            r@.len() == 32,
    {
        let bytes = self.bytes();
        sha256(bytes.as_slice())
    }
}

} // verus!
