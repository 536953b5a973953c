use vstd::prelude::*;

use crate::block::check_difficulty;
use crate::block::lemma_nonce_ok_ignores_hash_and_nonce;
use crate::block::spec_block_digest;
use crate::block::spec_check_difficulty;
use crate::block::spec_nonce_ok;
use crate::block::zero_hash;
use crate::block::Block;
use crate::block::BlockView;
use crate::hashable::Hashable;

verus! {

/// An append-only sequence of mined blocks, with a cursor at the most
/// recently appended one.
pub struct Blockchain {
    pub blocks: Vec<Block>,
    index: usize,
}

/// The checks that verification applies to the block at position `i`: its
/// stored index is its position, its recomputed digest satisfies its stored
/// difficulty, the first block points at the zero digest, and every later
/// block strictly increases the timestamp and points at its predecessor's
/// stored digest.
pub open spec fn spec_block_ok_at(s: Seq<BlockView>, i: int) -> bool
    recommends
        0 <= i < s.len(),
{
    &&& s[i].index == i
    &&& spec_check_difficulty(spec_block_digest(s[i]), s[i].difficulty)
    &&& (i == 0 ==> s[i].prev_block_hash == zero_hash())
    &&& (i > 0 ==> s[i].timestamp > s[i - 1].timestamp && s[i].prev_block_hash == s[i - 1].hash)
}

/// A valid chain: every block passes all checks that apply to it. Vacuously
/// true of the empty chain.
pub open spec fn spec_chain_valid(s: Seq<BlockView>) -> bool {
    forall|i: int| 0 <= i < s.len() ==> spec_block_ok_at(s, i)
}

/// What appending guarantees of the block it added: its field provenance,
/// its linkage to the previous block, and the outcome of mining it. The
/// timestamp is whatever the clock gave and is not pinned here.
pub open spec fn spec_appended_block_ok(
    prev: Seq<BlockView>,
    b: BlockView,
    payload: Seq<char>,
    difficulty: u128,
) -> bool {
    &&& b.index == prev.len()
    &&& b.payload == payload
    &&& b.difficulty == difficulty
    &&& b.prev_block_hash == if prev.len() == 0 {
        zero_hash()
    } else {
        prev.last().hash
    }
    &&& (exists|n: u64| n < u64::MAX && spec_nonce_ok(b, n)) ==> {
        &&& spec_nonce_ok(b, b.nonce)
        &&& forall|k: u64| k < b.nonce ==> !spec_nonce_ok(b, k)
        &&& b.hash == spec_block_digest(b)
        &&& spec_check_difficulty(spec_block_digest(b), b.difficulty)
    }
    &&& !(exists|n: u64| n < u64::MAX && spec_nonce_ok(b, n)) ==> {
        &&& b.hash == zero_hash()
        &&& b.nonce == u64::MAX - 1
    }
}

/// A block whose stored digest is the digest of its own current fields, found
/// at the least satisfying nonce.
pub open spec fn spec_block_mined(b: BlockView) -> bool {
    &&& b.hash == spec_block_digest(b)
    &&& spec_nonce_ok(b, b.nonce)
    &&& forall|k: u64| k < b.nonce ==> !spec_nonce_ok(b, k)
}

/// Each block records its position and points at its predecessor's stored
/// digest, the first at the zero digest.
pub open spec fn spec_chain_linked(s: Seq<BlockView>) -> bool {
    forall|i: int|
        0 <= i < s.len() ==> {
            &&& s[i].index == i
            &&& (i == 0 ==> s[i].prev_block_hash == zero_hash())
            &&& (i > 0 ==> s[i].prev_block_hash == s[i - 1].hash)
        }
}

/// Two chains built from the same inputs: block for block, the same
/// timestamp, payload and difficulty.
pub open spec fn spec_same_inputs(s1: Seq<BlockView>, s2: Seq<BlockView>) -> bool {
    &&& s1.len() == s2.len()
    &&& forall|i: int|
        0 <= i < s1.len() ==> {
            &&& s1[i].timestamp == s2[i].timestamp
            &&& s1[i].payload == s2[i].payload
            &&& s1[i].difficulty == s2[i].difficulty
        }
}

/// The empty chain is valid: verification succeeds vacuously.
pub proof fn lemma_empty_chain_valid(s: Seq<BlockView>)
    requires
        s.len() == 0,
    ensures
        spec_chain_valid(s),
{
}

/// Appending preserves validity: a valid chain stays valid when the new block
/// takes the next index, points at its predecessor's stored digest (the zero
/// digest on an empty chain), satisfies its difficulty, and carries a strictly
/// later timestamp than its predecessor.
pub proof fn lemma_append_preserves_validity(s: Seq<BlockView>, b: BlockView)
    requires
        spec_chain_valid(s),
        b.index == s.len(),
        b.prev_block_hash == if s.len() == 0 {
            zero_hash()
        } else {
            s.last().hash
        },
        spec_check_difficulty(spec_block_digest(b), b.difficulty),
        s.len() > 0 ==> b.timestamp > s.last().timestamp,
    ensures
        spec_chain_valid(s.push(b)),
{
    let t = s.push(b);
    assert forall|i: int| 0 <= i < t.len() implies spec_block_ok_at(t, i) by {
        if i < s.len() {
            assert(spec_block_ok_at(s, i));
            assert(t[i] == s[i]);
            if i > 0 {
                assert(t[i - 1] == s[i - 1]);
            }
        } else {
            assert(t[i] == b);
            if i > 0 {
                assert(t[i - 1] == s[s.len() - 1]);
            }
        }
    }
}

/// A valid chain stays valid across an append, provided the difficulty was
/// reachable (some nonce satisfies it) and the clock moved strictly forward.
pub proof fn lemma_add_block_preserves_validity(
    s: Seq<BlockView>,
    b: BlockView,
    payload: Seq<char>,
    difficulty: u128,
)
    requires
        spec_chain_valid(s),
        spec_appended_block_ok(s, b, payload, difficulty),
        exists|n: u64| n < u64::MAX && spec_nonce_ok(b, n),
        s.len() > 0 ==> b.timestamp > s.last().timestamp,
    ensures
        spec_chain_valid(s.push(b)),
{
    lemma_append_preserves_validity(s, b);
}

/// Replaying the same inputs rebuilds the same chain: two linked chains of
/// mined blocks whose timestamps, payloads and difficulties agree block for
/// block carry the same nonces and the same digests throughout.
pub proof fn lemma_replay_deterministic(s1: Seq<BlockView>, s2: Seq<BlockView>)
    requires
        spec_same_inputs(s1, s2),
        spec_chain_linked(s1),
        spec_chain_linked(s2),
        forall|i: int| 0 <= i < s1.len() ==> spec_block_mined(#[trigger] s1[i]),
        forall|i: int| 0 <= i < s2.len() ==> spec_block_mined(#[trigger] s2[i]),
    ensures
        forall|i: int|
            0 <= i < s1.len() ==> s1[i].nonce == s2[i].nonce && s1[i].hash == s2[i].hash,
    decreases s1.len(),
{
    if s1.len() > 0 {
        let n = s1.len() - 1;
        let p1 = s1.subrange(0, n);
        let p2 = s2.subrange(0, n);
        assert forall|i: int| 0 <= i < n implies #[trigger] p1[i] == s1[i] && #[trigger] p2[i]
            == s2[i] by {}
        assert(spec_same_inputs(p1, p2));
        assert(spec_chain_linked(p1));
        assert(spec_chain_linked(p2));
        assert forall|i: int| 0 <= i < p1.len() implies spec_block_mined(#[trigger] p1[i]) by {
            assert(spec_block_mined(s1[i]));
        }
        assert forall|i: int| 0 <= i < p2.len() implies spec_block_mined(#[trigger] p2[i]) by {
            assert(spec_block_mined(s2[i]));
        }
        lemma_replay_deterministic(p1, p2);
        let a = s1[n];
        let b = s2[n];
        assert(spec_block_mined(a));
        assert(spec_block_mined(b));
        if n == 0 {
            assert(a.prev_block_hash == zero_hash());
            assert(b.prev_block_hash == zero_hash());
        } else {
            assert(p1[n - 1] == s1[n - 1]);
            assert(a.prev_block_hash == s1[n - 1].hash);
            assert(b.prev_block_hash == s2[n - 1].hash);
            assert(s1[n - 1].hash == s2[n - 1].hash);
        }
        crate::block::lemma_mining_deterministic(a, b, a.nonce, b.nonce);
        assert(BlockView { nonce: a.nonce, ..a } == a);
        assert(BlockView { nonce: b.nonce, ..b } == b);
        assert(a.hash == b.hash);
        assert forall|i: int|
            0 <= i < s1.len() implies s1[i].nonce == s2[i].nonce && s1[i].hash == s2[i].hash by {
            if i < n {
                assert(p1[i] == s1[i]);
                assert(p2[i] == s2[i]);
            }
        }
    }
}

/// True iff the two byte vectors hold the same bytes.
fn bytes_equal(a: &Vec<u8>, b: &Vec<u8>) -> (r: bool)
    ensures
        r <==> a@ == b@,
{
    if a.len() != b.len() {
        return false;
    }
    let n: usize = a.len();
    let mut i: usize = 0;
    while i < n
        invariant
            n == a@.len(),
            n == b@.len(),
            i <= n,
            forall|j: int| 0 <= j < i ==> a@[j] == b@[j],
        decreases n - i,
    {
        if a[i] != b[i] {
            return false;
        }
        i = i + 1;
    }
    proof {
        assert(a@ =~= b@);
    }
    true
}

impl View for Blockchain {
    type V = Seq<BlockView>;

    /// A chain is modelled by the sequence of its blocks' models.
    closed spec fn view(&self) -> Seq<BlockView> {
        self.blocks@.map_values(|b: Block| b@)
    }
}

impl Blockchain {
    /// The cursor names the last stored block (and is zero while the chain is
    /// empty).
    pub closed spec fn wf(&self) -> bool {
        &&& self@.len() == 0 ==> self.index == 0
        &&& self@.len() > 0 ==> self.index == self@.len() - 1
    }

    /// An empty chain.
    pub fn new() -> (r: Blockchain)
        ensures
            r@.len() == 0,
            r.wf(),
    {
        Blockchain { blocks: Vec::new(), index: 0 }
    }

    /// Append one block carrying `payload` under `difficulty`: the new block
    /// takes the next index, points at the previous block's stored digest
    /// (the zero digest for the first block), stamps the clock's current
    /// reading, and is mined in place before the call returns.
    pub fn add_block(&mut self, payload: String, difficulty: u128)
        requires
            old(self).wf(),
        ensures
            final(self).wf(),
            final(self)@.len() == old(self)@.len() + 1,
            final(self)@ == old(self)@.push(final(self)@.last()),
            spec_appended_block_ok(old(self)@, final(self)@.last(), payload@, difficulty),
    {
        if self.blocks.len() == 0 {
            let prev_block_hash: Vec<u8> = vec![0u8; 32];
            proof {
                assert(prev_block_hash@ =~= zero_hash());
            }
            self.create_block(prev_block_hash, payload, difficulty);
        } else {
            let prev_block_hash = self.blocks[self.index].hash.clone();
            proof {
                assert(prev_block_hash@ =~= old(self)@.last().hash);
            }
            self.index = self.index + 1;
            self.create_block(prev_block_hash, payload, difficulty);
        }
    }

    /// Build the next block at the cursor with the clock's current reading,
    /// mine it, and store it.
    fn create_block(&mut self, prev_block_hash: Vec<u8>, payload: String, difficulty: u128)
        requires
            old(self).index == old(self)@.len(),
        ensures
            final(self).wf(),
            final(self)@.len() == old(self)@.len() + 1,
            final(self)@.subrange(0, old(self)@.len() as int) == old(self)@,
            final(self)@.last().index == old(self)@.len(),
            final(self)@.last().payload == payload@,
            final(self)@.last().difficulty == difficulty,
            final(self)@.last().prev_block_hash == prev_block_hash@,
            ({
                let b = final(self)@.last();
                &&& (exists|n: u64| n < u64::MAX && spec_nonce_ok(b, n)) ==> {
                    &&& spec_nonce_ok(b, b.nonce)
                    &&& forall|k: u64| k < b.nonce ==> !spec_nonce_ok(b, k)
                    &&& b.hash == spec_block_digest(b)
                    &&& spec_check_difficulty(spec_block_digest(b), b.difficulty)
                }
                &&& !(exists|n: u64| n < u64::MAX && spec_nonce_ok(b, n)) ==> {
                    &&& b.hash == zero_hash()
                    &&& b.nonce == u64::MAX - 1
                }
            }),
    {
        let timestamp: u128 = crate::now();
        let mut b = Block::new(self.index, timestamp, prev_block_hash, 0, payload, difficulty);
        let ghost unmined = b@;
        b.mine();
        proof {
            lemma_nonce_ok_ignores_hash_and_nonce(unmined, b@);
        }
        self.blocks.push(b);
        proof {
            assert(self@ =~= old(self)@.push(b@));
            assert(final(self)@.subrange(0, old(self)@.len() as int) =~= old(self)@);
        }
    }

    /// Scan the chain front to back and report whether every block passes
    /// all checks that apply to it; stops at the first failure.
    pub fn verify(&self) -> (r: bool)
        ensures
            r == spec_chain_valid(self@),
    {
        let n: usize = self.blocks.len();
        let mut i: usize = 0;
        while i < n
            invariant
                n == self.blocks@.len(),
                i <= n,
                self@ == self.blocks@.map_values(|b: Block| b@),
                forall|j: int| 0 <= j < i ==> spec_block_ok_at(self@, j),
            decreases n - i,
        {
            let block = &self.blocks[i];
            let mut ok: bool = true;
            if block.index != i {
                // index mismatch
                ok = false;
            } else if !check_difficulty(&block.hash(), block.difficulty) {
                // difficulty fail
                ok = false;
            } else if i != 0 {
                // not genesis
                let prev_block = &self.blocks[i - 1];
                if block.timestamp <= prev_block.timestamp {
                    // time did not increase
                    ok = false;
                } else if !bytes_equal(&block.prev_block_hash, &prev_block.hash) {
                    // hash mismatch
                    ok = false;
                }
            } else {
                // genesis
                let zeros: Vec<u8> = vec![0u8; 32];
                proof {
                    assert(zeros@ =~= zero_hash());
                }
                if !bytes_equal(&block.prev_block_hash, &zeros) {
                    ok = false;
                }
            }
            if !ok {
                proof {
                    assert(!spec_block_ok_at(self@, i as int));
                }
                return false;
            }
            proof {
                assert(spec_block_ok_at(self@, i as int));
            }
            i = i + 1;
        }
        true
    }
}

} // verus!
