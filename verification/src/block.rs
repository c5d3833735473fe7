use crate::digits::dec_str;
use crate::digits::u64_to_string;
use crate::hashing::{sha256_hex, sha256_hex_of};
use crate::merkle::{merkle_root_spec, MerkleTree};
use vstd::prelude::*;

verus! {

/// Number of leading '0' hex characters a mined digest must show.
pub const DIFFICULTY: usize = 4;

/// The difficulty predicate: the digest's first `DIFFICULTY` characters
/// are all the ASCII character '0'.
pub open spec fn valid_hash(h: Seq<char>) -> bool {
    &&& h.len() >= DIFFICULTY
    &&& forall|i: int| 0 <= i < DIFFICULTY ==> h[i] == '0'
}

/// The pre-image a block hashes: index, timestamp, Merkle root (empty when
/// there are no transactions), previous hash and nonce, joined by single
/// spaces, each in its decimal or verbatim textual form.
pub open spec fn block_preimage(
    index: nat,
    timestamp: nat,
    root: Seq<char>,
    previous_hash: Seq<char>,
    nonce: nat,
) -> Seq<char> {
    dec_str(index) + seq![' '] + dec_str(timestamp) + seq![' '] + root + seq![' ']
        + previous_hash + seq![' '] + dec_str(nonce)
}

/// The Merkle root a transaction sequence commits to, or the empty string
/// for zero transactions ("no commitment").
pub open spec fn root_or_empty(transactions: Seq<Seq<char>>) -> Seq<char> {
    if transactions.len() == 0 {
        Seq::empty()
    } else {
        merkle_root_spec(transactions)
    }
}

#[derive(Clone, Copy, PartialEq, Eq, Structural, Debug)]
pub enum MineError {
    /// The nonce search space was exhausted without a digest that meets
    /// the difficulty predicate.
    MiningExhausted,
}

#[derive(Debug)]
pub struct Block {
    pub index: u32,
    pub timestamp: u64,
    pub merkle_tree: MerkleTree,
    pub current_hash: String,
    pub previous_hash: String,
    pub nonce: u64,
}

impl Block {
    /// The root digest this block's tree commits to, or the empty string.
    pub open spec fn spec_root_or_empty(&self) -> Seq<char> {
        match self.merkle_tree.spec_root() {
            Some(digest) => digest,
            None => Seq::empty(),
        }
    }

    /// The digest of this block's pre-image at the given nonce.
    pub open spec fn spec_hash_at(&self, nonce: nat) -> Seq<char> {
        sha256_hex(
            block_preimage(
                self.index as nat,
                self.timestamp as nat,
                self.spec_root_or_empty(),
                self.previous_hash@,
                nonce,
            ),
        )
    }

    /// A block is mined when its stored hash is the digest of its own
    /// stored fields and meets the difficulty predicate.
    pub open spec fn is_mined(&self) -> bool {
        &&& self.current_hash@ == self.spec_hash_at(self.nonce as nat)
        &&& valid_hash(self.current_hash@)
    }

    /// Builds the tree, then mines; the block is handed out only in the
    /// mined state (or the search's exhaustion is reported).
    pub fn new_block(
        index: u32,
        timestamp: u64,
        transactions: Vec<&str>,
        previous_hash: String,
    ) -> (r: Result<Block, MineError>)
        ensures
            match r {
                Ok(b) => {
                    &&& b.index == index
                    &&& b.timestamp == timestamp
                    &&& b.previous_hash == previous_hash
                    &&& b.merkle_tree.spec_root() == (if transactions@.len() == 0 {
                        None::<Seq<char>>
                    } else {
                        Some(merkle_root_spec(transactions@.map_values(|t: &str| t@)))
                    })
                    &&& b.is_mined()
                    &&& forall|m: u64|
                        m < b.nonce ==> !valid_hash(#[trigger] b.spec_hash_at(m as nat))
                },
                Err(e) => ({
                    let root = root_or_empty(transactions@.map_values(|t: &str| t@));
                    &&& e == MineError::MiningExhausted
                    &&& forall|m: u64|
                        m < u64::MAX ==> !valid_hash(
                            #[trigger] sha256_hex(
                                block_preimage(
                                    index as nat,
                                    timestamp as nat,
                                    root,
                                    previous_hash@,
                                    m as nat,
                                ),
                            ),
                        )
                }),
            },
    {
        let ghost tsv = transactions@.map_values(|t: &str| t@);
        let ghost ph = previous_hash@;
        let mut block = Block {
            index,
            timestamp,
            merkle_tree: MerkleTree::new(transactions),
            current_hash: String::new(),
            previous_hash,
            nonce: 0,
        };
        proof {
            assert(block.spec_root_or_empty() == root_or_empty(tsv));
        }
        let ghost pre = block;
        let mined = block.mine();
        match mined {
            Ok(()) => {
                proof {
                    assert forall|m: u64|
                        m < block.nonce implies !valid_hash(
                        #[trigger] block.spec_hash_at(m as nat),
                    ) by {
                        assert(!valid_hash(pre.spec_hash_at(m as nat)));
                        assert(block.spec_hash_at(m as nat) == pre.spec_hash_at(m as nat));
                    }
                }
                Ok(block)
            },
            Err(e) => {
                proof {
                    assert forall|m: u64|
                        m < u64::MAX implies !valid_hash(
                        #[trigger] sha256_hex(
                            block_preimage(
                                index as nat,
                                timestamp as nat,
                                root_or_empty(tsv),
                                ph,
                                m as nat,
                            ),
                        ),
                    ) by {
                        assert(!valid_hash(pre.spec_hash_at(m as nat)));
                        assert(pre.spec_hash_at(m as nat) == sha256_hex(
                            block_preimage(
                                index as nat,
                                timestamp as nat,
                                root_or_empty(tsv),
                                ph,
                                m as nat,
                            ),
                        ));
                    }
                }
                Err(e)
            },
        }
    }

    /// The digest of the block's pre-image at its current nonce.
    pub fn calculate_hash(&self) -> (r: String)
        ensures
            r@ == self.spec_hash_at(self.nonce as nat),
            r@.len() == 64,
    {
        let root = match self.merkle_tree.root() {
            Some(digest) => digest,
            None => String::new(),
        };
        let mut input = u64_to_string(self.index as u64);
        input.append(" ");
        input.append(u64_to_string(self.timestamp).as_str());
        input.append(" ");
        input.append(root.as_str());
        input.append(" ");
        input.append(self.previous_hash.as_str());
        input.append(" ");
        input.append(u64_to_string(self.nonce).as_str());
        proof {
            reveal_strlit(" ");
            assert(" "@ =~= seq![' ']);
            assert(input@ =~= block_preimage(
                self.index as nat,
                self.timestamp as nat,
                self.spec_root_or_empty(),
                self.previous_hash@,
                self.nonce as nat,
            ));
        }
        sha256_hex_of(input.as_str())
    }

    /// Searches nonces 0, 1, 2, ... strictly below `limit` and keeps the
    /// first one whose digest meets the difficulty predicate.
    pub fn mine_bounded(&mut self, limit: u64) -> (r: Result<(), MineError>)
        ensures
            final(self).index == old(self).index,
            final(self).timestamp == old(self).timestamp,
            final(self).merkle_tree == old(self).merkle_tree,
            final(self).previous_hash == old(self).previous_hash,
            match r {
                Ok(()) => {
                    &&& final(self).nonce < limit
                    &&& final(self).is_mined()
                    &&& forall|m: u64|
                        m < final(self).nonce ==> !valid_hash(
                            #[trigger] old(self).spec_hash_at(m as nat),
                        )
                },
                Err(e) => {
                    &&& e == MineError::MiningExhausted
                    &&& final(self).current_hash == old(self).current_hash
                    &&& forall|m: u64|
                        m < limit ==> !valid_hash(#[trigger] old(self).spec_hash_at(m as nat))
                },
            },
    {
        let mut nonce_attempt: u64 = 0;
        while nonce_attempt < limit
            invariant
                nonce_attempt <= limit,
                self.index == old(self).index,
                self.timestamp == old(self).timestamp,
                self.merkle_tree == old(self).merkle_tree,
                self.previous_hash == old(self).previous_hash,
                self.current_hash == old(self).current_hash,
                forall|m: u64|
                    m < nonce_attempt ==> !valid_hash(#[trigger] old(self).spec_hash_at(m as nat)),
            decreases limit - nonce_attempt,
        {
            self.nonce = nonce_attempt;
            let hash = self.calculate_hash();
            if self.is_hash_valid(&hash) {
                self.current_hash = hash;
                return Ok(());
            }
            nonce_attempt = nonce_attempt + 1;
        }
        Err(MineError::MiningExhausted)
    }

    /// Mines over the whole nonce space: every nonce strictly below the
    /// largest representable one, in increasing order.
    pub fn mine(&mut self) -> (r: Result<(), MineError>)
        ensures
            final(self).index == old(self).index,
            final(self).timestamp == old(self).timestamp,
            final(self).merkle_tree == old(self).merkle_tree,
            final(self).previous_hash == old(self).previous_hash,
            match r {
                Ok(()) => {
                    &&& final(self).is_mined()
                    &&& forall|m: u64|
                        m < final(self).nonce ==> !valid_hash(
                            #[trigger] old(self).spec_hash_at(m as nat),
                        )
                },
                Err(e) => {
                    &&& e == MineError::MiningExhausted
                    &&& final(self).current_hash == old(self).current_hash
                    &&& forall|m: u64|
                        m < u64::MAX ==> !valid_hash(#[trigger] old(self).spec_hash_at(m as nat))
                },
            },
    {
        self.mine_bounded(u64::MAX)
    }

    /// Whether a digest meets the difficulty predicate.
    pub fn is_hash_valid(&self, hash: &String) -> (r: bool)
        requires
            hash@.len() >= DIFFICULTY,
        ensures
            r == valid_hash(hash@),
    {
        let mut i: usize = 0;
        while i < DIFFICULTY
            invariant
                i <= DIFFICULTY,
                hash@.len() >= DIFFICULTY,
                forall|j: int| 0 <= j < i ==> hash@[j] == '0',
            decreases DIFFICULTY - i,
        {
            if hash.as_str().get_char(i) != '0' {
                return false;
            }
            i = i + 1;
        }
        true
    }

    /// Re-validates a mined block: recomputes the digest from the stored
    /// fields and compares it with the stored hash. Takes the block by
    /// shared reference, so re-validation can never mutate the nonce or
    /// the hash.
    pub fn validate(&self) -> (r: bool)
        ensures
            r == self.is_mined(),
    {
        let hash = self.calculate_hash();
        let same = hash == self.current_hash;
        same && self.is_hash_valid(&hash)
    }
}

/// Every mined block's stored hash begins with `DIFFICULTY` '0' characters
/// and is reproduced exactly by re-hashing the stored fields.
pub proof fn lemma_mined_block_hash(b: Block)
    requires
        b.is_mined(),
    ensures
        valid_hash(b.current_hash@),
        b.current_hash@ == b.spec_hash_at(b.nonce as nat),
        forall|i: int| 0 <= i < DIFFICULTY ==> b.current_hash@[i] == '0',
{
}

} // verus!
