use crate::block::Block;
use vstd::prelude::*;

verus! {

/// The fixed sentinel previous-hash of the genesis block.
pub open spec fn genesis_prev_hash() -> Seq<char> {
    seq!['0']
}

#[derive(Clone, Copy, PartialEq, Eq, Structural, Debug)]
pub enum ChainError {
    /// The candidate block's previous-hash or index does not match the
    /// chain's current tip.
    ChainLinkageMismatch,
}

/// Whether a block may follow the given chain of blocks: the genesis block
/// carries index 0 and the sentinel previous-hash, every later block points
/// at the tip's digest and advances the index by exactly one.
pub open spec fn links_ok(blocks: Seq<Block>, b: Block) -> bool {
    if blocks.len() == 0 {
        b.index == 0 && b.previous_hash@ == genesis_prev_hash()
    } else {
        b.previous_hash@ == blocks.last().current_hash@ && b.index == blocks.last().index + 1
    }
}

fn is_genesis_prev(s: &String) -> (r: bool)
    ensures
        r == (s@ == genesis_prev_hash()),
{
    let zero = String::from_str("0");
    proof {
        reveal_strlit("0");
        assert(zero@ =~= genesis_prev_hash());
    }
    *s == zero
}

/// An append-only sequence of mined blocks, each committing to its
/// predecessor's digest.
#[derive(Debug)]
pub struct Chain {
    pub blocks: Vec<Block>,
}

impl Chain {
    /// Well-formedness: every block is mined, the genesis block carries
    /// index 0 and the sentinel previous-hash, and every non-genesis block
    /// points at its predecessor's digest with the index advanced by one.
    pub open spec fn wf(&self) -> bool {
        &&& forall|i: int|
            0 <= i < self.blocks@.len() ==> (#[trigger] self.blocks@[i]).is_mined()
        &&& forall|i: int|
            1 <= i < self.blocks@.len() ==> (#[trigger] self.blocks@[i]).previous_hash@
                == self.blocks@[i - 1].current_hash@ && self.blocks@[i].index == self.blocks@[i
                - 1].index + 1
        &&& self.blocks@.len() > 0 ==> self.blocks@[0].index == 0 && self.blocks@[0].previous_hash@
            == genesis_prev_hash()
    }

    pub fn new() -> (r: Self)
        ensures
            r.wf(),
            r.blocks@.len() == 0,
    {
        Chain { blocks: Vec::new() }
    }

    pub fn len(&self) -> (r: usize)
        ensures
            r == self.blocks@.len(),
    {
        self.blocks.len()
    }

    /// The most recently appended block, absent for an empty chain.
    pub fn tip(&self) -> (r: Option<&Block>)
        ensures
            match r {
                Some(b) => self.blocks@.len() > 0 && *b == self.blocks@.last(),
                None => self.blocks@.len() == 0,
            },
    {
        let n = self.blocks.len();
        if n == 0 {
            None
        } else {
            Some(&self.blocks[n - 1])
        }
    }

    /// Accepts a mined block only after checking the hash-chain linkage
    /// against the current tip (or the genesis conditions).
    pub fn append(&mut self, block: Block) -> (r: Result<(), ChainError>)
        requires
            old(self).wf(),
            block.is_mined(),
        ensures
            final(self).wf(),
            match r {
                Ok(()) => links_ok(old(self).blocks@, block) && final(self).blocks@ == old(
                    self,
                ).blocks@.push(block),
                Err(e) => e == ChainError::ChainLinkageMismatch && !links_ok(
                    old(self).blocks@,
                    block,
                ) && *final(self) == *old(self),
            },
    {
        let n = self.blocks.len();
        let ok: bool;
        if n == 0 {
            ok = block.index == 0 && is_genesis_prev(&block.previous_hash);
        } else {
            let tip = &self.blocks[n - 1];
            let index_ok = block.index as u64 == tip.index as u64 + 1;
            let hash_ok = block.previous_hash == tip.current_hash;
            ok = index_ok && hash_ok;
        }
        if ok {
            let ghost old_blocks = self.blocks@;
            self.blocks.push(block);
            proof {
                let bs = self.blocks@;
                assert(bs == old_blocks.push(block));
                assert forall|i: int| 0 <= i < bs.len() implies (#[trigger] bs[i]).is_mined() by {
                    if i < old_blocks.len() {
                        assert(old_blocks[i].is_mined());
                    } else {
                        assert(bs[i] == block);
                    }
                }
                assert forall|i: int|
                    1 <= i < bs.len() implies (#[trigger] bs[i]).previous_hash@ == bs[i
                    - 1].current_hash@ && bs[i].index == bs[i - 1].index + 1 by {
                    if i < old_blocks.len() {
                        assert(old_blocks[i].previous_hash@ == old_blocks[i - 1].current_hash@);
                    } else {
                        assert(bs[i] == block);
                        assert(bs[i - 1] == old_blocks.last());
                    }
                }
            }
            Ok(())
        } else {
            Err(ChainError::ChainLinkageMismatch)
        }
    }
}

/// In a well-formed chain every non-genesis block's previous-hash equals
/// its predecessor's digest, and indices increase by exactly one.
pub proof fn lemma_chain_linkage(c: Chain, i: int)
    requires
        c.wf(),
        1 <= i < c.blocks@.len(),
    ensures
        c.blocks@[i].previous_hash@ == c.blocks@[i - 1].current_hash@,
        c.blocks@[i].index == c.blocks@[i - 1].index + 1,
{
}

} // verus!
