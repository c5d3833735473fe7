use crate::hashing::{sha256_hex, sha256_hex_of};
use vstd::prelude::*;

verus! {

/// The digest of an internal node: the hash of the two child digests,
/// concatenated as hex strings (not decoded to bytes).
pub open spec fn combine_digest(left: Seq<char>, right: Seq<char>) -> Seq<char> {
    sha256_hex(left + right)
}

/// The leaf digests of an ordered transaction sequence, in input order.
pub open spec fn leaf_digests(transactions: Seq<Seq<char>>) -> Seq<Seq<char>> {
    transactions.map_values(|t: Seq<char>| sha256_hex(t))
}

/// One level-reduction round. Nodes are consumed two at a time from the
/// end of the level (LIFO); a lone final node is paired with itself.
pub open spec fn reduce_level(nodes: Seq<Seq<char>>) -> Seq<Seq<char>>
    decreases nodes.len(),
{
    if nodes.len() == 0 {
        Seq::empty()
    } else if nodes.len() == 1 {
        seq![combine_digest(nodes[0], nodes[0])]
    } else {
        seq![combine_digest(nodes[nodes.len() - 1], nodes[nodes.len() - 2])] + reduce_level(
            nodes.subrange(0, nodes.len() - 2),
        )
    }
}

pub proof fn lemma_reduce_level_len(nodes: Seq<Seq<char>>)
    ensures
        reduce_level(nodes).len() == (nodes.len() + 1) / 2,
    decreases nodes.len(),
{
    if nodes.len() >= 2 {
        lemma_reduce_level_len(nodes.subrange(0, nodes.len() - 2));
    }
}

/// The root digest reached by repeated level reduction from the given
/// digests at the bottom level.
pub open spec fn root_of(nodes: Seq<Seq<char>>) -> Seq<char>
    recommends
        nodes.len() >= 1,
    decreases nodes.len(),
{
    if nodes.len() == 0 {
        Seq::empty()
    } else if nodes.len() == 1 {
        nodes[0]
    } else {
        proof {
            lemma_reduce_level_len(nodes);
        }
        root_of(reduce_level(nodes))
    }
}

/// The Merkle root committed to by a non-empty ordered transaction sequence.
pub open spec fn merkle_root_spec(transactions: Seq<Seq<char>>) -> Seq<char>
    recommends
        transactions.len() >= 1,
{
    root_of(leaf_digests(transactions))
}

/// A node of the hash tree; `data` is a hex digest (for a leaf, of one
/// transaction; for an internal node, of the two child digests).
#[derive(Debug)]
pub struct MerkleNode {
    pub left: Option<Box<MerkleNode>>,
    pub right: Option<Box<MerkleNode>>,
    pub data: String,
}

impl Clone for MerkleNode {
    fn clone(&self) -> (r: Self)
        ensures
            r == *self,
        decreases *self,
    {
        let left = match &self.left {
            Some(node) => Some(Box::new((**node).clone())),
            None => None,
        };
        let right = match &self.right {
            Some(node) => Some(Box::new((**node).clone())),
            None => None,
        };
        MerkleNode { left, right, data: self.data.clone() }
    }
}

impl MerkleNode {
    pub fn new(data: &str) -> (r: Self)
        ensures
            r.data@ == data@,
            r.left is None,
            r.right is None,
    {
        MerkleNode { left: None, right: None, data: data.to_owned() }
    }

    pub fn leaf(data: &str) -> (r: Self)
        ensures
            r.data@ == sha256_hex(data@),
            r.left is None,
            r.right is None,
    {
        let hashed_data = sha256_hex_of(data);
        MerkleNode { left: None, right: None, data: hashed_data }
    }

    pub fn combine(left: &MerkleNode, right: &MerkleNode) -> (r: Self)
        ensures
            r.data@ == combine_digest(left.data@, right.data@),
            (r.left matches Some(node) && *node == *left),
            (r.right matches Some(node) && *node == *right),
    {
        let combined_data = String::from_str(left.data.as_str()).concat(right.data.as_str());
        let data = sha256_hex_of(combined_data.as_str());
        MerkleNode {
            left: Some(Box::new(left.clone())),
            right: Some(Box::new(right.clone())),
            data,
        }
    }
}

/// The digests carried by a sequence of nodes.
pub open spec fn digests_of(nodes: Seq<MerkleNode>) -> Seq<Seq<char>> {
    nodes.map_values(|n: MerkleNode| n.data@)
}

#[derive(Debug)]
pub struct MerkleTree {
    pub root: Option<MerkleNode>,
}

impl MerkleTree {
    /// The root digest, absent only for a tree of zero transactions.
    pub open spec fn spec_root(&self) -> Option<Seq<char>> {
        match self.root {
            Some(node) => Some(node.data@),
            None => None,
        }
    }

    pub fn new(transactions: Vec<&str>) -> (r: Self)
        ensures
            transactions@.len() == 0 ==> r.spec_root() is None,
            transactions@.len() > 0 ==> r.spec_root() == Some(
                merkle_root_spec(transactions@.map_values(|t: &str| t@)),
            ),
    {
        let ghost tsv = transactions@.map_values(|t: &str| t@);
        let mut nodes: Vec<MerkleNode> = Vec::new();
        let mut i: usize = 0;
        while i < transactions.len()
            invariant
                i <= transactions@.len(),
                nodes@.len() == i,
                digests_of(nodes@) == leaf_digests(tsv).subrange(0, i as int),
                tsv == transactions@.map_values(|t: &str| t@),
            decreases transactions@.len() - i,
        {
            let node = MerkleNode::leaf(transactions[i]);
            nodes.push(node);
            proof {
                assert(digests_of(nodes@) =~= leaf_digests(tsv).subrange(0, i + 1 as int));
            }
            i += 1;
        }
        proof {
            assert(digests_of(nodes@) =~= leaf_digests(tsv));
        }
        while nodes.len() > 1
            invariant
                tsv.len() == 0 ==> nodes@.len() == 0,
                tsv.len() > 0 ==> nodes@.len() > 0 && root_of(digests_of(nodes@))
                    == merkle_root_spec(tsv),
            decreases nodes@.len(),
        {
            let ghost level = digests_of(nodes@);
            let mut new_level: Vec<MerkleNode> = Vec::new();
            while nodes.len() > 0
                invariant
                    digests_of(new_level@) + reduce_level(digests_of(nodes@)) == reduce_level(
                        level,
                    ),
                decreases nodes@.len(),
            {
                let ghost cur = digests_of(nodes@);
                let ghost built = digests_of(new_level@);
                let left_node = nodes.pop().unwrap();
                proof {
                    assert(left_node.data@ == cur[cur.len() - 1]);
                }
                if nodes.len() > 0 {
                    let right_node = nodes.pop().unwrap();
                    new_level.push(MerkleNode::combine(&left_node, &right_node));
                    proof {
                        assert(right_node.data@ == cur[cur.len() - 2]);
                        assert(digests_of(nodes@) =~= cur.subrange(0, cur.len() - 2));
                        assert(digests_of(new_level@) =~= built + seq![
                            combine_digest(cur[cur.len() - 1], cur[cur.len() - 2]),
                        ]);
                        assert(digests_of(new_level@) + reduce_level(digests_of(nodes@))
                            =~= built + reduce_level(cur));
                    }
                } else {
                    new_level.push(MerkleNode::combine(&left_node, &left_node));
                    proof {
                        assert(cur.len() == 1);
                        assert(digests_of(nodes@) =~= Seq::<Seq<char>>::empty());
                        assert(reduce_level(cur) == seq![combine_digest(cur[0], cur[0])]);
                        assert(digests_of(new_level@) =~= built + seq![
                            combine_digest(cur[0], cur[0]),
                        ]);
                        assert(digests_of(new_level@) + reduce_level(digests_of(nodes@))
                            =~= built + reduce_level(cur));
                    }
                }
            }
            proof {
                assert(digests_of(nodes@) =~= Seq::<Seq<char>>::empty());
                assert(digests_of(new_level@) + reduce_level(digests_of(nodes@))
                    =~= digests_of(new_level@));
                assert(digests_of(new_level@) == reduce_level(level));
                lemma_reduce_level_len(level);
            }
            nodes = new_level;
        }
        proof {
            if tsv.len() > 0 {
                assert(nodes@.len() == 1);
                assert(root_of(digests_of(nodes@)) == digests_of(nodes@)[0]);
                assert(digests_of(nodes@)[0] == nodes@[0].data@);
            }
        }
        let root = nodes.pop();
        MerkleTree { root }
    }

    pub fn root(&self) -> (r: Option<String>)
        ensures
            match r {
                Some(digest) => self.spec_root() == Some(digest@),
                None => self.spec_root() is None,
            },
    {
        match &self.root {
            Some(node) => Some(node.data.clone()),
            None => None,
        }
    }
}

/// Building a Merkle tree is deterministic: two builds from the same
/// ordered transaction sequence commit to the same root digest.
pub proof fn lemma_root_digest_deterministic(ts1: Seq<Seq<char>>, ts2: Seq<Seq<char>>)
    requires
        ts1.len() >= 1,
        ts1 == ts2,
    ensures
        merkle_root_spec(ts1) == merkle_root_spec(ts2),
{
}

/// For a single transaction the root digest is the transaction's own hash.
pub proof fn lemma_single_transaction_root(t: Seq<char>)
    ensures
        merkle_root_spec(seq![t]) == sha256_hex(t),
{
    assert(leaf_digests(seq![t]) =~= seq![sha256_hex(t)]);
    assert(root_of(seq![sha256_hex(t)]) == sha256_hex(t));
}

/// For two transactions `[a, b]` the pairing pops `b` first (left) and
/// `a` second (right): the root is the hash of `H(b) ++ H(a)`.
pub proof fn lemma_two_transaction_root(a: Seq<char>, b: Seq<char>)
    ensures
        merkle_root_spec(seq![a, b]) == sha256_hex(sha256_hex(b) + sha256_hex(a)),
{
    let ld = leaf_digests(seq![a, b]);
    assert(ld =~= seq![sha256_hex(a), sha256_hex(b)]);
    let reduced = reduce_level(ld);
    assert(ld.subrange(0, 0) =~= Seq::<Seq<char>>::empty());
    assert(reduce_level(ld.subrange(0, 0)) =~= Seq::<Seq<char>>::empty());
    assert(reduced =~= seq![combine_digest(sha256_hex(b), sha256_hex(a))]);
    assert(root_of(ld) == root_of(reduced));
    assert(root_of(reduced) == combine_digest(sha256_hex(b), sha256_hex(a)));
}

/// For three transactions `[a, b, c]` the first round pops `c` (left) and
/// `b` (right) into `d1 = H(H(c) ++ H(b))`, then pairs the lone `a`-leaf
/// with itself into `d2 = H(H(a) ++ H(a))`; the second round pops `d2`
/// (left) and `d1` (right), so the root is `H(d2 ++ d1)`.
pub proof fn lemma_three_transaction_root(a: Seq<char>, b: Seq<char>, c: Seq<char>)
    ensures
        merkle_root_spec(seq![a, b, c]) == sha256_hex(
            sha256_hex(sha256_hex(a) + sha256_hex(a)) + sha256_hex(
                sha256_hex(c) + sha256_hex(b),
            ),
        ),
{
    let d1 = combine_digest(sha256_hex(c), sha256_hex(b));
    let d2 = combine_digest(sha256_hex(a), sha256_hex(a));
    let ld = leaf_digests(seq![a, b, c]);
    assert(ld =~= seq![sha256_hex(a), sha256_hex(b), sha256_hex(c)]);
    let reduced = reduce_level(ld);
    assert(ld.subrange(0, 1) =~= seq![sha256_hex(a)]);
    assert(reduce_level(ld.subrange(0, 1)) == seq![d2]);
    assert(reduced =~= seq![d1, d2]);
    let reduced2 = reduce_level(reduced);
    assert(reduced.subrange(0, 0) =~= Seq::<Seq<char>>::empty());
    assert(reduce_level(reduced.subrange(0, 0)) =~= Seq::<Seq<char>>::empty());
    assert(reduced2 =~= seq![combine_digest(d2, d1)]);
    assert(root_of(ld) == root_of(reduced));
    assert(root_of(reduced) == root_of(reduced2));
    assert(root_of(reduced2) == combine_digest(d2, d1));
}

} // verus!
