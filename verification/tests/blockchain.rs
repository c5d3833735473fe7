use blockchain_with_merkle::block::{Block, MineError, DIFFICULTY};
use blockchain_with_merkle::chain::{Chain, ChainError};
use blockchain_with_merkle::digits::u64_to_string;
use blockchain_with_merkle::merkle::{MerkleNode, MerkleTree};
use sha2::{Digest, Sha256};

fn sha_hex(s: &str) -> String {
    let mut hasher = Sha256::new();
    hasher.update(s.as_bytes());
    format!("{:x}", hasher.finalize())
}

fn preimage(block: &Block) -> String {
    let root = match &block.merkle_tree.root() {
        Some(digest) => digest.clone(),
        None => String::new(),
    };
    format!(
        "{} {} {} {} {}",
        block.index, block.timestamp, root, block.previous_hash, block.nonce
    )
}

#[test]
fn empty_transactions_have_no_root() {
    let tree = MerkleTree::new(vec![]);
    assert!(tree.root().is_none());
}

#[test]
fn single_transaction_root_is_leaf_hash() {
    let tree = MerkleTree::new(vec!["t"]);
    assert_eq!(tree.root().unwrap(), sha_hex("t"));
}

#[test]
fn empty_string_transaction_is_legal() {
    let tree = MerkleTree::new(vec![""]);
    assert_eq!(tree.root().unwrap(), sha_hex(""));
}

#[test]
fn two_transaction_root_uses_lifo_pairing() {
    let tree = MerkleTree::new(vec!["a", "b"]);
    let expected = sha_hex(&format!("{}{}", sha_hex("b"), sha_hex("a")));
    assert_eq!(tree.root().unwrap(), expected);
}

#[test]
fn duplicate_transactions_are_legal() {
    let tree = MerkleTree::new(vec!["x", "x"]);
    let expected = sha_hex(&format!("{}{}", sha_hex("x"), sha_hex("x")));
    assert_eq!(tree.root().unwrap(), expected);
}

#[test]
fn three_transaction_root_follows_lifo_trace() {
    let tree = MerkleTree::new(vec!["a", "b", "c"]);
    let d1 = sha_hex(&format!("{}{}", sha_hex("c"), sha_hex("b")));
    let d2 = sha_hex(&format!("{}{}", sha_hex("a"), sha_hex("a")));
    let expected = sha_hex(&format!("{}{}", d2, d1));
    assert_eq!(tree.root().unwrap(), expected);
}

#[test]
fn root_digest_is_deterministic() {
    let first = MerkleTree::new(vec!["pay alice", "pay bob", "pay carol"]);
    let second = MerkleTree::new(vec!["pay alice", "pay bob", "pay carol"]);
    assert_eq!(first.root().unwrap(), second.root().unwrap());
}

#[test]
fn merkle_node_new_keeps_data() {
    let node = MerkleNode::new("abc");
    assert_eq!(node.data, "abc");
    assert!(node.left.is_none());
    assert!(node.right.is_none());
}

#[test]
fn merkle_node_leaf_hashes_data() {
    let node = MerkleNode::leaf("abc");
    assert_eq!(node.data, sha_hex("abc"));
}

#[test]
fn merkle_node_combine_hashes_concatenation() {
    let left = MerkleNode::leaf("l");
    let right = MerkleNode::leaf("r");
    let parent = MerkleNode::combine(&left, &right);
    assert_eq!(
        parent.data,
        sha_hex(&format!("{}{}", sha_hex("l"), sha_hex("r")))
    );
    assert_eq!(parent.left.unwrap().data, left.data);
    assert_eq!(parent.right.unwrap().data, right.data);
}

#[test]
fn u64_rendering_is_decimal() {
    assert_eq!(u64_to_string(0), "0");
    assert_eq!(u64_to_string(7), "7");
    assert_eq!(u64_to_string(105), "105");
    assert_eq!(u64_to_string(1234567890), "1234567890");
    assert_eq!(u64_to_string(u64::MAX), "18446744073709551615");
}

#[test]
fn mined_block_hash_meets_difficulty() {
    let block = Block::new_block(3, 1111, vec!["m", "n"], sha_hex("tip")).unwrap();
    let prefix: String = block.current_hash.chars().take(DIFFICULTY).collect();
    assert_eq!(prefix, "0".repeat(DIFFICULTY));
    assert_eq!(block.current_hash, sha_hex(&preimage(&block)));
}

#[test]
fn first_block_scenario() {
    let block = Block::new_block(0, 0, vec!["First Transaction"], "0".to_string()).unwrap();
    assert_eq!(
        block.merkle_tree.root().unwrap(),
        sha_hex("First Transaction")
    );
    let rehashed = sha_hex(&preimage(&block));
    assert_eq!(block.current_hash, rehashed);
    assert!(rehashed.starts_with("0000"));
}

#[test]
fn calculate_hash_matches_preimage_format() {
    let block = Block {
        index: 12,
        timestamp: 345,
        merkle_tree: MerkleTree::new(vec!["t1", "t2"]),
        current_hash: String::new(),
        previous_hash: "prev".to_string(),
        nonce: 678,
    };
    assert_eq!(block.calculate_hash(), sha_hex(&preimage(&block)));
}

#[test]
fn calculate_hash_uses_empty_root_for_no_transactions() {
    let block = Block {
        index: 1,
        timestamp: 2,
        merkle_tree: MerkleTree::new(vec![]),
        current_hash: String::new(),
        previous_hash: "p".to_string(),
        nonce: 3,
    };
    assert_eq!(block.calculate_hash(), sha_hex("1 2  p 3"));
}

#[test]
fn is_hash_valid_checks_leading_zeros() {
    let block = Block {
        index: 0,
        timestamp: 0,
        merkle_tree: MerkleTree::new(vec![]),
        current_hash: String::new(),
        previous_hash: "0".to_string(),
        nonce: 0,
    };
    assert!(block.is_hash_valid(&"0000abcd".to_string()));
    assert!(!block.is_hash_valid(&"0001abcd".to_string()));
    assert!(!block.is_hash_valid(&"a000abcd".to_string()));
}

#[test]
fn mining_with_no_attempts_is_exhausted() {
    let mut block = Block {
        index: 0,
        timestamp: 0,
        merkle_tree: MerkleTree::new(vec!["t"]),
        current_hash: String::new(),
        previous_hash: "0".to_string(),
        nonce: 0,
    };
    let result = block.mine_bounded(0);
    assert!(matches!(result, Err(MineError::MiningExhausted)));
    assert_eq!(block.current_hash, "");
}

#[test]
fn revalidating_a_mined_block_changes_nothing() {
    let block = Block::new_block(0, 42, vec!["t"], "0".to_string()).unwrap();
    let nonce_before = block.nonce;
    let hash_before = block.current_hash.clone();
    assert!(block.validate());
    assert!(block.validate());
    assert_eq!(block.nonce, nonce_before);
    assert_eq!(block.current_hash, hash_before);
}

#[test]
fn validate_rejects_a_tampered_block() {
    let mut block = Block::new_block(0, 42, vec!["t"], "0".to_string()).unwrap();
    block.nonce = block.nonce.wrapping_add(1);
    assert!(!block.validate());
}

#[test]
fn chain_links_blocks_by_hash_and_index() {
    let mut chain = Chain::new();
    let genesis = Block::new_block(0, 100, vec!["First Transaction"], "0".to_string()).unwrap();
    assert!(chain.append(genesis).is_ok());
    let tip_hash = chain.tip().unwrap().current_hash.clone();
    let second = Block::new_block(1, 101, vec!["a", "b"], tip_hash.clone()).unwrap();
    assert!(chain.append(second).is_ok());
    assert_eq!(chain.len(), 2);
    assert_eq!(chain.blocks[1].previous_hash, chain.blocks[0].current_hash);
    assert_eq!(chain.blocks[1].index, chain.blocks[0].index + 1);
    assert_eq!(chain.blocks[0].previous_hash, "0");
    assert_eq!(chain.blocks[0].index, 0);
    assert_eq!(chain.blocks[1].previous_hash, tip_hash);
}

#[test]
fn chain_rejects_linkage_mismatch() {
    let mut chain = Chain::new();
    let genesis = Block::new_block(0, 100, vec!["t"], "0".to_string()).unwrap();
    chain.append(genesis).unwrap();
    let wrong_prev = Block::new_block(1, 101, vec!["u"], sha_hex("not the tip")).unwrap();
    assert!(matches!(
        chain.append(wrong_prev),
        Err(ChainError::ChainLinkageMismatch)
    ));
    let tip_hash = chain.tip().unwrap().current_hash.clone();
    let wrong_index = Block::new_block(5, 101, vec!["u"], tip_hash).unwrap();
    assert!(matches!(
        chain.append(wrong_index),
        Err(ChainError::ChainLinkageMismatch)
    ));
    assert_eq!(chain.len(), 1);
}

#[test]
fn chain_rejects_bad_genesis() {
    let mut chain = Chain::new();
    let not_genesis = Block::new_block(1, 100, vec!["t"], "0".to_string()).unwrap();
    assert!(matches!(
        chain.append(not_genesis),
        Err(ChainError::ChainLinkageMismatch)
    ));
    let wrong_sentinel = Block::new_block(0, 100, vec!["t"], "1".to_string()).unwrap();
    assert!(matches!(
        chain.append(wrong_sentinel),
        Err(ChainError::ChainLinkageMismatch)
    ));
    assert_eq!(chain.len(), 0);
}
