use blockchainlib::check_difficulty;
use blockchainlib::difficulty_bytes_as_u128;
use blockchainlib::now;
use blockchainlib::Block;
use blockchainlib::Blockchain;
use blockchainlib::Hashable;

const GENESIS_DIFFICULTY: u128 = 0x0000_ffff_ffff_ffff_ffff_ffff_ffff_ffff;

fn genesis() -> Block {
    Block::new(
        0,
        0,
        vec![0; 32],
        0,
        "Genesis block!".to_owned(),
        GENESIS_DIFFICULTY,
    )
}

/// Wait until the millisecond clock ticks, so that successive blocks get
/// strictly increasing timestamps.
fn wait_for_clock_tick() {
    let t = now();
    while now() == t {}
}

#[test]
fn genesis_serialization_exact() {
    let expected: Vec<u8> = {
        let mut v = Vec::new();
        v.extend_from_slice(&[0u8; 8]); // index 0, little-endian
        v.extend_from_slice(&[0u8; 16]); // timestamp 0, little-endian
        v.extend_from_slice(&[0u8; 32]); // prev_block_hash, all zero
        v.extend_from_slice(&[0u8; 8]); // nonce 0, little-endian
        v.extend_from_slice("Genesis block!".as_bytes()); // payload
        v.extend_from_slice(&[
            0xff, 0xff, 0xff, 0xff, 0xff, 0xff, 0xff, 0xff, 0xff, 0xff, 0xff, 0xff, 0xff, 0xff,
            0x00, 0x00,
        ]); // difficulty, little-endian
        v
    };
    assert_eq!(expected.len(), 94);
    assert_eq!(genesis().bytes(), expected);
}

#[test]
fn digest_is_not_the_serialization() {
    let block = genesis();
    let bytes = block.bytes();
    let hash = block.hash();
    assert_eq!(hash.len(), 32);
    assert_ne!(hash, bytes[..32].to_vec());
    assert_ne!(hash, vec![0u8; 32]);
}

#[test]
fn equal_blocks_equal_digests() {
    let a = genesis();
    let b = genesis();
    assert_eq!(a.bytes(), b.bytes());
    assert_eq!(a.hash(), b.hash());
}

#[test]
fn single_field_change_changes_digest() {
    let a = genesis();
    let mut b = genesis();
    b.nonce = 1;
    assert_ne!(a.hash(), b.hash());
    let mut c = genesis();
    c.payload = "Genesis block?".to_owned();
    assert_ne!(a.hash(), c.hash());
}

#[test]
fn check_difficulty_threshold_and_monotonicity() {
    let hash = genesis().hash();
    let window = difficulty_bytes_as_u128(&hash);
    assert!(!check_difficulty(&hash, window));
    assert!(check_difficulty(&hash, window + 1));
    assert!(check_difficulty(&hash, u128::MAX));
    assert!(!check_difficulty(&hash, 0));
    assert!(!check_difficulty(&hash, window / 2));
}

#[test]
fn mining_is_deterministic() {
    let mut a = genesis();
    a.mine();
    assert!(check_difficulty(&a.hash, a.difficulty));
    assert_eq!(a.hash, a.hash());

    let mut b = genesis();
    b.mine();
    assert_eq!(a.nonce, b.nonce);
    assert_eq!(a.hash, b.hash);
}

#[test]
fn remining_keeps_the_nonce() {
    let mut a = genesis();
    a.mine();
    let nonce = a.nonce;
    let hash = a.hash.clone();
    a.mine();
    assert_eq!(a.nonce, nonce);
    assert_eq!(a.hash, hash);
}

#[test]
fn empty_chain_verifies() {
    let chain = Blockchain::new();
    assert!(chain.verify());
}

#[test]
fn appended_chain_verifies_and_tampering_breaks_it() {
    let mut chain = Blockchain::new();
    for i in 0..3u32 {
        wait_for_clock_tick();
        chain.add_block(format!("this number is {}", i), GENESIS_DIFFICULTY);
        assert!(chain.verify());
    }
    assert_eq!(chain.blocks.len(), 3);
    for (i, block) in chain.blocks.iter().enumerate() {
        assert_eq!(block.index, i);
        assert!(check_difficulty(&block.hash, block.difficulty));
    }
    assert_eq!(chain.blocks[0].prev_block_hash, vec![0u8; 32]);
    assert_eq!(chain.blocks[1].prev_block_hash, chain.blocks[0].hash);
    assert_eq!(chain.blocks[2].prev_block_hash, chain.blocks[1].hash);

    chain.blocks[1].payload = "tampered".to_owned();
    assert!(!chain.verify());
}

#[test]
fn replaying_the_same_inputs_rebuilds_the_same_digests() {
    let build = || {
        let mut blocks: Vec<Block> = Vec::new();
        let inputs = [("first", 42u128), ("second", 43u128), ("third", 44u128)];
        for (i, (payload, timestamp)) in inputs.iter().enumerate() {
            let prev = if i == 0 {
                vec![0u8; 32]
            } else {
                blocks[i - 1].hash.clone()
            };
            let mut b = Block::new(
                i,
                *timestamp,
                prev,
                0,
                (*payload).to_owned(),
                GENESIS_DIFFICULTY,
            );
            b.mine();
            blocks.push(b);
        }
        blocks
    };
    let first = build();
    let second = build();
    for (a, b) in first.iter().zip(second.iter()) {
        assert_eq!(a.nonce, b.nonce);
        assert_eq!(a.hash, b.hash);
    }
}

#[test]
fn empty_payload_serializes_without_it() {
    let block = Block::new(7, 9, vec![1u8; 32], 5, String::new(), 3);
    assert_eq!(block.bytes().len(), 80);
}
