use bca_protocol::block::CBCABlock;
use bca_protocol::block::CBCABlockType;
use bca_protocol::fchain::CBCAChain;
use bca_protocol::fchain::CBCAConfig;
use bca_protocol::payload::MPayload;
use bca_protocol::utils::hash_now;

fn message_block(content: &str, timestamp: i64) -> CBCABlock {
    CBCABlock::spawn(
        CBCABlockType::MESSAGE(MPayload {
            content: content.to_string(),
            author: "alice".to_string(),
            instance_id: "inst".to_string(),
        }),
        timestamp,
        None,
    )
}

#[test]
fn chain_linkage_over_pushes() {
    let mut chain = CBCAChain::spawn("inst".to_string());
    for k in 0..4i64 {
        let content = format!("m{}", k);
        chain.push(message_block(&content, 100 + k)).unwrap();
    }
    assert_eq!(chain.len(), 4);
    assert_eq!(chain.chain[0].previous_hash, None);
    for k in 1..4usize {
        assert!(chain.chain[k].previous_hash.is_some());
        assert_eq!(chain.chain[k].previous_hash, chain.chain[k - 1].hash);
    }
}

#[test]
fn push_returns_new_block_hash() {
    let mut chain = CBCAChain::spawn("inst".to_string());
    let h = chain.push(message_block("hi", 7)).unwrap();
    assert_eq!(chain.get_last_hash(), Some(h));
}

#[test]
fn hash_determinism() {
    let mut a = message_block("same", 12345);
    let mut b = message_block("same", 12345);
    let ha = a.hash_block().unwrap();
    let hb = b.hash_block().unwrap();
    assert_eq!(ha, hb);
    // and sealing is idempotent over the sealed fields: the digest covers
    // the block with its own hash field empty
    let mut c = a;
    let hc = c.hash_block().unwrap();
    assert_eq!(ha, hc);
}

#[test]
fn different_content_different_digest() {
    let mut a = message_block("one", 12345);
    let mut b = message_block("two", 12345);
    assert_ne!(a.hash_block().unwrap(), b.hash_block().unwrap());
}

#[test]
fn verify_accepts_pushed_chain() {
    let mut chain = CBCAChain::spawn("inst".to_string());
    chain.push(message_block("a", 1)).unwrap();
    chain.push(message_block("b", 2)).unwrap();
    assert!(chain.verify());
}

#[test]
fn verify_requires_rolling_digest() {
    // a never-pushed ledger stores no digest yet, so verification fails
    let chain = CBCAChain::spawn("inst".to_string());
    assert!(!chain.verify());
}

#[test]
fn verify_detects_tampering() {
    let mut chain = CBCAChain::spawn("inst".to_string());
    chain.push(message_block("a", 1)).unwrap();
    chain.push(message_block("b", 2)).unwrap();
    assert!(chain.verify());
    chain.chain[0].timestamp += 1;
    assert!(!chain.verify());
}

#[test]
fn verify_detects_broken_linkage() {
    let mut chain = CBCAChain::spawn("inst".to_string());
    chain.push(message_block("a", 1)).unwrap();
    chain.push(message_block("b", 2)).unwrap();
    chain.chain[1].previous_hash = None;
    assert!(!chain.verify());
}

#[test]
fn hash_now_matches_known_digest() {
    assert_eq!(
        hash_now("abc".to_string()),
        "BA7816BF8F01CFEA414140DE5DAE2223B00361A396177A9CB410FF61F20015AD"
    );
    assert_eq!(hash_now("abc".to_string()).len(), 64);
}

#[test]
fn config_spawn_seals_integrity_tag() {
    let config = CBCAConfig::spawn(
        Some(10),
        false,
        Some(5000),
        30,
        "a fine painting".to_string(),
        "auction one".to_string(),
        "EUR".to_string(),
    )
    .unwrap();
    let tag = config.hash.clone().unwrap();
    assert_eq!(tag.len(), 64);
    // the tag is over the configuration with the tag itself absent
    let mut bare = config;
    bare.hash = None;
    let text = bca_protocol::encoding::config_to_text(&bare);
    assert_eq!(tag, hash_now(text));
}

#[test]
fn get_instance_id_by_payload_kind() {
    let b = message_block("x", 1);
    assert_eq!(b.get_instance_id(), Some("inst".to_string()));
}
