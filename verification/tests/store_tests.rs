use sigindex::store::{SignatureIndex, StoreOutcome};
use sigindex::types::SignatureRecord;

fn rec(chain: &str, hash: &str, r: Vec<u8>, s: Vec<u8>, v: u64) -> SignatureRecord {
    SignatureRecord {
        chain: chain.to_string(),
        tx_hash: hash.to_string(),
        address: "0xaddr".to_string(),
        r,
        s,
        v,
    }
}

#[test]
fn empty_batch_is_a_noop() {
    let mut idx = SignatureIndex::new();
    let outcomes = idx.store_batch(&vec![]);
    assert!(outcomes.is_empty());
    assert_eq!(idx.len(), 0);
}

#[test]
fn distinct_records_are_stored() {
    let mut idx = SignatureIndex::new();
    let outcomes = idx.store_batch(&vec![
        rec("ethereum", "0xaaa", vec![1; 32], vec![2; 32], 27),
        rec("ethereum", "0xbbb", vec![3; 32], vec![4; 32], 28),
    ]);
    assert_eq!(outcomes.len(), 2);
    assert!(matches!(outcomes[0], StoreOutcome::Stored));
    assert!(matches!(outcomes[1], StoreOutcome::Stored));
    assert_eq!(idx.len(), 2);
}

#[test]
fn duplicate_key_reports_first_hash_and_adds_no_row() {
    let mut idx = SignatureIndex::new();
    idx.store_batch(&vec![rec("ethereum", "0xfirst", vec![1; 32], vec![2; 32], 27)]);
    let outcomes = idx.store_batch(&vec![rec(
        "ethereum",
        "0xsecond",
        vec![1; 32],
        vec![2; 32],
        27,
    )]);
    assert_eq!(outcomes.len(), 1);
    match &outcomes[0] {
        StoreOutcome::Collision { existing_hash } => assert_eq!(existing_hash, "0xfirst"),
        StoreOutcome::Stored => panic!("duplicate was stored as a new row"),
    }
    assert_eq!(idx.len(), 1);
}

#[test]
fn duplicate_within_one_batch_collides_with_the_first() {
    let mut idx = SignatureIndex::new();
    let outcomes = idx.store_batch(&vec![
        rec("base", "0xone", vec![5; 32], vec![6; 32], 27),
        rec("base", "0xtwo", vec![5; 32], vec![6; 32], 27),
    ]);
    assert!(matches!(outcomes[0], StoreOutcome::Stored));
    match &outcomes[1] {
        StoreOutcome::Collision { existing_hash } => assert_eq!(existing_hash, "0xone"),
        StoreOutcome::Stored => panic!("duplicate was stored as a new row"),
    }
    assert_eq!(idx.len(), 1);
}

#[test]
fn same_signature_on_another_chain_is_a_new_row() {
    let mut idx = SignatureIndex::new();
    idx.store_batch(&vec![rec("ethereum", "0xaaa", vec![1; 32], vec![2; 32], 27)]);
    let outcomes = idx.store_batch(&vec![rec("base", "0xbbb", vec![1; 32], vec![2; 32], 27)]);
    assert!(matches!(outcomes[0], StoreOutcome::Stored));
    assert_eq!(idx.len(), 2);
}

#[test]
fn lookup_finds_exact_signature() {
    let mut idx = SignatureIndex::new();
    idx.store_batch(&vec![
        rec("ethereum", "0xaaa", vec![1; 32], vec![2; 32], 27),
        rec("base", "0xbbb", vec![3; 32], vec![4; 32], 28),
    ]);
    let hit = idx.lookup(&[3; 32], &[4; 32], 28).expect("row should exist");
    assert_eq!(hit.chain, "base");
    assert_eq!(hit.tx_hash, "0xbbb");
    assert_eq!(hit.address, "0xaddr");
    assert!(idx.lookup(&[3; 32], &[4; 32], 27).is_none());
    assert!(idx.lookup(&[9; 32], &[4; 32], 28).is_none());
}
