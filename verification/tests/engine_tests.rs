use sigindex::cursor::initial_height;
use sigindex::engine::{ChainSession, FetchError, FetchOutcome, LoopPhase};
use sigindex::store::{SignatureIndex, StoreOutcome};
use sigindex::types::DecodedTransaction;

fn tx(r: Vec<u8>, s: Vec<u8>, hash: &str) -> DecodedTransaction {
    DecodedTransaction {
        from: "0xsender".to_string(),
        hash: hash.to_string(),
        r,
        s,
        v: 27,
    }
}

#[test]
fn end_to_end_first_block_then_not_ready() {
    // Cursor absent: the loop starts at height 1.
    let start = initial_height(None);
    assert_eq!(start, 1);
    let mut session = ChainSession::begin("ethereum".to_string(), start);
    let mut index = SignatureIndex::new();

    // Height 1 returns one non-noise transaction: stored, cursor becomes 2.
    let block = FetchOutcome::Block(vec![tx(vec![1; 32], vec![2; 32], "0xaaa")]);
    let batch = session.on_fetch(&block).expect("a block yields a batch");
    assert_eq!(batch.len(), 1);
    let outcomes = index.store_batch(&batch);
    assert!(outcomes.iter().all(|o| matches!(o, StoreOutcome::Stored)));
    let to_save = session.on_store(true);
    assert_eq!(to_save, Some(2));
    session.on_cursor_saved(true);
    assert_eq!(session.height, 2);
    assert_eq!(session.phase, LoopPhase::Polling);

    // Height 2 is not mined yet: cursor stays 2, the loop sleeps and retries.
    let batch = session.on_fetch(&FetchOutcome::NotReady);
    assert!(batch.is_none());
    assert_eq!(session.phase, LoopPhase::RetryWait);
    assert_eq!(session.height, 2);
    assert_eq!(index.len(), 1);
    session.wake();
    assert_eq!(session.phase, LoopPhase::Polling);
    assert_eq!(session.height, 2);
}

#[test]
fn end_to_end_noise_is_dropped_but_cursor_advances() {
    let mut session = ChainSession::begin("base".to_string(), 10);
    let mut index = SignatureIndex::new();
    let block = FetchOutcome::Block(vec![
        tx(vec![0x22; 32], vec![9; 32], "0xmarker"),
        tx(vec![5; 32], vec![6; 32], "0xnormal"),
    ]);
    let batch = session.on_fetch(&block).expect("a block yields a batch");
    assert_eq!(batch.len(), 1);
    assert_eq!(batch[0].tx_hash, "0xnormal");
    index.store_batch(&batch);
    assert_eq!(index.len(), 1);
    assert!(index.lookup(&[0x22; 32], &[9; 32], 27).is_none());
    let to_save = session.on_store(true);
    assert_eq!(to_save, Some(11));
    session.on_cursor_saved(true);
    assert_eq!(session.height, 11);
    assert_eq!(session.phase, LoopPhase::Polling);
}

#[test]
fn fetch_failures_retry_in_place() {
    let mut session = ChainSession::begin("ethereum".to_string(), 5);
    assert!(session
        .on_fetch(&FetchOutcome::Failed(FetchError::Transport))
        .is_none());
    assert_eq!(session.phase, LoopPhase::RetryWait);
    assert_eq!(session.height, 5);
    session.wake();
    assert!(session
        .on_fetch(&FetchOutcome::Failed(FetchError::Malformed))
        .is_none());
    assert_eq!(session.phase, LoopPhase::RetryWait);
    assert_eq!(session.height, 5);
}

#[test]
fn store_failure_keeps_the_height() {
    let mut session = ChainSession::begin("ethereum".to_string(), 5);
    let block = FetchOutcome::Block(vec![tx(vec![1; 32], vec![2; 32], "0xaaa")]);
    session.on_fetch(&block);
    let to_save = session.on_store(false);
    assert!(to_save.is_none());
    assert_eq!(session.phase, LoopPhase::RetryWait);
    assert_eq!(session.height, 5);
    session.wake();
    assert_eq!(session.height, 5);
}

#[test]
fn cursor_write_failure_stops_the_chain() {
    let mut session = ChainSession::begin("ethereum".to_string(), 5);
    let block = FetchOutcome::Block(vec![tx(vec![1; 32], vec![2; 32], "0xaaa")]);
    session.on_fetch(&block);
    session.on_store(true);
    session.on_cursor_saved(false);
    assert_eq!(session.phase, LoopPhase::Stopped);
}

#[test]
fn cancellation_is_terminal() {
    let mut session = ChainSession::begin("ethereum".to_string(), 5);
    session.observe_cancellation();
    assert_eq!(session.phase, LoopPhase::Stopped);
    assert_eq!(session.height, 5);
}

#[test]
fn successful_iterations_advance_one_by_one() {
    let mut session = ChainSession::begin("ethereum".to_string(), 100);
    let mut index = SignatureIndex::new();
    for i in 0..3u64 {
        let block = FetchOutcome::Block(vec![tx(
            vec![i as u8 + 1; 32],
            vec![2; 32],
            &format!("0xhash{}", i),
        )]);
        let batch = session.on_fetch(&block).unwrap();
        index.store_batch(&batch);
        let to_save = session.on_store(true);
        assert_eq!(to_save, Some(100 + i + 1));
        session.on_cursor_saved(true);
    }
    assert_eq!(session.height, 103);
    assert_eq!(index.len(), 3);
}

#[test]
fn reprocessing_after_crash_reports_duplicates_instead_of_skipping() {
    // A crash between "block stored" and "cursor advanced" replays the same
    // height: the records collide instead of being silently duplicated.
    let mut index = SignatureIndex::new();
    let mut session = ChainSession::begin("ethereum".to_string(), 7);
    let block = FetchOutcome::Block(vec![tx(vec![1; 32], vec![2; 32], "0xaaa")]);
    let batch = session.on_fetch(&block).unwrap();
    index.store_batch(&batch);
    // Crash here: the cursor still reads 7. A restarted loop fetches 7 again.
    let mut restarted = ChainSession::begin("ethereum".to_string(), 7);
    let batch = restarted.on_fetch(&block).unwrap();
    let outcomes = index.store_batch(&batch);
    match &outcomes[0] {
        StoreOutcome::Collision { existing_hash } => assert_eq!(existing_hash, "0xaaa"),
        StoreOutcome::Stored => panic!("replayed block stored a second row"),
    }
    assert_eq!(index.len(), 1);
    let to_save = restarted.on_store(true);
    assert_eq!(to_save, Some(8));
}
