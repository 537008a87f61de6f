use mev_indexer::indexer::buffer::TransactionBuffer;
use mev_indexer::indexer::types::{
    Transaction, TransactionMessage, TransactionMeta, WebhookTransactionPayload,
};

fn payload(block_time: i64, index_within_block: i32) -> WebhookTransactionPayload {
    WebhookTransactionPayload {
        slot: 1,
        block_time,
        index_within_block,
        meta: TransactionMeta {
            pre_balances: vec![],
            post_balances: vec![],
            pre_token_balances: vec![],
            post_token_balances: vec![],
        },
        transaction: Transaction {
            message: TransactionMessage {
                account_keys: vec![],
                instructions: vec![],
                recent_blockhash: String::new(),
            },
            signatures: vec![],
        },
    }
}

#[test]
fn drain_on_empty_queue_is_not_an_error() {
    let mut buffer = TransactionBuffer::new();
    assert!(buffer.drain_next().is_none());
    buffer.ingest(vec![payload(5, 0)]);
    // ingested but not marked ready: still nothing to drain
    assert!(buffer.drain_next().is_none());
}

#[test]
fn separate_ingests_of_distinct_keys_lose_nothing() {
    // one transaction per call, distinct block times: each batch holds
    // exactly its own transaction afterwards
    let mut buffer = TransactionBuffer::new();
    buffer.ingest(vec![payload(1, 0)]);
    buffer.ingest(vec![payload(2, 0)]);
    buffer.ingest(vec![payload(3, 0)]);
    for key in [1i64, 2, 3] {
        assert!(buffer.mark_ready(key));
    }
    for key in [1i64, 2, 3] {
        let (drained_key, batch) = buffer.drain_next().unwrap();
        assert_eq!(drained_key, key);
        assert_eq!(batch.len(), 1);
        assert_eq!(batch[0].block_time, key);
    }
    assert!(buffer.drain_next().is_none());
}

#[test]
fn same_key_in_two_calls_holds_both_in_order() {
    // two transactions with one block time ingested by two calls: the
    // batch holds both, in arrival order, total count two
    let mut buffer = TransactionBuffer::new();
    buffer.ingest(vec![payload(9, 0)]);
    buffer.ingest(vec![payload(9, 1)]);
    assert!(buffer.mark_ready(9));
    let (key, batch) = buffer.drain_next().unwrap();
    assert_eq!(key, 9);
    assert_eq!(batch.len(), 2);
    assert_eq!(batch[0].index_within_block, 0);
    assert_eq!(batch[1].index_within_block, 1);
}

#[test]
fn one_call_splits_a_batch_by_block_time() {
    let mut buffer = TransactionBuffer::new();
    buffer.ingest(vec![payload(1, 0), payload(2, 0), payload(1, 1)]);
    assert!(buffer.mark_ready(1));
    assert!(buffer.mark_ready(2));
    let (key, batch) = buffer.drain_next().unwrap();
    assert_eq!(key, 1);
    assert_eq!(batch.len(), 2);
    assert_eq!(batch[0].index_within_block, 0);
    assert_eq!(batch[1].index_within_block, 1);
    let (key, batch) = buffer.drain_next().unwrap();
    assert_eq!(key, 2);
    assert_eq!(batch.len(), 1);
}

#[test]
fn ready_queue_holds_a_key_at_most_once() {
    let mut buffer = TransactionBuffer::new();
    buffer.ingest(vec![payload(4, 0)]);
    assert!(buffer.mark_ready(4));
    assert!(!buffer.mark_ready(4));
    // unknown key is never queued
    assert!(!buffer.mark_ready(5));
    assert!(buffer.drain_next().is_some());
    assert!(buffer.drain_next().is_none());
}

#[test]
fn late_ingest_joins_a_ready_batch_before_drain() {
    let mut buffer = TransactionBuffer::new();
    buffer.ingest(vec![payload(7, 0)]);
    assert!(buffer.mark_ready(7));
    buffer.ingest(vec![payload(7, 1)]);
    let (_, batch) = buffer.drain_next().unwrap();
    assert_eq!(batch.len(), 2);
}
