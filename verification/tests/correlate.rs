use mev_indexer::indexer::correlate::{
    keys_match, magnitude_of, swap_leg_for, BalanceCorrelator, CorrelationKey, SwapLeg,
};
use mev_indexer::indexer::types::{
    Transaction, TransactionMessage, TransactionMeta, WebhookTransactionPayload,
};

fn payload(slot: i32) -> WebhookTransactionPayload {
    WebhookTransactionPayload {
        slot,
        block_time: 100,
        index_within_block: 0,
        meta: TransactionMeta {
            pre_balances: vec![],
            post_balances: vec![],
            pre_token_balances: vec![],
            post_token_balances: vec![],
        },
        transaction: Transaction {
            message: TransactionMessage {
                account_keys: vec![],
                instructions: vec![],
                recent_blockhash: String::new(),
            },
            signatures: vec![],
        },
    }
}

fn key(owner: &str, mint: &str, block_time: i64, magnitude: i128) -> CorrelationKey {
    CorrelationKey { owner: owner.to_owned(), mint: mint.to_owned(), block_time, magnitude }
}

#[test]
fn matching_keys_complete_a_pair() {
    let mut correlator = BalanceCorrelator::new();
    assert!(correlator.observe(key("w", "m", 5, 10), payload(1)).is_none());
    let vector = correlator.observe(key("w", "m", 5, 10), payload(2)).unwrap();
    assert_eq!(vector.frontrun_tx.slot, 1);
    assert_eq!(vector.backrun_tx.slot, 2);
    // the pair is cleared: a third observation starts over
    assert!(correlator.observe(key("w", "m", 5, 10), payload(3)).is_none());
}

#[test]
fn differing_keys_stay_buffered() {
    let mut correlator = BalanceCorrelator::new();
    assert!(correlator.observe(key("w", "m", 5, 10), payload(1)).is_none());
    assert!(correlator.observe(key("w", "m", 5, 11), payload(2)).is_none());
    assert!(correlator.observe(key("w", "n", 5, 10), payload(3)).is_none());
    assert!(correlator.observe(key("v", "m", 5, 10), payload(4)).is_none());
    assert!(correlator.observe(key("w", "m", 6, 10), payload(5)).is_none());
    // the original key still pairs with its first-seen leg
    let vector = correlator.observe(key("w", "m", 5, 10), payload(6)).unwrap();
    assert_eq!(vector.frontrun_tx.slot, 1);
}

#[test]
fn key_comparison_is_componentwise() {
    assert!(keys_match(&key("w", "m", 5, 10), &key("w", "m", 5, 10)));
    assert!(!keys_match(&key("w", "m", 5, 10), &key("w", "m", 5, 9)));
    assert!(!keys_match(&key("w", "m", 5, 10), &key("w", "x", 5, 10)));
}

#[test]
fn magnitude_is_the_absolute_difference() {
    assert_eq!(magnitude_of(10, 4), 6);
    assert_eq!(magnitude_of(4, 10), 6);
    assert_eq!(magnitude_of(7, 7), 0);
    assert_eq!(magnitude_of(i64::MIN, i64::MAX), (i64::MAX as i128) - (i64::MIN as i128));
}

#[test]
fn sol_direction_picks_the_meaningful_leg() {
    // SOL paid in: inspect the destination token account
    assert_eq!(swap_leg_for(100, 40), Some(SwapLeg::Destination));
    // SOL received: inspect the source token account
    assert_eq!(swap_leg_for(40, 100), Some(SwapLeg::Source));
    assert_eq!(swap_leg_for(50, 50), None);
}
