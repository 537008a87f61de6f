use std::str::FromStr;

use mev_indexer::config::{config, init_config};
use mev_indexer::error::Error as TopError;
use mev_indexer::indexer::error::Error;
use mev_indexer::indexer::types::{
    TokenBalance, Transaction, TransactionMessage, TransactionMeta, UiTokenAmount,
    WebhookTransactionPayload,
};
use mev_indexer::indexer::utils::{
    bytes_eq, cmp_pubkey, expected_token_account, filter_target_token_data_from_tx,
};
use solana_pubkey::Pubkey;

const RAYDIUM: &str = "675kPX9MHTjS2zt1qfr1NYHuzeLXfQM9H24wFSUt1Mp8";

fn balance(account_index: usize, mint: &str, owner: &str, program_id: &str, amount: &str) -> TokenBalance {
    TokenBalance {
        account_index,
        mint: mint.to_owned(),
        owner: owner.to_owned(),
        program_id: program_id.to_owned(),
        ui_token_amount: UiTokenAmount { amount: amount.to_owned(), decimals: 6 },
    }
}

fn payload_with(pre: Vec<TokenBalance>, post: Vec<TokenBalance>) -> WebhookTransactionPayload {
    WebhookTransactionPayload {
        slot: 1,
        block_time: 1,
        index_within_block: 0,
        meta: TransactionMeta {
            pre_balances: vec![],
            post_balances: vec![],
            pre_token_balances: pre,
            post_token_balances: post,
        },
        transaction: Transaction {
            message: TransactionMessage {
                account_keys: vec![],
                instructions: vec![],
                recent_blockhash: String::new(),
            },
            signatures: vec![],
        },
    }
}

#[test]
fn derived_token_account_matches_the_chain_derivation() {
    // short seeds keep the derivation inside the seed-length limit; the
    // expected address must equal the one the address crate computes
    let record = balance(0, "m", "o", RAYDIUM, "1");
    let derived = expected_token_account(&record).unwrap();
    let program = Pubkey::from_str(RAYDIUM).unwrap();
    let (direct, _bump) = Pubkey::find_program_address(&[b"m", b"o"], &program);
    assert_eq!(derived, direct.to_bytes().to_vec());
    assert_ne!(derived, b"m".to_vec());
}

#[test]
fn unparseable_token_program_derives_nothing() {
    // '0', 'I', 'O' and 'l' are not base58 digits
    let record = balance(0, "m", "o", "0OIl not base58", "1");
    assert!(expected_token_account(&record).is_none());
}

#[test]
fn overlong_seeds_derive_nothing() {
    // a full base58 mint string is longer than the 32-byte seed limit
    let mint = "So11111111111111111111111111111111111111112";
    let record = balance(0, mint, "o", RAYDIUM, "1");
    assert!(expected_token_account(&record).is_none());
}

#[test]
fn no_matching_balance_record_fails_to_parse() {
    // the target equals the mint text itself: only an address derivation
    // that echoed its seed could ever match it
    let mint = "So11111111111111111111111111111111111111112";
    let tx = payload_with(vec![balance(0, mint, "o", RAYDIUM, "5")], vec![]);
    assert!(matches!(
        filter_target_token_data_from_tx(mint, &tx),
        Err(Error::FailedToParseInput)
    ));
}

#[test]
fn short_target_never_matches() {
    let tx = payload_with(vec![balance(0, "m", "o", RAYDIUM, "5")], vec![]);
    assert!(matches!(
        filter_target_token_data_from_tx("short", &tx),
        Err(Error::FailedToParseInput)
    ));
}

#[test]
fn empty_balances_fail_to_parse() {
    let tx = payload_with(vec![], vec![]);
    assert!(matches!(
        filter_target_token_data_from_tx("any-target-account-of-enough-length", &tx),
        Err(Error::FailedToParseInput)
    ));
}

#[test]
fn byte_comparison_is_over_the_first_32_bytes() {
    let a = vec![7u8; 40];
    let mut b = vec![7u8; 32];
    assert!(cmp_pubkey(&a, &b));
    b[31] = 8;
    assert!(!cmp_pubkey(&a, &b));
    let mut c = vec![7u8; 40];
    c[35] = 0; // beyond the compared width
    assert!(cmp_pubkey(&a, &c));
}

#[test]
fn full_byte_equality() {
    assert!(bytes_eq(&[1, 2, 3], &[1, 2, 3]));
    assert!(!bytes_eq(&[1, 2, 3], &[1, 2]));
    assert!(!bytes_eq(&[1, 2, 3], &[1, 2, 4]));
    assert!(bytes_eq(&[], &[]));
}

#[test]
fn config_reports_the_first_missing_variable() {
    match init_config(None, None, None) {
        Err(TopError::ConfigEnvMissing(name)) => assert_eq!(name, "SERVICE_HELIUS_API_KEY"),
        _ => panic!("expected a missing helius key"),
    }
    match config(Some("key".to_owned()), None, None) {
        Err(TopError::ConfigEnvMissing(name)) => assert_eq!(name, "SERVICE_DB_URL"),
        _ => panic!("expected a missing database url"),
    }
}

#[test]
fn config_carries_the_given_values() {
    let built = config(
        Some("api-key-1".to_owned()),
        Some("hook-1".to_owned()),
        Some("postgres://localhost/mev".to_owned()),
    )
    .unwrap();
    assert_eq!(built.HELIUS_API_KEY, "api-key-1");
    assert_eq!(built.WEB_FOLDER, "public");
    assert_eq!(built.WEBHOOK_ID.as_deref(), Some("hook-1"));
    assert_eq!(built.DB_URL, "postgres://localhost/mev");
}
