use vstd::prelude::*;

verus! {

/// One transaction envelope as delivered by the webhook collaborator:
/// its chain position plus balance metadata and the encoded transaction.
#[derive(Debug)]
pub struct WebhookTransactionPayload {
    pub slot: i32,
    pub block_time: i64,
    pub index_within_block: i32,
    pub meta: TransactionMeta,
    pub transaction: Transaction,
}

/// Pre/post balance snapshots attached to a transaction: lamport balances
/// indexed by account position, and token balances keyed by account index.
#[derive(Debug)]
pub struct TransactionMeta {
    pub pre_balances: Vec<i64>,
    pub post_balances: Vec<i64>,
    pub pre_token_balances: Vec<TokenBalance>,
    pub post_token_balances: Vec<TokenBalance>,
}

/// The encoded transaction: its message and signature list.
#[derive(Debug)]
pub struct Transaction {
    pub message: TransactionMessage,
    pub signatures: Vec<String>,
}

/// A transaction message: flat account-key table and compiled instructions
/// whose indices point into that table.
#[derive(Debug)]
pub struct TransactionMessage {
    pub account_keys: Vec<String>,
    pub instructions: Vec<Instruction>,
    pub recent_blockhash: String,
}

/// One compiled instruction of a webhook-delivered transaction: account
/// indices, opaque data, and the program-id index into the key table.
#[derive(Debug)]
pub struct Instruction {
    pub accounts: Vec<usize>,
    pub data: String,
    pub program_id_index: usize,
}

/// One token-balance record: which account position it belongs to, the
/// mint and owner identities, the owning token program, and the amount.
#[derive(Debug)]
pub struct TokenBalance {
    pub account_index: usize,
    pub mint: String,
    pub owner: String,
    pub program_id: String,
    pub ui_token_amount: UiTokenAmount,
}

/// A token amount as delivered on the wire: textual integer plus the
/// mint's decimal count.
#[derive(Debug)]
pub struct UiTokenAmount {
    pub amount: String,
    pub decimals: u8,
}

/// An out-of-order pair of correlated transactions: the attacker's two legs
/// around a victim's swap, matched by correlation key.
#[derive(Debug)]
pub struct SandwichAttackVector {
    pub frontrun_tx: WebhookTransactionPayload,
    pub backrun_tx: WebhookTransactionPayload,
}

} // verus!
