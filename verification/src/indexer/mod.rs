pub mod buffer;
pub mod correlate;
pub mod detector;
pub mod error;
pub mod message;
pub mod pda;
pub mod swap;
pub mod types;
pub mod utils;
pub mod watch_list;

use vstd::prelude::*;

use crate::indexer::detector::{detect_sandwich, CandidateWindow, FindingData, SandwichFinding, SwapEvent};
use crate::indexer::error::Error;
use crate::indexer::message::{
    compiled_ix_resolvable, decoded_views, spec_decompile, AccountMeta, CompiledInstruction,
    DecodedInstruction, DecodedIxData, Message, MessageData,
};
use crate::indexer::swap::{parse_swap_data, spec_parse_swap_data};
use crate::indexer::utils::{bytes_eq, clone_bytes};
use crate::indexer::watch_list::{spec_registry, TargetPool};

verus! {

/// A transaction ready for window evaluation: its decoded instructions.
pub type ProcessedTransaction = Vec<DecodedInstruction>;

/// One fetched block: its slot and its transactions in source order.
#[derive(Debug)]
pub struct Block {
    pub slot: u64,
    pub transactions: Vec<Message>,
}

/// Decode-and-detect core of the pipeline: resolves compiled instructions,
/// filters for the monitored pools, and evaluates sliding windows of three
/// consecutive pool transactions for the sandwich pattern. Fetching blocks
/// and persisting findings belong to the embedding process.
pub struct Indexer {
    pub target_pools: Vec<TargetPool>,
}

/// Index of the first instruction addressed to the pool, if any.
pub open spec fn spec_first_pool_ix(txs: Seq<DecodedIxData>, pool: Seq<u8>) -> Option<int>
    decreases txs.len(),
{
    if txs.len() == 0 {
        None
    } else if txs[0].program_id == pool {
        Some(0int)
    } else {
        match spec_first_pool_ix(txs.drop_first(), pool) {
            None => None,
            Some(i) => Some(i + 1),
        }
    }
}

/// Mathematical value of a swap extraction: the source wallet and the two
/// magnitudes, both in unsigned 64-bit range.
#[verifier::ext_equal]
pub struct SwapData {
    pub source: Seq<u8>,
    pub amount_in: int,
    pub amount_out: int,
}

/// Value of extracting a swap event from a transaction's decoded
/// instructions: the first instruction addressed to the pool is parsed
/// against the pool's discriminator, and the swap's source is the last
/// account role attached to that instruction.
pub open spec fn spec_get_swap_data(txs: Seq<DecodedIxData>, pool: Seq<u8>, disc: u8) -> Result<
    SwapData,
    Error,
> {
    match spec_first_pool_ix(txs, pool) {
        None => Err(Error::NoMatchingInstruction),
        Some(i) => match spec_parse_swap_data(txs[i].data, disc) {
            Err(e) => Err(e),
            Ok(amts) => if txs[i].accounts.len() == 0 {
                Err(Error::MissingSourceAccount)
            } else {
                Ok(
                    SwapData {
                        source: txs[i].accounts.last().pubkey,
                        amount_in: amts.0 as int,
                        amount_out: amts.1 as int,
                    },
                )
            },
        },
    }
}

/// Whether the program identity belongs to one of the monitored pools.
pub open spec fn spec_in_watch_list(pools: Seq<TargetPool>, program_id: Seq<u8>) -> bool {
    exists|p: int| 0 <= p < pools.len() && #[trigger] pools[p].address@ == program_id
}

/// Every instruction of the message resolves against its account-key table.
pub open spec fn spec_message_resolvable(m: MessageData) -> bool {
    forall|k: int| 0 <= k < m.instructions.len() ==> compiled_ix_resolvable(
        #[trigger] m.instructions[k],
        m,
    )
}

/// The decoded form of all of a message's instructions, in order.
pub open spec fn spec_decompiled_all(m: MessageData) -> Seq<DecodedIxData> {
    Seq::new(m.instructions.len(), |k: int| spec_decompile(m.instructions[k], m))
}

/// Value of filtering one transaction: all instructions must resolve
/// (first failure wins with the numerical-overflow condition), and at
/// least one decoded instruction must be addressed to a monitored pool,
/// else the transaction is not from the target pools.
pub open spec fn spec_filter_transaction(m: MessageData, pools: Seq<TargetPool>) -> Result<
    Seq<DecodedIxData>,
    Error,
> {
    if !spec_message_resolvable(m) {
        Err(Error::NumericalOverflow)
    } else {
        let ds = spec_decompiled_all(m);
        if exists|k: int| 0 <= k < ds.len() && spec_in_watch_list(pools, #[trigger] ds[k].program_id) {
            Ok(ds)
        } else {
            Err(Error::TransactionNotFromTargetPools)
        }
    }
}

/// Value of evaluating one candidate window against a pool: extraction of
/// the three legs (first failure wins), then the sandwich decision of
/// [`detect_sandwich`].
pub open spec fn spec_check_mev(
    t0: Seq<DecodedIxData>,
    t1: Seq<DecodedIxData>,
    t2: Seq<DecodedIxData>,
    pool: TargetPool,
    block: u64,
) -> Result<FindingData, Error> {
    let addr = pool.address@;
    let disc = pool.instruction_discriminator;
    match spec_get_swap_data(t0, addr, disc) {
        Err(e) => Err(e),
        Ok(f) => match spec_get_swap_data(t1, addr, disc) {
            Err(e) => Err(e),
            Ok(v) => match spec_get_swap_data(t2, addr, disc) {
                Err(e) => Err(e),
                Ok(b) => if f.source != b.source {
                    Err(Error::NotASandwich)
                } else if f.amount_out != b.amount_in {
                    Err(Error::IncompleteSandwich)
                } else {
                    Ok(
                        FindingData {
                            attacker: f.source,
                            victim: v.source,
                            profit: b.amount_out - f.amount_in,
                            block,
                        },
                    )
                },
            },
        },
    }
}

/// The views of a sequence of messages.
pub open spec fn message_views(txs: Seq<Message>) -> Seq<MessageData> {
    txs.map_values(|m: Message| m@)
}

/// The views of a sequence of processed transactions.
pub open spec fn processed_views(ts: Seq<ProcessedTransaction>) -> Seq<Seq<DecodedIxData>> {
    ts.map_values(|t: ProcessedTransaction| decoded_views(t@))
}

/// The views of a sequence of findings.
pub open spec fn finding_views(fs: Seq<SandwichFinding>) -> Seq<FindingData> {
    fs.map_values(|f: SandwichFinding| f@)
}

/// The pool-filtered transactions of a block, in source order: the decoded
/// instruction lists of exactly those transactions that
/// [`spec_filter_transaction`] accepts.
pub open spec fn spec_filtered_block(txs: Seq<MessageData>, pools: Seq<TargetPool>) -> Seq<
    Seq<DecodedIxData>,
>
    decreases txs.len(),
{
    if txs.len() == 0 {
        Seq::empty()
    } else {
        let rest = spec_filtered_block(txs.drop_first(), pools);
        match spec_filter_transaction(txs[0], pools) {
            Ok(ds) => seq![ds] + rest,
            Err(_) => rest,
        }
    }
}

/// The findings of sliding a window of size three, stride one, from index
/// `i` over the filtered transactions, for one pool: each window is
/// evaluated independently, and overlapping positives are all reported.
pub open spec fn spec_pool_findings_from(
    fts: Seq<Seq<DecodedIxData>>,
    pool: TargetPool,
    block: u64,
    i: int,
) -> Seq<FindingData>
    decreases fts.len() - i,
{
    if i < 0 || i + 3 > fts.len() {
        Seq::empty()
    } else {
        let rest = spec_pool_findings_from(fts, pool, block, i + 1);
        match spec_check_mev(fts[i], fts[i + 1], fts[i + 2], pool, block) {
            Ok(f) => seq![f] + rest,
            Err(_) => rest,
        }
    }
}

/// All findings of a block: the window scan of every monitored pool, in
/// registry order.
pub open spec fn spec_find_mev(
    fts: Seq<Seq<DecodedIxData>>,
    pools: Seq<TargetPool>,
    block: u64,
) -> Seq<FindingData>
    decreases pools.len(),
{
    if pools.len() == 0 {
        Seq::empty()
    } else {
        spec_pool_findings_from(fts, pools[0], block, 0) + spec_find_mev(
            fts,
            pools.drop_first(),
            block,
        )
    }
}

/// Whether the program identity of this instruction is in the watch list.
fn in_watch_list(pools: &Vec<TargetPool>, program_id: &Vec<u8>) -> (r: bool)
    ensures
        r == spec_in_watch_list(pools@, program_id@),
{
    let n = pools.len();
    let mut p: usize = 0;
    while p < n
        invariant
            p <= n,
            n == pools@.len(),
            forall|q: int| 0 <= q < p ==> #[trigger] pools@[q].address@ != program_id@,
        decreases n - p,
    {
        if bytes_eq(pools[p].address.as_slice(), program_id.as_slice()) {
            return true;
        }
        p += 1;
    }
    false
}

proof fn lemma_first_pool_ix_from(txs: Seq<DecodedIxData>, pool: Seq<u8>, i: int)
    requires
        0 <= i <= txs.len(),
        forall|j: int| 0 <= j < i ==> #[trigger] txs[j].program_id != pool,
    ensures
        i < txs.len() && txs[i].program_id == pool ==> spec_first_pool_ix(txs, pool) == Some(i),
        i == txs.len() ==> spec_first_pool_ix(txs, pool) is None,
    decreases i,
{
    if i == 0 {
    } else {
        assert(txs[0].program_id != pool);
        lemma_first_pool_ix_from(txs.drop_first(), pool, i - 1);
    }
}

impl Indexer {
    /// A fresh core over the canonical pool registry.
    pub fn new() -> (r: Indexer)
        ensures
            spec_registry(r.target_pools@),
    {
        Indexer { target_pools: TargetPool::new() }
    }

    /// Resolves a compiled instruction: each account index and the
    /// program-id index are looked up in the message's account-key table,
    /// and signer/writable flags come from the header partitioning. An
    /// index that does not fit the table fails with the numerical-overflow
    /// condition.
    pub fn decompile_instruction(compiled_ix: &CompiledInstruction, message: &Message) -> (r:
        Result<DecodedInstruction, Error>)
        ensures
            compiled_ix_resolvable(compiled_ix@, message@) ==> (r matches Ok(d) && d@
                == spec_decompile(compiled_ix@, message@)),
            !compiled_ix_resolvable(compiled_ix@, message@) ==> r === Err(
                Error::NumericalOverflow,
            ),
    {
        let mut account_metas: Vec<AccountMeta> = Vec::new();
        let n = compiled_ix.accounts.len();
        let mut i: usize = 0;
        while i < n
            invariant
                i <= n,
                n == compiled_ix.accounts@.len(),
                forall|j: int| 0 <= j < i ==> (#[trigger] compiled_ix.accounts@[j] as int)
                    < message.account_keys@.len(),
                account_metas@.len() == i,
                forall|j: int| 0 <= j < i ==> #[trigger] account_metas@[j]@ == spec_decompile(
                    compiled_ix@,
                    message@,
                ).accounts[j],
            decreases n - i,
        {
            let account_index = compiled_ix.accounts[i] as usize;
            if account_index >= message.account_keys.len() {
                proof {
                    assert(compiled_ix@.accounts[i as int] as int >= message@.account_keys.len());
                    assert(!compiled_ix_resolvable(compiled_ix@, message@));
                }
                return Err(Error::NumericalOverflow);
            }
            let is_signer = message.is_signer(account_index);
            let is_writable = message.is_maybe_writable(account_index);
            let pubkey = clone_bytes(&message.account_keys[account_index]);
            account_metas.push(AccountMeta { pubkey, is_signer, is_writable });
            i += 1;
        }
        let program_id_index = compiled_ix.program_id_index as usize;
        if program_id_index >= message.account_keys.len() {
            return Err(Error::NumericalOverflow);
        }
        let program_id = clone_bytes(&message.account_keys[program_id_index]);
        let data = clone_bytes(&compiled_ix.data);
        let d = DecodedInstruction { program_id, accounts: account_metas, data };
        proof {
            assert(d@.accounts =~= spec_decompile(compiled_ix@, message@).accounts);
            assert(d@ =~= spec_decompile(compiled_ix@, message@));
        }
        Ok(d)
    }

    /// Decodes every instruction of the transaction and keeps the result
    /// only when at least one instruction is addressed to a monitored pool.
    pub fn filter_transaction(&self, transaction: &Message) -> (r: Result<
        Vec<DecodedInstruction>,
        Error,
    >)
        ensures
            ({
                let s = spec_filter_transaction(transaction@, self.target_pools@);
                match s {
                    Err(e) => r matches Err(e2) && e2 == e,
                    Ok(ds) => r matches Ok(v) && decoded_views(v@) == ds,
                }
            }),
    {
        let mut instructions: Vec<DecodedInstruction> = Vec::new();
        let n = transaction.instructions.len();
        let mut k: usize = 0;
        while k < n
            invariant
                k <= n,
                n == transaction.instructions@.len(),
                forall|j: int| 0 <= j < k ==> compiled_ix_resolvable(
                    #[trigger] transaction@.instructions[j],
                    transaction@,
                ),
                instructions@.len() == k,
                forall|j: int| 0 <= j < k ==> #[trigger] instructions@[j]@ == spec_decompile(
                    transaction@.instructions[j],
                    transaction@,
                ),
            decreases n - k,
        {
            proof {
                assert(transaction@.instructions[k as int] == transaction.instructions@[k as int]@);
            }
            match Self::decompile_instruction(&transaction.instructions[k], transaction) {
                Ok(d) => {
                    instructions.push(d);
                },
                Err(e) => {
                    proof {
                        assert(!compiled_ix_resolvable(
                            transaction@.instructions[k as int],
                            transaction@,
                        ));
                        assert(!spec_message_resolvable(transaction@));
                    }
                    return Err(e);
                },
            }
            k += 1;
        }
        proof {
            assert(spec_message_resolvable(transaction@));
            assert(decoded_views(instructions@) =~= spec_decompiled_all(transaction@));
        }
        let mut is_target = false;
        let mut j: usize = 0;
        while j < instructions.len()
            invariant
                j <= instructions@.len(),
                decoded_views(instructions@) == spec_decompiled_all(transaction@),
                is_target == exists|q: int|
                    0 <= q < j && spec_in_watch_list(
                        self.target_pools@,
                        #[trigger] instructions@[q]@.program_id,
                    ),
            decreases instructions@.len() - j,
        {
            let hit = in_watch_list(&self.target_pools, &instructions[j].program_id);
            proof {
                assert(instructions@[j as int]@.program_id == instructions@[j as int].program_id@);
            }
            if hit {
                is_target = true;
            }
            j += 1;
        }
        if !is_target {
            proof {
                assert(forall|q: int|
                    0 <= q < spec_decompiled_all(transaction@).len()
                        ==> #[trigger] spec_decompiled_all(transaction@)[q].program_id
                        == instructions@[q]@.program_id);
            }
            return Err(Error::TransactionNotFromTargetPools);
        }
        proof {
            let q = choose|q: int|
                0 <= q < instructions@.len() && spec_in_watch_list(
                    self.target_pools@,
                    #[trigger] instructions@[q]@.program_id,
                );
            assert(spec_decompiled_all(transaction@)[q].program_id == instructions@[q]@.program_id);
        }
        Ok(instructions)
    }

    /// Scans one block for sandwich findings: filters its transactions for
    /// the monitored pools, then slides a window of three consecutive
    /// filtered transactions, evaluating every window against every pool of
    /// the registry. Transactions that fail to decode or touch no pool are
    /// skipped; rejected windows are not reported.
    pub fn find_mev_in_block(&self, block: &Block) -> (findings: Vec<SandwichFinding>)
        ensures
            finding_views(findings@) == spec_find_mev(
                spec_filtered_block(message_views(block.transactions@), self.target_pools@),
                self.target_pools@,
                block.slot,
            ),
    {
        let ghost pools = self.target_pools@;
        let ghost msgs = message_views(block.transactions@);
        let mut target_transactions: Vec<ProcessedTransaction> = Vec::new();
        let n = block.transactions.len();
        let mut i: usize = 0;
        proof {
            assert(msgs.skip(0) =~= msgs);
            assert(processed_views(target_transactions@) =~= Seq::<Seq<DecodedIxData>>::empty());
            assert(spec_filtered_block(msgs, pools) =~= processed_views(target_transactions@)
                + spec_filtered_block(msgs.skip(0), pools));
        }
        while i < n
            invariant
                i <= n,
                n == block.transactions@.len(),
                msgs == message_views(block.transactions@),
                pools == self.target_pools@,
                spec_filtered_block(msgs, pools) == processed_views(target_transactions@)
                    + spec_filtered_block(msgs.skip(i as int), pools),
            decreases n - i,
        {
            let ghost pre = target_transactions@;
            proof {
                assert(msgs.skip(i as int)[0] == msgs[i as int]);
                assert(msgs[i as int] == block.transactions@[i as int]@);
                assert(msgs.skip(i as int).drop_first() =~= msgs.skip(i as int + 1));
            }
            match self.filter_transaction(&block.transactions[i]) {
                Ok(instructions) => {
                    target_transactions.push(instructions);
                    proof {
                        let ds = decoded_views(target_transactions@.last()@);
                        assert(processed_views(target_transactions@) =~= processed_views(pre)
                            + seq![ds]);
                        assert(processed_views(pre) + seq![ds] + spec_filtered_block(
                            msgs.skip(i as int + 1),
                            pools,
                        ) =~= processed_views(pre) + (seq![ds] + spec_filtered_block(
                            msgs.skip(i as int + 1),
                            pools,
                        )));
                    }
                },
                Err(_) => (),
            }
            i += 1;
        }
        proof {
            assert(msgs.skip(n as int) =~= Seq::<MessageData>::empty());
            assert(spec_filtered_block(msgs, pools) =~= processed_views(target_transactions@));
        }
        let ghost fts = processed_views(target_transactions@);
        let mut findings: Vec<SandwichFinding> = Vec::new();
        let m = target_transactions.len();
        let np = self.target_pools.len();
        let mut p: usize = 0;
        proof {
            assert(pools.skip(0) =~= pools);
            assert(finding_views(findings@) =~= Seq::<FindingData>::empty());
            assert(spec_find_mev(fts, pools, block.slot) =~= finding_views(findings@)
                + spec_find_mev(fts, pools.skip(0), block.slot));
        }
        while p < np
            invariant
                p <= np,
                np == self.target_pools@.len(),
                pools == self.target_pools@,
                m == target_transactions@.len(),
                fts == processed_views(target_transactions@),
                spec_find_mev(fts, pools, block.slot) == finding_views(findings@) + spec_find_mev(
                    fts,
                    pools.skip(p as int),
                    block.slot,
                ),
            decreases np - p,
        {
            proof {
                assert(pools.skip(p as int)[0] == pools[p as int]);
                assert(pools.skip(p as int).drop_first() =~= pools.skip(p as int + 1));
            }
            let mut w: usize = 0;
            while m >= 3 && w < m - 2
                invariant
                    m >= 3 ==> w <= m - 2,
                    m < 3 ==> w == 0,
                    p < np,
                    np == self.target_pools@.len(),
                    pools == self.target_pools@,
                    m == target_transactions@.len(),
                    fts == processed_views(target_transactions@),
                    spec_find_mev(fts, pools, block.slot) == finding_views(findings@) + (
                    spec_pool_findings_from(fts, pools[p as int], block.slot, w as int)
                        + spec_find_mev(fts, pools.skip(p as int + 1), block.slot)),
                decreases m - w,
            {
                let ghost pre = findings@;
                proof {
                    assert(fts[w as int] == decoded_views(target_transactions@[w as int]@));
                    assert(fts[w as int + 1] == decoded_views(
                        target_transactions@[w as int + 1]@,
                    ));
                    assert(fts[w as int + 2] == decoded_views(
                        target_transactions@[w as int + 2]@,
                    ));
                }
                match self.check_mev(
                    &target_transactions[w],
                    &target_transactions[w + 1],
                    &target_transactions[w + 2],
                    &self.target_pools[p],
                    block.slot,
                ) {
                    Ok(f) => {
                        findings.push(f);
                        proof {
                            assert(finding_views(findings@) =~= finding_views(pre).push(
                                findings@.last()@,
                            ));
                            assert(spec_find_mev(fts, pools, block.slot) =~= finding_views(
                                findings@,
                            ) + (spec_pool_findings_from(
                                fts,
                                pools[p as int],
                                block.slot,
                                w as int + 1,
                            ) + spec_find_mev(fts, pools.skip(p as int + 1), block.slot)));
                        }
                    },
                    Err(_) => (),
                }
                w += 1;
            }
            proof {
                assert(spec_pool_findings_from(fts, pools[p as int], block.slot, w as int)
                    =~= Seq::<FindingData>::empty());
            }
            p += 1;
        }
        proof {
            assert(pools.skip(np as int) =~= Seq::<TargetPool>::empty());
            assert(finding_views(findings@) =~= spec_find_mev(fts, pools, block.slot));
        }
        findings
    }

    /// Evaluates one candidate window: extracts the swap event of each of
    /// the three transactions from its own instructions, then decides the
    /// sandwich pattern and the attacker's profit.
    pub fn check_mev(
        &self,
        frontrun: &ProcessedTransaction,
        victim: &ProcessedTransaction,
        backrun: &ProcessedTransaction,
        target_pool: &TargetPool,
        block: u64,
    ) -> (r: Result<SandwichFinding, Error>)
        ensures
            ({
                let s = spec_check_mev(
                    decoded_views(frontrun@),
                    decoded_views(victim@),
                    decoded_views(backrun@),
                    *target_pool,
                    block,
                );
                match s {
                    Err(e) => r matches Err(e2) && e2 == e,
                    Ok(fd) => r matches Ok(f) && f@ == fd,
                }
            }),
    {
        let disc = target_pool.instruction_discriminator;
        let (frontrun_source, frontrun_amount_in, frontrun_amount_out) = match Self::get_swap_data(
            frontrun,
            &target_pool.address,
            disc,
        ) {
            Ok(t) => t,
            Err(e) => {
                return Err(e);
            },
        };
        let (victim_source, victim_amount_in, victim_amount_out) = match Self::get_swap_data(
            victim,
            &target_pool.address,
            disc,
        ) {
            Ok(t) => t,
            Err(e) => {
                return Err(e);
            },
        };
        let (backrun_source, backrun_amount_in, backrun_amount_out) = match Self::get_swap_data(
            backrun,
            &target_pool.address,
            disc,
        ) {
            Ok(t) => t,
            Err(e) => {
                return Err(e);
            },
        };
        let window = CandidateWindow {
            frontrun: SwapEvent {
                source: frontrun_source,
                amount_in: frontrun_amount_in,
                amount_out: frontrun_amount_out,
                transaction_index: 0,
            },
            victim: SwapEvent {
                source: victim_source,
                amount_in: victim_amount_in,
                amount_out: victim_amount_out,
                transaction_index: 1,
            },
            backrun: SwapEvent {
                source: backrun_source,
                amount_in: backrun_amount_in,
                amount_out: backrun_amount_out,
                transaction_index: 2,
            },
        };
        let r = detect_sandwich(&window, block);
        proof {
            let s = spec_check_mev(
                decoded_views(frontrun@),
                decoded_views(victim@),
                decoded_views(backrun@),
                *target_pool,
                block,
            );
            if s is Ok {
                assert(r matches Ok(f) && f@ =~= s.unwrap());
            }
        }
        r
    }

    /// Extracts the swap event of the transaction's first instruction
    /// addressed to the pool: the source wallet and the two magnitudes,
    /// widened to 128-bit signed integers.
    pub fn get_swap_data(
        transaction: &Vec<DecodedInstruction>,
        target_pool: &Vec<u8>,
        expected_discriminator: u8,
    ) -> (r: Result<(Vec<u8>, i128, i128), Error>)
        ensures
            ({
                let s = spec_get_swap_data(
                    decoded_views(transaction@),
                    target_pool@,
                    expected_discriminator,
                );
                match s {
                    Err(e) => r matches Err(e2) && e2 == e,
                    Ok(sd) => r matches Ok(t) && {
                        &&& t.0@ == sd.source
                        &&& t.1 as int == sd.amount_in
                        &&& t.2 as int == sd.amount_out
                        &&& 0 <= t.1 <= u64::MAX as i128
                        &&& 0 <= t.2 <= u64::MAX as i128
                    },
                }
            }),
    {
        let ghost txsv = decoded_views(transaction@);
        let n = transaction.len();
        let mut i: usize = 0;
        while i < n
            invariant
                i <= n,
                n == transaction@.len(),
                txsv == decoded_views(transaction@),
                forall|j: int| 0 <= j < i ==> #[trigger] txsv[j].program_id != target_pool@,
            decreases n - i,
        {
            if bytes_eq(transaction[i].program_id.as_slice(), target_pool.as_slice()) {
                proof {
                    assert(txsv[i as int] == transaction@[i as int]@);
                    lemma_first_pool_ix_from(txsv, target_pool@, i as int);
                }
                let instruction = &transaction[i];
                let (amount_in, min_amount_out) = match parse_swap_data(
                    instruction.data.as_slice(),
                    expected_discriminator,
                ) {
                    Ok(amts) => amts,
                    Err(e) => {
                        return Err(e);
                    },
                };
                if instruction.accounts.len() == 0 {
                    return Err(Error::MissingSourceAccount);
                }
                let last = &instruction.accounts[instruction.accounts.len() - 1];
                let source = clone_bytes(&last.pubkey);
                proof {
                    assert(txsv[i as int].accounts.last() == instruction.accounts@.last()@);
                }
                return Ok((source, amount_in as i128, min_amount_out as i128));
            }
            proof {
                assert(txsv[i as int] == transaction@[i as int]@);
            }
            i += 1;
        }
        proof {
            lemma_first_pool_ix_from(txsv, target_pool@, n as int);
        }
        Err(Error::NoMatchingInstruction)
    }
}

} // verus!
