use vstd::prelude::*;
use std::collections::HashMap;
use crate::indexer::types::WebhookTransactionPayload;

verus! {

/// Per-block accumulation: which batch a sequence of incoming transactions
/// joins is decided strictly by each transaction's own block-time field.
pub open spec fn spec_ingest_one(
    m: Map<i64, Seq<WebhookTransactionPayload>>,
    tx: WebhookTransactionPayload,
) -> Map<i64, Seq<WebhookTransactionPayload>> {
    let k = tx.block_time;
    if m.dom().contains(k) {
        m.insert(k, m[k].push(tx))
    } else {
        m.insert(k, seq![tx])
    }
}

/// Value of ingesting a whole batch, transaction by transaction, in
/// arrival order.
pub open spec fn spec_ingest(
    m: Map<i64, Seq<WebhookTransactionPayload>>,
    txs: Seq<WebhookTransactionPayload>,
) -> Map<i64, Seq<WebhookTransactionPayload>>
    decreases txs.len(),
{
    if txs.len() == 0 {
        m
    } else {
        spec_ingest(spec_ingest_one(m, txs[0]), txs.drop_first())
    }
}

/// The sub-batch of a transaction sequence addressed to one block-time
/// key, in arrival order.
pub open spec fn spec_batch_for_key(txs: Seq<WebhookTransactionPayload>, k: i64) -> Seq<
    WebhookTransactionPayload,
>
    decreases txs.len(),
{
    if txs.len() == 0 {
        Seq::empty()
    } else {
        let rest = spec_batch_for_key(txs.drop_first(), k);
        if txs[0].block_time == k {
            seq![txs[0]] + rest
        } else {
            rest
        }
    }
}

/// The batch stored at a key, the empty sequence where no batch exists.
pub open spec fn spec_batch_at(m: Map<i64, Seq<WebhookTransactionPayload>>, k: i64) -> Seq<
    WebhookTransactionPayload,
> {
    if m.dom().contains(k) {
        m[k]
    } else {
        Seq::empty()
    }
}

/// Ingestion loses no transaction and keeps arrival order: at every
/// block-time key, the batch after ingesting is the batch before extended
/// by exactly the ingested transactions carrying that key, in their
/// arrival order. In particular, batches at other keys are untouched, so
/// interleaved ingests for different keys cannot disturb each other.
pub proof fn lemma_ingest_appends_per_key(
    m: Map<i64, Seq<WebhookTransactionPayload>>,
    txs: Seq<WebhookTransactionPayload>,
    k: i64,
)
    ensures
        spec_batch_at(spec_ingest(m, txs), k) == spec_batch_at(m, k) + spec_batch_for_key(txs, k),
    decreases txs.len(),
{
    if txs.len() == 0 {
        assert(spec_batch_at(m, k) + spec_batch_for_key(txs, k) =~= spec_batch_at(m, k));
    } else {
        let m1 = spec_ingest_one(m, txs[0]);
        lemma_ingest_appends_per_key(m1, txs.drop_first(), k);
        if txs[0].block_time == k {
            assert(spec_batch_at(m1, k) =~= spec_batch_at(m, k) + seq![txs[0]]);
            assert(spec_batch_at(m, k) + seq![txs[0]] + spec_batch_for_key(txs.drop_first(), k)
                =~= spec_batch_at(m, k) + (seq![txs[0]] + spec_batch_for_key(txs.drop_first(), k)));
        } else {
            assert(spec_batch_at(m1, k) == spec_batch_at(m, k));
        }
    }
}

/// Accumulates incoming transactions keyed by block time, plus a FIFO
/// queue of block-time keys whose batches are ready for draining.
///
/// The embedding process shares one buffer across its concurrent stages
/// behind a single mutual-exclusion scope; each method here is one atomic
/// step of that scope, never held across a suspension point. A reader can
/// therefore never observe a partially-applied batch.
pub struct TransactionBuffer {
    batches: HashMap<i64, Vec<WebhookTransactionPayload>>,
    ready: Vec<i64>,
}

impl TransactionBuffer {
    /// The per-block batches currently held.
    pub closed spec fn batches_view(&self) -> Map<i64, Seq<WebhookTransactionPayload>> {
        self.batches@.map_values(|v: Vec<WebhookTransactionPayload>| v@)
    }

    /// The ready queue, oldest key first.
    pub closed spec fn ready_view(&self) -> Seq<i64> {
        self.ready@
    }

    /// A block-time key appears in the ready queue at most once per
    /// pending batch, and only while its batch is held.
    pub closed spec fn wf(&self) -> bool {
        &&& forall|a: int, b: int|
            #![trigger self.ready@[a], self.ready@[b]]
            0 <= a < b < self.ready@.len() ==> self.ready@[a] != self.ready@[b]
        &&& forall|a: int| 0 <= a < self.ready@.len() ==> self.batches@.dom().contains(
            #[trigger] self.ready@[a],
        )
    }

    /// An empty buffer.
    pub fn new() -> (r: TransactionBuffer)
        ensures
            r.wf(),
            r.batches_view() == Map::<i64, Seq<WebhookTransactionPayload>>::empty(),
            r.ready_view() == Seq::<i64>::empty(),
    {
        let r = TransactionBuffer { batches: HashMap::new(), ready: Vec::new() };
        proof {
            assert(r.batches_view() =~= Map::<i64, Seq<WebhookTransactionPayload>>::empty());
        }
        r
    }

    /// Ingests a batch: each transaction joins the batch of its own
    /// block-time key, appended in arrival order; a first transaction for
    /// a key opens a fresh batch. The ready queue is untouched, and no
    /// transaction of the batch is ever dropped.
    pub fn ingest(&mut self, transactions: Vec<WebhookTransactionPayload>)
        requires
            old(self).wf(),
        ensures
            final(self).wf(),
            final(self).batches_view() == spec_ingest(old(self).batches_view(), transactions@),
            final(self).ready_view() == old(self).ready_view(),
    {
        let ghost txs0 = transactions@;
        let mut transactions = transactions;
        while transactions.len() > 0
            invariant
                self.wf(),
                self.ready_view() == old(self).ready_view(),
                spec_ingest(old(self).batches_view(), txs0) == spec_ingest(
                    self.batches_view(),
                    transactions@,
                ),
            decreases transactions@.len(),
        {
            let ghost pre = self.batches_view();
            let ghost pre_txs = transactions@;
            let tx = transactions.remove(0);
            let k = tx.block_time;
            match self.batches.remove(&k) {
                Some(mut batch) => {
                    batch.push(tx);
                    self.batches.insert(k, batch);
                },
                None => {
                    let mut batch: Vec<WebhookTransactionPayload> = Vec::new();
                    batch.push(tx);
                    self.batches.insert(k, batch);
                },
            }
            proof {
                assert(transactions@ =~= pre_txs.drop_first());
                assert(self.batches_view() =~= spec_ingest_one(pre, pre_txs[0]));
            }
        }
        proof {
            assert(spec_ingest(self.batches_view(), transactions@) == self.batches_view());
        }
    }

    /// Marks a block's batch ready for draining. The key is appended to
    /// the ready queue only if its batch is held and it is not queued
    /// already; the call reports whether it was appended.
    pub fn mark_ready(&mut self, block_time: i64) -> (added: bool)
        requires
            old(self).wf(),
        ensures
            final(self).wf(),
            final(self).batches_view() == old(self).batches_view(),
            added == (old(self).batches_view().dom().contains(block_time) && !old(
                self,
            ).ready_view().contains(block_time)),
            added ==> final(self).ready_view() == old(self).ready_view().push(block_time),
            !added ==> final(self).ready_view() == old(self).ready_view(),
    {
        if !self.batches.contains_key(&block_time) {
            return false;
        }
        let n = self.ready.len();
        let mut a: usize = 0;
        while a < n
            invariant
                self.wf(),
                self.batches@ == old(self).batches@,
                self.ready@ == old(self).ready@,
                a <= n,
                n == self.ready@.len(),
                forall|b: int| 0 <= b < a ==> self.ready@[b] != block_time,
            decreases n - a,
        {
            if self.ready[a] == block_time {
                return false;
            }
            a += 1;
        }
        proof {
            assert(!self.ready@.contains(block_time));
        }
        self.ready.push(block_time);
        true
    }

    /// Drains the oldest ready batch: pops the front of the ready queue
    /// and atomically removes and returns that key's whole batch. An empty
    /// ready queue is the normal "nothing to do yet" outcome, not an
    /// error, and leaves the buffer untouched.
    pub fn drain_next(&mut self) -> (r: Option<(i64, Vec<WebhookTransactionPayload>)>)
        requires
            old(self).wf(),
        ensures
            final(self).wf(),
            old(self).ready_view().len() == 0 ==> r is None && final(self).batches_view() == old(
                self,
            ).batches_view() && final(self).ready_view() == old(self).ready_view(),
            old(self).ready_view().len() > 0 ==> (r matches Some(d) && {
                &&& d.0 == old(self).ready_view()[0]
                &&& old(self).batches_view().dom().contains(d.0)
                &&& d.1@ == old(self).batches_view()[d.0]
                &&& final(self).ready_view() == old(self).ready_view().drop_first()
                &&& final(self).batches_view() == old(self).batches_view().remove(d.0)
            }),
    {
        if self.ready.len() == 0 {
            return None;
        }
        let k = self.ready.remove(0);
        let batch = match self.batches.remove(&k) {
            Some(batch) => batch,
            None => {
                proof {
                    assert(old(self).batches_view().dom().contains(k));
                    assert(false);
                }
                Vec::new()
            },
        };
        proof {
            assert(self.batches_view() =~= old(self).batches_view().remove(k));
            assert(self.ready@ =~= old(self).ready@.drop_first());
        }
        Some((k, batch))
    }
}

} // verus!
