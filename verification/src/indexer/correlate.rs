use vstd::prelude::*;
use crate::indexer::types::{SandwichAttackVector, WebhookTransactionPayload};

verus! {

/// Correlation key pairing the two out-of-order legs of a sandwich: the
/// same owner trading the same mint in the same block with the same
/// transfer magnitude.
#[derive(Debug)]
pub struct CorrelationKey {
    pub owner: String,
    pub mint: String,
    pub block_time: i64,
    pub magnitude: i128,
}

/// Two keys match when all four components agree.
pub open spec fn spec_keys_match(a: CorrelationKey, b: CorrelationKey) -> bool {
    &&& a.owner@ == b.owner@
    &&& a.mint@ == b.mint@
    &&& a.block_time == b.block_time
    &&& a.magnitude == b.magnitude
}

/// Whether two correlation keys match.
pub fn keys_match(a: &CorrelationKey, b: &CorrelationKey) -> (r: bool)
    ensures
        r == spec_keys_match(*a, *b),
{
    a.owner == b.owner && a.mint == b.mint && a.block_time == b.block_time && a.magnitude
        == b.magnitude
}

/// Index of the first pending entry whose key matches, if any.
pub open spec fn spec_first_key_match(
    pending: Seq<(CorrelationKey, WebhookTransactionPayload)>,
    key: CorrelationKey,
) -> Option<int>
    decreases pending.len(),
{
    if pending.len() == 0 {
        None
    } else if spec_keys_match(pending[0].0, key) {
        Some(0int)
    } else {
        match spec_first_key_match(pending.drop_first(), key) {
            None => None,
            Some(i) => Some(i + 1),
        }
    }
}

proof fn lemma_first_key_match_from(
    pending: Seq<(CorrelationKey, WebhookTransactionPayload)>,
    key: CorrelationKey,
    i: int,
)
    requires
        0 <= i <= pending.len(),
        forall|j: int| 0 <= j < i ==> !spec_keys_match((#[trigger] pending[j]).0, key),
    ensures
        i < pending.len() && spec_keys_match(pending[i].0, key) ==> spec_first_key_match(
            pending,
            key,
        ) == Some(i),
        i == pending.len() ==> spec_first_key_match(pending, key) is None,
    decreases i,
{
    if i > 0 {
        assert(!spec_keys_match(pending[0].0, key));
        lemma_first_key_match_from(pending.drop_first(), key, i - 1);
    }
}

/// The transfer magnitude of one leg: the absolute lamport or token
/// difference between the post and pre amounts, exact in 128 bits.
pub fn magnitude_of(pre: i64, post: i64) -> (r: i128)
    ensures
        post >= pre ==> r == post - pre,
        post < pre ==> r == pre - post,
{
    let d: i128 = (post as i128) - (pre as i128);
    if d < 0 {
        -d
    } else {
        d
    }
}

/// Which token leg of a swap is meaningful, decided by the direction of
/// the owner's SOL balance: a decrease means SOL was paid in, so the
/// destination token account's delta carries the swap; an increase means
/// SOL came out, so the source token account's delta does. An unchanged
/// balance identifies neither.
#[derive(Clone, Copy, Debug, PartialEq, Eq, Structural)]
pub enum SwapLeg {
    Destination,
    Source,
}

/// Picks the meaningful token leg from the owner's pre/post SOL balance.
pub fn swap_leg_for(pre_lamports: i64, post_lamports: i64) -> (r: Option<SwapLeg>)
    ensures
        post_lamports < pre_lamports ==> r == Some(SwapLeg::Destination),
        post_lamports > pre_lamports ==> r == Some(SwapLeg::Source),
        post_lamports == pre_lamports ==> r is None,
{
    if post_lamports < pre_lamports {
        Some(SwapLeg::Destination)
    } else if post_lamports > pre_lamports {
        Some(SwapLeg::Source)
    } else {
        None
    }
}

/// Pairs out-of-order sandwich legs by correlation key: the first
/// observation under a key is buffered; the second completes the pair and
/// clears it.
pub struct BalanceCorrelator {
    pending: Vec<(CorrelationKey, WebhookTransactionPayload)>,
}

impl BalanceCorrelator {
    /// The buffered first-seen legs, oldest first.
    pub closed spec fn pending_view(&self) -> Seq<(CorrelationKey, WebhookTransactionPayload)> {
        self.pending@
    }

    /// No two buffered legs share a matching key.
    pub closed spec fn wf(&self) -> bool {
        forall|a: int, b: int|
            #![trigger self.pending@[a], self.pending@[b]]
            0 <= a < b < self.pending@.len() ==> !spec_keys_match(
                self.pending@[a].0,
                self.pending@[b].0,
            )
    }

    /// An empty correlator.
    pub fn new() -> (r: BalanceCorrelator)
        ensures
            r.wf(),
            r.pending_view() == Seq::<(CorrelationKey, WebhookTransactionPayload)>::empty(),
    {
        BalanceCorrelator { pending: Vec::new() }
    }

    /// Observes one leg. If a buffered leg matches the key, that leg is
    /// removed and returned as the frontrun with this transaction as the
    /// backrun; otherwise the leg is buffered as first-seen.
    pub fn observe(&mut self, key: CorrelationKey, tx: WebhookTransactionPayload) -> (r: Option<
        SandwichAttackVector,
    >)
        requires
            old(self).wf(),
        ensures
            final(self).wf(),
            ({
                match spec_first_key_match(old(self).pending_view(), key) {
                    None => r is None && final(self).pending_view() == old(
                        self,
                    ).pending_view().push((key, tx)),
                    Some(i) => r matches Some(v) && {
                        &&& v.frontrun_tx == old(self).pending_view()[i].1
                        &&& v.backrun_tx == tx
                        &&& final(self).pending_view() == old(self).pending_view().remove(i)
                    },
                }
            }),
    {
        let n = self.pending.len();
        let mut i: usize = 0;
        let mut found = false;
        while i < n && !found
            invariant
                i <= n,
                n == self.pending@.len(),
                self.pending@ == old(self).pending@,
                found ==> i < n && spec_keys_match(self.pending@[i as int].0, key),
                forall|j: int| 0 <= j < i ==> !spec_keys_match((#[trigger] self.pending@[j]).0, key),
            decreases n - i + (if found { 0int } else { 1int }),
        {
            if keys_match(&self.pending[i].0, &key) {
                found = true;
            } else {
                i += 1;
            }
        }
        if !found {
            proof {
                lemma_first_key_match_from(self.pending@, key, n as int);
            }
            self.pending.push((key, tx));
            return None;
        }
        proof {
            lemma_first_key_match_from(self.pending@, key, i as int);
        }
        let entry = self.pending.remove(i);
        Some(SandwichAttackVector { frontrun_tx: entry.1, backrun_tx: tx })
    }
}

} // verus!
