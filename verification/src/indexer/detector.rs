use vstd::prelude::*;
use crate::indexer::error::Error;
use crate::indexer::utils::bytes_eq;

verus! {

/// One structured swap event: the wallet that fed the swap, the two
/// magnitudes widened to 128-bit signed integers so later subtraction
/// cannot overflow, and the index of the owning transaction within its
/// window's source sequence.
#[derive(Debug)]
pub struct SwapEvent {
    pub source: Vec<u8>,
    pub amount_in: i128,
    pub amount_out: i128,
    pub transaction_index: usize,
}

/// A swap event carries magnitudes only: both amounts were widened from
/// unsigned 64-bit wire values.
pub open spec fn swap_event_wf(e: SwapEvent) -> bool {
    &&& 0 <= e.amount_in <= u64::MAX as i128
    &&& 0 <= e.amount_out <= u64::MAX as i128
}

/// Exactly three swap events in canonical transaction order, all targeting
/// the same pool identity.
#[derive(Debug)]
pub struct CandidateWindow {
    pub frontrun: SwapEvent,
    pub victim: SwapEvent,
    pub backrun: SwapEvent,
}

/// A confirmed sandwich: attacker and victim identities, the attacker's
/// profit delta (may be non-positive; the caller decides whether that is
/// noteworthy), and the block the window came from.
#[derive(Debug)]
pub struct SandwichFinding {
    pub attacker: Vec<u8>,
    pub victim: Vec<u8>,
    pub profit: i128,
    pub block: u64,
}

/// Mathematical value of a finding.
#[verifier::ext_equal]
pub struct FindingData {
    pub attacker: Seq<u8>,
    pub victim: Seq<u8>,
    pub profit: int,
    pub block: u64,
}

impl View for SandwichFinding {
    type V = FindingData;

    open spec fn view(&self) -> FindingData {
        FindingData {
            attacker: self.attacker@,
            victim: self.victim@,
            profit: self.profit as int,
            block: self.block,
        }
    }
}

/// Decides whether a candidate window is a sandwich and computes the
/// attacker's profit.
///
/// The same wallet must have executed both outer legs, and the frontrun's
/// output must exactly feed the backrun's input, closing the round trip.
/// On success the profit is `backrun.amount_out - frontrun.amount_in`,
/// exact signed arithmetic.
pub fn detect_sandwich(window: &CandidateWindow, block: u64) -> (r: Result<SandwichFinding, Error>)
    requires
        swap_event_wf(window.frontrun),
        swap_event_wf(window.victim),
        swap_event_wf(window.backrun),
    ensures
        window.frontrun.source@ != window.backrun.source@ ==> r === Err(Error::NotASandwich),
        window.frontrun.source@ == window.backrun.source@
            && window.frontrun.amount_out != window.backrun.amount_in ==> r === Err(
            Error::IncompleteSandwich,
        ),
        window.frontrun.source@ == window.backrun.source@ && window.frontrun.amount_out
            == window.backrun.amount_in ==> (r matches Ok(f) && {
            &&& f.attacker@ == window.frontrun.source@
            &&& f.victim@ == window.victim.source@
            &&& f.profit == window.backrun.amount_out - window.frontrun.amount_in
            &&& f.block == block
        }),
{
    if !bytes_eq(window.frontrun.source.as_slice(), window.backrun.source.as_slice()) {
        return Err(Error::NotASandwich);
    }
    if window.frontrun.amount_out != window.backrun.amount_in {
        return Err(Error::IncompleteSandwich);
    }
    let attacker_delta = window.backrun.amount_out - window.frontrun.amount_in;
    let mut attacker: Vec<u8> = Vec::new();
    attacker.extend_from_slice(window.frontrun.source.as_slice());
    let mut victim: Vec<u8> = Vec::new();
    victim.extend_from_slice(window.victim.source.as_slice());
    proof {
        assert(attacker@ =~= window.frontrun.source@);
        assert(victim@ =~= window.victim.source@);
    }
    Ok(SandwichFinding { attacker, victim, profit: attacker_delta, block })
}

} // verus!
