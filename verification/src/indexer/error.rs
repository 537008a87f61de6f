use vstd::prelude::*;

verus! {

/// Failure conditions of the indexing core.
///
/// The first group are malformed-input conditions (recovered locally by
/// skipping the offending transaction or instruction); the rest are semantic
/// mismatches: "not a match" outcomes of decoding or of window evaluation,
/// never operator-facing errors.
#[derive(Clone, Copy, Debug, PartialEq, Eq, Structural)]
pub enum Error {
    /// A batch entry could not be placed in the per-block transaction map.
    FailedToIndexInBlockTxMapVector,
    /// Input bytes or text could not be parsed at all.
    FailedToParseInput,
    /// An index did not fit the addressable range it points into.
    NumericalOverflow,
    /// No instruction of the transaction targets a monitored pool.
    TransactionNotFromTargetPools,
    /// The leading tag byte is not the pool's configured discriminator.
    InvalidDiscriminator,
    /// Instruction data too short to hold a swap payload.
    DataTooShort,
    /// The instruction carries no account to take the source from.
    MissingSourceAccount,
    /// No instruction targeting the given pool was found.
    NoMatchingInstruction,
    /// The frontrun and backrun legs come from different wallets.
    NotASandwich,
    /// The frontrun's output does not feed the backrun's input.
    IncompleteSandwich,
}

} // verus!
