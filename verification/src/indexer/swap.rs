use vstd::prelude::*;
use vstd::bytes::{
    lemma_auto_spec_u64_to_from_le_bytes, spec_u64_from_le_bytes, spec_u64_to_le_bytes,
    u64_from_le_bytes, u64_to_le_bytes,
};
use crate::indexer::error::Error;

verus! {

/// Unsigned 64-bit value of eight big-endian bytes.
pub open spec fn spec_u64_from_be_bytes(s: Seq<u8>) -> u64
    recommends
        s.len() == 8,
{
    spec_u64_from_le_bytes(s.reverse())
}

/// Big-endian byte form of an unsigned 64-bit value.
pub open spec fn spec_u64_to_be_bytes(x: u64) -> Seq<u8> {
    spec_u64_to_le_bytes(x).reverse()
}

/// Reads eight big-endian bytes as an unsigned 64-bit value.
pub fn u64_from_be_bytes(s: &[u8]) -> (x: u64)
    requires
        s@.len() == 8,
    ensures
        x == spec_u64_from_be_bytes(s@),
{
    let mut rev: Vec<u8> = Vec::new();
    rev.push(s[7]);
    rev.push(s[6]);
    rev.push(s[5]);
    rev.push(s[4]);
    rev.push(s[3]);
    rev.push(s[2]);
    rev.push(s[1]);
    rev.push(s[0]);
    proof {
        assert(rev@ =~= s@.reverse());
    }
    u64_from_le_bytes(rev.as_slice())
}

/// Writes an unsigned 64-bit value as eight big-endian bytes.
pub fn u64_to_be_bytes(x: u64) -> (s: Vec<u8>)
    ensures
        s@ == spec_u64_to_be_bytes(x),
        s@.len() == 8,
{
    let le = u64_to_le_bytes(x);
    let mut s: Vec<u8> = Vec::new();
    s.push(le[7]);
    s.push(le[6]);
    s.push(le[5]);
    s.push(le[4]);
    s.push(le[3]);
    s.push(le[2]);
    s.push(le[1]);
    s.push(le[0]);
    proof {
        assert(s@ =~= le@.reverse());
    }
    s
}

/// Value of parsing swap instruction data against a pool's configured
/// discriminator: `(amount_in, min_amount_out)` on success.
///
/// Empty data cannot be parsed at all; then the leading tag byte must equal
/// the pool's discriminator (the primary filter distinguishing a swap call
/// from any other instruction the program exposes); then at least 17 bytes
/// must be present: the tag plus two 8-byte amounts. `amount_in` is read
/// little-endian from bytes [1..9), `min_amount_out` big-endian from bytes
/// [9..17). The opposite byte orders of the two fields are the layout this
/// indexer consumes today; anyone pointing it at another exchange program
/// should confirm that program's swap layout before reusing the offsets.
pub open spec fn spec_parse_swap_data(data: Seq<u8>, expected_discriminator: u8) -> Result<
    (u64, u64),
    Error,
> {
    if data.len() == 0 {
        Err(Error::FailedToParseInput)
    } else if data[0] != expected_discriminator {
        Err(Error::InvalidDiscriminator)
    } else if data.len() < 17 {
        Err(Error::DataTooShort)
    } else {
        Ok(
            (
                spec_u64_from_le_bytes(data.subrange(1, 9)),
                spec_u64_from_be_bytes(data.subrange(9, 17)),
            ),
        )
    }
}

/// Parses swap instruction data: discriminator check, then the two amounts.
pub fn parse_swap_data(data: &[u8], expected_discriminator: u8) -> (r: Result<(u64, u64), Error>)
    ensures
        r == spec_parse_swap_data(data@, expected_discriminator),
{
    if data.len() == 0 {
        return Err(Error::FailedToParseInput);
    }
    if data[0] != expected_discriminator {
        return Err(Error::InvalidDiscriminator);
    }
    if data.len() < 17 {
        return Err(Error::DataTooShort);
    }
    let amount_in = u64_from_le_bytes(vstd::slice::slice_subrange(data, 1, 9));
    let min_amount_out = u64_from_be_bytes(vstd::slice::slice_subrange(data, 9, 17));
    Ok((amount_in, min_amount_out))
}

/// Byte form of a synthetic swap payload with the given tag and amounts.
pub open spec fn spec_encode_swap_data(
    discriminator: u8,
    amount_in: u64,
    min_amount_out: u64,
) -> Seq<u8> {
    seq![discriminator] + spec_u64_to_le_bytes(amount_in) + spec_u64_to_be_bytes(min_amount_out)
}

/// Encodes a synthetic swap payload: tag byte, little-endian `amount_in`,
/// big-endian `min_amount_out`.
pub fn encode_swap_data(discriminator: u8, amount_in: u64, min_amount_out: u64) -> (data: Vec<u8>)
    ensures
        data@ == spec_encode_swap_data(discriminator, amount_in, min_amount_out),
        data@.len() == 17,
{
    proof {
        lemma_auto_spec_u64_to_from_le_bytes();
    }
    let mut data: Vec<u8> = Vec::new();
    data.push(discriminator);
    let mut le = u64_to_le_bytes(amount_in);
    data.append(&mut le);
    let mut be = u64_to_be_bytes(min_amount_out);
    data.append(&mut be);
    proof {
        assert(data@ =~= spec_encode_swap_data(discriminator, amount_in, min_amount_out));
    }
    data
}

/// Instruction data shorter than 17 bytes never parses as a swap event;
/// where the data is non-empty and carries the pool's discriminator, the
/// failure is precisely the too-short condition.
pub proof fn lemma_short_data_rejected(data: Seq<u8>, disc: u8)
    requires
        data.len() < 17,
    ensures
        spec_parse_swap_data(data, disc) is Err,
        data.len() > 0 && data[0] == disc ==> spec_parse_swap_data(data, disc) == Err::<
            (u64, u64),
            Error,
        >(Error::DataTooShort),
{
}

/// Non-empty data whose first byte is not the pool's configured
/// discriminator is rejected with the discriminator-mismatch condition.
pub proof fn lemma_wrong_discriminator_rejected(data: Seq<u8>, disc: u8)
    requires
        data.len() > 0,
        data[0] != disc,
    ensures
        spec_parse_swap_data(data, disc) == Err::<(u64, u64), Error>(Error::InvalidDiscriminator),
{
}

/// Round trip: parsing an encoded synthetic swap payload against the same
/// discriminator reproduces exactly the encoded magnitudes.
pub proof fn lemma_swap_data_round_trip(discriminator: u8, amount_in: u64, min_amount_out: u64)
    ensures
        spec_parse_swap_data(
            spec_encode_swap_data(discriminator, amount_in, min_amount_out),
            discriminator,
        ) == Ok::<(u64, u64), Error>((amount_in, min_amount_out)),
{
    lemma_auto_spec_u64_to_from_le_bytes();
    let enc = spec_encode_swap_data(discriminator, amount_in, min_amount_out);
    assert(enc.subrange(1, 9) =~= spec_u64_to_le_bytes(amount_in));
    assert(enc.subrange(9, 17) =~= spec_u64_to_be_bytes(min_amount_out));
    assert(enc.subrange(9, 17).reverse() =~= spec_u64_to_le_bytes(min_amount_out));
}

} // verus!
