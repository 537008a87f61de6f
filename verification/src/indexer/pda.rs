use vstd::prelude::*;
use std::str::FromStr;
use solana_pubkey::Pubkey;

verus! {

/// The 32 address bytes that `solana_pubkey::Pubkey::from_str` decodes a
/// base58 string to, where the string is a well-formed base58 form of
/// exactly 32 bytes; the result depends on the string alone.
pub uninterp spec fn spec_pubkey_from_str(s: Seq<char>) -> Option<Seq<u8>>;

/// The program-derived address that `Pubkey::try_find_program_address`
/// computes for two seeds and a program identity (searching bump seeds
/// from 255 downward); a function of its three arguments alone.
pub uninterp spec fn spec_derived_address(seed1: Seq<u8>, seed2: Seq<u8>, program: Seq<u8>) -> Option<
    Seq<u8>,
>;

/// Relies on `solana_pubkey::Pubkey::from_str`: base58-decodes a string
/// into exactly 32 address bytes, failing on malformed or wrongly-sized
/// input.
#[verifier::external_body]
pub(crate) fn pubkey_from_str(s: &str) -> (r: Option<Vec<u8>>)
    ensures
        r matches Some(b) ==> spec_pubkey_from_str(s@) == Some(b@) && b@.len() == 32,
        r is None ==> spec_pubkey_from_str(s@) is None,
{
    match Pubkey::from_str(s) {
        Ok(pk) => Some(pk.to_bytes().to_vec()),
        Err(_) => None,
    }
}

/// Relies on `solana_pubkey::Pubkey::try_find_program_address` with the
/// two given seeds: derives the program-derived address, returning `None`
/// when a seed exceeds the maximum seed length or in the statistically
/// improbable event that no bump seed yields a valid address.
#[verifier::external_body]
pub(crate) fn derive_program_address(seed1: &[u8], seed2: &[u8], program: &Vec<u8>) -> (r: Option<Vec<u8>>)
    requires
        program@.len() == 32,
    ensures
        r matches Some(b) ==> spec_derived_address(seed1@, seed2@, program@) == Some(b@)
            && b@.len() == 32,
        r is None ==> spec_derived_address(seed1@, seed2@, program@) is None,
{
    let mut arr = [0u8; 32];
    arr.copy_from_slice(program.as_slice());
    let program_id = Pubkey::new_from_array(arr);
    Pubkey::try_find_program_address(&[seed1, seed2], &program_id).map(
        |found: (Pubkey, u8)| found.0.to_bytes().to_vec(),
    )
}

} // verus!
