use vstd::prelude::*;

verus! {

/// Tag of a monitored exchange program. Adding a pool is a data change in
/// [`TargetPool::new`], not a control-flow change anywhere else.
#[derive(Clone, Copy, Debug, PartialEq, Eq, Structural)]
pub enum PoolName {
    Raydium,
    PumpFun,
}

/// A monitored pool: its 32-byte program identity and the discriminator
/// byte that the first byte of its swap instruction data must equal.
#[derive(Debug)]
pub struct TargetPool {
    pub name: PoolName,
    pub address: Vec<u8>,
    pub instruction_discriminator: u8,
}

/// A pool entry is well formed when its program identity is a full
/// 32-byte address.
pub open spec fn pool_wf(p: &TargetPool) -> bool {
    p.address@.len() == 32
}

/// Byte form of the Raydium AMM program identity
/// `675kPX9MHTjS2zt1qfr1NYHuzeLXfQM9H24wFSUt1Mp8`.
pub open spec fn raydium_address() -> Seq<u8> {
    seq![
        75u8, 217, 73, 196, 54, 2, 195, 63, 32, 119, 144, 237, 22, 163, 82, 76,
        161, 185, 151, 92, 241, 33, 162, 169, 12, 255, 236, 125, 248, 182, 138, 205,
    ]
}

/// Byte form of the PumpFun AMM program identity
/// `pAMMBay6oceH9fJKBRHGP5D4bD4sWpmSwMn52FMfXEA`.
pub open spec fn pumpfun_address() -> Seq<u8> {
    seq![
        12u8, 20, 222, 252, 130, 94, 198, 118, 148, 37, 8, 24, 187, 101, 64, 101,
        244, 41, 141, 49, 86, 213, 113, 180, 212, 248, 9, 12, 24, 233, 168, 99,
    ]
}

/// The canonical pool registry: Raydium then PumpFun, with their fixed
/// program identities and discriminator bytes.
pub open spec fn spec_registry(pools: Seq<TargetPool>) -> bool {
    &&& pools.len() == 2
    &&& pools[0].name == PoolName::Raydium
    &&& pools[0].address@ == raydium_address()
    &&& pools[0].instruction_discriminator == 9
    &&& pools[1].name == PoolName::PumpFun
    &&& pools[1].address@ == pumpfun_address()
    &&& pools[1].instruction_discriminator == 6
}

impl TargetPool {
    /// The fixed registry of monitored pools, in its canonical order.
    pub fn new() -> (pools: Vec<TargetPool>)
        ensures
            spec_registry(pools@),
            forall|i: int| 0 <= i < pools@.len() ==> pool_wf(&pools@[i]),
    {
        let raydium: [u8; 32] = [
            75u8, 217, 73, 196, 54, 2, 195, 63, 32, 119, 144, 237, 22, 163, 82, 76,
            161, 185, 151, 92, 241, 33, 162, 169, 12, 255, 236, 125, 248, 182, 138, 205,
        ];
        let pumpfun: [u8; 32] = [
            12u8, 20, 222, 252, 130, 94, 198, 118, 148, 37, 8, 24, 187, 101, 64, 101,
            244, 41, 141, 49, 86, 213, 113, 180, 212, 248, 9, 12, 24, 233, 168, 99,
        ];
        let mut pools: Vec<TargetPool> = Vec::new();
        pools.push(TargetPool {
            name: PoolName::Raydium,
            address: vstd::slice::slice_to_vec(raydium.as_slice()),
            instruction_discriminator: 9,
        });
        pools.push(TargetPool {
            name: PoolName::PumpFun,
            address: vstd::slice::slice_to_vec(pumpfun.as_slice()),
            instruction_discriminator: 6,
        });
        proof {
            assert(pools@[0].address@ =~= raydium_address());
            assert(pools@[1].address@ =~= pumpfun_address());
        }
        pools
    }
}

} // verus!
