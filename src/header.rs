use vstd::prelude::*;
use crate::difficulty::PowAlgorithm;

verus! {

/// The length of the seed that a RandomX header carries as its payload.
pub const RANDOMX_SEED_LEN: usize = 32;

/// A block header as the checks read it.
#[derive(Clone, Debug)]
pub struct BlockHeader {
    pub height: u64,
    /// Seconds since the epoch.
    pub timestamp: u64,
    pub pow_algo: PowAlgorithm,
    /// The algorithm-specific proof-of-work payload.
    pub pow_data: Vec<u8>,
    /// The content hash of the header; the input of the proof of work.
    pub hash: Vec<u8>,
}

/// Consensus configuration that the checks consume.
#[derive(Clone, Copy, Debug)]
pub struct ConsensusRules {
    /// How many seconds a timestamp may lie ahead of the local clock.
    pub ftl_seconds: u64,
}

impl BlockHeader {
    pub fn pow_algo(&self) -> (r: PowAlgorithm)
        ensures
            r == self.pow_algo,
    {
        self.pow_algo
    }

    pub fn hash(&self) -> (r: Vec<u8>)
        ensures
            r@ == self.hash@,
    {
        self.hash.clone()
    }
}

} // verus!
