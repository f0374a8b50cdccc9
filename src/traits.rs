use vstd::prelude::*;
use crate::difficulty::{BlockHeaderAccumulatedData, BlockHeaderAccumulatedDataBuilder, ValidationError};
use crate::checks::{pow_data_well_formed, within_ftl};
use crate::difficulty::Difficulty;
use crate::header::{BlockHeader, ConsensusRules};
use crate::validator::{
    accumulated_from, validation_result, BlockchainBackend, HeaderValidator, RandomXHasher,
};

verus! {

/// A block: its header and its body, kept in serialised form; the body's
/// checks are left to the implementations of the traits below.
#[derive(Clone, Debug)]
pub struct Block {
    pub header: BlockHeader,
    pub body: Vec<u8>,
}

/// A block stored in the chain, with the accumulated data of its header.
#[derive(Clone, Debug)]
pub struct ChainBlock {
    pub block: Block,
    pub accumulated_data: BlockHeaderAccumulatedData,
}

/// A transaction, in serialised form.
#[derive(Clone, Debug)]
pub struct Transaction {
    pub body: Vec<u8>,
}

/// Validates a candidate block against chain storage.
pub trait CandidateBlockValidation<B> {
    fn validate(&self, item: &Block, backend: &B) -> Result<(), ValidationError>;
}

/// Validates a block body, its header having been validated already.
pub trait CandidateBlockBodyValidation {
    fn validate_body(&self, block: &ChainBlock) -> Result<(), ValidationError>;
}

/// Validates a transaction before it enters the mempool.
pub trait MempoolTransactionValidation {
    fn validate(&self, transaction: &Transaction) -> Result<(), ValidationError>;
}

/// Validates a block that does not yet connect to the chain.
pub trait OrphanValidation {
    fn validate(&self, item: &Block) -> Result<(), ValidationError>;
}

/// Validates a header as the successor of `previous_header`, at local time
/// `now`, and builds the accumulated data it leads to. The result is the
/// verdict of the check pipeline under the validator's consensus rules.
pub trait HeaderValidation<B: BlockchainBackend> {
    /// The consensus rules the validator applies.
    spec fn consensus_rules(&self) -> ConsensusRules;

    fn validate(
        &mut self,
        db: &B,
        header: &BlockHeader,
        previous_header: &BlockHeader,
        previous_data: &BlockHeaderAccumulatedData,
        now: u64,
    ) -> (r: Result<BlockHeaderAccumulatedDataBuilder, ValidationError>)
        ensures
            validation_result(r, old(self).consensus_rules(), now, *db, *header, *previous_data),
            !within_ftl(header.timestamp, now, old(self).consensus_rules().ftl_seconds) <==> r
                == Err::<BlockHeaderAccumulatedDataBuilder, ValidationError>(
                ValidationError::FutureTimestamp,
            ),
            r matches Ok(b) ==> (within_ftl(header.timestamp, now, old(self).consensus_rules().ftl_seconds)
                && pow_data_well_formed(header.pow_algo, header.pow_data@) && exists|
                target: Difficulty,
                achieved: Difficulty,
            |
                target.value <= achieved.value && accumulated_from(
                    b,
                    *header,
                    *previous_data,
                    target,
                    achieved,
                )),
            final(self).consensus_rules() == old(self).consensus_rules(),
    ;
}

/// A last check on a header once everything else about it has passed.
pub trait FinalHeaderStateValidation {
    fn validate(&self, header: &BlockHeader) -> Result<(), ValidationError>;
}

impl<B: BlockchainBackend, P: RandomXHasher> HeaderValidation<B> for HeaderValidator<P> {
    open spec fn consensus_rules(&self) -> ConsensusRules {
        self.rules
    }

    fn validate(
        &mut self,
        db: &B,
        header: &BlockHeader,
        _previous_header: &BlockHeader,
        previous_data: &BlockHeaderAccumulatedData,
        now: u64,
    ) -> (r: Result<BlockHeaderAccumulatedDataBuilder, ValidationError>) {
        self.validate_header(db, header, previous_data, now)
    }
}

} // verus!
