use vstd::prelude::*;

verus! {

/// The proof-of-work algorithms a header may declare.
#[derive(Clone, Copy, Debug, PartialEq, Eq, Structural)]
pub enum PowAlgorithm {
    RandomX,
    Sha3,
}

/// An amount of work. Additions are checked and never wrap.
#[derive(Clone, Copy, Debug, PartialEq, Eq, Structural)]
pub struct Difficulty {
    pub value: u64,
}

/// The ways a header can be rejected.
#[derive(Clone, Copy, Debug, PartialEq, Eq, Structural)]
pub enum ValidationError {
    /// The timestamp lies beyond the future time limit.
    FutureTimestamp,
    /// The timestamp is not above the median of the ancestors' timestamps.
    TimestampTooLow,
    /// The proof-of-work payload does not fit the declared algorithm.
    InvalidPowData,
    /// The achieved difficulty is below the target difficulty.
    DifficultyTooLow,
    /// The verifier context could not be built, or the hash not computed.
    PowVerificationFailed,
    /// Chain storage could not supply what a check needs.
    StorageUnavailable,
    /// An accumulated total would not fit.
    ArithmeticOverflow,
}

impl Difficulty {
    pub fn from_u64(value: u64) -> (r: Difficulty)
        ensures
            r.value == value,
    {
        Difficulty { value }
    }

    pub fn as_u64(&self) -> (r: u64)
        ensures
            r == self.value,
    {
        self.value
    }

    /// The sum of two difficulties, or `None` where it would not fit.
    pub fn checked_add(self, other: Difficulty) -> (r: Option<Difficulty>)
        ensures
            self.value + other.value <= u64::MAX ==> r == Some(
                Difficulty { value: (self.value + other.value) as u64 },
            ),
            self.value + other.value > u64::MAX ==> r is None,
    {
        if self.value <= u64::MAX - other.value {
            Some(Difficulty { value: self.value + other.value })
        } else {
            None
        }
    }
}

/// The running totals of a chain tip, built once per valid header.
#[derive(Clone, Debug)]
pub struct BlockHeaderAccumulatedData {
    pub hash: Vec<u8>,
    pub total_randomx_difficulty: Difficulty,
    pub total_sha3_difficulty: Difficulty,
    pub target_difficulty: Difficulty,
    pub achieved_difficulty: Difficulty,
}

impl BlockHeaderAccumulatedData {
    /// The accumulated total for one algorithm.
    pub open spec fn total_for(&self, algo: PowAlgorithm) -> u64 {
        match algo {
            PowAlgorithm::RandomX => self.total_randomx_difficulty.value,
            PowAlgorithm::Sha3 => self.total_sha3_difficulty.value,
        }
    }

    /// The data of the genesis header: nothing accumulated yet.
    pub fn genesis(hash: Vec<u8>) -> (r: BlockHeaderAccumulatedData)
        ensures
            r.hash@ == hash@,
            r.total_randomx_difficulty.value == 0,
            r.total_sha3_difficulty.value == 0,
            r.target_difficulty.value == 0,
            r.achieved_difficulty.value == 0,
    {
        BlockHeaderAccumulatedData {
            hash,
            total_randomx_difficulty: Difficulty { value: 0 },
            total_sha3_difficulty: Difficulty { value: 0 },
            target_difficulty: Difficulty { value: 0 },
            achieved_difficulty: Difficulty { value: 0 },
        }
    }

    pub fn total_accumulated_difficulty(&self, algo: PowAlgorithm) -> (r: Difficulty)
        ensures
            r.value == self.total_for(algo),
    {
        match algo {
            PowAlgorithm::RandomX => self.total_randomx_difficulty,
            PowAlgorithm::Sha3 => self.total_sha3_difficulty,
        }
    }
}

/// Collects the parts of the next accumulated data; `build` finalises it.
#[derive(Clone, Debug)]
pub struct BlockHeaderAccumulatedDataBuilder {
    pub hash: Option<Vec<u8>>,
    pub target_difficulty: Option<Difficulty>,
    pub achieved_difficulty: Option<Difficulty>,
    pub total_randomx_difficulty: Option<Difficulty>,
    pub total_sha3_difficulty: Option<Difficulty>,
}

/// The total for `algo` after a header of that algorithm achieved `achieved`.
pub open spec fn next_total(
    previous: BlockHeaderAccumulatedData,
    header_algo: PowAlgorithm,
    achieved: Difficulty,
    algo: PowAlgorithm,
) -> int {
    if algo == header_algo {
        previous.total_for(algo) + achieved.value
    } else {
        previous.total_for(algo) as int
    }
}

/// Accumulated totals never decrease: each one after a header is at least
/// what it was before, whatever the header achieved.
pub proof fn lemma_totals_never_decrease(
    previous: BlockHeaderAccumulatedData,
    header_algo: PowAlgorithm,
    achieved: Difficulty,
    algo: PowAlgorithm,
)
    ensures
        next_total(previous, header_algo, achieved, algo) >= previous.total_for(algo),
        algo != header_algo ==> next_total(previous, header_algo, achieved, algo) == previous.total_for(algo),
        algo == header_algo ==> next_total(previous, header_algo, achieved, algo) == previous.total_for(algo)
            + achieved.value,
{
}

impl BlockHeaderAccumulatedDataBuilder {
    /// An empty builder.
    pub fn new() -> (r: BlockHeaderAccumulatedDataBuilder)
        ensures
            r.hash is None,
            r.target_difficulty is None,
            r.achieved_difficulty is None,
            r.total_randomx_difficulty is None,
            r.total_sha3_difficulty is None,
    {
        BlockHeaderAccumulatedDataBuilder {
            hash: None,
            target_difficulty: None,
            achieved_difficulty: None,
            total_randomx_difficulty: None,
            total_sha3_difficulty: None,
        }
    }

    /// The total for `algo`, where it has been set.
    pub open spec fn total_for(&self, algo: PowAlgorithm) -> Option<Difficulty> {
        match algo {
            PowAlgorithm::RandomX => self.total_randomx_difficulty,
            PowAlgorithm::Sha3 => self.total_sha3_difficulty,
        }
    }

    pub fn hash(self, hash: Vec<u8>) -> (r: BlockHeaderAccumulatedDataBuilder)
        ensures
            r.hash matches Some(h) && h@ == hash@,
            r.target_difficulty == self.target_difficulty,
            r.achieved_difficulty == self.achieved_difficulty,
            r.total_randomx_difficulty == self.total_randomx_difficulty,
            r.total_sha3_difficulty == self.total_sha3_difficulty,
    {
        BlockHeaderAccumulatedDataBuilder { hash: Some(hash), ..self }
    }

    pub fn target_difficulty(self, target: Difficulty) -> (r: BlockHeaderAccumulatedDataBuilder)
        ensures
            r.hash == self.hash,
            r.target_difficulty == Some(target),
            r.achieved_difficulty == self.achieved_difficulty,
            r.total_randomx_difficulty == self.total_randomx_difficulty,
            r.total_sha3_difficulty == self.total_sha3_difficulty,
    {
        BlockHeaderAccumulatedDataBuilder { target_difficulty: Some(target), ..self }
    }

    /// Records the achieved difficulty of a header of algorithm `algo` and the
    /// totals that follow from `previous`: the total for `algo` grows by
    /// `achieved`, the other is carried over. Fails where the sum would not fit.
    pub fn achieved_difficulty(
        self,
        previous: &BlockHeaderAccumulatedData,
        algo: PowAlgorithm,
        achieved: Difficulty,
    ) -> (r: Result<BlockHeaderAccumulatedDataBuilder, ValidationError>)
        ensures
            previous.total_for(algo) + achieved.value > u64::MAX <==> r == Err::<
                BlockHeaderAccumulatedDataBuilder,
                ValidationError,
            >(ValidationError::ArithmeticOverflow),
            r is Err ==> r == Err::<BlockHeaderAccumulatedDataBuilder, ValidationError>(
                ValidationError::ArithmeticOverflow,
            ),
            r matches Ok(b) ==> {
                &&& b.hash == self.hash
                &&& b.target_difficulty == self.target_difficulty
                &&& b.achieved_difficulty == Some(achieved)
                &&& forall|a: PowAlgorithm| #[trigger]
                    b.total_for(a) matches Some(t) && t.value == next_total(
                        *previous,
                        algo,
                        achieved,
                        a,
                    )
            },
    {
        let previous_total = previous.total_accumulated_difficulty(algo);
        match previous_total.checked_add(achieved) {
            None => Err(ValidationError::ArithmeticOverflow),
            Some(total) => {
                let (randomx, sha3) = match algo {
                    PowAlgorithm::RandomX => (total, previous.total_sha3_difficulty),
                    PowAlgorithm::Sha3 => (previous.total_randomx_difficulty, total),
                };
                Ok(
                    BlockHeaderAccumulatedDataBuilder {
                        achieved_difficulty: Some(achieved),
                        total_randomx_difficulty: Some(randomx),
                        total_sha3_difficulty: Some(sha3),
                        ..self
                    },
                )
            },
        }
    }

    /// The finished data, or `None` where a part has not been set.
    pub fn build(self) -> (r: Option<BlockHeaderAccumulatedData>)
        ensures
            (self.hash is Some && self.target_difficulty is Some && self.achieved_difficulty is Some
                && self.total_randomx_difficulty is Some && self.total_sha3_difficulty is Some)
                <==> r is Some,
            r matches Some(d) ==> {
                &&& self.hash matches Some(h) && d.hash@ == h@
                &&& self.target_difficulty == Some(d.target_difficulty)
                &&& self.achieved_difficulty == Some(d.achieved_difficulty)
                &&& self.total_randomx_difficulty == Some(d.total_randomx_difficulty)
                &&& self.total_sha3_difficulty == Some(d.total_sha3_difficulty)
            },
    {
        match (
            self.hash,
            self.target_difficulty,
            self.achieved_difficulty,
            self.total_randomx_difficulty,
            self.total_sha3_difficulty,
        ) {
            (Some(hash), Some(target), Some(achieved), Some(randomx), Some(sha3)) => Some(
                BlockHeaderAccumulatedData {
                    hash,
                    total_randomx_difficulty: randomx,
                    total_sha3_difficulty: sha3,
                    target_difficulty: target,
                    achieved_difficulty: achieved,
                },
            ),
            _ => None,
        }
    }
}

} // verus!
