use vstd::prelude::*;
use crate::checks::{
    above_median, check_header_timestamp_greater_than_median, check_pow_data,
    check_target_difficulty, check_timestamp_ftl, difficulty_from_hash, hash_difficulty,
    pow_data_well_formed, within_ftl,
};
use crate::difficulty::{
    BlockHeaderAccumulatedData, BlockHeaderAccumulatedDataBuilder, Difficulty, PowAlgorithm,
    ValidationError, next_total,
};
use crate::header::{BlockHeader, ConsensusRules};
use crate::window::{DifficultyWindow, window_target};

verus! {

/// Chain storage, as the checks read it. `timestamps_of` and `window_of`
/// say what it holds; `None` where it cannot supply it.
pub trait BlockchainBackend {
    /// The timestamps of the ancestors of the header with this hash.
    spec fn timestamps_of(&self, hash: Seq<u8>) -> Option<Seq<u64>>;

    /// The samples and block time of the difficulty window of `algo` at `height`.
    spec fn window_of(&self, algo: PowAlgorithm, height: u64) -> Option<(Seq<(u64, u64)>, u32)>;

    fn fetch_block_timestamps(&self, hash: &Vec<u8>) -> (r: Result<Vec<u64>, ValidationError>)
        ensures
            r matches Ok(ts) ==> self.timestamps_of(hash@) == Some(ts@),
            r is Err ==> self.timestamps_of(hash@) is None,
    ;

    fn fetch_target_difficulty(&self, algo: PowAlgorithm, height: u64) -> (r: Result<DifficultyWindow, ValidationError>)
        ensures
            r matches Ok(w) ==> self.window_of(algo, height) == Some(w@),
            r is Err ==> self.window_of(algo, height) is None,
    ;
}

/// Computes RandomX hashes with the verifier context for a seed.
pub trait RandomXHasher {
    fn randomx_hash(&mut self, seed: &Vec<u8>, input: &Vec<u8>) -> Result<Vec<u8>, ValidationError>;
}

/// The verdict on a header, given what the checks read: the first check in
/// order of cost that fails decides it.
pub open spec fn header_verdict(
    rules: ConsensusRules,
    now: u64,
    header: BlockHeader,
    timestamps: Seq<u64>,
    target: Difficulty,
    achieved: Difficulty,
) -> Result<(), ValidationError> {
    if !within_ftl(header.timestamp, now, rules.ftl_seconds) {
        Err(ValidationError::FutureTimestamp)
    } else if !above_median(timestamps, header.timestamp) {
        Err(ValidationError::TimestampTooLow)
    } else if !pow_data_well_formed(header.pow_algo, header.pow_data@) {
        Err(ValidationError::InvalidPowData)
    } else if achieved.value < target.value {
        Err(ValidationError::DifficultyTooLow)
    } else {
        Ok(())
    }
}

/// The builder holds what a valid header adds to `previous`: its hash, its
/// target and achieved difficulty, and the totals grown by `achieved` for its
/// algorithm and carried over for the other.
pub open spec fn accumulated_from(
    b: BlockHeaderAccumulatedDataBuilder,
    header: BlockHeader,
    previous: BlockHeaderAccumulatedData,
    target: Difficulty,
    achieved: Difficulty,
) -> bool {
    &&& b.hash matches Some(h) && h@ == header.hash@
    &&& b.target_difficulty == Some(target)
    &&& b.achieved_difficulty == Some(achieved)
    &&& forall|a: PowAlgorithm| #[trigger]
        b.total_for(a) matches Some(t) && t.value == next_total(previous, header.pow_algo, achieved, a)
}

/// What a Sha3 header achieves: the difficulty of its hash, or nothing where
/// the hash is too short to read one from.
pub open spec fn sha3_achieved(hash: Seq<u8>) -> Option<Difficulty> {
    if hash.len() >= 8 {
        Some(Difficulty { value: hash_difficulty(hash) })
    } else {
        None
    }
}

/// The target that a window read from storage gives.
pub open spec fn target_of_window(window: Option<(Seq<(u64, u64)>, u32)>) -> Difficulty {
    match window {
        Some(w) => Difficulty { value: window_target(w.0, w.1) },
        None => Difficulty { value: 0 },
    }
}

/// The verdict of the whole pipeline, given what storage holds and what the
/// proof of work achieved (`None` where it could not be computed). The checks
/// run from the cheapest to the most expensive and the first failure decides:
/// the future time limit, the ancestors' timestamps and their median, the
/// payload shape, the difficulty window, the proof of work, the target, and
/// last the accumulated total.
pub open spec fn pipeline_verdict(
    rules: ConsensusRules,
    now: u64,
    header: BlockHeader,
    previous: BlockHeaderAccumulatedData,
    timestamps: Option<Seq<u64>>,
    window: Option<(Seq<(u64, u64)>, u32)>,
    achieved: Option<Difficulty>,
) -> Result<(), ValidationError> {
    if !within_ftl(header.timestamp, now, rules.ftl_seconds) {
        Err(ValidationError::FutureTimestamp)
    } else {
        match timestamps {
            None => Err(ValidationError::StorageUnavailable),
            Some(ts) => if !above_median(ts, header.timestamp) {
                Err(ValidationError::TimestampTooLow)
            } else if !pow_data_well_formed(header.pow_algo, header.pow_data@) {
                Err(ValidationError::InvalidPowData)
            } else if window is None {
                Err(ValidationError::StorageUnavailable)
            } else {
                match achieved {
                    None => Err(ValidationError::PowVerificationFailed),
                    Some(a) => if a.value < target_of_window(window).value {
                        Err(ValidationError::DifficultyTooLow)
                    } else if previous.total_for(header.pow_algo) + a.value > u64::MAX {
                        Err(ValidationError::ArithmeticOverflow)
                    } else {
                        Ok(())
                    },
                }
            },
        }
    }
}

/// `r` is what `verdict` asks for: its error, or on success the data the
/// header adds to `previous` with the window's target and `achieved`.
pub open spec fn outcome_agrees(
    r: Result<BlockHeaderAccumulatedDataBuilder, ValidationError>,
    verdict: Result<(), ValidationError>,
    header: BlockHeader,
    previous: BlockHeaderAccumulatedData,
    window: Option<(Seq<(u64, u64)>, u32)>,
    achieved: Option<Difficulty>,
) -> bool {
    match verdict {
        Err(e) => r == Err::<BlockHeaderAccumulatedDataBuilder, ValidationError>(e),
        Ok(_) => r matches Ok(b) && achieved matches Some(a) && accumulated_from(
            b,
            header,
            previous,
            target_of_window(window),
            a,
        ),
    }
}

/// The result of validating `header` against `db` is the pipeline's verdict
/// for some outcome of the proof of work, and for a Sha3 header for the one
/// its hash gives.
pub open spec fn validation_result<B: BlockchainBackend>(
    r: Result<BlockHeaderAccumulatedDataBuilder, ValidationError>,
    rules: ConsensusRules,
    now: u64,
    db: B,
    header: BlockHeader,
    previous: BlockHeaderAccumulatedData,
) -> bool {
    exists|a: Option<Difficulty>|
        (header.pow_algo == PowAlgorithm::Sha3 ==> a == sha3_achieved(header.hash@)) && #[trigger] outcome_agrees(
            r,
            pipeline_verdict(
                rules,
                now,
                header,
                previous,
                db.timestamps_of(header.hash@),
                db.window_of(header.pow_algo, header.height),
                a,
            ),
            header,
            previous,
            db.window_of(header.pow_algo, header.height),
            a,
        )
}

/// Runs the checks on values already read, in order of cost, and builds the
/// next accumulated data where they all pass.
pub fn check_header(
    rules: &ConsensusRules,
    now: u64,
    header: &BlockHeader,
    timestamps: &Vec<u64>,
    target: Difficulty,
    achieved: Difficulty,
    previous: &BlockHeaderAccumulatedData,
) -> (r: Result<BlockHeaderAccumulatedDataBuilder, ValidationError>)
    ensures
        header_verdict(*rules, now, *header, timestamps@, target, achieved) matches Err(e) ==> r == Err::<
            BlockHeaderAccumulatedDataBuilder,
            ValidationError,
        >(e),
        header_verdict(*rules, now, *header, timestamps@, target, achieved) is Ok ==> {
            if previous.total_for(header.pow_algo) + achieved.value > u64::MAX {
                r == Err::<BlockHeaderAccumulatedDataBuilder, ValidationError>(
                    ValidationError::ArithmeticOverflow,
                )
            } else {
                r matches Ok(b) && accumulated_from(b, *header, *previous, target, achieved)
            }
        },
{
    check_timestamp_ftl(header, rules, now)?;
    check_header_timestamp_greater_than_median(header, timestamps)?;
    check_pow_data(header)?;
    check_target_difficulty(achieved, target)?;
    let r = BlockHeaderAccumulatedDataBuilder::new().hash(header.hash()).target_difficulty(
        target,
    ).achieved_difficulty(previous, header.pow_algo(), achieved);
    if let Ok(b) = &r {
        assert(accumulated_from(*b, *header, *previous, target, achieved));
    }
    r
}

/// Validates headers against chain storage, computing RandomX proofs of work
/// with `randomx`.
pub struct HeaderValidator<P> {
    pub rules: ConsensusRules,
    pub randomx: P,
}

impl<P: RandomXHasher> HeaderValidator<P> {
    pub fn new(rules: ConsensusRules, randomx: P) -> (r: HeaderValidator<P>)
        ensures
            r.rules == rules,
            r.randomx == randomx,
    {
        HeaderValidator { rules, randomx }
    }

    /// The difficulty the header's proof of work achieves. A Sha3 header
    /// achieves what its hash does; a RandomX header what the RandomX hash of
    /// its hash does, under the seed it carries.
    pub fn achieved_difficulty(&mut self, header: &BlockHeader) -> (r: Result<Difficulty, ValidationError>)
        ensures
            header.pow_algo == PowAlgorithm::Sha3 ==> r == if header.hash@.len() >= 8 {
                Ok::<Difficulty, ValidationError>(Difficulty { value: hash_difficulty(header.hash@) })
            } else {
                Err(ValidationError::PowVerificationFailed)
            },
            header.pow_algo == PowAlgorithm::RandomX ==> (r matches Ok(d) ==> exists|h: Seq<u8>|
                h.len() >= 8 && d.value == #[trigger] hash_difficulty(h)),
            r is Err ==> r == Err::<Difficulty, ValidationError>(ValidationError::PowVerificationFailed),
            final(self).rules == old(self).rules,
    {
        match header.pow_algo {
            PowAlgorithm::Sha3 => {
                if header.hash.len() < 8 {
                    return Err(ValidationError::PowVerificationFailed);
                }
                Ok(difficulty_from_hash(&header.hash))
            },
            PowAlgorithm::RandomX => {
                let hash = match self.randomx.randomx_hash(&header.pow_data, &header.hash) {
                    Ok(h) => h,
                    Err(_) => return Err(ValidationError::PowVerificationFailed),
                };
                if hash.len() < 8 {
                    return Err(ValidationError::PowVerificationFailed);
                }
                Ok(difficulty_from_hash(&hash))
            },
        }
    }

    /// Calculates the achieved and target difficulties at the header's height
    /// and compares them; returns them as (achieved, target).
    pub fn check_achieved_and_target_difficulty<B: BlockchainBackend>(&mut self, db: &B, block_header: &BlockHeader) -> (r: Result<(Difficulty, Difficulty), ValidationError>)
        ensures
            db.window_of(block_header.pow_algo, block_header.height) is None ==> r == Err::<
                (Difficulty, Difficulty),
                ValidationError,
            >(ValidationError::StorageUnavailable),
            db.window_of(block_header.pow_algo, block_header.height) matches Some(w) ==> {
                &&& r matches Ok((achieved, target)) ==> target.value == window_target(w.0, w.1)
                    && target.value <= achieved.value
                &&& block_header.pow_algo == PowAlgorithm::Sha3 ==> r == match sha3_achieved(block_header.hash@) {
                    None => Err(ValidationError::PowVerificationFailed),
                    Some(a) => if a.value >= window_target(w.0, w.1) {
                        Ok((a, Difficulty { value: window_target(w.0, w.1) }))
                    } else {
                        Err(ValidationError::DifficultyTooLow)
                    },
                }
            },
            r matches Err(e) ==> e == ValidationError::StorageUnavailable || e
                == ValidationError::PowVerificationFailed || e == ValidationError::DifficultyTooLow,
            final(self).rules == old(self).rules,
    {
        let window = match db.fetch_target_difficulty(block_header.pow_algo, block_header.height) {
            Ok(w) => w,
            Err(_) => return Err(ValidationError::StorageUnavailable),
        };
        let target = window.calculate();
        let achieved = self.achieved_difficulty(block_header)?;
        check_target_difficulty(achieved, target)?;
        Ok((achieved, target))
    }

    /// Checks that the header's timestamp lies above the median of its
    /// ancestors' timestamps as storage holds them.
    pub fn check_median_timestamp<B: BlockchainBackend>(&self, db: &B, block_header: &BlockHeader) -> (r: Result<(), ValidationError>)
        ensures
            match db.timestamps_of(block_header.hash@) {
                Some(ts) => (above_median(ts, block_header.timestamp) <==> r is Ok) && (r is Err ==> r
                    == Err::<(), ValidationError>(ValidationError::TimestampTooLow)),
                None => r == Err::<(), ValidationError>(ValidationError::StorageUnavailable),
            },
    {
        let timestamps = match db.fetch_block_timestamps(&block_header.hash) {
            Ok(t) => t,
            Err(_) => return Err(ValidationError::StorageUnavailable),
        };
        check_header_timestamp_greater_than_median(block_header, &timestamps)
    }

    /// Runs the pipeline and hands back, beside the result, the outcome of
    /// the proof of work it saw.
    fn run_pipeline<B: BlockchainBackend>(
        &mut self,
        db: &B,
        header: &BlockHeader,
        previous_data: &BlockHeaderAccumulatedData,
        now: u64,
    ) -> (res: (Result<BlockHeaderAccumulatedDataBuilder, ValidationError>, Ghost<Option<Difficulty>>))
        ensures
            header.pow_algo == PowAlgorithm::Sha3 ==> res.1@ == sha3_achieved(header.hash@),
            outcome_agrees(
                res.0,
                pipeline_verdict(
                    old(self).rules,
                    now,
                    *header,
                    *previous_data,
                    db.timestamps_of(header.hash@),
                    db.window_of(header.pow_algo, header.height),
                    res.1@,
                ),
                *header,
                *previous_data,
                db.window_of(header.pow_algo, header.height),
                res.1@,
            ),
            final(self).rules == old(self).rules,
    {
        let ghost unseen: Option<Difficulty> = if header.pow_algo == PowAlgorithm::Sha3 {
            sha3_achieved(header.hash@)
        } else {
            None
        };
        if let Err(e) = check_timestamp_ftl(header, &self.rules, now) {
            return (Err(e), Ghost(unseen));
        }
        let timestamps = match db.fetch_block_timestamps(&header.hash) {
            Ok(t) => t,
            Err(_) => return (Err(ValidationError::StorageUnavailable), Ghost(unseen)),
        };
        if let Err(e) = check_header_timestamp_greater_than_median(header, &timestamps) {
            return (Err(e), Ghost(unseen));
        }
        if let Err(e) = check_pow_data(header) {
            return (Err(e), Ghost(unseen));
        }
        let window = match db.fetch_target_difficulty(header.pow_algo, header.height) {
            Ok(w) => w,
            Err(_) => return (Err(ValidationError::StorageUnavailable), Ghost(unseen)),
        };
        let target = window.calculate();
        let achieved = match self.achieved_difficulty(header) {
            Ok(a) => a,
            Err(e) => return (Err(e), Ghost(None)),
        };
        let r = check_header(&self.rules, now, header, &timestamps, target, achieved, previous_data);
        (r, Ghost(Some(achieved)))
    }

    /// Validates `header` as the successor of `previous_data`'s header, at
    /// local time `now`. The checks run from the cheapest to the most
    /// expensive and the first failure ends the run: the future time limit,
    /// the median of the ancestors' timestamps, the shape of the proof-of-work
    /// payload, and last the achieved against the target difficulty.
    pub fn validate_header<B: BlockchainBackend>(
        &mut self,
        db: &B,
        header: &BlockHeader,
        previous_data: &BlockHeaderAccumulatedData,
        now: u64,
    ) -> (r: Result<BlockHeaderAccumulatedDataBuilder, ValidationError>)
        ensures
            validation_result(r, old(self).rules, now, *db, *header, *previous_data),
            !within_ftl(header.timestamp, now, old(self).rules.ftl_seconds) <==> r == Err::<
                BlockHeaderAccumulatedDataBuilder,
                ValidationError,
            >(ValidationError::FutureTimestamp),
            r matches Ok(b) ==> (within_ftl(header.timestamp, now, old(self).rules.ftl_seconds)
                && pow_data_well_formed(header.pow_algo, header.pow_data@) && exists|
                target: Difficulty,
                achieved: Difficulty,
            |
                target.value <= achieved.value && accumulated_from(
                    b,
                    *header,
                    *previous_data,
                    target,
                    achieved,
                )),
            final(self).rules == old(self).rules,
    {
        let ghost rules = self.rules;
        let (r, Ghost(a)) = self.run_pipeline(db, header, previous_data, now);
        proof {
            let v = pipeline_verdict(
                rules,
                now,
                *header,
                *previous_data,
                db.timestamps_of(header.hash@),
                db.window_of(header.pow_algo, header.height),
                a,
            );
            assert(outcome_agrees(r, v, *header, *previous_data, db.window_of(header.pow_algo, header.height), a));
            if r is Ok {
                let b = r->Ok_0;
                let t = target_of_window(db.window_of(header.pow_algo, header.height));
                let ach = a.unwrap();
                assert(t.value <= ach.value && accumulated_from(b, *header, *previous_data, t, ach));
            }
        }
        r
    }
}

} // verus!
