use header_validation::cache::VerifierCache;
use header_validation::checks::{
    check_header_timestamp_greater_than_median, check_pow_data, check_target_difficulty,
    check_timestamp_ftl, difficulty_from_hash,
};
use header_validation::difficulty::{
    BlockHeaderAccumulatedData, BlockHeaderAccumulatedDataBuilder, Difficulty, PowAlgorithm,
    ValidationError,
};
use header_validation::header::{BlockHeader, ConsensusRules};
use header_validation::traits::HeaderValidation;
use header_validation::validator::{check_header, BlockchainBackend, HeaderValidator, RandomXHasher};
use header_validation::window::DifficultyWindow;
use std::cell::Cell;
use vstd::seq::Seq;

struct Storage {
    timestamps: Result<Vec<u64>, ValidationError>,
    samples: Vec<(u64, u64)>,
    block_time: u32,
    window_fetches: Cell<usize>,
}

impl BlockchainBackend for Storage {
    // The two models serve proofs only; running code never evaluates them.
    fn timestamps_of(&self, _hash: Seq<u8>) -> Option<Seq<u64>> {
        None
    }

    fn window_of(&self, _algo: PowAlgorithm, _height: u64) -> Option<(Seq<(u64, u64)>, u32)> {
        None
    }

    fn fetch_block_timestamps(&self, _hash: &Vec<u8>) -> Result<Vec<u64>, ValidationError> {
        self.timestamps.clone()
    }

    fn fetch_target_difficulty(&self, _algo: PowAlgorithm, _height: u64) -> Result<DifficultyWindow, ValidationError> {
        self.window_fetches.set(self.window_fetches.get() + 1);
        DifficultyWindow::new(self.block_time, self.samples.clone()).ok_or(ValidationError::StorageUnavailable)
    }
}

struct FixedHasher {
    result: Result<Vec<u8>, ValidationError>,
    calls: usize,
}

impl RandomXHasher for FixedHasher {
    fn randomx_hash(&mut self, _seed: &Vec<u8>, _input: &Vec<u8>) -> Result<Vec<u8>, ValidationError> {
        self.calls += 1;
        self.result.clone()
    }
}

/// A 32-byte hash whose first eight bytes are `prefix`, big-endian.
fn hash_with_prefix(prefix: u64) -> Vec<u8> {
    let mut h = prefix.to_be_bytes().to_vec();
    h.extend_from_slice(&[0xaa; 24]);
    h
}

/// A hash that achieves exactly `d` (for `d` well below `u64::MAX`).
fn hash_achieving(d: u64) -> Vec<u8> {
    hash_with_prefix(u64::MAX / d)
}

fn sha3_header(height: u64, timestamp: u64, hash: Vec<u8>) -> BlockHeader {
    BlockHeader { height, timestamp, pow_algo: PowAlgorithm::Sha3, pow_data: vec![], hash }
}

fn rules() -> ConsensusRules {
    ConsensusRules { ftl_seconds: 7200 }
}

fn previous() -> BlockHeaderAccumulatedData {
    BlockHeaderAccumulatedData {
        hash: vec![1; 32],
        total_randomx_difficulty: Difficulty::from_u64(500),
        total_sha3_difficulty: Difficulty::from_u64(7000),
        target_difficulty: Difficulty::from_u64(100),
        achieved_difficulty: Difficulty::from_u64(200),
    }
}

fn storage(timestamps: Vec<u64>, samples: Vec<(u64, u64)>) -> Storage {
    Storage { timestamps: Ok(timestamps), samples, block_time: 60, window_fetches: Cell::new(0) }
}

fn validator(hash: Result<Vec<u8>, ValidationError>) -> HeaderValidator<FixedHasher> {
    HeaderValidator::new(rules(), FixedHasher { result: hash, calls: 0 })
}

#[test]
fn ftl_check_bounds() {
    let r = rules();
    assert_eq!(check_timestamp_ftl(&sha3_header(1, 17200, vec![0; 32]), &r, 10000), Ok(()));
    assert_eq!(
        check_timestamp_ftl(&sha3_header(1, 17201, vec![0; 32]), &r, 10000),
        Err(ValidationError::FutureTimestamp)
    );
    assert_eq!(check_timestamp_ftl(&sha3_header(1, 5, vec![0; 32]), &r, 10000), Ok(()));
    assert_eq!(check_timestamp_ftl(&sha3_header(1, u64::MAX, vec![0; 32]), &r, u64::MAX - 1), Ok(()));
}

#[test]
fn median_check_scenario() {
    let h = sha3_header(100, 5000, vec![0; 32]);
    assert_eq!(check_header_timestamp_greater_than_median(&h, &vec![4990, 4995, 4998]), Ok(()));
    assert_eq!(check_header_timestamp_greater_than_median(&h, &vec![4998, 4990, 4995]), Ok(()));
    let at_median = sha3_header(100, 4995, vec![0; 32]);
    assert_eq!(
        check_header_timestamp_greater_than_median(&at_median, &vec![4990, 4995, 4998]),
        Err(ValidationError::TimestampTooLow)
    );
}

#[test]
fn median_check_edges() {
    let h = sha3_header(100, 5000, vec![0; 32]);
    assert_eq!(check_header_timestamp_greater_than_median(&h, &vec![]), Err(ValidationError::TimestampTooLow));
    assert_eq!(check_header_timestamp_greater_than_median(&h, &vec![4999]), Ok(()));
    // an even count: the median is the upper of the two middle elements
    assert_eq!(
        check_header_timestamp_greater_than_median(&h, &vec![1, 2, 5000, 6000]),
        Err(ValidationError::TimestampTooLow)
    );
    assert_eq!(check_header_timestamp_greater_than_median(&h, &vec![1, 2, 4999, 6000]), Ok(()));
    assert_eq!(
        check_header_timestamp_greater_than_median(&h, &vec![5000, 5000, 5000]),
        Err(ValidationError::TimestampTooLow)
    );
}

#[test]
fn pow_data_shapes() {
    let mut h = sha3_header(1, 1, vec![0; 32]);
    assert_eq!(check_pow_data(&h), Ok(()));
    h.pow_data = vec![1];
    assert_eq!(check_pow_data(&h), Err(ValidationError::InvalidPowData));
    h.pow_algo = PowAlgorithm::RandomX;
    assert_eq!(check_pow_data(&h), Err(ValidationError::InvalidPowData));
    h.pow_data = vec![7; 32];
    assert_eq!(check_pow_data(&h), Ok(()));
    h.pow_data = vec![7; 33];
    assert_eq!(check_pow_data(&h), Err(ValidationError::InvalidPowData));
}

#[test]
fn difficulty_of_hashes() {
    assert_eq!(difficulty_from_hash(&hash_with_prefix(1)).as_u64(), u64::MAX);
    assert_eq!(difficulty_from_hash(&hash_with_prefix(0)).as_u64(), u64::MAX);
    assert_eq!(difficulty_from_hash(&hash_with_prefix(256)).as_u64(), u64::MAX / 256);
    assert_eq!(difficulty_from_hash(&hash_with_prefix(u64::MAX)).as_u64(), 1);
    assert_eq!(difficulty_from_hash(&hash_achieving(1000)).as_u64(), 1000);
    assert_eq!(difficulty_from_hash(&vec![0, 0, 0, 0, 0, 0, 1, 0]).as_u64(), u64::MAX / 256);
}

#[test]
fn target_comparison() {
    assert_eq!(check_target_difficulty(Difficulty::from_u64(1500), Difficulty::from_u64(1500)), Ok(()));
    assert_eq!(
        check_target_difficulty(Difficulty::from_u64(1000), Difficulty::from_u64(1500)),
        Err(ValidationError::DifficultyTooLow)
    );
}

#[test]
fn checked_addition() {
    assert_eq!(Difficulty::from_u64(2).checked_add(Difficulty::from_u64(3)), Some(Difficulty::from_u64(5)));
    assert_eq!(Difficulty::from_u64(u64::MAX).checked_add(Difficulty::from_u64(0)), Some(Difficulty::from_u64(u64::MAX)));
    assert_eq!(Difficulty::from_u64(u64::MAX).checked_add(Difficulty::from_u64(1)), None);
}

#[test]
fn accumulation_adds_to_declared_algorithm_only() {
    let prev = previous();
    let b = BlockHeaderAccumulatedDataBuilder::new()
        .hash(vec![9; 32])
        .target_difficulty(Difficulty::from_u64(40))
        .achieved_difficulty(&prev, PowAlgorithm::Sha3, Difficulty::from_u64(45))
        .unwrap();
    let d = b.build().unwrap();
    assert_eq!(d.total_sha3_difficulty.as_u64(), 7045);
    assert_eq!(d.total_randomx_difficulty.as_u64(), 500);
    assert_eq!(d.achieved_difficulty.as_u64(), 45);
    assert_eq!(d.target_difficulty.as_u64(), 40);
    assert_eq!(d.hash, vec![9; 32]);
    let b = BlockHeaderAccumulatedDataBuilder::new()
        .achieved_difficulty(&prev, PowAlgorithm::RandomX, Difficulty::from_u64(11))
        .unwrap();
    assert_eq!(b.total_randomx_difficulty, Some(Difficulty::from_u64(511)));
    assert_eq!(b.total_sha3_difficulty, Some(Difficulty::from_u64(7000)));
    assert!(b.build().is_none());
}

#[test]
fn accumulation_overflow_is_an_error() {
    let prev = previous();
    let r = BlockHeaderAccumulatedDataBuilder::new().achieved_difficulty(
        &prev,
        PowAlgorithm::Sha3,
        Difficulty::from_u64(u64::MAX - 6999),
    );
    assert_eq!(r.err(), Some(ValidationError::ArithmeticOverflow));
    let genesis = BlockHeaderAccumulatedData::genesis(vec![0; 32]);
    assert_eq!(genesis.total_accumulated_difficulty(PowAlgorithm::RandomX).as_u64(), 0);
}

#[test]
fn window_target_values() {
    let w = DifficultyWindow::new(60, vec![(0, 100), (60, 100), (120, 100)]).unwrap();
    assert_eq!(w.calculate().as_u64(), 150);
    let w = DifficultyWindow::new(60, vec![(0, 750), (60, 750)]).unwrap();
    assert_eq!(w.calculate().as_u64(), 1500);
    let single = DifficultyWindow::new(60, vec![(5, 1000)]).unwrap();
    assert_eq!(single.calculate().as_u64(), 1);
    let empty = DifficultyWindow::new(60, vec![]).unwrap();
    assert_eq!(empty.calculate().as_u64(), 1);
    let same_time = DifficultyWindow::new(2, vec![(5, 10), (5, 20)]).unwrap();
    assert_eq!(same_time.calculate().as_u64(), 60);
    let huge = DifficultyWindow::new(u32::MAX, vec![(0, u64::MAX), (1, u64::MAX)]).unwrap();
    assert_eq!(huge.calculate().as_u64(), u64::MAX);
    let tiny = DifficultyWindow::new(1, vec![(0, 1), (1000, 1)]).unwrap();
    assert_eq!(tiny.calculate().as_u64(), 1);
    assert!(DifficultyWindow::new(60, vec![(10, 1), (9, 1)]).is_none());
    assert!(DifficultyWindow::new(60, vec![(0, 1); 65537]).is_none());
    assert_eq!(DifficultyWindow::new(60, vec![(0, 1); 65536]).unwrap().len(), 65536);
}

#[test]
fn window_calculation_repeats() {
    let w = DifficultyWindow::new(120, vec![(0, 300), (90, 500), (200, 800)]).unwrap();
    let first = w.calculate();
    assert_eq!(first, w.calculate());
    assert_eq!(first.as_u64(), 1600 * 120 / 200);
}

fn seed(i: u8) -> Vec<u8> {
    vec![i; 32]
}

#[test]
fn cache_evicts_oldest_of_six() {
    let mut c: VerifierCache<u32> = VerifierCache::new(5);
    for i in 1..=6u8 {
        c.insert(seed(i), 100 + i as u64, i as u32);
    }
    assert_eq!(c.len(), 5);
    assert!(!c.contains(&seed(1)));
    for i in 2..=6u8 {
        assert!(c.contains(&seed(i)));
    }
}

#[test]
fn cache_bound_after_many_inserts() {
    let mut c: VerifierCache<u32> = VerifierCache::new(4);
    for i in 0..11u8 {
        c.insert(seed(i), i as u64, i as u32);
        assert!(c.len() <= 4);
    }
    assert_eq!(c.len(), 4);
    for i in 0..7u8 {
        assert!(!c.contains(&seed(i)));
    }
    for i in 7..11u8 {
        let p = c.position(&seed(i)).unwrap();
        assert_eq!(*c.get(p), i as u32);
    }
}

#[test]
fn cache_recently_used_entry_stays() {
    let mut c: VerifierCache<u32> = VerifierCache::new(2);
    c.insert(seed(1), 10, 1);
    c.insert(seed(2), 20, 2);
    let p = c.position(&seed(1)).unwrap();
    c.touch(p, 30);
    assert_eq!(c.last_access_at(p), 30);
    c.insert(seed(3), 40, 3);
    assert!(c.contains(&seed(1)));
    assert!(!c.contains(&seed(2)));
    assert!(c.contains(&seed(3)));
}

#[test]
fn cache_ties_evict_the_earliest() {
    let mut c: VerifierCache<u32> = VerifierCache::new(2);
    c.insert(seed(1), 10, 1);
    c.insert(seed(2), 10, 2);
    assert_eq!(c.oldest(), 0);
    c.insert(seed(3), 10, 3);
    assert!(!c.contains(&seed(1)));
    assert_eq!(c.seed_at(0), &seed(2));
    assert_eq!(c.max_entries(), 2);
}

#[test]
fn cache_acquire_builds_once() {
    let mut c: VerifierCache<u32> = VerifierCache::new(3);
    let builds = Cell::new(0);
    let build = || {
        builds.set(builds.get() + 1);
        Ok::<u32, ValidationError>(77)
    };
    let i = c.acquire(&seed(5), 1, build).unwrap();
    assert_eq!(*c.get(i), 77);
    let j = c.acquire(&seed(5), 2, || {
        builds.set(builds.get() + 1);
        Ok::<u32, ValidationError>(88)
    })
    .unwrap();
    assert_eq!(i, j);
    assert_eq!(*c.get(j), 77);
    assert_eq!(c.last_access_at(j), 2);
    assert_eq!(builds.get(), 1);
}

#[test]
fn cache_acquire_failure_leaves_cache_unchanged() {
    let mut c: VerifierCache<u32> = VerifierCache::new(1);
    c.insert(seed(1), 5, 1);
    let r = c.acquire(&seed(2), 9, || Err::<u32, ValidationError>(ValidationError::PowVerificationFailed));
    assert_eq!(r, Err(ValidationError::PowVerificationFailed));
    assert_eq!(c.len(), 1);
    assert!(c.contains(&seed(1)));
    assert_eq!(c.last_access_at(0), 5);
}

#[test]
fn future_timestamp_reported_before_low_difficulty() {
    // fails the future time limit and would fail the difficulty check too
    let db = storage(vec![4990, 4995, 4998], vec![(0, 750), (60, 750)]);
    let mut v = validator(Ok(hash_achieving(1000)));
    let h = sha3_header(100, 20000, hash_achieving(1000));
    assert_eq!(v.validate_header(&db, &h, &previous(), 5000).err(), Some(ValidationError::FutureTimestamp));
    assert_eq!(db.window_fetches.get(), 0);
}

#[test]
fn low_difficulty_scenario() {
    let db = storage(vec![4990, 4995, 4998], vec![(0, 750), (60, 750)]);
    let mut v = validator(Ok(hash_achieving(1000)));
    let h = sha3_header(100, 5000, hash_achieving(1000));
    assert_eq!(v.validate_header(&db, &h, &previous(), 5000).err(), Some(ValidationError::DifficultyTooLow));
    let h = BlockHeader { pow_algo: PowAlgorithm::RandomX, pow_data: vec![3; 32], ..h };
    assert_eq!(v.validate_header(&db, &h, &previous(), 5000).err(), Some(ValidationError::DifficultyTooLow));
    assert_eq!(v.randomx.calls, 1);
}

#[test]
fn valid_header_accumulates() {
    let db = storage(vec![4990, 4995, 4998], vec![(0, 750), (60, 750)]);
    let mut v = validator(Ok(hash_achieving(2000)));
    let h = BlockHeader {
        height: 100,
        timestamp: 5000,
        pow_algo: PowAlgorithm::RandomX,
        pow_data: vec![3; 32],
        hash: vec![4; 32],
    };
    let b = v.validate(&db, &h, &h, &previous(), 5000).unwrap();
    let d = b.build().unwrap();
    assert_eq!(d.total_randomx_difficulty.as_u64(), 2500);
    assert_eq!(d.total_sha3_difficulty.as_u64(), 7000);
    assert_eq!(d.target_difficulty.as_u64(), 1500);
    assert_eq!(d.achieved_difficulty.as_u64(), 2000);
    assert_eq!(d.hash, vec![4; 32]);
}

#[test]
fn pipeline_error_kinds() {
    let prev = previous();
    let ok_hash = hash_achieving(2000);
    let good = sha3_header(100, 5000, ok_hash.clone());
    // timestamp at the median
    let db = storage(vec![4990, 5000, 5010], vec![(0, 750), (60, 750)]);
    assert_eq!(validator(Ok(vec![])).validate_header(&db, &good, &prev, 5000).err(), Some(ValidationError::TimestampTooLow));
    // storage failure
    let mut db = storage(vec![], vec![]);
    db.timestamps = Err(ValidationError::DifficultyTooLow);
    assert_eq!(validator(Ok(vec![])).validate_header(&db, &good, &prev, 5000).err(), Some(ValidationError::StorageUnavailable));
    let mut db = storage(vec![1, 2, 3], vec![(10, 1), (5, 1)]);
    db.block_time = 60;
    assert_eq!(validator(Ok(vec![])).validate_header(&db, &good, &prev, 5000).err(), Some(ValidationError::StorageUnavailable));
    // malformed payload
    let db = storage(vec![1, 2, 3], vec![(0, 750), (60, 750)]);
    let bad = BlockHeader { pow_data: vec![1], ..good.clone() };
    assert_eq!(validator(Ok(vec![])).validate_header(&db, &bad, &prev, 5000).err(), Some(ValidationError::InvalidPowData));
    // the hasher fails, or hands back too short a hash
    let rx = BlockHeader { pow_algo: PowAlgorithm::RandomX, pow_data: vec![3; 32], ..good.clone() };
    assert_eq!(
        validator(Err(ValidationError::StorageUnavailable)).validate_header(&db, &rx, &prev, 5000).err(),
        Some(ValidationError::PowVerificationFailed)
    );
    assert_eq!(validator(Ok(vec![1, 2])).validate_header(&db, &rx, &prev, 5000).err(), Some(ValidationError::PowVerificationFailed));
    // overflow of the accumulated total
    let mut big = prev.clone();
    big.total_sha3_difficulty = Difficulty::from_u64(u64::MAX);
    assert_eq!(validator(Ok(vec![])).validate_header(&db, &good, &big, 5000).err(), Some(ValidationError::ArithmeticOverflow));
}

#[test]
fn achieved_difficulty_of_sha3_is_hash_difficulty() {
    let mut v = validator(Ok(vec![]));
    let h = sha3_header(1, 1, hash_with_prefix(256));
    assert_eq!(v.achieved_difficulty(&h), Ok(Difficulty::from_u64(u64::MAX / 256)));
    let short = sha3_header(1, 1, vec![1, 2, 3]);
    assert_eq!(v.achieved_difficulty(&short), Err(ValidationError::PowVerificationFailed));
    assert_eq!(v.randomx.calls, 0);
}

#[test]
fn check_header_on_read_values() {
    let r = rules();
    let prev = previous();
    let h = sha3_header(100, 5000, vec![4; 32]);
    let ts = vec![4990, 4995, 4998];
    let b = check_header(&r, 5000, &h, &ts, Difficulty::from_u64(1500), Difficulty::from_u64(1600), &prev).unwrap();
    assert_eq!(b.total_sha3_difficulty, Some(Difficulty::from_u64(8600)));
    assert_eq!(
        check_header(&r, 5000, &h, &ts, Difficulty::from_u64(1500), Difficulty::from_u64(1000), &prev).err(),
        Some(ValidationError::DifficultyTooLow)
    );
    let future = sha3_header(100, 99999, vec![4; 32]);
    assert_eq!(
        check_header(&r, 5000, &future, &ts, Difficulty::from_u64(1500), Difficulty::from_u64(1000), &prev).err(),
        Some(ValidationError::FutureTimestamp)
    );
    assert_eq!(
        check_header(&r, 5000, &h, &vec![], Difficulty::from_u64(1), Difficulty::from_u64(1), &prev).err(),
        Some(ValidationError::TimestampTooLow)
    );
}

#[test]
fn storage_facing_steps() {
    let v = validator(Ok(vec![]));
    let h = sha3_header(100, 5000, hash_achieving(2000));
    let db = storage(vec![4990, 4995, 4998], vec![(0, 750), (60, 750)]);
    assert_eq!(v.check_median_timestamp(&db, &h), Ok(()));
    let low = storage(vec![5000, 5001, 5002], vec![]);
    assert_eq!(v.check_median_timestamp(&low, &h), Err(ValidationError::TimestampTooLow));
    let mut missing = storage(vec![], vec![]);
    missing.timestamps = Err(ValidationError::StorageUnavailable);
    assert_eq!(v.check_median_timestamp(&missing, &h), Err(ValidationError::StorageUnavailable));
    let mut v = v;
    assert_eq!(
        v.check_achieved_and_target_difficulty(&db, &h),
        Ok((Difficulty::from_u64(2000), Difficulty::from_u64(1500)))
    );
    let weak = sha3_header(100, 5000, hash_achieving(1000));
    assert_eq!(v.check_achieved_and_target_difficulty(&db, &weak), Err(ValidationError::DifficultyTooLow));
    let no_window = storage(vec![1], vec![(9, 1), (1, 1)]);
    assert_eq!(v.check_achieved_and_target_difficulty(&no_window, &h), Err(ValidationError::StorageUnavailable));
}
