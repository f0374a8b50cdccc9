use vstd::prelude::*;
use crate::difficulty::{Difficulty, PowAlgorithm, ValidationError};
use crate::header::{BlockHeader, ConsensusRules, RANDOMX_SEED_LEN};

verus! {

/// A timestamp passes the future-time-limit check when it is at most
/// `now + ftl` seconds.
pub open spec fn within_ftl(timestamp: u64, now: u64, ftl: u64) -> bool {
    timestamp <= now + ftl
}

/// How many of `ts` lie strictly below `t`.
pub open spec fn count_below(ts: Seq<u64>, t: u64) -> nat
    decreases ts.len(),
{
    if ts.len() == 0 {
        0
    } else {
        count_below(ts.drop_last(), t) + if ts.last() < t { 1nat } else { 0nat }
    }
}

/// `t` lies strictly above the median of `ts`, the element at position
/// `len / 2` once `ts` is sorted: that element is below `t` exactly when more
/// than `len / 2` elements are. An empty sequence has no median to exceed.
pub open spec fn above_median(ts: Seq<u64>, t: u64) -> bool {
    count_below(ts, t) > ts.len() / 2
}

/// The payload shape each algorithm asks for: none for Sha3, a seed of
/// `RANDOMX_SEED_LEN` bytes for RandomX.
pub open spec fn pow_data_well_formed(algo: PowAlgorithm, pow_data: Seq<u8>) -> bool {
    match algo {
        PowAlgorithm::Sha3 => pow_data.len() == 0,
        PowAlgorithm::RandomX => pow_data.len() == RANDOMX_SEED_LEN,
    }
}

/// The big-endian value of the first `n` bytes of `s`.
pub open spec fn be_prefix(s: Seq<u8>, n: nat) -> nat
    recommends
        n <= s.len(),
    decreases n,
{
    if n == 0 {
        0
    } else {
        be_prefix(s, (n - 1) as nat) * 256 + s[n - 1] as nat
    }
}

/// `256` to the power `n`.
pub open spec fn byte_scale(n: nat) -> nat
    decreases n,
{
    if n == 0 {
        1
    } else {
        256 * byte_scale((n - 1) as nat)
    }
}

/// The difficulty a proof-of-work hash achieves under this library's rule:
/// the largest `u64` divided by the big-endian value of its first eight bytes
/// (a zero prefix counts as one). The rule stands in for the chain's own
/// hash-to-difficulty mapping, which reads the whole hash.
pub open spec fn hash_difficulty(hash: Seq<u8>) -> u64 {
    let v = be_prefix(hash, 8);
    (u64::MAX as nat / if v == 0 { 1nat } else { v }) as u64
}

/// Fails with `FutureTimestamp` exactly when the header's timestamp lies
/// beyond `now + ftl_seconds`.
pub fn check_timestamp_ftl(header: &BlockHeader, rules: &ConsensusRules, now: u64) -> (r: Result<(), ValidationError>)
    ensures
        within_ftl(header.timestamp, now, rules.ftl_seconds) <==> r is Ok,
        r is Err ==> r == Err::<(), ValidationError>(ValidationError::FutureTimestamp),
{
    if header.timestamp > now && header.timestamp - now > rules.ftl_seconds {
        Err(ValidationError::FutureTimestamp)
    } else {
        Ok(())
    }
}

/// Fails with `TimestampTooLow` exactly when the header's timestamp is not
/// strictly above the median of the ancestors' timestamps.
pub fn check_header_timestamp_greater_than_median(header: &BlockHeader, timestamps: &Vec<u64>) -> (r: Result<(), ValidationError>)
    ensures
        above_median(timestamps@, header.timestamp) <==> r is Ok,
        r is Err ==> r == Err::<(), ValidationError>(ValidationError::TimestampTooLow),
{
    let t = header.timestamp;
    let mut below: usize = 0;
    let mut i: usize = 0;
    while i < timestamps.len()
        invariant
            i <= timestamps.len(),
            below <= i,
            below == count_below(timestamps@.take(i as int), t),
        decreases timestamps.len() - i,
    {
        assert(timestamps@.take(i as int + 1).drop_last() =~= timestamps@.take(i as int));
        if timestamps[i] < t {
            below = below + 1;
        }
        i = i + 1;
    }
    assert(timestamps@.take(i as int) =~= timestamps@);
    if below > timestamps.len() / 2 {
        Ok(())
    } else {
        Err(ValidationError::TimestampTooLow)
    }
}

/// Fails with `InvalidPowData` exactly when the payload does not have the
/// shape its declared algorithm asks for.
pub fn check_pow_data(header: &BlockHeader) -> (r: Result<(), ValidationError>)
    ensures
        pow_data_well_formed(header.pow_algo, header.pow_data@) <==> r is Ok,
        r is Err ==> r == Err::<(), ValidationError>(ValidationError::InvalidPowData),
{
    let ok = match header.pow_algo {
        PowAlgorithm::Sha3 => header.pow_data.len() == 0,
        PowAlgorithm::RandomX => header.pow_data.len() == RANDOMX_SEED_LEN,
    };
    if ok {
        Ok(())
    } else {
        Err(ValidationError::InvalidPowData)
    }
}

proof fn lemma_be_prefix_bound(s: Seq<u8>, n: nat)
    requires
        n <= s.len(),
    ensures
        be_prefix(s, n) < byte_scale(n),
    decreases n,
{
    if n > 0 {
        lemma_be_prefix_bound(s, (n - 1) as nat);
        let p = be_prefix(s, (n - 1) as nat);
        let b = byte_scale((n - 1) as nat);
        let x = s[n - 1] as nat;
        assert(p * 256 + x < 256 * b) by (nonlinear_arith)
            requires
                p < b,
                x < 256,
        ;
    }
}

/// The difficulty that `hash` achieves.
pub fn difficulty_from_hash(hash: &Vec<u8>) -> (r: Difficulty)
    requires
        hash.len() >= 8,
    ensures
        r.value == hash_difficulty(hash@),
{
    let mut v: u64 = 0;
    let mut i: usize = 0;
    while i < 8
        invariant
            i <= 8,
            hash.len() >= 8,
            v == be_prefix(hash@, i as nat),
        decreases 8 - i,
    {
        proof {
            lemma_be_prefix_bound(hash@, i as nat);
            assert(byte_scale(0) == 1);
            reveal_with_fuel(byte_scale, 8);
            assert(byte_scale(7) == 0x100000000000000);
        }
        assert(v < 0x100000000000000) by {
            if i < 7 {
                assert(byte_scale(i as nat) <= byte_scale(7)) by {
                    lemma_byte_scale_mono(i as nat, 7);
                }
            }
        }
        v = v * 256 + hash[i] as u64;
        i = i + 1;
    }
    let divisor: u64 = if v == 0 { 1 } else { v };
    Difficulty { value: u64::MAX / divisor }
}

proof fn lemma_byte_scale_mono(a: nat, b: nat)
    requires
        a <= b,
    ensures
        byte_scale(a) <= byte_scale(b),
    decreases b,
{
    if a < b {
        lemma_byte_scale_mono(a, (b - 1) as nat);
    }
}

/// Fails with `DifficultyTooLow` exactly when `achieved` is below `target`.
pub fn check_target_difficulty(achieved: Difficulty, target: Difficulty) -> (r: Result<(), ValidationError>)
    ensures
        achieved.value >= target.value <==> r is Ok,
        r is Err ==> r == Err::<(), ValidationError>(ValidationError::DifficultyTooLow),
{
    if achieved.value < target.value {
        Err(ValidationError::DifficultyTooLow)
    } else {
        Ok(())
    }
}

} // verus!
