use vstd::prelude::*;
use crate::difficulty::Difficulty;

verus! {

/// The most samples a window holds.
pub const MAX_WINDOW_LEN: usize = 65536;

/// Recent `(timestamp, difficulty)` samples of one algorithm, oldest first,
/// with the block time the algorithm aims at.
#[derive(Debug)]
pub struct DifficultyWindow {
    samples: Vec<(u64, u64)>,
    target_block_time: u32,
}

/// Timestamps never decrease along the window.
pub open spec fn timestamps_ordered(s: Seq<(u64, u64)>) -> bool {
    forall|i: int, j: int| 0 <= i <= j < s.len() ==> s[i].0 <= s[j].0
}

/// The sum of the difficulties of `s`.
pub open spec fn difficulty_sum(s: Seq<(u64, u64)>) -> nat
    decreases s.len(),
{
    if s.len() == 0 {
        0
    } else {
        difficulty_sum(s.drop_last()) + s.last().1 as nat
    }
}

/// The target for the next header under this library's retarget rule: the
/// work of the window spread over its time span and scaled to the block
/// time, at least one and at most the largest `u64`. A window of fewer than
/// two samples asks for one. The rule is a plain linear stand-in; a chain
/// with its own algorithm-specific retargeting supplies windows whose
/// `calculate` follows that instead.
pub open spec fn window_target(s: Seq<(u64, u64)>, target_block_time: u32) -> u64 {
    if s.len() < 2 {
        1
    } else {
        let span: int = s.last().0 - s[0].0;
        let span: int = if span < 1 { 1 } else { span };
        let v: int = (difficulty_sum(s) * target_block_time as nat) as int / span;
        if v < 1 {
            1
        } else if v > u64::MAX {
            u64::MAX
        } else {
            v as u64
        }
    }
}

impl DifficultyWindow {
    /// The samples and the block time.
    pub closed spec fn view(&self) -> (Seq<(u64, u64)>, u32) {
        (self.samples@, self.target_block_time)
    }

    #[verifier::type_invariant]
    spec fn well_formed(&self) -> bool {
        &&& self.samples@.len() <= MAX_WINDOW_LEN
        &&& timestamps_ordered(self.samples@)
    }

    /// A window of `samples`, or `None` where there are more than
    /// `MAX_WINDOW_LEN` of them or their timestamps decrease somewhere.
    pub fn new(target_block_time: u32, samples: Vec<(u64, u64)>) -> (r: Option<DifficultyWindow>)
        ensures
            (samples@.len() <= MAX_WINDOW_LEN && timestamps_ordered(samples@)) <==> r is Some,
            r matches Some(w) ==> w@ == (samples@, target_block_time),
    {
        if samples.len() > MAX_WINDOW_LEN {
            return None;
        }
        let mut i: usize = 1;
        while i < samples.len()
            invariant
                1 <= i,
                samples@.len() <= MAX_WINDOW_LEN,
                forall|a: int, b: int| 0 <= a <= b < i && b < samples@.len() ==> samples@[a].0 <= samples@[b].0,
            decreases samples.len() - i,
        {
            if samples[i - 1].0 > samples[i].0 {
                return None;
            }
            i = i + 1;
        }
        Some(DifficultyWindow { samples, target_block_time })
    }

    pub fn len(&self) -> (r: usize)
        ensures
            r == self@.0.len(),
    {
        self.samples.len()
    }

    /// The target difficulty for the next header of this window's algorithm.
    pub fn calculate(&self) -> (r: Difficulty)
        ensures
            r.value == window_target(self@.0, self@.1),
    {
        proof {
            use_type_invariant(self);
        }
        let n = self.samples.len();
        if n < 2 {
            return Difficulty { value: 1 };
        }
        let mut sum: u128 = 0;
        let mut i: usize = 0;
        while i < n
            invariant
                n == self.samples@.len(),
                n <= MAX_WINDOW_LEN,
                i <= n,
                sum == difficulty_sum(self.samples@.take(i as int)),
                sum <= i * 0xffff_ffff_ffff_ffff,
            decreases n - i,
        {
            assert(self.samples@.take(i as int + 1).drop_last() =~= self.samples@.take(i as int));
            sum = sum + self.samples[i].1 as u128;
            i = i + 1;
        }
        assert(self.samples@.take(n as int) =~= self.samples@);
        let first = self.samples[0].0;
        let last = self.samples[n - 1].0;
        let span: u64 = if last - first < 1 { 1 } else { last - first };
        let tt = self.target_block_time as u128;
        assert(sum * tt <= 0x1_0000_0000_0000_0000_0000 * 0x1_0000_0000) by (nonlinear_arith)
            requires
                sum <= 0x1_0000_0000_0000_0000_0000,
                tt <= 0x1_0000_0000,
        ;
        let v: u128 = sum * tt / span as u128;
        if v < 1 {
            Difficulty { value: 1 }
        } else if v > u64::MAX as u128 {
            Difficulty { value: u64::MAX }
        } else {
            Difficulty { value: v as u64 }
        }
    }
}

/// The target depends on the window alone: two windows with the same samples
/// and block time give the same target, so calculating twice gives the same.
pub proof fn calculate_is_pure(a: DifficultyWindow, b: DifficultyWindow)
    requires
        a@ == b@,
    ensures
        window_target(a@.0, a@.1) == window_target(b@.0, b@.1),
{
}

} // verus!
