use vstd::prelude::*;

verus! {

/// One cached verifier context: its seed, when it was last used, and the
/// handle itself.
#[derive(Debug)]
pub struct CacheEntry<H> {
    seed: Vec<u8>,
    last_access: u64,
    handle: H,
}

/// A bounded cache of verifier contexts keyed by seed. When a new seed comes
/// to a full cache, the entry used longest ago leaves (the earliest one among
/// equal access times).
#[derive(Debug)]
pub struct VerifierCache<H> {
    entries: Vec<CacheEntry<H>>,
    max_entries: usize,
}

/// Each seed occurs at most once.
pub open spec fn seeds_unique<H>(s: Seq<(Seq<u8>, u64, H)>) -> bool {
    forall|i: int, j: int| 0 <= i < j < s.len() ==> s[i].0 != s[j].0
}

/// Some entry is keyed by `seed`.
pub open spec fn holds_seed<H>(s: Seq<(Seq<u8>, u64, H)>, seed: Seq<u8>) -> bool {
    exists|i: int| 0 <= i < s.len() && s[i].0 == seed
}

/// The position of the entry used longest ago, the earliest among ties.
pub open spec fn oldest_index<H>(s: Seq<(Seq<u8>, u64, H)>) -> int
    decreases s.len(),
{
    if s.len() <= 1 {
        0
    } else {
        let k = oldest_index(s.drop_last());
        if s.last().1 < s[k].1 {
            s.len() - 1
        } else {
            k
        }
    }
}

/// The entries after a new seed comes in at time `now`: where the cache is
/// full, the oldest entry leaves first; the new entry goes last.
pub open spec fn after_insert<H>(
    s: Seq<(Seq<u8>, u64, H)>,
    max_entries: nat,
    seed: Seq<u8>,
    now: u64,
    handle: H,
) -> Seq<(Seq<u8>, u64, H)> {
    let kept = if s.len() >= max_entries {
        s.remove(oldest_index(s))
    } else {
        s
    };
    kept.push((seed, now, handle))
}

/// The entries after the entry at `i` is used at time `now`.
pub open spec fn after_touch<H>(s: Seq<(Seq<u8>, u64, H)>, i: int, now: u64) -> Seq<(Seq<u8>, u64, H)> {
    s.update(i, (s[i].0, now, s[i].2))
}

proof fn lemma_oldest_index<H>(s: Seq<(Seq<u8>, u64, H)>)
    requires
        s.len() > 0,
    ensures
        0 <= oldest_index(s) < s.len(),
        forall|j: int| 0 <= j < s.len() ==> s[oldest_index(s)].1 <= #[trigger] s[j].1,
        forall|j: int| 0 <= j < oldest_index(s) ==> s[oldest_index(s)].1 < #[trigger] s[j].1,
    decreases s.len(),
{
    if s.len() > 1 {
        let d = s.drop_last();
        lemma_oldest_index(d);
        let k = oldest_index(d);
        assert forall|j: int| 0 <= j < d.len() implies d[j] == s[j] by {}
        assert(d[k] == s[k]);
    }
}

/// The entries after `n` of `seeds` come, one after another, into an empty
/// cache of capacity `max_entries`, the `i`-th at `times[i]` with `handles[i]`.
pub open spec fn fill<H>(
    max_entries: nat,
    seeds: Seq<Seq<u8>>,
    times: Seq<u64>,
    handles: Seq<H>,
    n: nat,
) -> Seq<(Seq<u8>, u64, H)>
    decreases n,
{
    if n == 0 {
        Seq::empty()
    } else {
        after_insert(
            fill(max_entries, seeds, times, handles, (n - 1) as nat),
            max_entries,
            seeds[n - 1],
            times[n - 1],
            handles[n - 1],
        )
    }
}

proof fn lemma_oldest_is_first<H>(s: Seq<(Seq<u8>, u64, H)>)
    requires
        s.len() > 0,
        forall|i: int, j: int| 0 <= i < j < s.len() ==> s[i].1 < s[j].1,
    ensures
        oldest_index(s) == 0,
    decreases s.len(),
{
    if s.len() > 1 {
        let d = s.drop_last();
        assert forall|i: int, j: int| 0 <= i < j < d.len() implies d[i].1 < d[j].1 by {
            assert(d[i] == s[i] && d[j] == s[j]);
        }
        lemma_oldest_is_first(d);
        assert(d[0] == s[0]);
    }
}

proof fn lemma_fill<H>(max_entries: nat, seeds: Seq<Seq<u8>>, times: Seq<u64>, handles: Seq<H>, n: nat)
    requires
        max_entries >= 1,
        n <= seeds.len(),
        seeds.len() == times.len(),
        seeds.len() == handles.len(),
        forall|i: int, j: int| 0 <= i < j < times.len() ==> times[i] < times[j],
    ensures
        ({
            let r = fill(max_entries, seeds, times, handles, n);
            let m = if n < max_entries { n } else { max_entries };
            &&& r.len() == m
            &&& forall|i: int|
                0 <= i < m ==> #[trigger] r[i] == (seeds[n - m + i], times[n - m + i], handles[n - m + i])
        }),
    decreases n,
{
    if n > 0 {
        let p = (n - 1) as nat;
        lemma_fill(max_entries, seeds, times, handles, p);
        let prev = fill(max_entries, seeds, times, handles, p);
        let mp = if p < max_entries { p } else { max_entries };
        let r = fill(max_entries, seeds, times, handles, n);
        let m = if n < max_entries { n } else { max_entries };
        if prev.len() >= max_entries {
            assert forall|i: int, j: int| 0 <= i < j < prev.len() implies prev[i].1 < prev[j].1 by {
                assert(prev[i] == (seeds[p - mp + i], times[p - mp + i], handles[p - mp + i]));
                assert(prev[j] == (seeds[p - mp + j], times[p - mp + j], handles[p - mp + j]));
            }
            lemma_oldest_is_first(prev);
            let kept = prev.remove(0);
            assert(r == kept.push((seeds[n - 1], times[n - 1], handles[n - 1])));
            assert forall|i: int| 0 <= i < m implies #[trigger] r[i] == (
                seeds[n - m + i],
                times[n - m + i],
                handles[n - m + i],
            ) by {
                if i < m - 1 {
                    assert(r[i] == prev[i + 1]);
                }
            }
        } else {
            assert(r == prev.push((seeds[n - 1], times[n - 1], handles[n - 1])));
            assert forall|i: int| 0 <= i < m implies #[trigger] r[i] == (
                seeds[n - m + i],
                times[n - m + i],
                handles[n - m + i],
            ) by {
                if i < m - 1 {
                    assert(r[i] == prev[i]);
                }
            }
        }
    }
}

/// One step of a run of `acquire` calls on fresh seeds: the cache filled with
/// the first `n` seeds does not hold the next one, so `acquire` builds it, and
/// the entries it leaves (`after_insert`) are those filled with `n + 1` seeds.
pub proof fn lemma_fill_step<H>(
    max_entries: nat,
    seeds: Seq<Seq<u8>>,
    times: Seq<u64>,
    handles: Seq<H>,
    n: nat,
)
    requires
        max_entries >= 1,
        n < seeds.len(),
        seeds.len() == times.len(),
        seeds.len() == handles.len(),
        forall|i: int, j: int| 0 <= i < j < seeds.len() ==> seeds[i] != seeds[j],
        forall|i: int, j: int| 0 <= i < j < times.len() ==> times[i] < times[j],
    ensures
        !holds_seed(fill(max_entries, seeds, times, handles, n), seeds[n as int]),
        after_insert(fill(max_entries, seeds, times, handles, n), max_entries, seeds[n as int], times[n as int], handles[n as int])
            == fill(max_entries, seeds, times, handles, n + 1),
{
    lemma_fill(max_entries, seeds, times, handles, n);
    let r = fill(max_entries, seeds, times, handles, n);
    let m = if n < max_entries { n } else { max_entries };
    if holds_seed(r, seeds[n as int]) {
        let k = choose|k: int| 0 <= k < r.len() && r[k].0 == seeds[n as int];
        assert(r[k] == (seeds[n - m + k], times[n - m + k], handles[n - m + k]));
    }
}

/// After distinct seeds come one after another, at strictly increasing
/// times, into an empty cache, it holds exactly as many entries as its
/// capacity allows (all of them, if fewer came): the newest, in order of
/// arrival. The seeds used longest ago are the ones that left.
pub proof fn lemma_cache_keeps_most_recent<H>(
    max_entries: nat,
    seeds: Seq<Seq<u8>>,
    times: Seq<u64>,
    handles: Seq<H>,
)
    requires
        max_entries >= 1,
        seeds.len() == times.len(),
        seeds.len() == handles.len(),
        forall|i: int, j: int| 0 <= i < j < seeds.len() ==> seeds[i] != seeds[j],
        forall|i: int, j: int| 0 <= i < j < times.len() ==> times[i] < times[j],
    ensures
        ({
            let n = seeds.len();
            let r = fill(max_entries, seeds, times, handles, n);
            let m = if n < max_entries { n } else { max_entries };
            &&& r.len() == m
            &&& forall|i: int|
                0 <= i < m ==> #[trigger] r[i] == (seeds[n - m + i], times[n - m + i], handles[n - m + i])
            &&& forall|i: int| 0 <= i < n - m ==> !holds_seed(r, #[trigger] seeds[i])
        }),
{
    let n = seeds.len();
    lemma_fill(max_entries, seeds, times, handles, n);
    let r = fill(max_entries, seeds, times, handles, n);
    let m = if n < max_entries { n } else { max_entries };
    assert forall|i: int| 0 <= i < n - m implies !holds_seed(r, #[trigger] seeds[i]) by {
        if holds_seed(r, seeds[i]) {
            let k = choose|k: int| 0 <= k < r.len() && r[k].0 == seeds[i];
            assert(r[k] == (seeds[n - m + k], times[n - m + k], handles[n - m + k]));
        }
    }
}

/// A seed that came in is held afterwards, and stays held when any entry is
/// used again; so a second `acquire` of it finds it and builds nothing.
pub proof fn lemma_acquired_seed_is_held<H>(
    s: Seq<(Seq<u8>, u64, H)>,
    max_entries: nat,
    seed: Seq<u8>,
    now: u64,
    handle: H,
    i: int,
    later: u64,
)
    requires
        0 <= i < after_insert(s, max_entries, seed, now, handle).len(),
    ensures
        holds_seed(after_insert(s, max_entries, seed, now, handle), seed),
        holds_seed(after_touch(after_insert(s, max_entries, seed, now, handle), i, later), seed),
{
    let t = after_insert(s, max_entries, seed, now, handle);
    let last = t.len() - 1;
    assert(t[last].0 == seed);
    let u = after_touch(t, i, later);
    assert(u[last].0 == seed);
}

impl<H> VerifierCache<H> {
    /// The entries as (seed, last access, handle), in order of insertion.
    pub closed spec fn view(&self) -> Seq<(Seq<u8>, u64, H)> {
        self.entries@.map_values(|e: CacheEntry<H>| (e.seed@, e.last_access, e.handle))
    }

    /// The most entries the cache holds.
    pub closed spec fn capacity(&self) -> nat {
        self.max_entries as nat
    }

    /// The capacity is at least one, never exceeded, and no seed occurs twice.
    pub open spec fn well_formed(&self) -> bool {
        &&& self.capacity() >= 1
        &&& self@.len() <= self.capacity()
        &&& seeds_unique(self@)
    }

    /// An empty cache for at most `max_entries` contexts.
    pub fn new(max_entries: usize) -> (r: VerifierCache<H>)
        requires
            max_entries >= 1,
        ensures
            r@ == Seq::<(Seq<u8>, u64, H)>::empty(),
            r.capacity() == max_entries,
            r.well_formed(),
    {
        let r = VerifierCache { entries: Vec::new(), max_entries };
        assert(r@ =~= Seq::<(Seq<u8>, u64, H)>::empty());
        r
    }

    pub fn len(&self) -> (r: usize)
        ensures
            r == self@.len(),
    {
        self.entries.len()
    }

    pub fn max_entries(&self) -> (r: usize)
        ensures
            r == self.capacity(),
    {
        self.max_entries
    }

    /// The position of the entry for `seed`, if there is one.
    pub fn position(&self, seed: &Vec<u8>) -> (r: Option<usize>)
        ensures
            r matches Some(i) ==> i < self@.len() && self@[i as int].0 == seed@,
            r is None <==> !holds_seed(self@, seed@),
    {
        let mut i: usize = 0;
        while i < self.entries.len()
            invariant
                i <= self.entries@.len(),
                self@.len() == self.entries@.len(),
                forall|j: int| 0 <= j < i ==> self@[j].0 != seed@,
            decreases self.entries.len() - i,
        {
            if vec_eq(&self.entries[i].seed, seed) {
                assert(self@[i as int].0 == seed@);
                return Some(i);
            }
            i = i + 1;
        }
        None
    }

    pub fn contains(&self, seed: &Vec<u8>) -> (r: bool)
        ensures
            r == holds_seed(self@, seed@),
    {
        self.position(seed).is_some()
    }

    /// The seed of the entry at `i`.
    pub fn seed_at(&self, i: usize) -> (r: &Vec<u8>)
        requires
            i < self@.len(),
        ensures
            r@ == self@[i as int].0,
    {
        &self.entries[i].seed
    }

    /// When the entry at `i` was last used.
    pub fn last_access_at(&self, i: usize) -> (r: u64)
        requires
            i < self@.len(),
        ensures
            r == self@[i as int].1,
    {
        self.entries[i].last_access
    }

    /// The handle of the entry at `i`.
    pub fn get(&self, i: usize) -> (r: &H)
        requires
            i < self@.len(),
        ensures
            *r == self@[i as int].2,
    {
        &self.entries[i].handle
    }

    /// Records that the entry at `i` was used at time `now`.
    pub fn touch(&mut self, i: usize, now: u64)
        requires
            i < old(self)@.len(),
        ensures
            final(self)@ == after_touch(old(self)@, i as int, now),
            final(self).capacity() == old(self).capacity(),
            old(self).well_formed() ==> final(self).well_formed(),
    {
        let ghost before = self@;
        let e = self.entries.remove(i);
        let CacheEntry { seed, last_access: _, handle } = e;
        self.entries.insert(i, CacheEntry { seed, last_access: now, handle });
        assert(self@ =~= after_touch(before, i as int, now));
    }

    /// The position of the entry used longest ago, the earliest among ties.
    pub fn oldest(&self) -> (r: usize)
        requires
            self@.len() > 0,
        ensures
            r == oldest_index(self@),
    {
        let mut k: usize = 0;
        let mut i: usize = 1;
        while i < self.entries.len()
            invariant
                1 <= i <= self.entries@.len(),
                self@.len() == self.entries@.len(),
                k == oldest_index(self@.take(i as int)),
                k < i,
            decreases self.entries.len() - i,
        {
            proof {
                assert(self@.take(i as int + 1).drop_last() =~= self@.take(i as int));
                lemma_oldest_index(self@.take(i as int));
            }
            if self.entries[i].last_access < self.entries[k].last_access {
                k = i;
            }
            i = i + 1;
        }
        assert(self@.take(i as int) =~= self@);
        k
    }

    /// Adds the context for a seed the cache does not hold, used at `now`.
    /// Where the cache is full, the entry used longest ago leaves first, so
    /// the cache never holds more than its capacity.
    pub fn insert(&mut self, seed: Vec<u8>, now: u64, handle: H)
        requires
            old(self).well_formed(),
            !holds_seed(old(self)@, seed@),
        ensures
            final(self)@ == after_insert(old(self)@, old(self).capacity(), seed@, now, handle),
            final(self).capacity() == old(self).capacity(),
            final(self).well_formed(),
    {
        let ghost before = self@;
        let ghost s = seed@;
        if self.entries.len() >= self.max_entries {
            let k = self.oldest();
            proof {
                lemma_oldest_index(before);
            }
            let _evicted = self.entries.remove(k);
            assert(self@ =~= before.remove(k as int));
        }
        let ghost kept = self@;
        self.entries.push(CacheEntry { seed, last_access: now, handle });
        assert(self@ =~= kept.push((s, now, handle)));
        assert forall|i: int, j: int| 0 <= i < j < self@.len() implies self@[i].0 != self@[j].0 by {
            if j == self@.len() - 1 {
                if kept[i].0 == s {
                    let m = if before.len() >= self.max_entries && i >= oldest_index(before) { i + 1 } else { i };
                    assert(before[m].0 == s);
                }
            } else {
                let mi = if before.len() >= self.max_entries && i >= oldest_index(before) { i + 1 } else { i };
                let mj = if before.len() >= self.max_entries && j >= oldest_index(before) { j + 1 } else { j };
                assert(self@[i] == before[mi] && self@[j] == before[mj]);
            }
        }
    }

    /// Exclusive-use lookup: where the cache holds `seed`, marks it used at
    /// `now` and returns its position without building anything. Otherwise
    /// calls `build` once; a handle it returns enters the cache as by `insert`
    /// and its position is returned, and an error it returns comes back with
    /// the cache unchanged.
    pub fn acquire<E, F: FnOnce() -> Result<H, E>>(&mut self, seed: &Vec<u8>, now: u64, build: F) -> (r: Result<usize, E>)
        requires
            old(self).well_formed(),
            build.requires(()),
        ensures
            holds_seed(old(self)@, seed@) ==> (r matches Ok(i) && i < old(self)@.len() && old(self)@[i as int].0
                == seed@ && final(self)@ == after_touch(old(self)@, i as int, now)),
            !holds_seed(old(self)@, seed@) ==> match r {
                Ok(i) => exists|h: H|
                    build.ensures((), Ok::<H, E>(h)) && final(self)@ == after_insert(
                        old(self)@,
                        old(self).capacity(),
                        seed@,
                        now,
                        h,
                    ) && i == final(self)@.len() - 1,
                Err(e) => build.ensures((), Err::<H, E>(e)) && final(self)@ == old(self)@,
            },
            final(self).capacity() == old(self).capacity(),
            final(self).well_formed(),
    {
        match self.position(seed) {
            Some(i) => {
                self.touch(i, now);
                Ok(i)
            },
            None => match build() {
                Ok(handle) => {
                    self.insert(seed.clone(), now, handle);
                    Ok(self.entries.len() - 1)
                },
                Err(e) => Err(e),
            },
        }
    }
}

/// Byte-wise equality of two vectors.
pub fn vec_eq(a: &Vec<u8>, b: &Vec<u8>) -> (r: bool)
    ensures
        r == (a@ == b@),
{
    if a.len() != b.len() {
        return false;
    }
    let mut i: usize = 0;
    while i < a.len()
        invariant
            i <= a@.len(),
            a@.len() == b@.len(),
            forall|j: int| 0 <= j < i ==> a@[j] == b@[j],
        decreases a.len() - i,
    {
        if a[i] != b[i] {
            return false;
        }
        i = i + 1;
    }
    assert(a@ =~= b@);
    true
}

} // verus!
