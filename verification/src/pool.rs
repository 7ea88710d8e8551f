//! The buffer pool: size classes, the ledger of cached allocations, and
//! statistics records.
use vstd::prelude::*;

verus! {

/// Per-thread pool cache statistics.
#[derive(Debug, Clone, Copy, Default, PartialEq, Eq, Structural)]
pub struct TlStats {
    /// Number of thread-local cache hits.
    pub hits: u64,
    /// Number of thread-local cache misses (fell through to the global pool).
    pub misses: u64,
    /// Number of handles returned to the thread-local cache.
    pub returns: u64,
    /// Total bytes currently cached in this thread's cache.
    pub cached_bytes: usize,
}

/// Statistics of one size class of the global pool.
#[derive(Debug, Clone, Copy, PartialEq, Eq, Structural)]
pub struct SizeClassStats {
    /// The size class in bytes (a power of two).
    pub size_class: usize,
    /// Number of cached handles.
    pub cached_handles: usize,
    /// Total cached bytes in this class.
    pub cached_bytes: usize,
}

/// Whether `x` is a power of two.
pub open spec fn is_power_of_two(x: nat) -> bool
    decreases x,
{
    if x == 1 {
        true
    } else if x == 0 || x % 2 == 1 {
        false
    } else {
        is_power_of_two(x / 2)
    }
}

/// `c` is the size class of a request of `n` bytes: the smallest power of
/// two that is at least `n`.
pub open spec fn is_size_class(c: nat, n: nat) -> bool {
    is_power_of_two(c) && n <= c && (c == 1 || c / 2 < n)
}

/// The size class of a request of `n` bytes.
pub open spec fn size_class_of(n: nat) -> nat {
    choose|c: nat| is_size_class(c, n)
}

/// Of two powers of two, the larger is at least twice the smaller.
proof fn lemma_power_of_two_gap(a: nat, b: nat)
    requires
        is_power_of_two(a),
        is_power_of_two(b),
        a < b,
    ensures
        2 * a <= b,
    decreases a,
{
    if a != 1 {
        lemma_power_of_two_gap(a / 2, b / 2);
    }
}

/// A request has one size class.
proof fn lemma_size_class_unique(c: nat, n: nat)
    requires
        is_size_class(c, n),
    ensures
        size_class_of(n) == c,
{
    let d = size_class_of(n);
    assert(is_size_class(d, n));
    if d < c {
        lemma_power_of_two_gap(d, c);
    } else if c < d {
        lemma_power_of_two_gap(c, d);
    }
}

/// The size class of a request of `n` bytes: the smallest power of two that
/// is at least `n` (1 for an empty request).
pub fn size_class(n: usize) -> (r: usize)
    requires
        n <= usize::MAX / 2 + 1,
    ensures
        is_power_of_two(r as nat),
        n <= r,
        r == 1 || r / 2 < n,
        r == size_class_of(n as nat),
{
    let mut p: usize = 1;
    while p < n
        invariant
            p >= 1,
            is_power_of_two(p as nat),
            p == 1 || p / 2 < n,
            n <= usize::MAX / 2 + 1,
        decreases usize::MAX - p,
    {
        p = p * 2;
    }
    proof {
        lemma_size_class_unique(p as nat, n as nat);
    }
    p
}

/// Every size class is a power of two: doubling a power of two gives one.
pub proof fn lemma_double_power_of_two(x: nat)
    requires
        is_power_of_two(x),
    ensures
        is_power_of_two(2 * x),
{
}


// ─── The global pool's ledger ────────────────────────────────────────────────

/// The total length of the cached handles `s` (each a size class, a length
/// in bytes and the handle).
pub open spec fn lens_sum<H>(s: Seq<(usize, usize, H)>) -> nat
    decreases s.len(),
{
    if s.len() == 0 {
        0
    } else {
        lens_sum(s.drop_last()) + (s.last().1 as nat)
    }
}

/// The number of cached handles of size class `c` in `s`.
pub open spec fn class_count<H>(s: Seq<(usize, usize, H)>, c: usize) -> nat
    decreases s.len(),
{
    if s.len() == 0 {
        0
    } else {
        class_count(s.drop_last(), c) + (if s.last().0 == c { 1nat } else { 0nat })
    }
}

/// The total length of the cached handles of size class `c` in `s`.
pub open spec fn class_bytes<H>(s: Seq<(usize, usize, H)>, c: usize) -> nat
    decreases s.len(),
{
    if s.len() == 0 {
        0
    } else {
        class_bytes(s.drop_last(), c) + (if s.last().0 == c { s.last().1 as nat } else { 0nat })
    }
}

/// The position of the most recently cached handle of size class `c` in
/// `s`, or -1 when there is none.
pub open spec fn last_of_class<H>(s: Seq<(usize, usize, H)>, c: usize) -> int
    decreases s.len(),
{
    if s.len() == 0 {
        -1
    } else if s.last().0 == c {
        s.len() - 1
    } else {
        last_of_class(s.drop_last(), c)
    }
}

/// The largest size class among the cached handles `s` (0 when there is
/// none).
pub open spec fn max_class<H>(s: Seq<(usize, usize, H)>) -> usize
    decreases s.len(),
{
    if s.len() == 0 {
        0
    } else {
        let m = max_class(s.drop_last());
        if s.last().0 >= m {
            s.last().0
        } else {
            m
        }
    }
}

/// What trimming to `keep` bytes leaves: while more than `keep` bytes are
/// cached, the most recently cached handle of the largest size class goes.
pub open spec fn trimmed<H>(s: Seq<(usize, usize, H)>, keep: nat) -> Seq<(usize, usize, H)>
    decreases s.len(),
{
    if s.len() == 0 || lens_sum(s) <= keep {
        s
    } else {
        let i = last_of_class(s, max_class(s));
        if 0 <= i < s.len() {
            trimmed(s.remove(i), keep)
        } else {
            s
        }
    }
}

/// Classes in strictly increasing order.
pub open spec fn strictly_increasing(c: Seq<usize>) -> bool {
    forall|i: int, j: int| 0 <= i < j < c.len() ==> c[i] < c[j]
}

/// What an acquisition gives: a cached handle, or the number of bytes the
/// caller allocates afresh.
pub enum PoolGrant<H> {
    /// A handle taken from the pool.
    Cached(H),
    /// No cached handle fits: allocate this many bytes.
    Allocate(usize),
}

/// A snapshot of a pool's counts.
#[derive(Debug, Clone, Copy, PartialEq, Eq, Structural)]
pub struct PoolCounts {
    /// Total bytes currently cached.
    pub cached_bytes: usize,
    /// Number of cached handles.
    pub cached_blocks: usize,
    /// Number of acquisitions served from the cache.
    pub hit_count: u64,
    /// Number of acquisitions that needed a new allocation.
    pub miss_count: u64,
    /// Number of handles handed back to the pool.
    pub return_count: u64,
    /// Number of size classes that have had a bucket since the last clear.
    pub size_classes: usize,
}

/// The ledger of a pool of reusable allocations: cached handles kept by
/// size class (a power of two), most recent last, with counts of hits,
/// misses and returns, and a cap on the bytes it caches. The handles
/// themselves are allocated and freed by the caller.
pub struct BufferPool<H> {
    entries: Vec<(usize, usize, H)>,
    classes: Vec<usize>,
    cached_bytes: usize,
    hit_count: u64,
    miss_count: u64,
    return_count: u64,
    max_cached_bytes: usize,
}

impl<H> BufferPool<H> {
    /// The cached handles, oldest first: each its size class, its length in
    /// bytes and the handle.
    pub closed spec fn entries(&self) -> Seq<(usize, usize, H)> {
        self.entries@
    }

    /// The size classes that have a bucket, in increasing order.
    pub closed spec fn classes(&self) -> Seq<usize> {
        self.classes@
    }

    /// The bytes cached.
    pub closed spec fn cached(&self) -> nat {
        self.cached_bytes as nat
    }

    /// The most bytes the pool caches.
    pub closed spec fn cap(&self) -> nat {
        self.max_cached_bytes as nat
    }

    /// The hit, miss and return counts.
    pub closed spec fn counts(&self) -> (u64, u64, u64) {
        (self.hit_count, self.miss_count, self.return_count)
    }

    /// The ledger is consistent: the cached bytes are the lengths of the
    /// cached handles and within the cap, the classes are in increasing
    /// order and every cached handle's class has a bucket.
    pub closed spec fn wf(&self) -> bool {
        &&& self.cached_bytes == lens_sum(self.entries@)
        &&& self.cached_bytes <= self.max_cached_bytes
        &&& strictly_increasing(self.classes@)
        &&& forall|i: int| 0 <= i < self.entries@.len() ==> self.classes@.contains(#[trigger] self.entries@[i].0)
    }

    /// An empty pool that caches at most `max_cached_bytes` bytes.
    pub fn new(max_cached_bytes: usize) -> (r: Self)
        ensures
            r.wf(),
            r.entries() == Seq::<(usize, usize, H)>::empty(),
            r.classes() == Seq::<usize>::empty(),
            r.cap() == max_cached_bytes,
            r.counts() == (0u64, 0u64, 0u64),
    {
        BufferPool {
            entries: Vec::new(),
            classes: Vec::new(),
            cached_bytes: 0,
            hit_count: 0,
            miss_count: 0,
            return_count: 0,
            max_cached_bytes,
        }
    }
}



/// Taking out entry `i` takes its length off the total.
proof fn lemma_lens_sum_remove<H>(s: Seq<(usize, usize, H)>, i: int)
    requires
        0 <= i < s.len(),
    ensures
        lens_sum(s.remove(i)) + s[i].1 == lens_sum(s),
    decreases s.len(),
{
    if i == s.len() - 1 {
        assert(s.remove(i) =~= s.drop_last());
    } else {
        lemma_lens_sum_remove(s.drop_last(), i);
        assert(s.remove(i).drop_last() =~= s.drop_last().remove(i));
        assert(s.remove(i).last() == s.last());
    }
}

/// Over a prefix, the bytes of one class are at most the bytes of all, which
/// are at most those of the whole; the handles of one class are at most all
/// of them.
proof fn lemma_prefix_sums<H>(s: Seq<(usize, usize, H)>, j: int, c: usize)
    requires
        0 <= j <= s.len(),
    ensures
        class_bytes(s.take(j), c) <= lens_sum(s.take(j)) <= lens_sum(s),
        class_count(s.take(j), c) <= j,
    decreases s.len() - j,
{
    if j < s.len() {
        lemma_prefix_sums(s, j + 1, c);
        assert(s.take(j + 1).drop_last() =~= s.take(j));
    } else {
        assert(s.take(j) =~= s);
    }
    lemma_class_below_total(s.take(j), c);
}

proof fn lemma_class_below_total<H>(s: Seq<(usize, usize, H)>, c: usize)
    ensures
        class_bytes(s, c) <= lens_sum(s),
        class_count(s, c) <= s.len(),
    decreases s.len(),
{
    if s.len() > 0 {
        lemma_class_below_total(s.drop_last(), c);
    }
}

/// The most recently cached handle of class `c` is one of class `c`.
proof fn lemma_last_of_class<H>(s: Seq<(usize, usize, H)>, c: usize)
    ensures
        -1 <= last_of_class(s, c) < s.len(),
        last_of_class(s, c) >= 0 ==> s[last_of_class(s, c)].0 == c,
    decreases s.len(),
{
    if s.len() > 0 && s.last().0 != c {
        lemma_last_of_class(s.drop_last(), c);
    }
}

/// A non-empty pool has a handle of its largest class.
proof fn lemma_max_found<H>(s: Seq<(usize, usize, H)>)
    requires
        s.len() > 0,
    ensures
        0 <= last_of_class(s, max_class(s)) < s.len(),
    decreases s.len(),
{
    let b = s.drop_last();
    if s.last().0 < max_class(b) {
        lemma_max_found(b);
    }
}

/// The position of the most recently cached handle of class `c` in `s`.
fn find_last_of_class<H>(s: &Vec<(usize, usize, H)>, c: usize) -> (r: Option<usize>)
    ensures
        match r {
            Some(i) => i == last_of_class(s@, c) && i < s@.len(),
            None => last_of_class(s@, c) == -1,
        },
{
    let mut j = s.len();
    proof {
        assert(s@.take(j as int) =~= s@);
    }
    while j > 0
        invariant
            j <= s@.len(),
            last_of_class(s@, c) == last_of_class(s@.take(j as int), c),
        decreases j,
    {
        proof {
            assert(s@.take(j as int).last() == s@[j - 1]);
            assert(s@.take(j as int).drop_last() =~= s@.take(j - 1));
        }
        if s[j - 1].0 == c {
            return Some(j - 1);
        }
        j = j - 1;
    }
    None
}

impl<H> BufferPool<H> {
    /// Takes a handle for a request of `nbytes` bytes: for an empty request,
    /// `Allocate(0)` with nothing counted; else the most recently cached
    /// handle of the request's size class, counted as a hit; else, counted as
    /// a miss, `Allocate` with the size class.
    pub fn acquire(&mut self, nbytes: usize) -> (r: PoolGrant<H>)
        requires
            old(self).wf(),
            nbytes <= usize::MAX / 2 + 1,
            old(self).counts().0 < u64::MAX,
            old(self).counts().1 < u64::MAX,
        ensures
            final(self).wf(),
            final(self).cap() == old(self).cap(),
            final(self).classes() == old(self).classes(),
            nbytes == 0 ==> r == PoolGrant::<H>::Allocate(0) && final(self).entries() == old(self).entries()
                && final(self).counts() == old(self).counts(),
            nbytes > 0 && last_of_class(old(self).entries(), size_class_of(nbytes as nat) as usize) < 0 ==> r
                == PoolGrant::<H>::Allocate(size_class_of(nbytes as nat) as usize) && final(self).entries()
                == old(self).entries() && final(self).counts() == (
                old(self).counts().0,
                (old(self).counts().1 + 1) as u64,
                old(self).counts().2,
            ),
            nbytes > 0 && last_of_class(old(self).entries(), size_class_of(nbytes as nat) as usize) >= 0 ==> ({
                let i = last_of_class(old(self).entries(), size_class_of(nbytes as nat) as usize);
                &&& r == PoolGrant::<H>::Cached(old(self).entries()[i].2)
                &&& final(self).entries() == old(self).entries().remove(i)
                &&& final(self).counts() == ((old(self).counts().0 + 1) as u64, old(self).counts().1, old(self).counts().2)
            }),
    {
        if nbytes == 0 {
            return PoolGrant::Allocate(0);
        }
        let class = size_class(nbytes);
        match find_last_of_class(&self.entries, class) {
            Some(i) => {
                let ghost before = self.entries@;
                proof {
                    lemma_lens_sum_remove(before, i as int);
                }
                let (_, len, h) = self.entries.remove(i);
                self.cached_bytes = self.cached_bytes - len;
                self.hit_count = self.hit_count + 1;
                proof {
                    assert forall|k: int| 0 <= k < self.entries@.len() implies self.classes@.contains(
                        #[trigger] self.entries@[k].0,
                    ) by {
                        if k < i {
                            assert(self.entries@[k] == before[k]);
                        } else {
                            assert(self.entries@[k] == before[k + 1]);
                        }
                    }
                }
                PoolGrant::Cached(h)
            },
            None => {
                self.miss_count = self.miss_count + 1;
                PoolGrant::Allocate(class)
            },
        }
    }

    /// Gives the size class `c` a bucket, keeping the classes in increasing
    /// order.
    fn ensure_class(&mut self, c: usize)
        requires
            strictly_increasing(old(self).classes@),
        ensures
            strictly_increasing(final(self).classes@),
            final(self).classes@.to_set() == old(self).classes@.to_set().insert(c),
            final(self).entries@ == old(self).entries@,
            final(self).cached_bytes == old(self).cached_bytes,
            final(self).max_cached_bytes == old(self).max_cached_bytes,
            final(self).hit_count == old(self).hit_count,
            final(self).miss_count == old(self).miss_count,
            final(self).return_count == old(self).return_count,
    {
        let mut p: usize = 0;
        while p < self.classes.len() && self.classes[p] < c
            invariant
                p <= self.classes@.len(),
                self.classes@ == old(self).classes@,
                self.entries@ == old(self).entries@,
                self.cached_bytes == old(self).cached_bytes,
                self.max_cached_bytes == old(self).max_cached_bytes,
                self.hit_count == old(self).hit_count,
                self.miss_count == old(self).miss_count,
                self.return_count == old(self).return_count,
                forall|k: int| 0 <= k < p ==> self.classes@[k] < c,
            decreases self.classes@.len() - p,
        {
            p = p + 1;
        }
        let ghost before = self.classes@;
        if p < self.classes.len() && self.classes[p] == c {
            proof {
                assert(before.to_set().insert(c) =~= before.to_set());
            }
            return;
        }
        self.classes.insert(p, c);
        proof {
            let after = self.classes@;
            assert forall|i: int, j: int| 0 <= i < j < after.len() implies after[i] < after[j] by {
                if j < p {
                } else if i < p && j == p {
                } else if i < p {
                    assert(after[j] == before[j - 1]);
                } else if i == p {
                    assert(after[j] == before[j - 1]);
                    assert(before[p as int] > c);
                    if j - 1 > p {
                        assert(before[p as int] < before[j - 1]);
                    }
                } else {
                    assert(after[i] == before[i - 1]);
                    assert(after[j] == before[j - 1]);
                }
            }
            assert forall|x: usize| after.to_set().contains(x) <==> before.to_set().insert(c).contains(x) by {
                if after.contains(x) {
                    let k = choose|k: int| 0 <= k < after.len() && after[k] == x;
                    if k < p {
                        assert(before[k] == x);
                    } else if k > p {
                        assert(before[k - 1] == x);
                    }
                }
                if before.contains(x) {
                    let k = choose|k: int| 0 <= k < before.len() && before[k] == x;
                    if k < p {
                        assert(after[k] == x);
                    } else {
                        assert(after[k + 1] == x);
                    }
                }
                if x == c {
                    assert(after[p as int] == c);
                }
            }
            assert(after.to_set() =~= before.to_set().insert(c));
        }
    }
}


impl<H> BufferPool<H> {
    /// Caches `handle`, of `len` bytes, in the size class of `len`, with a
    /// bucket for that class: counted as a return. The cached bytes must
    /// stay within the cap.
    fn cache(&mut self, class: usize, len: usize, handle: H)
        requires
            old(self).wf(),
            old(self).cached_bytes + len <= old(self).max_cached_bytes,
            old(self).return_count < u64::MAX,
        ensures
            final(self).wf(),
            final(self).entries() == old(self).entries().push((class, len, handle)),
            final(self).classes().to_set() == old(self).classes().to_set().insert(class),
            final(self).cap() == old(self).cap(),
            final(self).counts() == (old(self).hit_count, old(self).miss_count, (old(self).return_count + 1) as u64),
    {
        let ghost before = self.entries@;
        self.ensure_class(class);
        self.cached_bytes = self.cached_bytes + len;
        self.return_count = self.return_count + 1;
        self.entries.push((class, len, handle));
        proof {
            assert(self.entries@.drop_last() =~= before);
            assert forall|k: int| 0 <= k < self.entries@.len() implies self.classes@.contains(
                #[trigger] self.entries@[k].0,
            ) by {
                if k < before.len() {
                    assert(self.entries@[k] == before[k]);
                    assert(old(self).classes@.contains(before[k].0));
                    assert(old(self).classes@.to_set().contains(before[k].0));
                    assert(self.classes@.to_set().contains(before[k].0));
                } else {
                    assert(self.classes@.to_set().contains(class));
                }
            }
        }
    }

    /// Hands `handle`, of `len` bytes, back to the pool: an empty handle is
    /// dropped with nothing counted; one that would take the cached bytes
    /// past the cap is dropped, counted as a return; else it is cached in
    /// the size class of `len`, counted as a return.
    pub fn release(&mut self, handle: H, len: usize)
        requires
            old(self).wf(),
            len <= usize::MAX / 2 + 1,
            old(self).counts().2 < u64::MAX,
        ensures
            final(self).wf(),
            final(self).cap() == old(self).cap(),
            len == 0 ==> final(self).entries() == old(self).entries() && final(self).classes() == old(self).classes()
                && final(self).counts() == old(self).counts(),
            len > 0 && old(self).cached() + len > old(self).cap() ==> final(self).entries() == old(self).entries()
                && final(self).classes() == old(self).classes() && final(self).counts() == (
                old(self).counts().0,
                old(self).counts().1,
                (old(self).counts().2 + 1) as u64,
            ),
            len > 0 && old(self).cached() + len <= old(self).cap() ==> final(self).entries() == old(self).entries().push((size_class_of(len as nat) as usize, len, handle)) && final(self).classes().to_set()
                == old(self).classes().to_set().insert(size_class_of(len as nat) as usize) && final(self).counts() == (old(self).counts().0, old(self).counts().1, (old(self).counts().2 + 1) as u64),
    {
        if len == 0 {
            return;
        }
        let class = size_class(len);
        let fits = match self.cached_bytes.checked_add(len) {
            Some(total) => total <= self.max_cached_bytes,
            None => false,
        };
        if !fits {
            self.return_count = self.return_count + 1;
            return;
        }
        self.cache(class, len, handle);
    }

    /// Caches `handle`, of `len` bytes, freshly allocated for requests of
    /// `size` bytes, as pre-warming does: `false`, with the handle dropped
    /// and nothing counted, when it would take the cached bytes past the
    /// cap; else `true`, the handle cached in the size class of `size` and
    /// counted as a return.
    pub fn warm_one(&mut self, size: usize, handle: H, len: usize) -> (r: bool)
        requires
            old(self).wf(),
            0 < size <= usize::MAX / 2 + 1,
            old(self).counts().2 < u64::MAX,
        ensures
            final(self).wf(),
            final(self).cap() == old(self).cap(),
            r == (old(self).cached() + len <= old(self).cap()),
            !r ==> final(self).entries() == old(self).entries() && final(self).classes() == old(self).classes()
                && final(self).counts() == old(self).counts(),
            r ==> final(self).entries() == old(self).entries().push((size_class_of(size as nat) as usize, len, handle))
                && final(self).classes().to_set() == old(self).classes().to_set().insert(
                size_class_of(size as nat) as usize,
            ) && final(self).counts() == (old(self).counts().0, old(self).counts().1, (old(self).counts().2 + 1) as u64),
    {
        let class = size_class(size);
        let fits = match self.cached_bytes.checked_add(len) {
            Some(total) => total <= self.max_cached_bytes,
            None => false,
        };
        if !fits {
            return false;
        }
        self.cache(class, len, handle);
        true
    }

    /// The pool's counts: cached bytes and handles, hits, misses, returns,
    /// and the number of size classes with a bucket.
    pub fn stats(&self) -> (r: PoolCounts)
        requires
            self.wf(),
        ensures
            r.cached_bytes == self.cached(),
            r.cached_blocks == self.entries().len(),
            (r.hit_count, r.miss_count, r.return_count) == self.counts(),
            r.size_classes == self.classes().len(),
    {
        PoolCounts {
            cached_bytes: self.cached_bytes,
            cached_blocks: self.entries.len(),
            hit_count: self.hit_count,
            miss_count: self.miss_count,
            return_count: self.return_count,
            size_classes: self.classes.len(),
        }
    }

    /// For each size class with a bucket, in increasing order: the class,
    /// its number of cached handles and their bytes.
    pub fn size_class_stats(&self) -> (r: Vec<SizeClassStats>)
        requires
            self.wf(),
        ensures
            r@.len() == self.classes().len(),
            forall|k: int|
                0 <= k < r@.len() ==> (#[trigger] r@[k]).size_class == self.classes()[k] && r@[k].cached_handles
                    == class_count(self.entries(), self.classes()[k]) && r@[k].cached_bytes == class_bytes(
                    self.entries(),
                    self.classes()[k],
                ),
    {
        let mut out: Vec<SizeClassStats> = Vec::new();
        let mut k: usize = 0;
        while k < self.classes.len()
            invariant
                self.wf(),
                k <= self.classes@.len(),
                out@.len() == k,
                forall|q: int|
                    0 <= q < k ==> (#[trigger] out@[q]).size_class == self.classes@[q] && out@[q].cached_handles
                        == class_count(self.entries@, self.classes@[q]) && out@[q].cached_bytes == class_bytes(
                        self.entries@,
                        self.classes@[q],
                    ),
            decreases self.classes@.len() - k,
        {
            let c = self.classes[k];
            let mut n: usize = 0;
            let mut bytes: usize = 0;
            let mut j: usize = 0;
            while j < self.entries.len()
                invariant
                    self.wf(),
                    j <= self.entries@.len(),
                    n == class_count(self.entries@.take(j as int), c),
                    bytes == class_bytes(self.entries@.take(j as int), c),
                decreases self.entries@.len() - j,
            {
                proof {
                    let t = self.entries@.take(j + 1);
                    assert(t.drop_last() =~= self.entries@.take(j as int));
                    assert(t.last() == self.entries@[j as int]);
                    lemma_prefix_sums(self.entries@, j + 1, c);
                }
                if self.entries[j].0 == c {
                    n = n + 1;
                    bytes = bytes + self.entries[j].1;
                }
                j = j + 1;
            }
            proof {
                assert(self.entries@.take(self.entries@.len() as int) =~= self.entries@);
            }
            out.push(SizeClassStats { size_class: c, cached_handles: n, cached_bytes: bytes });
            k = k + 1;
        }
        out
    }

    /// The bytes currently cached.
    pub fn cached_bytes(&self) -> (r: usize)
        ensures
            r == self.cached(),
    {
        self.cached_bytes
    }

    /// The most bytes the pool caches.
    pub fn max_cached_bytes(&self) -> (r: usize)
        ensures
            r == self.cap(),
    {
        self.max_cached_bytes
    }

    /// Drops every cached handle and every bucket; the counts stay.
    pub fn clear(&mut self)
        requires
            old(self).wf(),
        ensures
            final(self).wf(),
            final(self).entries() == Seq::<(usize, usize, H)>::empty(),
            final(self).classes() == Seq::<usize>::empty(),
            final(self).cap() == old(self).cap(),
            final(self).counts() == old(self).counts(),
    {
        self.entries = Vec::new();
        self.classes = Vec::new();
        self.cached_bytes = 0;
    }

    /// Drops cached handles until at most `keep` bytes are cached: each time
    /// the most recently cached handle of the largest size class.
    pub fn trim(&mut self, keep: usize)
        requires
            old(self).wf(),
        ensures
            final(self).wf(),
            final(self).entries() == trimmed(old(self).entries(), keep as nat),
            final(self).classes() == old(self).classes(),
            final(self).cap() == old(self).cap(),
            final(self).counts() == old(self).counts(),
    {
        while self.cached_bytes > keep
            invariant
                self.wf(),
                trimmed(self.entries@, keep as nat) == trimmed(old(self).entries@, keep as nat),
                self.classes@ == old(self).classes@,
                self.max_cached_bytes == old(self).max_cached_bytes,
                self.hit_count == old(self).hit_count,
                self.miss_count == old(self).miss_count,
                self.return_count == old(self).return_count,
            decreases self.entries@.len(),
        {
            let ghost before = self.entries@;
            proof {
                if before.len() == 0 {
                    assert(lens_sum(before) == 0);
                }
            }
            // The largest class and its most recently cached handle.
            let mut best: usize = self.entries[0].0;
            let mut at: usize = 0;
            let mut j: usize = 1;
            proof {
                let t = before.take(1);
                assert(t.drop_last() =~= Seq::<(usize, usize, H)>::empty());
                assert(t.last() == before[0]);
                assert(max_class(t.drop_last()) == 0);
                assert(max_class(t) == before[0].0);
                assert(last_of_class(t, best) == 0);
            }
            while j < self.entries.len()
                invariant
                    self.entries@ == before,
                    1 <= j <= before.len(),
                    best == max_class(before.take(j as int)),
                    at == last_of_class(before.take(j as int), best),
                decreases before.len() - j,
            {
                proof {
                    let t = before.take(j + 1);
                    assert(t.drop_last() =~= before.take(j as int));
                    assert(t.last() == before[j as int]);
                }
                if self.entries[j].0 >= best {
                    best = self.entries[j].0;
                    at = j;
                }
                j = j + 1;
            }
            proof {
                assert(before.take(before.len() as int) =~= before);
                lemma_max_found(before);
                lemma_lens_sum_remove(before, at as int);
            }
            let (_, len, _h) = self.entries.remove(at);
            self.cached_bytes = self.cached_bytes - len;
            proof {
                assert forall|k: int| 0 <= k < self.entries@.len() implies self.classes@.contains(
                    #[trigger] self.entries@[k].0,
                ) by {
                    if k < at {
                        assert(self.entries@[k] == before[k]);
                    } else {
                        assert(self.entries@[k] == before[k + 1]);
                    }
                }
            }
        }
        proof {
            assert(trimmed(self.entries@, keep as nat) == self.entries@);
        }
    }
}


/// A handle released into a pool with room for it is the next one an
/// acquisition of the same length takes, and taking it leaves the cached
/// handles as they were before the release.
pub proof fn lemma_release_then_acquire<H>(s: Seq<(usize, usize, H)>, len: usize, h: H)
    ensures
        ({
            let c = size_class_of(len as nat) as usize;
            let t = s.push((c, len, h));
            &&& last_of_class(t, c) == s.len()
            &&& t[s.len() as int].2 == h
            &&& t.remove(s.len() as int) == s
        }),
{
    let c = size_class_of(len as nat) as usize;
    let t = s.push((c, len, h));
    assert(t.last() == (c, len, h));
    assert(t.remove(s.len() as int) =~= s);
}

/// Trimming leaves at most `keep` bytes cached.
pub proof fn lemma_trimmed_within<H>(s: Seq<(usize, usize, H)>, keep: nat)
    ensures
        lens_sum(trimmed(s, keep)) <= keep,
    decreases s.len(),
{
    if s.len() > 0 && lens_sum(s) > keep {
        lemma_max_found(s);
        let i = last_of_class(s, max_class(s));
        lemma_trimmed_within(s.remove(i), keep);
    }
}


// ─── The per-thread cache ────────────────────────────────────────────────────

/// The most handles a thread's cache holds.
pub const TL_SLOTS: usize = 32;

/// The most bytes a thread's cache holds (4 MiB); larger size classes go to
/// the global pool.
pub const TL_MAX_BYTES: usize = 4194304;

/// The position of the first handle of size class `c` in `s`, or -1 when
/// there is none.
pub open spec fn first_of_class<H>(s: Seq<(usize, usize, H)>, c: usize) -> int
    decreases s.len(),
{
    if s.len() == 0 {
        -1
    } else {
        let f = first_of_class(s.drop_last(), c);
        if f >= 0 {
            f
        } else if s.last().0 == c {
            s.len() - 1
        } else {
            -1
        }
    }
}

/// The handles held by one thread, with their statistics: handles of size
/// classes up to [`TL_MAX_BYTES`], at most [`TL_SLOTS`] of them and at most
/// [`TL_MAX_BYTES`] bytes in all.
pub struct ThreadCache<H> {
    slots: Vec<(usize, usize, H)>,
    stats: TlStats,
}

impl<H> ThreadCache<H> {
    /// The held handles, oldest first: each its size class, its length and
    /// the handle.
    pub closed spec fn slots(&self) -> Seq<(usize, usize, H)> {
        self.slots@
    }

    /// The cache's statistics.
    pub closed spec fn stats_of(&self) -> TlStats {
        self.stats
    }

    /// Within the limits, with the cached byte count the lengths held.
    pub closed spec fn wf(&self) -> bool {
        &&& self.slots@.len() <= TL_SLOTS
        &&& lens_sum(self.slots@) <= TL_MAX_BYTES
        &&& self.stats.cached_bytes == lens_sum(self.slots@)
    }

    /// An empty cache with zero counts.
    pub fn new() -> (r: Self)
        ensures
            r.wf(),
            r.slots() == Seq::<(usize, usize, H)>::empty(),
            r.stats_of() == (TlStats { hits: 0, misses: 0, returns: 0, cached_bytes: 0 }),
    {
        ThreadCache { slots: Vec::new(), stats: TlStats { hits: 0, misses: 0, returns: 0, cached_bytes: 0 } }
    }

    /// The cache's statistics.
    pub fn stats(&self) -> (r: TlStats)
        ensures
            r == self.stats_of(),
    {
        self.stats
    }

    /// Takes a handle for a request of `nbytes` bytes (not 0): for a size
    /// class above [`TL_MAX_BYTES`], `None` with nothing counted; else the
    /// first held handle of that class, moving the last one into its place,
    /// counted as a hit; else `None`, counted as a miss.
    pub fn take(&mut self, nbytes: usize) -> (r: Option<H>)
        requires
            old(self).wf(),
            0 < nbytes <= usize::MAX / 2 + 1,
            old(self).stats_of().hits < u64::MAX,
            old(self).stats_of().misses < u64::MAX,
        ensures
            final(self).wf(),
            size_class_of(nbytes as nat) > TL_MAX_BYTES ==> r is None && final(self).slots() == old(self).slots()
                && final(self).stats_of() == old(self).stats_of(),
            size_class_of(nbytes as nat) <= TL_MAX_BYTES && first_of_class(
                old(self).slots(),
                size_class_of(nbytes as nat) as usize,
            ) < 0 ==> r is None && final(self).slots() == old(self).slots() && final(self).stats_of() == (TlStats {
                misses: (old(self).stats_of().misses + 1) as u64,
                ..old(self).stats_of()
            }),
            size_class_of(nbytes as nat) <= TL_MAX_BYTES && first_of_class(
                old(self).slots(),
                size_class_of(nbytes as nat) as usize,
            ) >= 0 ==> ({
                let i = first_of_class(old(self).slots(), size_class_of(nbytes as nat) as usize);
                let s = old(self).slots();
                &&& r == Some(s[i].2)
                &&& final(self).slots() == s.update(i, s.last()).drop_last()
                &&& final(self).stats_of() == (TlStats {
                    hits: (old(self).stats_of().hits + 1) as u64,
                    cached_bytes: (old(self).stats_of().cached_bytes - s[i].1) as usize,
                    ..old(self).stats_of()
                })
            }),
    {
        let class = size_class(nbytes);
        if class > TL_MAX_BYTES {
            return None;
        }
        let ghost s = self.slots@;
        match find_first_of_class(&self.slots, class) {
            Some(i) => {
                proof {
                    lemma_swap_remove_sum(s, i as int);
                }
                let (_, len, h) = self.slots.swap_remove(i);
                self.stats.hits = self.stats.hits + 1;
                self.stats.cached_bytes = self.stats.cached_bytes - len;
                Some(h)
            },
            None => {
                self.stats.misses = self.stats.misses + 1;
                None
            },
        }
    }

    /// Offers `handle`, of `len` bytes, to the cache: an empty handle is
    /// dropped (`None`); one of a size class up to [`TL_MAX_BYTES`] is held
    /// (`None`, counted as a return) when a slot is free and the bytes held
    /// stay within [`TL_MAX_BYTES`]; any other comes back (`Some`) for the
    /// global pool.
    pub fn offer(&mut self, handle: H, len: usize) -> (r: Option<H>)
        requires
            old(self).wf(),
            len <= usize::MAX / 2 + 1,
            old(self).stats_of().returns < u64::MAX,
        ensures
            final(self).wf(),
            len == 0 ==> r is None && final(self).slots() == old(self).slots() && final(self).stats_of() == old(self).stats_of(),
            len > 0 && size_class_of(len as nat) <= TL_MAX_BYTES && old(self).slots().len() < TL_SLOTS && lens_sum(
                old(self).slots(),
            ) + len <= TL_MAX_BYTES ==> r is None && final(self).slots() == old(self).slots().push(
                (size_class_of(len as nat) as usize, len, handle),
            ) && final(self).stats_of() == (TlStats {
                returns: (old(self).stats_of().returns + 1) as u64,
                cached_bytes: (old(self).stats_of().cached_bytes + len) as usize,
                ..old(self).stats_of()
            }),
            len > 0 && !(size_class_of(len as nat) <= TL_MAX_BYTES && old(self).slots().len() < TL_SLOTS && lens_sum(
                old(self).slots(),
            ) + len <= TL_MAX_BYTES) ==> r == Some(handle) && final(self).slots() == old(self).slots() && final(self).stats_of() == old(self).stats_of(),
    {
        if len == 0 {
            return None;
        }
        let class = size_class(len);
        if class <= TL_MAX_BYTES && self.slots.len() < TL_SLOTS && len <= TL_MAX_BYTES - self.stats.cached_bytes {
            let ghost s = self.slots@;
            self.slots.push((class, len, handle));
            proof {
                assert(self.slots@.drop_last() =~= s);
            }
            self.stats.returns = self.stats.returns + 1;
            self.stats.cached_bytes = self.stats.cached_bytes + len;
            return None;
        }
        Some(handle)
    }

    /// Hands out every held handle, oldest first, each with its length; the
    /// cached byte count goes to zero and the other counts stay.
    pub fn drain(&mut self) -> (r: Vec<(usize, H)>)
        requires
            old(self).wf(),
        ensures
            final(self).wf(),
            final(self).slots() == Seq::<(usize, usize, H)>::empty(),
            final(self).stats_of() == (TlStats { cached_bytes: 0, ..old(self).stats_of() }),
            r@.len() == old(self).slots().len(),
            forall|k: int|
                0 <= k < r@.len() ==> (#[trigger] r@[k]) == (old(self).slots()[k].1, old(self).slots()[k].2),
    {
        let mut out: Vec<(usize, H)> = Vec::new();
        let mut slots: Vec<(usize, usize, H)> = Vec::new();
        std::mem::swap(&mut slots, &mut self.slots);
        let ghost s = slots@;
        let mut k: usize = 0;
        while slots.len() > 0
            invariant
                s.len() <= TL_SLOTS,
                k + slots@.len() == s.len(),
                out@.len() == k,
                slots@ == s.subrange(k as int, s.len() as int),
                forall|q: int| 0 <= q < k ==> (#[trigger] out@[q]) == (s[q].1, s[q].2),
            decreases slots@.len(),
        {
            let (_, len, h) = slots.remove(0);
            out.push((len, h));
            k = k + 1;
        }
        self.stats.cached_bytes = 0;
        out
    }
}

/// The position of the first handle of size class `c` in `s`.
fn find_first_of_class<H>(s: &Vec<(usize, usize, H)>, c: usize) -> (r: Option<usize>)
    ensures
        match r {
            Some(i) => i == first_of_class(s@, c) && i < s@.len() && s@[i as int].0 == c,
            None => first_of_class(s@, c) == -1,
        },
{
    let mut i: usize = 0;
    while i < s.len()
        invariant
            i <= s@.len(),
            first_of_class(s@.take(i as int), c) == -1,
        decreases s@.len() - i,
    {
        proof {
            let t = s@.take(i + 1);
            assert(t.drop_last() =~= s@.take(i as int));
            assert(t.last() == s@[i as int]);
        }
        if s[i].0 == c {
            proof {
                lemma_first_of_class_prefix(s@, i as int + 1, c);
            }
            return Some(i);
        }
        i = i + 1;
    }
    proof {
        assert(s@.take(s@.len() as int) =~= s@);
    }
    None
}

/// The first handle of class `c` in a prefix that ends with one, and has no
/// earlier one, is the first in the whole.
proof fn lemma_first_of_class_prefix<H>(s: Seq<(usize, usize, H)>, j: int, c: usize)
    requires
        1 <= j <= s.len(),
        s[j - 1].0 == c,
        first_of_class(s.take(j - 1), c) == -1,
    ensures
        first_of_class(s, c) == j - 1,
{
    let t = s.take(j);
    assert(t.drop_last() =~= s.take(j - 1));
    assert(t.last() == s[j - 1]);
    lemma_first_of_class_prefix_step(s, j, c, j - 1);
}

/// A first position found in a prefix stays the first in longer prefixes.
proof fn lemma_first_of_class_prefix_step<H>(s: Seq<(usize, usize, H)>, j: int, c: usize, f: int)
    requires
        0 <= j <= s.len(),
        0 <= f,
        first_of_class(s.take(j), c) == f,
    ensures
        first_of_class(s, c) == f,
    decreases s.len() - j,
{
    if j < s.len() {
        let t = s.take(j + 1);
        assert(t.drop_last() =~= s.take(j));
        assert(first_of_class(t, c) == f);
        lemma_first_of_class_prefix_step(s, j + 1, c, f);
    } else {
        assert(s.take(j) =~= s);
    }
}

/// Moving the last entry into position `i` and dropping the last position
/// takes entry `i`'s length off the total.
proof fn lemma_swap_remove_sum<H>(s: Seq<(usize, usize, H)>, i: int)
    requires
        0 <= i < s.len(),
    ensures
        lens_sum(s.update(i, s.last()).drop_last()) + s[i].1 == lens_sum(s),
{
    let u = s.update(i, s.last()).drop_last();
    if i == s.len() - 1 {
        assert(u =~= s.drop_last());
    } else {
        let w = s.drop_last();
        lemma_lens_sum_remove(w, i);
        lemma_lens_sum_insert(w.remove(i), i, s.last());
        assert(w.remove(i).insert(i, s.last()) =~= u);
    }
}

/// Putting an entry in at position `i` adds its length to the total.
proof fn lemma_lens_sum_insert<H>(s: Seq<(usize, usize, H)>, i: int, x: (usize, usize, H))
    requires
        0 <= i <= s.len(),
    ensures
        lens_sum(s.insert(i, x)) == lens_sum(s) + x.1,
    decreases s.len(),
{
    if i == s.len() {
        assert(s.insert(i, x).drop_last() =~= s);
    } else {
        lemma_lens_sum_insert(s.drop_last(), i, x);
        assert(s.insert(i, x).drop_last() =~= s.drop_last().insert(i, x));
        assert(s.insert(i, x).last() == s.last());
    }
}

} // verus!
