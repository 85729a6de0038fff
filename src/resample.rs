//! The four resampling schemes: their selection by name, their scratch
//! buffers, and the index logic they share.
//!
//! Weights enter the index logic as order codes: a nonnegative weight is
//! represented by a `u64` that orders as the weight does (the bit pattern of
//! a nonnegative IEEE double has this property). Cumulative weights are
//! nondecreasing, and so are the sampling thresholds of the systematic
//! schemes.

use vstd::prelude::*;
use vstd::string::StringSliceAdditionalSpecFns;
use crate::aligned_vec::{AVec, MAX_SIMD_ALIGNMENT, spare_elems};

verus! {

/// A sequence that never decreases.
pub open spec fn nondecreasing(s: Seq<u64>) -> bool {
    forall|i: int, j: int| 0 <= i <= j < s.len() ==> s[i] <= s[j]
}

/// `r` is the first index at which the cumulative weights `c` reach `u`, or
/// the last index when they never do.
pub open spec fn is_sample_index(c: Seq<u64>, u: u64, r: int) -> bool {
    &&& 0 <= r < c.len()
    &&& forall|k: int| 0 <= k < r ==> c[k] < u
    &&& (r == c.len() - 1 || u <= c[r])
}

/// A threshold has one sample index, so the forward walk of the systematic
/// schemes and the binary search of the multinomial one pick the same
/// particle for the same threshold.
pub proof fn lemma_sample_index_unique(c: Seq<u64>, u: u64, r1: int, r2: int)
    requires
        is_sample_index(c, u, r1),
        is_sample_index(c, u, r2),
    ensures
        r1 == r2,
{
    if r1 < r2 {
        assert(c[r1] < u);
    } else if r2 < r1 {
        assert(c[r2] < u);
    }
}

/// `r` is the first index holding the largest key.
pub open spec fn is_first_max(keys: Seq<u64>, r: int) -> bool {
    &&& 0 <= r < keys.len()
    &&& forall|k: int| 0 <= k < keys.len() ==> keys[k] <= keys[r]
    &&& forall|k: int| 0 <= k < r ==> keys[k] < keys[r]
}

/// The index of the first source particle whose cumulative weight reaches
/// `target`; a target beyond the total selects the last particle.
pub fn find_sample_index(cumsum: &[u64], target: u64) -> (r: usize)
    requires
        cumsum@.len() > 0,
        nondecreasing(cumsum@),
    ensures
        is_sample_index(cumsum@, target, r as int),
{
    let m = cumsum.len();
    let mut lo: usize = 0;
    let mut hi: usize = m;
    while lo < hi
        invariant
            m == cumsum@.len(),
            nondecreasing(cumsum@),
            0 <= lo <= hi <= m,
            forall|k: int| 0 <= k < lo ==> cumsum@[k] < target,
            forall|k: int| hi <= k < m ==> target <= cumsum@[k],
        decreases hi - lo,
    {
        let mid = lo + (hi - lo) / 2;
        if cumsum[mid] < target {
            lo = mid + 1;
        } else {
            hi = mid;
        }
    }
    if lo >= m {
        m - 1
    } else {
        lo
    }
}

/// For each threshold, the first source particle whose cumulative weight
/// reaches it (the last particle when none does), found by one forward walk.
pub fn generate_sample_indices(cumsum: &[u64], thresholds: &[u64]) -> (r: Vec<usize>)
    requires
        cumsum@.len() > 0,
        nondecreasing(cumsum@),
        nondecreasing(thresholds@),
    ensures
        r@.len() == thresholds@.len(),
        forall|i: int|
            0 <= i < thresholds@.len() ==> is_sample_index(cumsum@, #[trigger] thresholds@[i], r@[i] as int),
{
    let m = cumsum.len();
    let n = thresholds.len();
    let mut r: Vec<usize> = Vec::with_capacity(n);
    let mut j: usize = 0;
    let mut i: usize = 0;
    while i < n
        invariant
            m == cumsum@.len(),
            n == thresholds@.len(),
            m > 0,
            nondecreasing(cumsum@),
            nondecreasing(thresholds@),
            i <= n,
            j <= m,
            r@.len() == i,
            i == 0 ==> j == 0,
            i > 0 ==> forall|k: int| 0 <= k < j ==> cumsum@[k] < thresholds@[i - 1],
            forall|t: int|
                0 <= t < i ==> is_sample_index(cumsum@, #[trigger] thresholds@[t], r@[t] as int),
        decreases n - i,
    {
        let u = thresholds[i];
        assert(i > 0 ==> thresholds@[i - 1] <= u);
        while j < m && cumsum[j] < u
            invariant
                m == cumsum@.len(),
                i < n,
                u == thresholds@[i as int],
                nondecreasing(thresholds@),
                j <= m,
                forall|k: int| 0 <= k < j ==> cumsum@[k] < u,
            decreases m - j,
        {
            j += 1;
        }
        let idx = if j < m {
            j
        } else {
            m - 1
        };
        r.push(idx);
        i += 1;
    }
    r
}

/// The index of the first particle holding the largest weight.
pub fn best_index(keys: &[u64]) -> (r: usize)
    requires
        keys@.len() > 0,
    ensures
        is_first_max(keys@, r as int),
{
    let mut best: usize = 0;
    let mut i: usize = 1;
    while i < keys.len()
        invariant
            1 <= i <= keys@.len(),
            best < i,
            forall|k: int| 0 <= k < i ==> keys@[k] <= keys@[best as int],
            forall|k: int| 0 <= k < best ==> keys@[k] < keys@[best as int],
        decreases keys@.len() - i,
    {
        if keys[i] > keys[best] {
            best = i;
        }
        i += 1;
    }
    best
}

/// The bytes of `logm`.
pub open spec fn logm_name() -> Seq<u8> {
    seq![108u8, 111u8, 103u8, 109u8]
}

/// The bytes of `naive`.
pub open spec fn naive_name() -> Seq<u8> {
    seq![110u8, 97u8, 105u8, 118u8, 101u8]
}

/// The bytes of `optimal`.
pub open spec fn optimal_name() -> Seq<u8> {
    seq![111u8, 112u8, 116u8, 105u8, 109u8, 97u8, 108u8]
}

/// The bytes of `regular`.
pub open spec fn regular_name() -> Seq<u8> {
    seq![114u8, 101u8, 103u8, 117u8, 108u8, 97u8, 114u8]
}

/// One of the four scheme names: `logm`, `naive`, `optimal`, `regular`.
pub open spec fn is_scheme_name(b: Seq<u8>) -> bool {
    b == logm_name() || b == naive_name() || b == optimal_name() || b == regular_name()
}

/// Whether two byte strings are equal.
fn bytes_equal(a: &[u8], b: &[u8]) -> (r: bool)
    ensures
        r == (a@ == b@),
{
    if a.len() != b.len() {
        return false;
    }
    let mut i: usize = 0;
    while i < a.len()
        invariant
            a@.len() == b@.len(),
            i <= a@.len(),
            forall|k: int| 0 <= k < i ==> a@[k] == b@[k],
        decreases a@.len() - i,
    {
        if a[i] != b[i] {
            return false;
        }
        i += 1;
    }
    assert(a@ =~= b@);
    true
}

/// Whether `name` names one of the four schemes.
pub fn is_resampler_name(name: &str) -> (r: bool)
    ensures
        r == is_scheme_name(name.spec_bytes()),
{
    let b = name.as_bytes();
    let logm: [u8; 4] = [108, 111, 103, 109];
    let naive: [u8; 5] = [110, 97, 105, 118, 101];
    let optimal: [u8; 7] = [111, 112, 116, 105, 109, 97, 108];
    let regular: [u8; 7] = [114, 101, 103, 117, 108, 97, 114];
    assert(logm@ =~= logm_name());
    assert(naive@ =~= naive_name());
    assert(optimal@ =~= optimal_name());
    assert(regular@ =~= regular_name());
    bytes_equal(b, logm.as_slice()) || bytes_equal(b, naive.as_slice()) || bytes_equal(
        b,
        optimal.as_slice(),
    ) || bytes_equal(b, regular.as_slice())
}

/// Advances the resample-interval counter, which counts filter steps modulo
/// `interval`; resampling is due when it wraps to zero.
pub fn advance_resample_count(count: usize, interval: usize) -> (r: (usize, bool))
    requires
        interval >= 1,
        count < interval,
    ensures
        r.0 as int == (count as int + 1) % (interval as int),
        r.1 == (r.0 == 0),
{
    let next = (count + 1) % interval;
    (next, next == 0)
}

/// Grows `buf` to at least `n` elements, padding with `W`'s default value.
fn grow_to<W: Copy + Default>(buf: &mut Vec<W>, n: usize)
    ensures
        final(buf)@.len() == if old(buf)@.len() < n {
            n as nat
        } else {
            old(buf)@.len()
        },
        forall|k: int| 0 <= k < old(buf)@.len() ==> final(buf)@[k] == old(buf)@[k],
{
    if buf.len() < n {
        let d = W::default();
        while buf.len() < n
            invariant
                old(buf)@.len() <= buf@.len() <= n,
                forall|k: int| 0 <= k < old(buf)@.len() ==> buf@[k] == old(buf)@[k],
            decreases n - buf@.len(),
        {
            buf.push(d);
        }
    }
}

/// Multinomial sampling by descent of an implicit binary tree whose nodes
/// record the weight of their whole subtree.
pub struct Logm<W> {
    /// Subtree weight of each node, sized for the largest particle count.
    pub tweight: AVec<W>,
}

/// Multinomial sampling by binary search of the cumulative weights.
pub struct Naive<W> {
    /// Cumulative weights of the source particles.
    pub cumsum: Vec<W>,
}

impl<W: Copy + Default> Naive<W> {
    /// Makes room for the cumulative weights of `n` particles.
    pub fn ensure_capacity(&mut self, n: usize)
        ensures
            final(self).cumsum@.len() == if old(self).cumsum@.len() < n {
                n as nat
            } else {
                old(self).cumsum@.len()
            },
            forall|k: int| 0 <= k < old(self).cumsum@.len() ==> final(self).cumsum@[k] == old(self).cumsum@[k],
    {
        grow_to(&mut self.cumsum, n);
    }
}

impl<W> Default for Naive<W> {
    fn default() -> (r: Self)
        ensures
            r.cumsum@.len() == 0,
    {
        Naive { cumsum: Vec::new() }
    }
}

/// Systematic sampling at order statistics generated directly, in one pass.
pub struct Optimal {}

impl Default for Optimal {
    fn default() -> (r: Self) {
        Optimal {}
    }
}

/// Systematic sampling at evenly spaced thresholds.
pub struct Regular<W> {
    /// Cumulative weights of the source particles.
    pub cumsum: Vec<W>,
    /// The source index chosen for each destination slot.
    pub indices: Vec<usize>,
}

impl<W: Copy + Default> Regular<W> {
    /// Makes room for the cumulative weights and chosen indices of `n` particles.
    pub fn ensure_capacity(&mut self, n: usize)
        ensures
            final(self).cumsum@.len() == if old(self).cumsum@.len() < n {
                n as nat
            } else {
                old(self).cumsum@.len()
            },
            final(self).indices@.len() == if old(self).cumsum@.len() < n {
                if old(self).indices@.len() < n {
                    n as nat
                } else {
                    old(self).indices@.len()
                }
            } else {
                old(self).indices@.len()
            },
    {
        if self.cumsum.len() < n {
            grow_to(&mut self.cumsum, n);
            grow_to(&mut self.indices, n);
        }
    }
}

impl<W> Default for Regular<W> {
    fn default() -> (r: Self)
        ensures
            r.cumsum@.len() == 0,
            r.indices@.len() == 0,
    {
        Regular { cumsum: Vec::new(), indices: Vec::new() }
    }
}

/// The resampling scheme a filter uses, with its scratch buffers.
pub enum Resampler<W> {
    Logm(Logm<W>),
    Naive(Naive<W>),
    Optimal(Optimal),
    Regular(Regular<W>),
}

impl<W: Copy + Default> Resampler<W> {
    /// The scheme called `name`, with scratch for up to `mmax` particles.
    pub fn new(name: &str, mmax: usize) -> (r: Self)
        requires
            is_scheme_name(name.spec_bytes()),
            mmax + spare_elems::<W>(MAX_SIMD_ALIGNMENT) <= usize::MAX,
        ensures
            name.spec_bytes() == logm_name() <==> r is Logm,
            name.spec_bytes() == naive_name() <==> r is Naive,
            name.spec_bytes() == optimal_name() <==> r is Optimal,
            name.spec_bytes() == regular_name() <==> r is Regular,
            r is Logm ==> r->Logm_0.tweight.wf() && r->Logm_0.tweight@.len() == mmax,
            r is Naive ==> r->Naive_0.cumsum@.len() == 0,
            r is Regular ==> r->Regular_0.cumsum@.len() == 0 && r->Regular_0.indices@.len() == 0,
    {
        let b = name.as_bytes();
        let logm: [u8; 4] = [108, 111, 103, 109];
        let naive: [u8; 5] = [110, 97, 105, 118, 101];
        let optimal: [u8; 7] = [111, 112, 116, 105, 109, 97, 108];
        assert(logm@ =~= logm_name());
        assert(naive@ =~= naive_name());
        assert(optimal@ =~= optimal_name());
        assert(logm_name() != naive_name()) by {
            assert(logm_name().len() != naive_name().len());
        }
        assert(optimal_name() != regular_name()) by {
            assert(optimal_name()[0] != regular_name()[0]);
        }
        if bytes_equal(b, logm.as_slice()) {
            Resampler::Logm(Logm { tweight: AVec::new(mmax) })
        } else if bytes_equal(b, naive.as_slice()) {
            Resampler::Naive(Naive { cumsum: Vec::new() })
        } else if bytes_equal(b, optimal.as_slice()) {
            Resampler::Optimal(Optimal {})
        } else {
            Resampler::Regular(Regular { cumsum: Vec::new(), indices: Vec::new() })
        }
    }
}

} // verus!
