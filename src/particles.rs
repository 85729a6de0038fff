//! The particle ensemble: one structure of arrays (positions, velocities,
//! weights) with an element type of the caller's choosing.

use vstd::prelude::*;
use crate::aligned_vec::{AVec, MAX_SIMD_ALIGNMENT, spare_elems};
use crate::isaac::{advance, nth_draw, valid_state, IsaacState};
use crate::resample::is_sample_index;
use crate::ziggurat::Ziggurat;
use core::cmp::Ordering;

verus! {

/// The five fields of one particle: position x and y, speed, heading, weight.
pub type ParticleState<F> = (F, F, F, F, F);

/// `p` lists each of `0..n` exactly once.
pub open spec fn is_permutation(p: Seq<int>, n: nat) -> bool {
    &&& p.len() == n
    &&& forall|i: int| 0 <= i < n ==> 0 <= #[trigger] p[i] < n
    &&& forall|i: int, j: int| 0 <= i < j < n ==> p[i] != p[j]
}

/// `order` lists the slots heaviest first by `keys`, slots of equal weight
/// in the order they had before.
pub open spec fn heaviest_first(order: Seq<int>, keys: Seq<u64>) -> bool {
    &&& forall|i: int, j: int|
        0 <= i < j < order.len() ==> keys[order[i]] >= keys[order[j]]
    &&& forall|i: int, j: int|
        0 <= i < j < order.len() && keys[order[i]] == keys[order[j]] ==> order[i] < order[j]
}

/// Compares slots by weight, heavier first; slots out of range compare equal.
pub fn heavier_first(keys: &[u64], a: usize, b: usize) -> (r: Ordering)
    ensures
        a < keys@.len() && b < keys@.len() ==> (r == Ordering::Less <==> keys@[a as int]
            > keys@[b as int]) && (r == Ordering::Equal <==> keys@[a as int] == keys@[b as int]),
{
    if a >= keys.len() || b >= keys.len() {
        Ordering::Equal
    } else if keys[a] > keys[b] {
        Ordering::Less
    } else if keys[a] == keys[b] {
        Ordering::Equal
    } else {
        Ordering::Greater
    }
}

/// Relies on `slice::sort_by`, a stable sort: with `heavier_first` as the
/// comparison (a total order on the listed slots), the slots come out
/// heaviest first and slots of equal weight keep their relative order.
#[verifier::external_body]
fn sort_slots_heaviest_first(slots: &mut Vec<usize>, keys: &[u64])
    requires
        old(slots)@ == Seq::new(keys@.len(), |i: int| i as usize),
    ensures
        is_permutation(final(slots)@.map_values(|v: usize| v as int), keys@.len()),
        heaviest_first(final(slots)@.map_values(|v: usize| v as int), keys@),
{
    slots.sort_by(|&a, &b| heavier_first(keys, a, b));
}

/// The slot that step `i` of a shuffle of `m` slots exchanges with slot `i`,
/// the draws coming from state `s`.
pub open spec fn shuffle_target(s: IsaacState, m: nat, i: nat) -> int {
    (nth_draw(s, i) as int % (m - i)) + i
}

/// Which former slot each of `n` slots holds after the first `i` steps of a
/// shuffle of `m` slots with draws from state `s`.
pub open spec fn shuffle_order(s: IsaacState, m: nat, n: nat, i: nat) -> Seq<int>
    decreases i,
{
    if i == 0 {
        Seq::new(n, |k: int| k)
    } else {
        let q = shuffle_order(s, m, n, (i - 1) as nat);
        let j = shuffle_target(s, m, (i - 1) as nat);
        q.update(i - 1, q[j]).update(j, q[i - 1])
    }
}

/// Every parent-child edge of the implicit binary tree over `0..m` whose
/// parent is at `lo` or beyond has the parent's key no smaller than the child's.
pub open spec fn heap_below(keys: Seq<u64>, lo: int, m: int) -> bool {
    forall|k: int| 0 < k < m && lo <= (k - 1) / 2 ==> #[trigger] keys[k] <= keys[(k - 1) / 2]
}

/// The first `m` keys form a max-heap: each node's key is at least its children's.
pub open spec fn is_max_heap(keys: Seq<u64>, m: int) -> bool {
    heap_below(keys, 0, m)
}

/// In a max-heap no key exceeds the root's.
proof fn lemma_heap_root_is_max(keys: Seq<u64>, m: int, k: int)
    requires
        is_max_heap(keys, m),
        0 <= k < m,
    ensures
        keys[k] <= keys[0],
    decreases k,
{
    if k > 0 {
        assert(keys[k] <= keys[(k - 1) / 2]);
        lemma_heap_root_is_max(keys, m, (k - 1) / 2);
    }
}

/// A particle ensemble stored as five parallel arrays.
pub struct Particles<F> {
    pub posn_x: AVec<F>,
    pub posn_y: AVec<F>,
    pub vel_r: AVec<F>,
    pub vel_t: AVec<F>,
    pub weight: AVec<F>,
}

impl<F> Particles<F> {
    /// All five arrays are well formed and of one length.
    pub open spec fn wf(&self) -> bool {
        &&& self.posn_x.wf()
        &&& self.posn_y.wf()
        &&& self.vel_r.wf()
        &&& self.vel_t.wf()
        &&& self.weight.wf()
        &&& self.posn_x@.len() == self.weight@.len()
        &&& self.posn_y@.len() == self.weight@.len()
        &&& self.vel_r@.len() == self.weight@.len()
        &&& self.vel_t@.len() == self.weight@.len()
    }

    /// Number of particles.
    pub open spec fn spec_len(&self) -> nat {
        self.weight@.len()
    }

    /// The fields of particle `i`.
    pub open spec fn particle(&self, i: int) -> ParticleState<F> {
        (self.posn_x@[i], self.posn_y@[i], self.vel_r@[i], self.vel_t@[i], self.weight@[i])
    }

    /// Number of particles.
    pub fn len(&self) -> (r: usize)
        requires
            self.wf(),
        ensures
            r == self.spec_len(),
    {
        self.weight.len()
    }
}

impl<F: Copy> Particles<F> {
    /// Makes particle `dst` a copy of particle `src` of `other`.
    pub fn copy_from(&mut self, dst: usize, other: &Particles<F>, src: usize)
        requires
            old(self).wf(),
            other.wf(),
            dst < old(self).spec_len(),
            src < other.spec_len(),
        ensures
            final(self).wf(),
            final(self).spec_len() == old(self).spec_len(),
            final(self).particle(dst as int) == other.particle(src as int),
            forall|k: int|
                0 <= k < old(self).spec_len() && k != dst ==> #[trigger] final(self).particle(k)
                    == old(self).particle(k),
    {
        self.posn_x.set(dst, *other.posn_x.get(src));
        self.posn_y.set(dst, *other.posn_y.get(src));
        self.vel_r.set(dst, *other.vel_r.get(src));
        self.vel_t.set(dst, *other.vel_t.get(src));
        self.weight.set(dst, *other.weight.get(src));
    }

    /// Makes particle `dst` a copy of particle `src`.
    pub fn copy_within(&mut self, dst: usize, src: usize)
        requires
            old(self).wf(),
            dst < old(self).spec_len(),
            src < old(self).spec_len(),
        ensures
            final(self).wf(),
            final(self).spec_len() == old(self).spec_len(),
            final(self).particle(dst as int) == old(self).particle(src as int),
            forall|k: int|
                0 <= k < old(self).spec_len() && k != dst ==> #[trigger] final(self).particle(k)
                    == old(self).particle(k),
    {
        let x = *self.posn_x.get(src);
        self.posn_x.set(dst, x);
        let y = *self.posn_y.get(src);
        self.posn_y.set(dst, y);
        let r = *self.vel_r.get(src);
        self.vel_r.set(dst, r);
        let t = *self.vel_t.get(src);
        self.vel_t.set(dst, t);
        let w = *self.weight.get(src);
        self.weight.set(dst, w);
    }

    /// Exchanges particles `i` and `j`.
    pub fn swap(&mut self, i: usize, j: usize)
        requires
            old(self).wf(),
            i < old(self).spec_len(),
            j < old(self).spec_len(),
        ensures
            final(self).wf(),
            final(self).spec_len() == old(self).spec_len(),
            final(self).particle(i as int) == old(self).particle(j as int),
            final(self).particle(j as int) == old(self).particle(i as int),
            forall|k: int|
                0 <= k < old(self).spec_len() && k != i && k != j ==> #[trigger] final(self).particle(k) == old(self).particle(k),
    {
        self.posn_x.swap(i, j);
        self.posn_y.swap(i, j);
        self.vel_r.swap(i, j);
        self.vel_t.swap(i, j);
        self.weight.swap(i, j);
    }

    /// Fills slots `0..indices.len()` with copies of the particles of `src`
    /// that `indices` lists, in that order; the other slots are kept.
    pub fn gather(&mut self, src: &Particles<F>, indices: &[usize])
        requires
            old(self).wf(),
            src.wf(),
            indices@.len() <= old(self).spec_len(),
            forall|i: int| 0 <= i < indices@.len() ==> #[trigger] indices@[i] < src.spec_len(),
        ensures
            final(self).wf(),
            final(self).spec_len() == old(self).spec_len(),
            forall|i: int|
                0 <= i < indices@.len() ==> #[trigger] final(self).particle(i) == src.particle(
                    indices@[i] as int,
                ),
            forall|k: int|
                indices@.len() <= k < old(self).spec_len() ==> #[trigger] final(self).particle(k)
                    == old(self).particle(k),
    {
        let n = indices.len();
        let mut i: usize = 0;
        while i < n
            invariant
                n == indices@.len(),
                i <= n,
                self.wf(),
                src.wf(),
                n <= self.spec_len(),
                self.spec_len() == old(self).spec_len(),
                forall|t: int| 0 <= t < n ==> #[trigger] indices@[t] < src.spec_len(),
                forall|t: int|
                    0 <= t < i ==> #[trigger] self.particle(t) == src.particle(indices@[t] as int),
                forall|k: int|
                    n <= k < old(self).spec_len() ==> #[trigger] self.particle(k) == old(self).particle(k),
            decreases n - i,
        {
            self.copy_from(i, src, indices[i]);
            i += 1;
        }
    }
}

impl<F: Copy + Default> Particles<F> {
    /// An ensemble of `nparticles` particles, every field at its default.
    pub fn new(nparticles: usize) -> (r: Self)
        requires
            nparticles + spare_elems::<F>(MAX_SIMD_ALIGNMENT) <= usize::MAX,
        ensures
            r.wf(),
            r.spec_len() == nparticles,
            forall|i: int, j: int|
                0 <= i < nparticles && 0 <= j < nparticles ==> #[trigger] r.particle(i) == #[trigger] r.particle(j),
    {
        Particles {
            posn_x: AVec::new(nparticles),
            posn_y: AVec::new(nparticles),
            vel_r: AVec::new(nparticles),
            vel_t: AVec::new(nparticles),
            weight: AVec::new(nparticles),
        }
    }

    /// A copy of the ensemble in storage of its own.
    pub fn duplicate(&self) -> (r: Self)
        requires
            self.wf(),
        ensures
            r.wf(),
            r.spec_len() == self.spec_len(),
            forall|k: int| 0 <= k < self.spec_len() ==> #[trigger] r.particle(k) == self.particle(k),
    {
        Particles {
            posn_x: self.posn_x.clone(),
            posn_y: self.posn_y.clone(),
            vel_r: self.vel_r.clone(),
            vel_t: self.vel_t.clone(),
            weight: self.weight.clone(),
        }
    }

    /// Rearranges the particles so that slot `i` holds the particle that was
    /// at `order[i]`; `order` lists every slot once.
    pub fn reorder(&mut self, order: &[usize])
        requires
            old(self).wf(),
            is_permutation(order@.map_values(|v: usize| v as int), old(self).spec_len()),
        ensures
            final(self).wf(),
            final(self).spec_len() == old(self).spec_len(),
            forall|i: int|
                0 <= i < old(self).spec_len() ==> #[trigger] final(self).particle(i) == old(self).particle(order@[i] as int),
    {
        let src = self.duplicate();
        assert forall|i: int| 0 <= i < order@.len() implies #[trigger] order@[i] < src.spec_len() by {
            assert(order@.map_values(|v: usize| v as int)[i] == order@[i] as int);
        }
        self.gather(&src, order);
    }

    /// Sorts the particles heaviest first, where `keys[i]` is the order code
    /// of particle `i`'s weight; particles of equal weight keep their order.
    pub fn sort_by_weight(&mut self, keys: &[u64])
        requires
            old(self).wf(),
            keys@.len() == old(self).spec_len(),
        ensures
            final(self).wf(),
            final(self).spec_len() == old(self).spec_len(),
            exists|p: Seq<int>|
                is_permutation(p, old(self).spec_len()) && heaviest_first(p, keys@) && forall|
                    k: int,
                |
                    0 <= k < old(self).spec_len() ==> #[trigger] final(self).particle(k) == old(self).particle(p[k]),
    {
        let n = self.len();
        let mut slots: Vec<usize> = Vec::with_capacity(n);
        let mut i: usize = 0;
        while i < n
            invariant
                i <= n,
                slots@ == Seq::new(i as nat, |k: int| k as usize),
            decreases n - i,
        {
            slots.push(i);
            assert(slots@ =~= Seq::new((i + 1) as nat, |k: int| k as usize));
            i += 1;
        }
        sort_slots_heaviest_first(&mut slots, keys);
        self.reorder(&slots);
        let ghost p = slots@.map_values(|v: usize| v as int);
        assert forall|k: int| 0 <= k < old(self).spec_len() implies #[trigger] self.particle(k)
            == old(self).particle(p[k]) by {
            assert(p[k] == slots@[k] as int);
        }
    }

    /// Moves the particle at slot `i` down the implicit binary tree over
    /// `0..m`, exchanging it with its heavier child while that child is
    /// heavier, so that the subtree at `i` becomes a max-heap.
    #[verifier::rlimit(80)]
    fn sift_down(&mut self, keys: &mut Vec<u64>, i: usize, m: usize) -> (p: Ghost<Seq<int>>)
        requires
            old(self).wf(),
            old(keys)@.len() == old(self).spec_len(),
            i < m <= old(self).spec_len(),
            heap_below(old(keys)@, i + 1, m as int),
        ensures
            final(self).wf(),
            final(self).spec_len() == old(self).spec_len(),
            final(keys)@.len() == old(keys)@.len(),
            heap_below(final(keys)@, i as int, m as int),
            is_permutation(p@, old(self).spec_len()),
            forall|k: int| m <= k < old(self).spec_len() ==> p@[k] == k,
            forall|k: int|
                0 <= k < old(self).spec_len() ==> #[trigger] final(self).particle(k) == old(self).particle(p@[k]),
            forall|k: int| 0 <= k < old(self).spec_len() ==> #[trigger] final(keys)@[k] == old(keys)@[p@[k]],
    {
        let ghost n = self.spec_len();
        let ghost s0 = *self;
        let ghost k0 = keys@;
        let ghost mut p: Seq<int> = Seq::new(n, |k: int| k);
        let mut j = i;
        let mut done = false;
        while j < m / 2 && !done
            invariant
                i <= j < m,
                m <= n,
                n == self.spec_len(),
                n == s0.spec_len(),
                k0.len() == n,
                keys@.len() == n,
                self.wf(),
                is_permutation(p, n),
                forall|k: int| m <= k < n ==> p[k] == k,
                forall|k: int| 0 <= k < n ==> #[trigger] self.particle(k) == s0.particle(p[k]),
                forall|k: int| 0 <= k < n ==> #[trigger] keys@[k] == k0[p[k]],
                forall|k: int|
                    0 < k < m && i <= (k - 1) / 2 && ((k - 1) / 2 != j || done) ==> #[trigger] keys@[k]
                        <= keys@[(k - 1) / 2],
                j > i ==> i <= (j - 1) / 2,
                j > i ==> forall|k: int|
                    0 < k < m && (k - 1) / 2 == j ==> #[trigger] keys@[k] <= keys@[(j - 1) / 2],
            decreases m - j, if done { 0int } else { 1int },
        {
            let left = 2 * j + 1;
            let right = 2 * j + 2;
            let wj = keys[j];
            let wleft = keys[left];
            let mut nextj = left;
            let mut stop = false;
            if right < m {
                let wright = keys[right];
                if wj >= wleft && wj >= wright {
                    stop = true;
                } else if wj < wright && (wj >= wleft || wright > wleft) {
                    nextj = right;
                }
            } else if wj >= wleft {
                stop = true;
            }
            if stop {
                done = true;
            } else {
                let ghost before = keys@;
                let ghost q = p;
                assert(before[nextj as int] > before[j as int]);
                assert(right < m ==> before[nextj as int] >= before[right as int]);
                assert(before[nextj as int] >= before[left as int]);
                self.swap(j, nextj);
                let kj = keys[j];
                let kn = keys[nextj];
                keys.set(j, kn);
                keys.set(nextj, kj);
                proof {
                    p = q.update(j as int, q[nextj as int]).update(nextj as int, q[j as int]);
                    assert forall|a: int, b: int| 0 <= a < b < n implies p[a] != p[b] by {
                        if a != j && a != nextj && b != j && b != nextj {
                            assert(q[a] != q[b]);
                        }
                    }
                    assert forall|k: int| 0 <= k < n implies #[trigger] self.particle(k) == s0.particle(
                        p[k],
                    ) by {
                        if k != j && k != nextj {
                            assert(self.particle(k) == s0.particle(q[k]));
                        }
                    }
                    assert forall|k: int| 0 <= k < n implies #[trigger] keys@[k] == k0[p[k]] by {
                        if k != j && k != nextj {
                            assert(before[k] == k0[q[k]]);
                        }
                    }
                    assert forall|k: int|
                        0 < k < m && i <= (k - 1) / 2 && (k - 1) / 2 != nextj implies #[trigger] keys@[k]
                            <= keys@[(k - 1) / 2] by {
                        let pk = (k - 1) / 2;
                        if k == nextj {
                            assert(pk == j);
                        } else if pk == j {
                            assert(k == left || k == right);
                        } else if k == j {
                            assert(before[j as int] <= before[(j - 1) / 2]);
                        } else {
                            assert(before[k] <= before[pk]);
                        }
                    }
                    assert forall|k: int| 0 < k < m && (k - 1) / 2 == nextj implies #[trigger] keys@[k]
                        <= keys@[(nextj - 1) / 2] by {
                        assert((nextj - 1) / 2 == j);
                        assert(before[k] <= before[nextj as int]);
                    }
                }
                j = nextj;
            }
        }
        proof {
            assert forall|k: int| 0 < k < m && i <= (k - 1) / 2 implies #[trigger] keys@[k] <= keys@[(k
                - 1) / 2] by {
                if !done && (k - 1) / 2 == j {
                    assert(k >= 2 * j + 1);
                }
            }
        }
        Ghost(p)
    }

    /// Rearranges the first `m` particles into a max-heap by weight over the
    /// implicit binary tree (children of `i` at `2i + 1` and `2i + 2`), sifting
    /// each inner node down from the last to the root. `keys[i]` is the order
    /// code of particle `i`'s weight and moves with it.
    #[verifier::rlimit(80)]
    pub fn heapify(&mut self, m: usize, keys: &mut Vec<u64>)
        requires
            old(self).wf(),
            old(keys)@.len() == old(self).spec_len(),
            m <= old(self).spec_len(),
        ensures
            final(self).wf(),
            final(self).spec_len() == old(self).spec_len(),
            final(keys)@.len() == old(keys)@.len(),
            is_max_heap(final(keys)@, m as int),
            forall|k: int| 0 <= k < m ==> #[trigger] final(keys)@[k] <= final(keys)@[0],
            exists|p: Seq<int>|
                #![trigger is_permutation(p, old(self).spec_len())]
                is_permutation(p, old(self).spec_len()) && (forall|k: int|
                    m <= k < old(self).spec_len() ==> p[k] == k) && (forall|k: int|
                    0 <= k < old(self).spec_len() ==> #[trigger] final(self).particle(k) == old(self).particle(p[k]))
                    && (forall|k: int| 0 <= k < old(self).spec_len() ==> #[trigger] final(keys)@[k] == old(keys)@[p[k]]),
    {
        let ghost n = self.spec_len();
        let ghost s0 = *self;
        let ghost k0 = keys@;
        let ghost mut p: Seq<int> = Seq::new(n, |k: int| k);
        if m >= 2 {
            let mut k: usize = m - 1;
            while k > 0
                invariant
                    0 <= k < m,
                    m <= n,
                    n == self.spec_len(),
                    n == s0.spec_len(),
                    k0.len() == n,
                    keys@.len() == n,
                    self.wf(),
                    heap_below(keys@, k as int, m as int),
                    is_permutation(p, n),
                    forall|t: int| m <= t < n ==> p[t] == t,
                    forall|t: int| 0 <= t < n ==> #[trigger] self.particle(t) == s0.particle(p[t]),
                    forall|t: int| 0 <= t < n ==> #[trigger] keys@[t] == k0[p[t]],
                decreases k,
            {
                let i = k - 1;
                if i < m / 2 {
                    let ghost mid = *self;
                    let ghost mid_keys = keys@;
                    let q = self.sift_down(keys, i, m);
                    proof {
                        let r = Seq::new(n, |t: int| p[q@[t]]);
                        assert forall|a: int, b: int| 0 <= a < b < n implies r[a] != r[b] by {
                            assert(q@[a] != q@[b]);
                        }
                        assert forall|t: int| 0 <= t < n implies #[trigger] self.particle(t) == s0.particle(
                            r[t],
                        ) by {
                            assert(self.particle(t) == mid.particle(q@[t]));
                        }
                        assert forall|t: int| 0 <= t < n implies #[trigger] keys@[t] == k0[r[t]] by {
                            assert(keys@[t] == mid_keys[q@[t]]);
                        }
                        p = r;
                    }
                } else {
                    assert forall|t: int| 0 < t < m && i <= (t - 1) / 2 implies #[trigger] keys@[t]
                        <= keys@[(t - 1) / 2] by {
                        assert((t - 1) / 2 >= k);
                    }
                }
                k -= 1;
            }
        }
        proof {
            assert forall|t: int| 0 <= t < m implies #[trigger] keys@[t] <= keys@[0] by {
                lemma_heap_root_is_max(keys@, m as int, t);
            }
            assert(is_permutation(p, n));
        }
    }

    /// Shuffles the first `m` particles in place, partially, Fisher-Yates
    /// style: for each slot `i` below `m - 1` in turn, a raw draw `d` picks
    /// slot `i + d % (m - i)` to exchange with it.
    pub fn shuffle(&mut self, m: usize, rng: &mut Ziggurat)
        requires
            old(self).wf(),
            m <= old(self).spec_len(),
            valid_state(old(rng)@),
        ensures
            final(self).wf(),
            final(self).spec_len() == old(self).spec_len(),
            valid_state(final(rng)@),
            final(rng)@ == advance(old(rng)@, if m == 0 { 0 } else { (m - 1) as nat }),
            final(rng).last_draw() == old(rng).last_draw(),
            ({
                let p = shuffle_order(
                    old(rng)@,
                    m as nat,
                    old(self).spec_len(),
                    if m == 0 { 0 } else { (m - 1) as nat },
                );
                &&& is_permutation(p, old(self).spec_len())
                &&& forall|k: int|
                    0 <= k < old(self).spec_len() ==> #[trigger] final(self).particle(k) == old(self).particle(p[k])
            }),
    {
        let n = self.len();
        let ghost mut p: Seq<int> = Seq::new(n as nat, |k: int| k);
        let ghost s0 = rng@;
        let last = if m == 0 {
            0
        } else {
            m - 1
        };
        let mut i: usize = 0;
        while i < last
            invariant
                last <= m <= n,
                last == if m == 0 { 0 } else { m - 1 },
                n == self.spec_len(),
                n == old(self).spec_len(),
                i <= last,
                self.wf(),
                valid_state(rng@),
                rng@ == advance(s0, i as nat),
                rng.last_draw() == old(rng).last_draw(),
                p == shuffle_order(s0, m as nat, n as nat, i as nat),
                is_permutation(p, n as nat),
                forall|k: int| 0 <= k < n ==> #[trigger] self.particle(k) == old(self).particle(p[k]),
            decreases last - i,
        {
            let d = rng.rand32();
            let j = (d as usize) % (m - i) + i;
            assert(j as int == shuffle_target(s0, m as nat, i as nat));
            let ghost q = p;
            self.swap(j, i);
            proof {
                p = q.update(i as int, q[j as int]).update(j as int, q[i as int]);
                assert forall|a: int, b: int| 0 <= a < b < n implies p[a] != p[b] by {
                    if a != i && a != j && b != i && b != j {
                        assert(q[a] != q[b]);
                    }
                }
                assert forall|k: int| 0 <= k < n implies #[trigger] self.particle(k) == old(self).particle(p[k]) by {
                    if k != i && k != j {
                        assert(self.particle(k) == old(self).particle(q[k]));
                    }
                }
            }
            i += 1;
        }
    }
}

/// The two generations of an ensemble: one is current, the other receives
/// the resampled copies and becomes current when they are complete.
pub struct Generations<F> {
    first: Particles<F>,
    second: Particles<F>,
    second_current: bool,
}

impl<F> Generations<F> {
    /// The current generation.
    pub closed spec fn spec_current(&self) -> Particles<F> {
        if self.second_current {
            self.second
        } else {
            self.first
        }
    }

    /// The generation that the next resampling writes.
    pub closed spec fn spec_other(&self) -> Particles<F> {
        if self.second_current {
            self.first
        } else {
            self.second
        }
    }

    /// Both generations are well formed and of one size.
    pub open spec fn wf(&self) -> bool {
        &&& self.spec_current().wf()
        &&& self.spec_other().wf()
        &&& self.spec_current().spec_len() == self.spec_other().spec_len()
    }

    /// Two generations of `a` and `b`, `a` current.
    pub fn new(a: Particles<F>, b: Particles<F>) -> (r: Self)
        ensures
            r.spec_current() == a,
            r.spec_other() == b,
    {
        Generations { first: a, second: b, second_current: false }
    }

    /// The current generation.
    pub fn current(&self) -> (r: &Particles<F>)
        ensures
            *r == self.spec_current(),
    {
        if self.second_current {
            &self.second
        } else {
            &self.first
        }
    }

    /// The current generation, to be changed in place.
    pub fn current_mut(&mut self) -> (r: &mut Particles<F>)
        ensures
            *r == old(self).spec_current(),
            final(self).spec_current() == *final(r),
            final(self).spec_other() == old(self).spec_other(),
    {
        if self.second_current {
            &mut self.second
        } else {
            &mut self.first
        }
    }

    /// The current generation and the other one, both to be changed: the
    /// first is resampled from, the second is written.
    pub fn split_mut(&mut self) -> (r: (&mut Particles<F>, &mut Particles<F>))
        ensures
            *r.0 == old(self).spec_current(),
            *r.1 == old(self).spec_other(),
            final(self).spec_current() == *final(r.0),
            final(self).spec_other() == *final(r.1),
    {
        if self.second_current {
            (&mut self.second, &mut self.first)
        } else {
            (&mut self.first, &mut self.second)
        }
    }

    /// Makes the other generation current: the one commit point of a
    /// resampling step.
    pub fn flip(&mut self)
        ensures
            final(self).spec_current() == old(self).spec_other(),
            final(self).spec_other() == old(self).spec_current(),
    {
        self.second_current = !self.second_current;
    }
}

impl<F: Copy> Generations<F> {
    /// Completes a resampling step: the generation just written becomes
    /// current, and every weight in it is set to `uniform_weight`.
    pub fn commit_resampled(&mut self, uniform_weight: F)
        requires
            old(self).wf(),
        ensures
            final(self).wf(),
            final(self).spec_other() == old(self).spec_current(),
            final(self).spec_current().spec_len() == old(self).spec_other().spec_len(),
            forall|k: int|
                0 <= k < old(self).spec_other().spec_len() ==> #[trigger] final(self).spec_current().particle(k)
                    == ({
                    let q = old(self).spec_other().particle(k);
                    (q.0, q.1, q.2, q.3, uniform_weight)
                }),
    {
        self.flip();
        let cur = self.current_mut();
        cur.weight.fill(uniform_weight);
    }
}

/// Resampling copies and never synthesises: when the sample indices were
/// chosen against the source's cumulative weights, and each destination slot
/// below `indices.len()` holds the source particle its index names (as
/// `gather` leaves it), then every such slot holds the exact fields of a
/// particle that is in the source.
pub proof fn lemma_resampled_particles_are_copies<F>(
    src: Particles<F>,
    dst: Particles<F>,
    cumsum: Seq<u64>,
    thresholds: Seq<u64>,
    indices: Seq<usize>,
)
    requires
        cumsum.len() == src.spec_len(),
        indices.len() == thresholds.len(),
        forall|i: int|
            0 <= i < thresholds.len() ==> is_sample_index(cumsum, #[trigger] thresholds[i], indices[i] as int),
        forall|i: int|
            0 <= i < indices.len() ==> #[trigger] dst.particle(i) == src.particle(indices[i] as int),
    ensures
        forall|i: int|
            0 <= i < indices.len() ==> 0 <= #[trigger] indices[i] < src.spec_len() && dst.particle(i)
                == src.particle(indices[i] as int),
{
    assert forall|i: int| 0 <= i < indices.len() implies 0 <= #[trigger] indices[i] < src.spec_len()
        && dst.particle(i) == src.particle(indices[i] as int) by {
        assert(is_sample_index(cumsum, thresholds[i], indices[i] as int));
        assert(dst.particle(i) == src.particle(indices[i] as int));
    }
}

} // verus!
