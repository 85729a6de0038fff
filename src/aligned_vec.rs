//! A fixed-length vector whose first element sits at a chosen power-of-two
//! alignment, as wide vector units want it.
//!
//! The storage is an ordinary `Vec` with a few spare elements; the elements
//! of the vector start at the first of them whose address has the alignment.

use vstd::prelude::*;

verus! {

/// The alignment that suits the widest vector unit of every supported target
/// (512-bit registers); narrower units are served by it as well.
pub const MAX_SIMD_ALIGNMENT: usize = 64;

/// A power of two.
pub open spec fn is_power_of_two(a: usize) -> bool {
    a != 0 && a & ((a - 1) as usize) == 0
}

/// The number of spare elements kept so that some element has the alignment.
pub open spec fn spare_elems<T>(align: usize) -> nat {
    if size_of::<T>() == 0 {
        0
    } else {
        align as nat / (size_of::<T>() as nat)
    }
}

/// Relies on `Vec::as_ptr`: the address of the buffer, used only to choose
/// where the elements start. Nothing is known of its value.
#[verifier::external_body]
fn buffer_address<T>(v: &Vec<T>) -> (r: usize) {
    v.as_ptr() as usize
}

/// Relies on indexing a `Vec` by a range (`IndexMut<Range<usize>>`): the
/// result is the elements `start..end` themselves, so whatever is written
/// through it is what the vector then holds there; a slice keeps its length.
#[verifier::external_body]
fn subslice_mut<T>(v: &mut Vec<T>, start: usize, end: usize) -> (r: &mut [T])
    requires
        start <= end <= old(v)@.len(),
    ensures
        r@ == old(v)@.subrange(start as int, end as int),
        final(r)@.len() == r@.len(),
        final(v)@ == old(v)@.subrange(0, start as int) + final(r)@ + old(v)@.subrange(
            end as int,
            old(v)@.len() as int,
        ),
{
    &mut v[start..end]
}

/// The iterator that `slice::iter_mut` returns, carried through opaquely.
#[verifier::external_type_specification]
#[verifier::external_body]
#[verifier::reject_recursive_types(T)]
pub struct ExIterMut<'a, T: 'a>(std::slice::IterMut<'a, T>);

/// Relies on `slice::iter_mut`: an iterator over the elements of `s`.
#[verifier::external_body]
fn slice_iter_mut<T>(s: &mut [T]) -> std::slice::IterMut<'_, T> {
    s.iter_mut()
}

/// The alignment that vectors are made with by default: that of the widest
/// vector unit (64 bytes), chosen without probing the processor, since it
/// also serves every narrower unit.
pub fn detect_optimal_alignment() -> (r: usize)
    ensures
        r == MAX_SIMD_ALIGNMENT,
        is_power_of_two(r),
{
    assert(is_power_of_two(64usize)) by (bit_vector);
    MAX_SIMD_ALIGNMENT
}

/// The alignment that `AVec::new` and `AVec::from_iter` use.
pub fn simd_alignment() -> (r: usize)
    ensures
        r == MAX_SIMD_ALIGNMENT,
        is_power_of_two(r),
{
    detect_optimal_alignment()
}

/// A vector of fixed length whose elements start at an aligned address.
pub struct AVec<T> {
    data: Vec<T>,
    offset: usize,
    len: usize,
    align: usize,
}

impl<T> View for AVec<T> {
    type V = Seq<T>;

    closed spec fn view(&self) -> Seq<T> {
        self.data@.subrange(self.offset as int, self.offset + self.len)
    }
}

impl<T> AVec<T> {
    /// The elements lie inside the storage and the alignment is a power of two.
    pub closed spec fn wf(&self) -> bool {
        &&& self.offset + self.len <= self.data@.len() <= usize::MAX
        &&& is_power_of_two(self.align)
        &&& self.offset as int * size_of::<T>() <= self.align
        &&& self.data@.len() == self.len + spare_elems::<T>(self.align)
    }

    /// The alignment this vector was made with.
    pub closed spec fn spec_alignment(&self) -> usize {
        self.align
    }

    /// Number of elements.
    pub fn len(&self) -> (r: usize)
        requires
            self.wf(),
        ensures
            r == self@.len(),
    {
        self.len
    }

    /// Whether the vector has no elements.
    pub fn is_empty(&self) -> (r: bool)
        requires
            self.wf(),
        ensures
            r == (self@.len() == 0),
    {
        self.len == 0
    }

    /// The alignment of this vector, a power of two.
    pub fn alignment(&self) -> (r: usize)
        requires
            self.wf(),
        ensures
            r == self.spec_alignment(),
            is_power_of_two(r),
    {
        self.align
    }

    /// The address of the first element, as an integer.
    pub fn as_ptr(&self) -> usize
        requires
            self.wf(),
    {
        let base = buffer_address(&self.data);
        let esize = core::mem::size_of::<T>();
        base.wrapping_add(self.offset * esize)
    }

    /// The elements, as a slice.
    pub fn as_slice(&self) -> (r: &[T])
        requires
            self.wf(),
        ensures
            r@ == self@,
    {
        let s = self.data.as_slice();
        &s[self.offset..self.offset + self.len]
    }

    /// The element at `i`.
    pub fn get(&self, i: usize) -> (r: &T)
        requires
            self.wf(),
            i < self@.len(),
        ensures
            *r == self@[i as int],
    {
        &self.data[self.offset + i]
    }

    /// An iterator over the elements.
    pub fn iter(&self) -> std::slice::Iter<'_, T>
        requires
            self.wf(),
    {
        self.as_slice().iter()
    }
}

impl<T> AVec<T> {
    /// The elements, as a mutable slice.
    pub fn as_mut_slice(&mut self) -> (r: &mut [T])
        requires
            old(self).wf(),
        ensures
            r@ == old(self)@,
            final(self).wf(),
            final(self)@ == final(r)@,
            final(self).spec_alignment() == old(self).spec_alignment(),
    {
        let start = self.offset;
        let end = self.offset + self.len;
        let r = subslice_mut(&mut self.data, start, end);
        r
    }

    /// An iterator over the elements that can change them.
    pub fn iter_mut(&mut self) -> std::slice::IterMut<'_, T>
        requires
            old(self).wf(),
    {
        slice_iter_mut(self.as_mut_slice())
    }
}

impl<T: Copy> AVec<T> {
    /// Replaces the element at `i` with `value`.
    pub fn set(&mut self, i: usize, value: T)
        requires
            old(self).wf(),
            i < old(self)@.len(),
        ensures
            final(self).wf(),
            final(self)@ == old(self)@.update(i as int, value),
            final(self).spec_alignment() == old(self).spec_alignment(),
    {
        let k = self.offset + i;
        self.data.set(k, value);
        assert(self@ =~= old(self)@.update(i as int, value));
    }

    /// Exchanges the elements at `i` and `j`.
    pub fn swap(&mut self, i: usize, j: usize)
        requires
            old(self).wf(),
            i < old(self)@.len(),
            j < old(self)@.len(),
        ensures
            final(self).wf(),
            final(self)@ == old(self)@.update(i as int, old(self)@[j as int]).update(
                j as int,
                old(self)@[i as int],
            ),
            final(self).spec_alignment() == old(self).spec_alignment(),
    {
        if i != j {
            let a = self.data[self.offset + i];
            let b = self.data[self.offset + j];
            self.set(i, b);
            self.set(j, a);
        }
        assert(self@ =~= old(self)@.update(i as int, old(self)@[j as int]).update(
            j as int,
            old(self)@[i as int],
        ));
    }

    /// Sets every element to `value`.
    pub fn fill(&mut self, value: T)
        requires
            old(self).wf(),
        ensures
            final(self).wf(),
            final(self)@ == Seq::new(old(self)@.len(), |_i: int| value),
            final(self).spec_alignment() == old(self).spec_alignment(),
    {
        let n = self.len();
        let mut i: usize = 0;
        while i < n
            invariant
                i <= n,
                n == self@.len(),
                self.wf(),
                self.spec_alignment() == old(self).spec_alignment(),
                forall|k: int| 0 <= k < i ==> self@[k] == value,
            decreases n - i,
        {
            self.set(i, value);
            i += 1;
        }
        assert(self@ =~= Seq::new(old(self)@.len(), |_i: int| value));
    }
}

impl<T: Copy + Default> AVec<T> {
    /// A vector of `size` elements, each `T`'s default value, aligned to `simd_alignment()`.
    pub fn new(size: usize) -> (r: Self)
        requires
            size + spare_elems::<T>(MAX_SIMD_ALIGNMENT) <= usize::MAX,
        ensures
            r.wf(),
            r@.len() == size,
            r.spec_alignment() == MAX_SIMD_ALIGNMENT,
            forall|i: int, j: int| 0 <= i < size && 0 <= j < size ==> r@[i] == r@[j],
    {
        Self::with_alignment(size, simd_alignment())
    }

    /// A vector of `size` elements, each `T`'s default value, whose first
    /// element is placed at an address that is a multiple of `align`. Such a
    /// place exists among the spare elements whenever the element size
    /// divides `align`; otherwise the elements start at the first one.
    pub fn with_alignment(size: usize, align: usize) -> (r: Self)
        requires
            is_power_of_two(align),
            size + spare_elems::<T>(align) <= usize::MAX,
        ensures
            r.wf(),
            r@.len() == size,
            r.spec_alignment() == align,
            forall|i: int, j: int| 0 <= i < size && 0 <= j < size ==> r@[i] == r@[j],
    {
        let esize = core::mem::size_of::<T>();
        let spare: usize = if esize == 0 {
            0
        } else {
            align / esize
        };
        let total = size + spare;
        let d = T::default();
        let mut data: Vec<T> = Vec::with_capacity(total);
        let mut i: usize = 0;
        while i < total
            invariant
                i <= total,
                data@.len() == i,
                forall|k: int| 0 <= k < i ==> data@[k] == d,
            decreases total - i,
        {
            data.push(d);
            i += 1;
        }
        let base = buffer_address(&data);
        let mut offset: usize = 0;
        let mut k: usize = 0;
        let mut found = false;
        while k < spare && !found
            invariant
                k <= spare,
                offset <= k,
                offset == 0 || offset < spare,
                align > 0,
                esize == size_of::<T>(),
                spare == if esize == 0 {
                    0
                } else {
                    align / esize
                },
            decreases spare - k + if found { 0int } else { 1int },
        {
            proof {
                if esize > 0 {
                    assert(k * esize <= align) by (nonlinear_arith)
                        requires
                            k < spare,
                            spare == align / esize,
                            esize > 0,
                    ;
                }
            }
            if (base as u128 + k as u128 * esize as u128) % (align as u128) == 0 {
                offset = k;
                found = true;
            } else {
                k += 1;
            }
        }
        proof {
            if esize > 0 && offset > 0 {
                assert(offset * esize <= align) by (nonlinear_arith)
                    requires
                        offset < spare,
                        spare == align / esize,
                        esize > 0,
                ;
            }
        }
        let r = AVec { data, offset, len: size, align };
        assert(r@ =~= data@.subrange(offset as int, offset + size));
        r
    }

    /// A vector holding `items`, aligned to `simd_alignment()`.
    pub fn from_iter(items: &[T]) -> (r: Self)
        requires
            items@.len() + spare_elems::<T>(MAX_SIMD_ALIGNMENT) <= usize::MAX,
        ensures
            r.wf(),
            r@ == items@,
            r.spec_alignment() == MAX_SIMD_ALIGNMENT,
    {
        Self::from_iter_aligned(items, simd_alignment())
    }

    /// A vector holding `items`, whose first element is placed at an address
    /// that is a multiple of `align`.
    pub fn from_iter_aligned(items: &[T], align: usize) -> (r: Self)
        requires
            is_power_of_two(align),
            items@.len() + spare_elems::<T>(align) <= usize::MAX,
        ensures
            r.wf(),
            r@ == items@,
            r.spec_alignment() == align,
    {
        let n = items.len();
        let mut r = Self::with_alignment(n, align);
        let mut i: usize = 0;
        while i < n
            invariant
                i <= n,
                n == items@.len(),
                r.wf(),
                r@.len() == n,
                r.spec_alignment() == align,
                forall|k: int| 0 <= k < i ==> r@[k] == items@[k],
            decreases n - i,
        {
            r.set(i, items[i]);
            i += 1;
        }
        assert(r@ =~= items@);
        r
    }

    /// Whether the storage description is consistent.
    fn is_wf(&self) -> (r: bool)
        ensures
            r == self.wf(),
    {
        let n = self.data.len();
        let esize = core::mem::size_of::<T>();
        let pow2 = self.align != 0 && self.align & (self.align - 1) == 0;
        let spare: usize = if esize == 0 {
            0
        } else {
            self.align / esize
        };
        assert((self.offset as u128) * (esize as u128) <= u128::MAX) by (nonlinear_arith)
            requires
                self.offset <= usize::MAX,
                esize <= usize::MAX,
        ;
        pow2 && self.offset <= n && self.len <= n - self.offset && (self.offset as u128)
            * (esize as u128) <= self.align as u128 && spare <= n && n - spare == self.len
    }
}

impl<T: Copy + Default> Clone for AVec<T> {
    /// A copy with the same elements and alignment, placed in storage of its own.
    fn clone(&self) -> (r: Self)
        ensures
            self.wf() ==> r.wf() && r@ == self@ && r.spec_alignment() == self.spec_alignment(),
    {
        if self.is_wf() {
            Self::from_iter_aligned(self.as_slice(), self.align)
        } else {
            Self::from_iter_aligned(&[], simd_alignment())
        }
    }
}

impl<T> std::ops::Index<usize> for AVec<T> {
    type Output = T;

    fn index(&self, i: usize) -> (r: &T)
        ensures
            *r == self@[i as int],
    {
        self.get(i)
    }
}

impl<T> vstd::std_specs::core::IndexSpecImpl<usize> for AVec<T> {
    open spec fn index_req(&self, i: &usize) -> bool {
        self.wf() && *i < self@.len()
    }
}

} // verus!
