//! The mutable view.
//!
//! The mutable variant owns its byte buffer for the lifetime of the view:
//! taking the buffer in and handing it back out is how the exclusive
//! access that mutation needs is enforced, mirroring an exclusive borrow.
//! While a [`SliceMut`] exists, no other view over the same buffer can be
//! read or written.

use crate::shared_impl::{lemma_elem_in_bounds, spec_div_ceil, AttrType, SliceBase};
use crate::slice::{Slice, SliceIterator};
use vstd::arithmetic::div_mod::lemma_fundamental_div_mod;
use vstd::arithmetic::mul::{lemma_mul_inequality, lemma_mul_is_distributive_add_other_way};
use vstd::prelude::*;
use vstd::slice::slice_subrange;

verus! {

/// `true` when byte position `j` lies inside one of the first `count`
/// write slots of a bulk copy: the first `esz` bytes of some element
/// `k < count`.
pub open spec fn spec_in_written_slot(b: SliceBase, esz: int, count: int, j: int) -> bool {
    exists|k: int| 0 <= k < count && #[trigger] b.elem_start(k) <= j < b.elem_start(k) + esz
}

/// Mutable view with custom stride and start byte offset.
///
/// For the shape of the view, see [`crate::slice::Slice`]; a `SliceMut`
/// additionally overwrites elements, one at a time through
/// [`SliceMut::set`] or in bulk through [`SliceMut::copy_from_slice`].
pub struct SliceMut {
    /// The owned buffer.
    pub data: Vec<u8>,
    /// The validated layout.
    pub base: SliceBase,
}

impl SliceMut {
    /// Well-formedness: the layout is validated and describes this buffer.
    pub open spec fn wf(self) -> bool {
        self.base.wf() && self.base.bytes == self.data@.len()
    }

    /// The bytes of element `i`.
    pub open spec fn spec_elem(self, i: int) -> Seq<u8> {
        self.data@.subrange(self.base.elem_start(i), self.base.elem_start(i) + self.base.attr)
    }

    /// What `get(i)` returns: the bytes of element `i` for `i < len`,
    /// nothing otherwise.
    pub open spec fn spec_get(self, i: int) -> Option<Seq<u8>> {
        if 0 <= i < self.base.spec_len() {
            Some(self.spec_elem(i))
        } else {
            None
        }
    }

    /// Mutable version of [`crate::slice::Slice::new`]: the view takes the
    /// buffer in; [`SliceMut::into_inner`] hands it back.
    pub fn new(
        data: Vec<u8>,
        base_addr: usize,
        byte_offset: usize,
        elt_size: usize,
        elt_stride: usize,
        attr: AttrType,
    ) -> (r: SliceMut)
        requires
            attr.valid(),
            base_addr + data@.len() <= usize::MAX,
            elt_size * elt_stride <= usize::MAX,
            SliceBase::spec_new(
                base_addr,
                data@.len() as usize,
                byte_offset,
                (elt_size * elt_stride) as usize,
                attr,
                false,
            ) is Ok,
        ensures
            r.wf(),
            r.data@ == data@,
            r.base == SliceBase::spec_new(
                base_addr,
                data@.len() as usize,
                byte_offset,
                (elt_size * elt_stride) as usize,
                attr,
                false,
            )->Ok_0,
    {
        let base = match SliceBase::new_typed(
            base_addr,
            data.len(),
            byte_offset,
            elt_size,
            elt_stride,
            attr,
        ) {
            Ok(base) => base,
            Err(_) => vstd::pervasive::unreached(),
        };
        SliceMut { data, base }
    }

    /// Mutable version of [`crate::slice::Slice::raw`].
    pub fn raw(data: Vec<u8>, base_addr: usize, byte_offset: usize, byte_stride: usize, attr: AttrType) -> (r: SliceMut)
        requires
            attr.valid(),
            base_addr + data@.len() <= usize::MAX,
            SliceBase::spec_new(base_addr, data@.len() as usize, byte_offset, byte_stride, attr, true) is Ok,
        ensures
            r.wf(),
            r.data@ == data@,
            r.base == SliceBase::spec_new(base_addr, data@.len() as usize, byte_offset, byte_stride, attr, true)->Ok_0,
    {
        let base = match SliceBase::new(base_addr, data.len(), byte_offset, byte_stride, attr, true) {
            Ok(base) => base,
            Err(_) => vstd::pervasive::unreached(),
        };
        SliceMut { data, base }
    }

    /// Mutable version of [`crate::slice::Slice::native`]: the stride is
    /// the attribute size itself.
    pub fn native(data: Vec<u8>, base_addr: usize, attr: AttrType) -> (r: SliceMut)
        requires
            attr.valid(),
            base_addr + data@.len() <= usize::MAX,
            SliceBase::spec_new(base_addr, data@.len() as usize, 0, attr.size, attr, false) is Ok,
        ensures
            r.wf(),
            r.data@ == data@,
            r.base == SliceBase::spec_new(base_addr, data@.len() as usize, 0, attr.size, attr, false)->Ok_0,
    {
        Self::new(data, base_addr, 0, attr.size, 1, attr)
    }

    /// Give the buffer back, consuming the view. The buffer holds every
    /// write made through the view.
    pub fn into_inner(self) -> (r: Vec<u8>)
        ensures
            r@ == self.data@,
    {
        self.data
    }

    /// The bytes of the element at `index`: `None` exactly when
    /// `index >= len()`.
    pub fn get(&self, index: usize) -> (r: Option<&[u8]>)
        requires
            self.wf(),
        ensures
            match r {
                Some(b) => self.spec_get(index as int) == Some(b@),
                None => self.spec_get(index as int) is None,
            },
            r is Some <==> index < self.base.spec_len(),
    {
        if index < self.base.len() {
            proof {
                lemma_elem_in_bounds(self.base, index as int);
            }
            let start: usize = self.base.off + index * self.base.stride;
            Some(slice_subrange(self.data.as_slice(), start, start + self.base.attr))
        } else {
            None
        }
    }

    /// The element at `index`, for an index the caller has already
    /// checked; see [`crate::slice::Slice::index`].
    pub fn index(&self, index: usize) -> (r: &[u8])
        requires
            self.wf(),
            index < self.base.spec_len(),
        ensures
            r@ == self.spec_elem(index as int),
    {
        proof {
            lemma_elem_in_bounds(self.base, index as int);
        }
        let start: usize = self.base.off + index * self.base.stride;
        slice_subrange(self.data.as_slice(), start, start + self.base.attr)
    }

    /// Number of elements in the view.
    pub fn len(&self) -> (r: usize)
        requires
            self.wf(),
        ensures
            r == self.base.spec_len(),
            r == spec_div_ceil(self.base.bytes - self.base.off, self.base.stride as int),
    {
        self.base.len()
    }

    /// `true` if the view has 0 elements.
    pub fn is_empty(&self) -> (r: bool)
        requires
            self.wf(),
        ensures
            r <==> self.base.spec_len() == 0,
    {
        self.base.is_empty()
    }

    /// View stride, in bytes.
    pub fn stride(&self) -> (r: usize)
        ensures
            r == self.base.stride,
    {
        self.base.stride()
    }

    /// Overwrite the element at `index` with `value`, whose length must be
    /// the attribute size. This is the mutation analog of
    /// [`SliceMut::get`]: a wrong index or length is a programming defect,
    /// so both are preconditions rather than recoverable errors.
    ///
    /// No byte outside `[off + index * stride, off + index * stride + attr)`
    /// changes, and in consequence no other element changes.
    pub fn set(&mut self, index: usize, value: &[u8])
        requires
            old(self).wf(),
            index < old(self).base.spec_len(),
            value@.len() == old(self).base.attr,
        ensures
            final(self).wf(),
            final(self).base == old(self).base,
            final(self).data@.len() == old(self).data@.len(),
            final(self).spec_elem(index as int) == value@,
            forall|j: int|
                0 <= j < old(self).data@.len() && !(old(self).base.elem_start(index as int) <= j
                    < old(self).base.elem_start(index as int) + old(self).base.attr)
                    ==> final(self).data@[j] == old(self).data@[j],
            forall|k: int|
                0 <= k < old(self).base.spec_len() && k != index ==> final(self).spec_elem(k)
                    == old(self).spec_elem(k),
    {
        proof {
            lemma_elem_in_bounds(self.base, index as int);
        }
        let start: usize = self.base.off + index * self.base.stride;
        self.write_bytes(start, value, 0, value.len());
        proof {
            assert(self.spec_elem(index as int) =~= value@);
            assert forall|k: int|
                0 <= k < self.base.spec_len() && k != index
                    implies self.spec_elem(k) == old(self).spec_elem(k) by {
                lemma_elem_in_bounds(self.base, k);
                if k < index {
                    lemma_slot_order(self.base, k, index as int);
                } else {
                    lemma_slot_order(self.base, index as int, k);
                }
                assert(self.spec_elem(k) =~= old(self).spec_elem(k));
            }
        }
    }

    /// Copy the elements of `src`, read as consecutive blocks of
    /// `elt_size` bytes, into the first `src.len() / elt_size` elements of
    /// the view, one block per element.
    ///
    /// Unlike a whole-buffer copy, the source block may be smaller than
    /// the attribute: each block lands at the start of its element's slot
    /// and the excess bytes of the slot are left untouched, as is every
    /// byte outside the written slots. The source must not hold more
    /// blocks than the view has elements; that violation is a programming
    /// defect, excluded by precondition rather than reported.
    pub fn copy_from_slice(&mut self, src: &[u8], elt_size: usize)
        requires
            old(self).wf(),
            1 <= elt_size <= old(self).base.attr,
            (src@.len() as int) % (elt_size as int) == 0,
            (src@.len() as int) / (elt_size as int) <= old(self).base.spec_len(),
        ensures
            final(self).wf(),
            final(self).base == old(self).base,
            final(self).data@.len() == old(self).data@.len(),
            forall|k: int|
                0 <= k < (src@.len() as int) / (elt_size as int)
                    ==> #[trigger] final(self).data@.subrange(
                    old(self).base.elem_start(k),
                    old(self).base.elem_start(k) + elt_size,
                ) == src@.subrange(k * elt_size, k * elt_size + elt_size),
            forall|j: int|
                0 <= j < old(self).data@.len() && !spec_in_written_slot(
                    old(self).base,
                    elt_size as int,
                    (src@.len() as int) / (elt_size as int),
                    j,
                ) ==> final(self).data@[j] == old(self).data@[j],
    {
        let count: usize = src.len() / elt_size;
        proof {
            lemma_fundamental_div_mod(src@.len() as int, elt_size as int);
            vstd::arithmetic::mul::lemma_mul_is_commutative(count as int, elt_size as int);
        }
        let mut k: usize = 0;
        while k < count
            invariant
                0 <= k <= count,
                count == (src@.len() as int) / (elt_size as int),
                src@.len() == count * elt_size,
                src@.len() <= usize::MAX,
                1 <= elt_size <= self.base.attr,
                count <= self.base.spec_len(),
                self.base == old(self).base,
                self.base.wf(),
                self.data@.len() == old(self).data@.len(),
                self.data@.len() == self.base.bytes,
                forall|k2: int|
                    0 <= k2 < k ==> #[trigger] self.data@.subrange(
                        self.base.elem_start(k2),
                        self.base.elem_start(k2) + elt_size,
                    ) == src@.subrange(k2 * elt_size, k2 * elt_size + elt_size),
                forall|j: int|
                    0 <= j < self.data@.len() && !spec_in_written_slot(
                        self.base,
                        elt_size as int,
                        k as int,
                        j,
                    ) ==> self.data@[j] == old(self).data@[j],
            decreases count - k,
        {
            proof {
                lemma_elem_in_bounds(self.base, k as int);
                lemma_mul_inequality(k as int + 1, count as int, elt_size as int);
                lemma_mul_is_distributive_add_other_way(elt_size as int, k as int, 1);
                vstd::arithmetic::mul::lemma_mul_is_commutative(count as int, elt_size as int);
            }
            let ghost pre = self.data@;
            let start: usize = self.base.off + k * self.base.stride;
            self.write_bytes(start, src, k * elt_size, elt_size);
            proof {
                let b = self.base;
                let esz: int = elt_size as int;
                let ki: int = k as int;
                assert(self.data@.subrange(b.elem_start(ki), b.elem_start(ki) + esz) =~= src@
                    .subrange(ki * esz, ki * esz + esz));
                assert forall|k2: int| 0 <= k2 < ki implies #[trigger] self.data@.subrange(
                    b.elem_start(k2),
                    b.elem_start(k2) + esz,
                ) == src@.subrange(k2 * esz, k2 * esz + esz) by {
                    lemma_elem_in_bounds(b, k2);
                    lemma_slot_order(b, k2, ki);
                    assert(self.data@.subrange(b.elem_start(k2), b.elem_start(k2) + esz) =~= pre
                        .subrange(b.elem_start(k2), b.elem_start(k2) + esz));
                }
                assert forall|j: int|
                    0 <= j < self.data@.len() && !spec_in_written_slot(b, esz, ki + 1, j) implies
                    self.data@[j] == old(self).data@[j] by {
                    assert(!spec_in_written_slot(b, esz, ki, j));
                    assert(!(b.elem_start(ki) <= j < b.elem_start(ki) + esz));
                }
            }
            k = k + 1;
        }
    }

    /// A fresh iterator over the view's elements; the view may issue
    /// iterators repeatedly. The iterator reads; writing goes through
    /// [`SliceMut::set`] and [`SliceMut::copy_from_slice`].
    pub fn iter<'b>(&'b self) -> (it: SliceIterator<'b>)
        requires
            self.wf(),
        ensures
            it.wf(),
            it.data@ == self.data@,
            it.base@ == self.base,
            it.pos@ == 0,
    {
        let view = Slice { data: self.data.as_slice(), base: self.base };
        view.iter()
    }

    /// Overwrite `n` bytes starting at buffer position `start` with the
    /// bytes of `src` starting at `src_lo`, touching nothing else.
    fn write_bytes(&mut self, start: usize, src: &[u8], src_lo: usize, n: usize)
        requires
            start + n <= old(self).data@.len(),
            src_lo + n <= src@.len(),
        ensures
            final(self).base == old(self).base,
            final(self).data@.len() == old(self).data@.len(),
            forall|j: int|
                start <= j < start + n ==> final(self).data@[j] == src@[src_lo + (j - start)],
            forall|j: int|
                0 <= j < old(self).data@.len() && !(start <= j < start + n)
                    ==> final(self).data@[j] == old(self).data@[j],
    {
        let dlen: usize = self.data.len();
        let slen: usize = src.len();
        proof {
            assert(start + n <= dlen && src_lo + n <= slen);
        }
        let mut i: usize = 0;
        while i < n
            invariant
                0 <= i <= n,
                start + n <= self.data@.len() <= usize::MAX,
                src_lo + n <= src@.len() <= usize::MAX,
                self.base == old(self).base,
                self.data@.len() == old(self).data@.len(),
                forall|j: int|
                    start <= j < start + i ==> self.data@[j] == src@[src_lo + (j - start)],
                forall|j: int|
                    0 <= j < self.data@.len() && !(start <= j < start + i)
                        ==> self.data@[j] == old(self).data@[j],
            decreases n - i,
        {
            let b = src[src_lo + i];
            self.data[start + i] = b;
            i = i + 1;
        }
    }
}

/// Elements come in buffer order: element `i` of a view ends at or before
/// element `k` begins, whenever `i < k`. With the attribute no larger than
/// the stride, distinct elements therefore occupy disjoint byte ranges.
pub proof fn lemma_slot_order(b: SliceBase, i: int, k: int)
    requires
        0 <= i < k,
        b.stride >= 1,
    ensures
        b.elem_start(i) + b.stride <= b.elem_start(k),
{
    lemma_mul_inequality(i + 1, k, b.stride as int);
    lemma_mul_is_distributive_add_other_way(b.stride as int, i, 1);
}

} // verus!
