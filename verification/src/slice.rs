//! The read-only view and its iterator.

use crate::shared_impl::{
    lemma_elem_in_bounds, lemma_len_bounds, lemma_len_zero_iff_empty, spec_div_ceil, AttrType,
    SliceBase,
};
use vstd::prelude::*;
use vstd::slice::slice_subrange;

verus! {

/// Immutable view with custom stride and start byte offset over a borrowed
/// byte buffer.
///
/// Each element of the view is one attribute: the run of `base.attr` bytes
/// that starts `base.off + i * base.stride` bytes into the buffer. Any
/// number of read-only views may coexist over the same buffer.
#[derive(Clone, Copy)]
pub struct Slice<'a> {
    /// The borrowed buffer.
    pub data: &'a [u8],
    /// The validated layout.
    pub base: SliceBase,
}

impl<'a> Slice<'a> {
    /// Well-formedness: the layout is validated and describes this buffer.
    pub open spec fn wf(self) -> bool {
        self.base.wf() && self.base.bytes == self.data@.len()
    }

    /// The bytes of element `i`.
    pub open spec fn spec_elem(self, i: int) -> Seq<u8> {
        self.data@.subrange(self.base.elem_start(i), self.base.elem_start(i) + self.base.attr)
    }

    /// What `get(i)` returns: the bytes of element `i` for `i < len`,
    /// nothing otherwise.
    pub open spec fn spec_get(self, i: int) -> Option<Seq<u8>> {
        if 0 <= i < self.base.spec_len() {
            Some(self.spec_elem(i))
        } else {
            None
        }
    }

    /// The elements of the view, in order.
    pub open spec fn elems(self) -> Seq<Seq<u8>> {
        Seq::new(self.base.spec_len() as nat, |i: int| self.spec_elem(i))
    }

    /// Create a view starting at byte offset `byte_offset`, with the stride
    /// of one buffer element (`elt_size` bytes).
    ///
    /// `base_addr` is the address of the buffer's first byte, as the caller
    /// knows it; it is used for the alignment check only. This is the
    /// convenience path for a caller that has already established validity:
    /// the checked path is [`crate::slicer::Slicer::try_build`] or
    /// [`SliceBase::new`] itself.
    pub fn new(data: &'a [u8], base_addr: usize, byte_offset: usize, elt_size: usize, attr: AttrType) -> (r: Slice<'a>)
        requires
            attr.valid(),
            base_addr + data@.len() <= usize::MAX,
            SliceBase::spec_new(base_addr, data@.len() as usize, byte_offset, elt_size, attr, false) is Ok,
        ensures
            r.wf(),
            r.data == data,
            r.base == SliceBase::spec_new(base_addr, data@.len() as usize, byte_offset, elt_size, attr, false)->Ok_0,
    {
        Self::strided(data, base_addr, byte_offset, elt_size, 1, attr)
    }

    /// Like [`Slice::new`], but with a custom stride of `elt_stride`
    /// buffer elements, that is `elt_size * elt_stride` bytes.
    pub fn strided(
        data: &'a [u8],
        base_addr: usize,
        byte_offset: usize,
        elt_size: usize,
        elt_stride: usize,
        attr: AttrType,
    ) -> (r: Slice<'a>)
        requires
            attr.valid(),
            base_addr + data@.len() <= usize::MAX,
            elt_size * elt_stride <= usize::MAX,
            SliceBase::spec_new(
                base_addr,
                data@.len() as usize,
                byte_offset,
                (elt_size * elt_stride) as usize,
                attr,
                false,
            ) is Ok,
        ensures
            r.wf(),
            r.data == data,
            r.base == SliceBase::spec_new(
                base_addr,
                data@.len() as usize,
                byte_offset,
                (elt_size * elt_stride) as usize,
                attr,
                false,
            )->Ok_0,
    {
        let base = match SliceBase::new_typed(
            base_addr,
            data.len(),
            byte_offset,
            elt_size,
            elt_stride,
            attr,
        ) {
            Ok(base) => base,
            Err(_) => vstd::pervasive::unreached(),
        };
        Slice { data, base }
    }

    /// Create a view whose offset and stride are explicit byte counts, with
    /// no typed element to infer them from; used when the record layout is
    /// only known at run time. On this path the buffer length must be an
    /// exact multiple of the stride.
    pub fn raw(data: &'a [u8], base_addr: usize, byte_offset: usize, byte_stride: usize, attr: AttrType) -> (r: Slice<'a>)
        requires
            attr.valid(),
            base_addr + data@.len() <= usize::MAX,
            SliceBase::spec_new(base_addr, data@.len() as usize, byte_offset, byte_stride, attr, true) is Ok,
        ensures
            r.wf(),
            r.data == data,
            r.base == SliceBase::spec_new(base_addr, data@.len() as usize, byte_offset, byte_stride, attr, true)->Ok_0,
    {
        let base = match SliceBase::new(base_addr, data.len(), byte_offset, byte_stride, attr, true) {
            Ok(base) => base,
            Err(_) => vstd::pervasive::unreached(),
        };
        Slice { data, base }
    }

    /// Create a view where the stride is the attribute size itself: the
    /// buffer is read as a plain dense sequence of attributes.
    pub fn native(data: &'a [u8], base_addr: usize, attr: AttrType) -> (r: Slice<'a>)
        requires
            attr.valid(),
            base_addr + data@.len() <= usize::MAX,
            SliceBase::spec_new(base_addr, data@.len() as usize, 0, attr.size, attr, false) is Ok,
        ensures
            r.wf(),
            r.data == data,
            r.base == SliceBase::spec_new(base_addr, data@.len() as usize, 0, attr.size, attr, false)->Ok_0,
    {
        Self::new(data, base_addr, 0, attr.size, attr)
    }

    /// The bytes of the element at `index`: `None` exactly when
    /// `index >= len()`, otherwise the `attr.size` bytes starting
    /// `off + index * stride` bytes into the buffer.
    pub fn get(&self, index: usize) -> (r: Option<&'a [u8]>)
        requires
            self.wf(),
        ensures
            match r {
                Some(b) => self.spec_get(index as int) == Some(b@),
                None => self.spec_get(index as int) is None,
            },
            r is Some <==> index < self.base.spec_len(),
    {
        if index < self.base.len() {
            proof {
                lemma_elem_in_bounds(self.base, index as int);
            }
            let start: usize = self.base.off + index * self.base.stride;
            Some(slice_subrange(self.data, start, start + self.base.attr))
        } else {
            None
        }
    }

    /// The element at `index`, for an index the caller has already checked:
    /// a wrong index is a programming defect, so this accessor requires
    /// `index < len()` instead of reporting a recoverable error.
    pub fn index(&self, index: usize) -> (r: &'a [u8])
        requires
            self.wf(),
            index < self.base.spec_len(),
        ensures
            r@ == self.spec_elem(index as int),
    {
        proof {
            lemma_elem_in_bounds(self.base, index as int);
        }
        let start: usize = self.base.off + index * self.base.stride;
        slice_subrange(self.data, start, start + self.base.attr)
    }

    /// Number of elements in the view.
    pub fn len(&self) -> (r: usize)
        requires
            self.wf(),
        ensures
            r == self.base.spec_len(),
            r == spec_div_ceil(self.base.bytes - self.base.off, self.base.stride as int),
    {
        self.base.len()
    }

    /// `true` if the view has 0 elements.
    pub fn is_empty(&self) -> (r: bool)
        requires
            self.wf(),
        ensures
            r <==> self.base.spec_len() == 0,
    {
        self.base.is_empty()
    }

    /// View stride, in bytes.
    pub fn stride(&self) -> (r: usize)
        ensures
            r == self.base.stride,
    {
        self.base.stride()
    }

    /// A fresh iterator over the view's elements, starting at element 0.
    /// The view itself is unaffected and may issue iterators repeatedly.
    pub fn iter(&self) -> (it: SliceIterator<'a>)
        requires
            self.wf(),
        ensures
            it.wf(),
            it.data == self.data,
            it.base@ == self.base,
            it.pos@ == 0,
    {
        SliceIterator::new(self)
    }
}

/// Iterator over the elements of a [`Slice`].
///
/// Two states only: active, while the current byte cursor is below the
/// end; exhausted, once it is not. Each step does one bounds-checked
/// address computation and yields one element; the cursor never advances
/// past the recorded end.
#[derive(Clone, Copy)]
pub struct SliceIterator<'a> {
    /// The borrowed buffer.
    pub data: &'a [u8],
    /// Byte offset of the next element's first byte; the iterator is
    /// exhausted once `cur >= end`.
    pub cur: usize,
    /// The exclusive upper byte offset (the buffer's length).
    pub end: usize,
    /// Byte distance between consecutive elements.
    pub stride: usize,
    /// Attribute size, in bytes.
    pub attr: usize,
    /// The layout of the originating view.
    pub base: Ghost<SliceBase>,
    /// The index of the next element to yield.
    pub pos: Ghost<int>,
}

impl<'a> SliceIterator<'a> {
    /// Well-formedness: the cursor stands on element `pos` of the
    /// originating view, or at or past the end once every element has been
    /// yielded.
    pub open spec fn wf(self) -> bool {
        &&& self.base@.wf()
        &&& self.data@.len() == self.base@.bytes
        &&& self.stride == self.base@.stride
        &&& self.attr == self.base@.attr
        &&& self.end == self.base@.bytes
        &&& 0 <= self.pos@ <= self.base@.spec_len()
        &&& self.pos@ < self.base@.spec_len() ==> self.cur == self.base@.elem_start(self.pos@)
        &&& self.pos@ == self.base@.spec_len() ==> self.cur >= self.end
        &&& self.cur <= self.end
    }

    /// The elements not yet yielded, in order.
    pub open spec fn remaining(self) -> Seq<Seq<u8>> {
        Seq::new((self.base@.spec_len() - self.pos@) as nat, |i: int|
            self.data@.subrange(
                self.base@.elem_start(self.pos@ + i),
                self.base@.elem_start(self.pos@ + i) + self.base@.attr,
            ),
        )
    }

    fn new(slice: &Slice<'a>) -> (it: SliceIterator<'a>)
        requires
            slice.wf(),
        ensures
            it.wf(),
            it.data == slice.data,
            it.base@ == slice.base,
            it.pos@ == 0,
    {
        proof {
            if slice.base.spec_len() > 0 {
                lemma_len_bounds(slice.base);
            } else {
                lemma_len_zero_iff_empty(slice.base);
            }
        }
        SliceIterator {
            data: slice.data,
            cur: slice.base.off,
            end: slice.base.bytes,
            stride: slice.base.stride,
            attr: slice.base.attr,
            base: Ghost(slice.base),
            pos: Ghost(0int),
        }
    }

    /// Yield the next element, or nothing once the view is exhausted. An
    /// exhausted iterator stays exhausted: every further call yields
    /// nothing and changes nothing.
    pub fn next(&mut self) -> (r: Option<&'a [u8]>)
        requires
            old(self).wf(),
        ensures
            final(self).wf(),
            final(self).data == old(self).data,
            final(self).base == old(self).base,
            old(self).pos@ < old(self).base@.spec_len() ==> {
                &&& final(self).pos@ == old(self).pos@ + 1
                &&& r matches Some(b) && b@ == old(self).data@.subrange(
                    old(self).base@.elem_start(old(self).pos@),
                    old(self).base@.elem_start(old(self).pos@) + old(self).base@.attr,
                )
            },
            old(self).pos@ >= old(self).base@.spec_len() ==> r is None && *final(self) == *old(
                self,
            ),
    {
        if self.cur >= self.end {
            proof {
                if self.pos@ < self.base@.spec_len() {
                    lemma_pos_below_end(self.base@, self.pos@);
                }
            }
            None
        } else {
            proof {
                if self.pos@ == self.base@.spec_len() {
                    assert(false);
                }
                lemma_elem_in_bounds(self.base@, self.pos@);
                if self.pos@ + 1 < self.base@.spec_len() {
                    lemma_pos_below_end(self.base@, self.pos@ + 1);
                    assert(self.base@.elem_start(self.pos@ + 1) == self.cur + self.stride)
                        by (nonlinear_arith)
                        requires
                            self.cur == self.base@.off + self.pos@ * self.base@.stride,
                            self.stride == self.base@.stride,
                    ;
                } else {
                    lemma_len_times_stride_covers(self.base@, self.pos@);
                }
            }
            let start: usize = self.cur;
            let r = slice_subrange(self.data, start, start + self.attr);
            // Saturating step: never advance the cursor past the recorded
            // end, so the step cannot overflow whatever the stride.
            if self.end - start > self.stride {
                self.cur = start + self.stride;
            } else {
                self.cur = self.end;
            }
            self.pos = Ghost(self.pos@ + 1);
            Some(r)
        }
    }
}

/// An element index strictly below the length starts strictly below the
/// buffer's end.
proof fn lemma_pos_below_end(b: SliceBase, i: int)
    requires
        b.wf(),
        0 <= i < b.spec_len(),
    ensures
        b.elem_start(i) < b.bytes,
{
    lemma_elem_in_bounds(b, i);
}

/// Stepping one stride past the final element reaches or passes the
/// buffer's end.
proof fn lemma_len_times_stride_covers(b: SliceBase, i: int)
    requires
        b.wf(),
        0 <= i,
        i + 1 == b.spec_len(),
    ensures
        b.elem_start(i) + b.stride >= b.bytes,
{
    lemma_len_bounds(b);
    assert(b.spec_len() * b.stride == i * b.stride + b.stride) by (nonlinear_arith)
        requires
            b.spec_len() == i + 1,
    ;
}

/// Iterator/index agreement: the sequence an iterator yields, element by
/// element, is exactly `[get(0), get(1), ..., get(len() - 1)]`. A fresh
/// iterator's remaining elements are the view's elements, and each is what
/// `get` returns at the same index.
pub proof fn lemma_iterator_index_agreement<'a>(s: Slice<'a>, it: SliceIterator<'a>)
    requires
        s.wf(),
        it.wf(),
        it.data == s.data,
        it.base@ == s.base,
        it.pos@ == 0,
    ensures
        it.remaining() == s.elems(),
        it.remaining().len() == s.base.spec_len(),
        forall|i: int| 0 <= i < s.base.spec_len() ==> s.spec_get(i) == Some(
            #[trigger] it.remaining()[i],
        ),
{
    assert(it.remaining() =~= s.elems());
}

} // verus!
