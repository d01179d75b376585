//! Offset computation from a field address, and the view builder that
//! call-site sugar feeds.

use crate::shared_impl::{AttrType, SliceBase};
use crate::slice::Slice;
use crate::slice_mut::SliceMut;
use vstd::prelude::*;

verus! {

/// The byte distance between the start of the buffer `[base_addr,
/// base_addr + bytes)` and `address`, for an address inside the buffer.
/// An address outside the buffer is a programming defect, excluded by
/// precondition rather than reported.
pub fn get_byte_offset(base_addr: usize, bytes: usize, address: usize) -> (r: usize)
    requires
        base_addr + bytes <= usize::MAX,
        base_addr <= address < base_addr + bytes,
    ensures
        r == address - base_addr,
{
    address - base_addr
}

/// View builder: holds the address of a sample field, a stride in element
/// counts and the attribute's shape, and builds a view over a buffer that
/// contains the field. Used by call-site sugar for type inference; the
/// checked equivalent is [`crate::slicer::Slicer`].
pub struct SliceBuilder {
    /// Address of the sample field the view will start at.
    pub start: usize,
    /// Stride of the view, in buffer elements.
    pub elt_stride: usize,
    /// Shape of the attribute the view reads.
    pub attr: AttrType,
}

impl SliceBuilder {
    /// A builder for a view starting at the field at `start_addr`.
    pub fn new(start_addr: usize, elt_stride: usize, attr: AttrType) -> (r: SliceBuilder)
        ensures
            r.start == start_addr,
            r.elt_stride == elt_stride,
            r.attr == attr,
    {
        SliceBuilder { start: start_addr, elt_stride, attr }
    }

    /// Build a read-only view over `data`, whose layout the caller has
    /// already proven valid; the recorded field address must lie inside
    /// the buffer.
    pub fn build<'a>(&self, data: &'a [u8], base_addr: usize, elt_size: usize) -> (r: Slice<'a>)
        requires
            self.attr.valid(),
            base_addr + data@.len() <= usize::MAX,
            elt_size * self.elt_stride <= usize::MAX,
            base_addr <= self.start < base_addr + data@.len(),
            SliceBase::spec_new(
                base_addr,
                data@.len() as usize,
                (self.start - base_addr) as usize,
                (elt_size * self.elt_stride) as usize,
                self.attr,
                false,
            ) is Ok,
        ensures
            r.wf(),
            r.data == data,
            r.base == SliceBase::spec_new(
                base_addr,
                data@.len() as usize,
                (self.start - base_addr) as usize,
                (elt_size * self.elt_stride) as usize,
                self.attr,
                false,
            )->Ok_0,
    {
        let byte_offset: usize = get_byte_offset(base_addr, data.len(), self.start);
        Slice::strided(data, base_addr, byte_offset, elt_size, self.elt_stride, self.attr)
    }

    /// Build a mutable view over `data`; see [`SliceBuilder::build`].
    pub fn build_mut(&self, data: Vec<u8>, base_addr: usize, elt_size: usize) -> (r: SliceMut)
        requires
            self.attr.valid(),
            base_addr + data@.len() <= usize::MAX,
            elt_size * self.elt_stride <= usize::MAX,
            base_addr <= self.start < base_addr + data@.len(),
            SliceBase::spec_new(
                base_addr,
                data@.len() as usize,
                (self.start - base_addr) as usize,
                (elt_size * self.elt_stride) as usize,
                self.attr,
                false,
            ) is Ok,
        ensures
            r.wf(),
            r.data@ == data@,
            r.base == SliceBase::spec_new(
                base_addr,
                data@.len() as usize,
                (self.start - base_addr) as usize,
                (elt_size * self.elt_stride) as usize,
                self.attr,
                false,
            )->Ok_0,
    {
        let byte_offset: usize = get_byte_offset(base_addr, data.len(), self.start);
        SliceMut::new(data, base_addr, byte_offset, elt_size, self.elt_stride, self.attr)
    }
}

} // verus!
