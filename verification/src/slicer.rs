//! The field locator: turns "the address of a field inside one record of
//! the buffer" into a validated byte offset, and builds a view from it.
//!
//! A `Slicer` records the address of a sample field and a stride in
//! element counts. Building a view first confirms that the address really
//! lies within the buffer's byte range — this is what prevents slicing
//! "the field of some unrelated object" — then computes the byte offset
//! and delegates to the layout validator.

use crate::shared_impl::{AttrType, SliceBase, SliceError};
use crate::slice::Slice;
use crate::slice_mut::SliceMut;
use vstd::prelude::*;

verus! {

/// Builder that resolves a recorded field address into a view.
pub struct Slicer {
    /// The address of the sample field, if one was recorded; with none,
    /// the view starts at the buffer's first byte.
    pub ptr_offset: Option<usize>,
    /// Stride of the view, in buffer elements.
    pub element_stride: usize,
}

impl Slicer {
    /// A locator with no recorded field and a stride of one element.
    pub fn new() -> (r: Slicer)
        ensures
            r.ptr_offset is None,
            r.element_stride == 1,
    {
        Slicer { ptr_offset: None, element_stride: 1 }
    }

    /// Override the stride, in count of elements (not bytes).
    pub fn stride(self, count: usize) -> (r: Slicer)
        ensures
            r.ptr_offset == self.ptr_offset,
            r.element_stride == count,
    {
        Slicer { ptr_offset: self.ptr_offset, element_stride: count }
    }

    /// Record the address of the referenced sample field; the view will
    /// start there. Whether the address belongs to the buffer is checked
    /// when the view is built.
    pub fn offset_of(self, address: usize) -> (r: Slicer)
        ensures
            r.ptr_offset == Some(address),
            r.element_stride == self.element_stride,
    {
        Slicer { ptr_offset: Some(address), element_stride: self.element_stride }
    }

    /// What [`Slicer::slice_to_offset`] returns: the recorded address as
    /// an offset from the buffer's start, when it lies inside the buffer's
    /// byte range `[base_addr, base_addr + bytes)`.
    pub open spec fn spec_offset(self, base_addr: usize, bytes: usize) -> Result<usize, SliceError> {
        match self.ptr_offset {
            None => Ok(0usize),
            Some(address) => if base_addr <= address < base_addr + bytes {
                Ok((address - base_addr) as usize)
            } else {
                Err(SliceError::OffsetOutOfBounds {
                    size: bytes,
                    offset: if address >= base_addr {
                        (address - base_addr) as usize
                    } else {
                        0usize
                    },
                })
            },
        }
    }

    /// Resolve the recorded address against the buffer `[base_addr,
    /// base_addr + bytes)`: its distance from the buffer's start when it
    /// lies inside, `OffsetOutOfBounds` when it does not, and offset 0
    /// when no address was recorded. The reported out-of-bounds offset is
    /// the distance from the buffer's start, saturated at zero for an
    /// address below the buffer.
    pub fn slice_to_offset(&self, base_addr: usize, bytes: usize) -> (r: Result<usize, SliceError>)
        requires
            base_addr + bytes <= usize::MAX,
        ensures
            r == self.spec_offset(base_addr, bytes),
    {
        match self.ptr_offset {
            None => Ok(0),
            Some(address) => {
                if base_addr <= address && address < base_addr + bytes {
                    Ok(address - base_addr)
                } else {
                    Err(SliceError::OffsetOutOfBounds {
                        size: bytes,
                        offset: if address >= base_addr { address - base_addr } else { 0 },
                    })
                }
            },
        }
    }

    /// What [`Slicer::try_build`] decides: resolve the offset, then
    /// validate the layout with a stride of `element_stride` buffer
    /// elements of `elt_size` bytes.
    pub open spec fn spec_try_build(
        self,
        base_addr: usize,
        bytes: usize,
        elt_size: usize,
        attr: AttrType,
    ) -> Result<SliceBase, SliceError> {
        match self.spec_offset(base_addr, bytes) {
            Err(e) => Err(e),
            Ok(off) => SliceBase::spec_new(
                base_addr,
                bytes,
                off,
                (elt_size * self.element_stride) as usize,
                attr,
                false,
            ),
        }
    }

    /// Build a read-only view over `data`, or report why none can exist.
    /// This is the checked path: every construction error comes back as a
    /// value, never as a panic.
    pub fn try_build<'a>(
        self,
        data: &'a [u8],
        base_addr: usize,
        elt_size: usize,
        attr: AttrType,
    ) -> (r: Result<Slice<'a>, SliceError>)
        requires
            attr.valid(),
            self.element_stride >= 1,
            base_addr + data@.len() <= usize::MAX,
            elt_size * self.element_stride <= usize::MAX,
        ensures
            r is Ok <==> self.spec_try_build(base_addr, data@.len() as usize, elt_size, attr) is Ok,
            r matches Ok(s) ==> s.wf() && s.data == data && s.base == self.spec_try_build(
                base_addr,
                data@.len() as usize,
                elt_size,
                attr,
            )->Ok_0,
            r matches Err(e) ==> e == self.spec_try_build(
                base_addr,
                data@.len() as usize,
                elt_size,
                attr,
            )->Err_0,
    {
        let byte_offset = match self.slice_to_offset(base_addr, data.len()) {
            Ok(off) => off,
            Err(e) => {
                return Err(e);
            },
        };
        let stride = elt_size * self.element_stride;
        match SliceBase::new(base_addr, data.len(), byte_offset, stride, attr, false) {
            Ok(base) => Ok(Slice { data, base }),
            Err(e) => Err(e),
        }
    }

    /// Like [`Slicer::try_build`], for a caller that has already proven
    /// validity; see [`crate::slice::Slice::new`] for the convention.
    pub fn build<'a>(self, data: &'a [u8], base_addr: usize, elt_size: usize, attr: AttrType) -> (r: Slice<'a>)
        requires
            attr.valid(),
            self.element_stride >= 1,
            base_addr + data@.len() <= usize::MAX,
            elt_size * self.element_stride <= usize::MAX,
            self.spec_try_build(base_addr, data@.len() as usize, elt_size, attr) is Ok,
        ensures
            r.wf(),
            r.data == data,
            r.base == self.spec_try_build(base_addr, data@.len() as usize, elt_size, attr)->Ok_0,
    {
        match self.try_build(data, base_addr, elt_size, attr) {
            Ok(s) => s,
            Err(_) => vstd::pervasive::unreached(),
        }
    }

    /// Build a mutable view over `data`, or report why none can exist and
    /// hand the buffer back alongside the error.
    pub fn try_build_mut(
        self,
        data: Vec<u8>,
        base_addr: usize,
        elt_size: usize,
        attr: AttrType,
    ) -> (r: Result<SliceMut, (SliceError, Vec<u8>)>)
        requires
            attr.valid(),
            self.element_stride >= 1,
            base_addr + data@.len() <= usize::MAX,
            elt_size * self.element_stride <= usize::MAX,
        ensures
            r is Ok <==> self.spec_try_build(base_addr, data@.len() as usize, elt_size, attr) is Ok,
            r matches Ok(s) ==> s.wf() && s.data@ == data@ && s.base == self.spec_try_build(
                base_addr,
                data@.len() as usize,
                elt_size,
                attr,
            )->Ok_0,
            r matches Err(p) ==> p.0 == self.spec_try_build(
                base_addr,
                data@.len() as usize,
                elt_size,
                attr,
            )->Err_0 && p.1@ == data@,
    {
        let byte_offset = match self.slice_to_offset(base_addr, data.len()) {
            Ok(off) => off,
            Err(e) => {
                return Err((e, data));
            },
        };
        let stride = elt_size * self.element_stride;
        match SliceBase::new(base_addr, data.len(), byte_offset, stride, attr, false) {
            Ok(base) => Ok(SliceMut { data, base }),
            Err(e) => Err((e, data)),
        }
    }

    /// Like [`Slicer::try_build_mut`], for a caller that has already
    /// proven validity.
    pub fn build_mut(self, data: Vec<u8>, base_addr: usize, elt_size: usize, attr: AttrType) -> (r: SliceMut)
        requires
            attr.valid(),
            self.element_stride >= 1,
            base_addr + data@.len() <= usize::MAX,
            elt_size * self.element_stride <= usize::MAX,
            self.spec_try_build(base_addr, data@.len() as usize, elt_size, attr) is Ok,
        ensures
            r.wf(),
            r.data@ == data@,
            r.base == self.spec_try_build(base_addr, data@.len() as usize, elt_size, attr)->Ok_0,
    {
        match self.try_build_mut(data, base_addr, elt_size, attr) {
            Ok(s) => s,
            Err(_) => vstd::pervasive::unreached(),
        }
    }
}

} // verus!
