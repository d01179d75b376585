//! Typed, strided views over contiguous byte buffers.
//!
//! A view carves one logical attribute (for example, one field of a packed
//! record) out of an existing buffer of fixed-layout records, so that the
//! attribute can be read — and, through the mutable variant, overwritten —
//! as if it were a plain sequence, without copying the buffer.
//!
//! Buffer addresses are handled as plain numbers: a caller that owns a real
//! buffer passes the address of its first byte, and every address
//! computation is bounds-checked arithmetic on those numbers. No raw
//! pointer appears at the interface, and an attribute is read and written
//! as its run of bytes; reinterpreting those bytes as a typed value is the
//! caller's business.

pub mod builder;
pub mod shared_impl;
pub mod slice;
pub mod slice_mut;
pub mod slicer;

pub use builder::get_byte_offset;
pub use builder::SliceBuilder;
pub use shared_impl::AttrType;
pub use shared_impl::SliceBase;
pub use shared_impl::SliceError;
pub use slice::Slice;
pub use slice::SliceIterator;
pub use slice_mut::SliceMut;
pub use slicer::Slicer;
