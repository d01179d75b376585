//! Shared core of the read-only and mutable views: the attribute
//! descriptor, the error taxonomy, and the layout validator.
//!
//! The validator is the single place where a view's shape is checked.
//! Every constructor of [`crate::slice::Slice`] and
//! [`crate::slice_mut::SliceMut`] funnels through [`SliceBase::new`].

use vstd::arithmetic::div_mod::{
    lemma_fundamental_div_mod, lemma_fundamental_div_mod_converse, lemma_mod_pos_bound,
};
use vstd::arithmetic::mul::lemma_mul_inequality;
use vstd::prelude::*;

verus! {

/// Size and required alignment of the attribute read at each position of a
/// view, in bytes.
///
/// In a strided buffer these two numbers are all that matters about the
/// attribute's type, so the attribute is described by them at run time.
/// Both must be at least 1: a zero-sized attribute has no meaningful
/// strided layout, and every inhabited layout has alignment at least 1.
#[derive(Clone, Copy, Debug, PartialEq, Eq, Structural)]
pub struct AttrType {
    /// Attribute size, in bytes.
    pub size: usize,
    /// Required alignment of the attribute's start address, in bytes.
    pub align: usize,
}

impl AttrType {
    /// `true` when the descriptor is meaningful: both numbers at least 1.
    pub open spec fn valid(self) -> bool {
        self.size >= 1 && self.align >= 1
    }
}

/// Why a view could not be constructed.
///
/// Every variant is a construction-time condition: a view that was
/// constructed never fails later.
#[derive(Clone, Copy, Debug, PartialEq, Eq, Structural)]
pub enum SliceError {
    /// The requested start byte lies at or beyond the buffer's end, or an
    /// element claimed by the view would run past the buffer's end, or
    /// (field-locator path) the recorded address does not belong to the
    /// buffer's byte range.
    OffsetOutOfBounds {
        /// Buffer size, in bytes.
        size: usize,
        /// The rejected byte offset. On the field-locator path this is the
        /// distance from the buffer's start, saturated at zero for an
        /// address below the buffer.
        offset: usize,
    },
    /// The attribute's byte size exceeds the stride (or, for the final
    /// element, the bytes that remain of the buffer), so consecutive
    /// elements would overlap or a read would leave the buffer.
    AttributeLargerThanStride {
        /// Attribute size, in bytes.
        attr: usize,
        /// The stride the attribute had to fit in, in bytes. For the final
        /// element this is the length of the trailing partial stride.
        stride: usize,
    },
    /// The computed start address is not a multiple of the attribute's
    /// required alignment.
    AlignmentFault {
        /// The rejected byte offset.
        offset: usize,
        /// The attribute's required alignment, in bytes.
        align: usize,
    },
    /// The buffer's byte length is not an integer multiple of the declared
    /// stride. Raised only on the raw construction path, where the stride
    /// is caller-supplied rather than inferred from a typed element.
    StrideMismatch {
        /// Buffer size, in bytes.
        size: usize,
        /// The declared stride, in bytes.
        stride: usize,
    },
}

impl SliceError {
    /// A short description of the error.
    pub fn message(&self) -> (r: &'static str)
        ensures
            (self matches SliceError::OffsetOutOfBounds { .. }) ==> r@ == "byte offset is out of bounds of the slice"@,
            (self matches SliceError::AttributeLargerThanStride { .. }) ==> r@ == "attribute is larger than the stride it must fit in"@,
            (self matches SliceError::AlignmentFault { .. }) ==> r@ == "attribute isn't aligned to the byte offset"@,
            (self matches SliceError::StrideMismatch { .. }) ==> r@ == "slice size isn't a multiple of the stride"@,
    {
        match self {
            SliceError::OffsetOutOfBounds { .. } => "byte offset is out of bounds of the slice",
            SliceError::AttributeLargerThanStride { .. } => "attribute is larger than the stride it must fit in",
            SliceError::AlignmentFault { .. } => "attribute isn't aligned to the byte offset",
            SliceError::StrideMismatch { .. } => "slice size isn't a multiple of the stride",
        }
    }
}

/// `ceil(n / d)` over the mathematical integers, for `d >= 1` and `n >= 0`.
pub open spec fn spec_div_ceil(n: int, d: int) -> int
    recommends
        n >= 0,
        d >= 1,
{
    (n + d - 1) / d
}

/// Validated layout of a view: byte offset of the first element, buffer
/// byte length, stride, and attribute size.
///
/// The fields are set once, by [`SliceBase::new`], and describe the view
/// for its whole lifetime. They are exposed for reading; mutating them
/// directly voids [`SliceBase::wf`] and with it every method's contract.
#[derive(Clone, Copy, Debug, PartialEq, Eq, Structural)]
pub struct SliceBase {
    /// Byte offset of the first element, from the buffer's start.
    pub off: usize,
    /// Buffer byte length (the exclusive upper byte offset).
    pub bytes: usize,
    /// Byte distance between consecutive elements.
    pub stride: usize,
    /// Attribute size, in bytes.
    pub attr: usize,
}

impl SliceBase {
    /// Number of elements of the view: `ceil((bytes - off) / stride)`.
    pub open spec fn spec_len(self) -> int {
        spec_div_ceil(self.bytes - self.off, self.stride as int)
    }

    /// Byte offset of element `i`'s first byte, from the buffer's start.
    pub open spec fn elem_start(self, i: int) -> int {
        self.off + i * self.stride
    }

    /// Well-formedness: established by [`SliceBase::new`] and preserved for
    /// the lifetime of the view.
    ///
    /// The last clause resolves the trailing-element boundary question:
    /// the length is the ceiling of `(bytes - off) / stride`, so a final
    /// partial stride still yields one element, but only when the
    /// attribute itself fits in the bytes that remain. A configuration
    /// whose final element would run past the buffer's end is rejected at
    /// construction, never read out of bounds later. This is a deliberate
    /// design choice.
    pub open spec fn wf(self) -> bool {
        &&& 1 <= self.attr <= self.stride
        &&& self.off == 0 || self.off < self.bytes
        &&& self.spec_len() > 0 ==> self.elem_start(self.spec_len() - 1) + self.attr <= self.bytes
    }

    /// The trailing partial stride: how many bytes of the buffer remain
    /// after the last whole stride.
    pub open spec fn spec_tail(bytes: usize, offset: usize, stride: usize) -> int {
        (bytes - offset) % (stride as int)
    }

    /// Functional model of [`SliceBase::new`]: the checks, in order, and
    /// the validated layout when all pass.
    pub open spec fn spec_new(
        base_addr: usize,
        bytes: usize,
        offset: usize,
        stride: usize,
        attr: AttrType,
        exact: bool,
    ) -> Result<SliceBase, SliceError> {
        if attr.size > stride {
            Err(SliceError::AttributeLargerThanStride { attr: attr.size, stride })
        } else if offset > 0 && offset >= bytes {
            Err(SliceError::OffsetOutOfBounds { size: bytes, offset })
        } else if (base_addr + offset) % (attr.align as int) != 0 {
            Err(SliceError::AlignmentFault { offset, align: attr.align })
        } else if exact && (bytes as int) % (stride as int) != 0 {
            Err(SliceError::StrideMismatch { size: bytes, stride })
        } else if Self::spec_tail(bytes, offset, stride) != 0 && attr.size
            > Self::spec_tail(bytes, offset, stride) {
            Err(SliceError::AttributeLargerThanStride {
                attr: attr.size,
                stride: Self::spec_tail(bytes, offset, stride) as usize,
            })
        } else {
            Ok(SliceBase { off: offset, bytes, stride, attr: attr.size })
        }
    }

    /// The layout validator. Checks, in order:
    ///
    /// 1. the attribute fits in the stride;
    /// 2. the byte offset lies inside the buffer (an offset of exactly 0
    ///    is always legal, even for an empty buffer, and yields an empty
    ///    view);
    /// 3. the start address `base_addr + offset` is a multiple of the
    ///    attribute's alignment;
    /// 4. on the raw path only (`exact`), the buffer length is a multiple
    ///    of the stride;
    /// 5. the final element's attribute fits in the bytes that remain of
    ///    the buffer.
    ///
    /// Returns the validated layout, or the error of the first check that
    /// failed. No side effects.
    pub fn new(
        base_addr: usize,
        bytes: usize,
        offset: usize,
        stride: usize,
        attr: AttrType,
        exact: bool,
    ) -> (r: Result<SliceBase, SliceError>)
        requires
            attr.valid(),
            base_addr + bytes <= usize::MAX,
        ensures
            r == Self::spec_new(base_addr, bytes, offset, stride, attr, exact),
            r matches Ok(b) ==> b.wf() && b.bytes == bytes && b.off == offset && b.stride == stride
                && b.attr == attr.size,
    {
        if attr.size > stride {
            Err(SliceError::AttributeLargerThanStride { attr: attr.size, stride })
        } else if offset > 0 && offset >= bytes {
            Err(SliceError::OffsetOutOfBounds { size: bytes, offset })
        } else if (base_addr + offset) % attr.align != 0 {
            Err(SliceError::AlignmentFault { offset, align: attr.align })
        } else if exact && bytes % stride != 0 {
            Err(SliceError::StrideMismatch { size: bytes, stride })
        } else {
            let tail: usize = (bytes - offset) % stride;
            if tail != 0 && attr.size > tail {
                Err(SliceError::AttributeLargerThanStride { attr: attr.size, stride: tail })
            } else {
                let b = SliceBase { off: offset, bytes, stride, attr: attr.size };
                proof {
                    lemma_validated_is_wf(b);
                }
                Ok(b)
            }
        }
    }

    /// Typed-path validator: the stride is `elt_size * elt_count`, the
    /// byte distance spanned by `elt_count` buffer elements of size
    /// `elt_size`.
    pub fn new_typed(
        base_addr: usize,
        bytes: usize,
        offset: usize,
        elt_size: usize,
        elt_count: usize,
        attr: AttrType,
    ) -> (r: Result<SliceBase, SliceError>)
        requires
            attr.valid(),
            base_addr + bytes <= usize::MAX,
            elt_size * elt_count <= usize::MAX,
        ensures
            r == Self::spec_new(base_addr, bytes, offset, (elt_size * elt_count) as usize, attr, false),
            r matches Ok(b) ==> b.wf() && b.bytes == bytes && b.off == offset
                && b.stride == elt_size * elt_count && b.attr == attr.size,
    {
        let stride: usize = elt_size * elt_count;
        Self::new(base_addr, bytes, offset, stride, attr, false)
    }

    /// Number of elements in the slice: `ceil((bytes - off) / stride)`,
    /// and `0` for an empty buffer viewed at offset `0`.
    pub fn len(&self) -> (r: usize)
        requires
            self.wf(),
        ensures
            r == self.spec_len(),
            r == spec_div_ceil(self.bytes - self.off, self.stride as int),
    {
        let n: usize = self.bytes - self.off;
        if n == 0 {
            proof {
                lemma_div_ceil_zero(self.stride as int);
            }
            0
        } else {
            proof {
                lemma_div_ceil_shift(n as int, self.stride as int);
                lemma_div_le(n - 1, self.stride as int);
            }
            (n - 1) / self.stride + 1
        }
    }

    /// `true` if the slice has 0 elements, `false` otherwise.
    pub fn is_empty(&self) -> (r: bool)
        requires
            self.wf(),
        ensures
            r <==> self.spec_len() == 0,
    {
        self.len() == 0
    }

    /// Slice stride, in bytes (not in element count).
    pub fn stride(&self) -> (r: usize)
        ensures
            r == self.stride,
    {
        self.stride
    }
}

/// `ceil(0 / d) == 0`.
proof fn lemma_div_ceil_zero(d: int)
    requires
        d >= 1,
    ensures
        spec_div_ceil(0, d) == 0,
{
    lemma_fundamental_div_mod_converse(d - 1, d, 0, d - 1);
}

/// For `n >= 1`, `ceil(n / d) == (n - 1) / d + 1`.
proof fn lemma_div_ceil_shift(n: int, d: int)
    requires
        n >= 1,
        d >= 1,
    ensures
        spec_div_ceil(n, d) == (n - 1) / d + 1,
{
    lemma_fundamental_div_mod(n - 1, d);
    lemma_mod_pos_bound(n - 1, d);
    let q: int = (n - 1) / d;
    let r: int = (n - 1) % d;
    assert(n + d - 1 == (q + 1) * d + r) by (nonlinear_arith)
        requires
            n - 1 == d * q + r,
    ;
    lemma_fundamental_div_mod_converse(n + d - 1, d, q + 1, r);
}

/// For `n >= 0` and `d >= 1`, `n / d <= n`.
proof fn lemma_div_le(n: int, d: int)
    requires
        n >= 0,
        d >= 1,
    ensures
        n / d <= n,
{
    lemma_fundamental_div_mod(n, d);
    lemma_mul_inequality(1, d, n / d);
    if n / d > n {
        lemma_mul_inequality(1, n / d, d);
    }
}

/// The two sides of the ceiling: with `n = bytes - off > 0` and
/// `q = ceil(n / stride)`, the last element starts before the buffer's
/// end and the whole buffer is covered by `q` strides.
pub proof fn lemma_len_bounds(b: SliceBase)
    requires
        b.stride >= 1,
        b.off <= b.bytes,
        b.spec_len() > 0,
    ensures
        (b.spec_len() - 1) * b.stride < b.bytes - b.off,
        b.bytes - b.off <= b.spec_len() * b.stride,
        b.off + (b.spec_len() - 1) * b.stride < b.bytes,
{
    let n: int = b.bytes - b.off;
    let d: int = b.stride as int;
    lemma_fundamental_div_mod(n + d - 1, d);
    lemma_mod_pos_bound(n + d - 1, d);
    let q: int = spec_div_ceil(n, d);
    let r: int = (n + d - 1) % d;
    assert((q - 1) * d < n <= q * d) by (nonlinear_arith)
        requires
            n + d - 1 == d * q + r,
            0 <= r < d,
    ;
}

/// A layout that passed every check of the validator is well-formed; in
/// particular every element it claims, the final one included, lies
/// entirely inside the buffer.
pub proof fn lemma_validated_is_wf(b: SliceBase)
    requires
        b.attr >= 1,
        b.attr <= b.stride,
        b.off == 0 || b.off < b.bytes,
        SliceBase::spec_tail(b.bytes, b.off, b.stride) == 0 || b.attr <= SliceBase::spec_tail(
            b.bytes,
            b.off,
            b.stride,
        ),
    ensures
        b.wf(),
{
    let n: int = b.bytes - b.off;
    let d: int = b.stride as int;
    let tail: int = SliceBase::spec_tail(b.bytes, b.off, b.stride);
    if b.spec_len() > 0 {
        let q = b.spec_len();
        lemma_fundamental_div_mod(n, d);
        assert(n == d * (n / d) + tail);
        if tail == 0 {
            // n is a whole number of strides: q == n / d, and the final
            // element's stride lies inside the buffer.
            assert(n + d - 1 == (n / d) * d + (d - 1)) by (nonlinear_arith)
                requires
                    n == d * (n / d),
            ;
            lemma_fundamental_div_mod_converse(n + d - 1, d, n / d, d - 1);
            assert(q == n / d);
            assert((q - 1) * d + b.attr <= n) by (nonlinear_arith)
                requires
                    n == d * q,
                    b.attr <= d,
            ;
        } else {
            // The final element starts at the last whole stride and the
            // attribute fits in the trailing `tail` bytes.
            lemma_mod_pos_bound(n, d);
            assert(n + d - 1 == (n / d + 1) * d + (tail - 1)) by (nonlinear_arith)
                requires
                    n == d * (n / d) + tail,
            ;
            lemma_fundamental_div_mod_converse(n + d - 1, d, n / d + 1, tail - 1);
            assert(q == n / d + 1);
            assert((q - 1) * d + b.attr <= n) by (nonlinear_arith)
                requires
                    n == d * (q - 1) + tail,
                    b.attr <= tail,
            ;
        }
    }
}

/// Every element of a well-formed view lies entirely inside the buffer:
/// element `i` occupies `[off + i * stride, off + i * stride + attr)`,
/// which is contained in `[0, bytes)`.
pub proof fn lemma_elem_in_bounds(b: SliceBase, i: int)
    requires
        b.wf(),
        0 <= i < b.spec_len(),
    ensures
        0 <= b.elem_start(i),
        b.elem_start(i) + b.attr <= b.bytes,
{
    lemma_mul_inequality(i, b.spec_len() - 1, b.stride as int);
    vstd::arithmetic::mul::lemma_mul_nonnegative(i, b.stride as int);
}

/// Alignment rejection: whenever the computed start address
/// `base_addr + offset` is not a multiple of the attribute's required
/// alignment, and the attribute and offset themselves are acceptable,
/// validation always fails with `AlignmentFault` — and, the result being
/// an error, constructs nothing.
pub proof fn lemma_alignment_rejection(
    base_addr: usize,
    bytes: usize,
    offset: usize,
    stride: usize,
    attr: AttrType,
    exact: bool,
)
    requires
        attr.size <= stride,
        offset == 0 || offset < bytes,
        (base_addr + offset) % (attr.align as int) != 0,
    ensures
        SliceBase::spec_new(base_addr, bytes, offset, stride, attr, exact) == Err::<
            SliceBase,
            SliceError,
        >(SliceError::AlignmentFault { offset, align: attr.align }),
{
}

/// A view is empty exactly when no byte lies between its offset and the
/// buffer's end; in particular an empty buffer viewed at offset 0 always
/// yields an empty view.
pub proof fn lemma_len_zero_iff_empty(b: SliceBase)
    requires
        b.stride >= 1,
        b.off <= b.bytes,
    ensures
        b.spec_len() == 0 <==> b.bytes == b.off,
{
    let n: int = b.bytes - b.off;
    let d: int = b.stride as int;
    if n == 0 {
        lemma_div_ceil_zero(d);
    } else {
        lemma_div_ceil_shift(n, d);
        vstd::arithmetic::div_mod::lemma_div_pos_is_pos(n - 1, d);
    }
}

} // verus!
